use robo_archiver::data::{
    CallNumber, ContributingInstitution, DigitalFormat, DigitizingInstitution, Issue,
    IssueFormatType, IssueType, MarcData, Periodical, PeriodicalCollection, RightsStatement,
    AZ_CONTRIBUTING_INSTITUION, AZ_PERIDICAL_COLLECTION, AZ_RIGHTS_STATEMENT,
    FAMILY_SEARCH_DIGITIZING_INSTITUION,
};
use robo_archiver::files::{process_files, FileEntry, IssueFileData};
use robo_archiver::periodicals::{assemble_periodical, process_periodicals, PeriodicalInput};

fn marc() -> MarcData {
    MarcData {
        creators: vec!["Arizona Cattle Growers' Association".to_string()],
        publisher: "Arizona Cattle Growers' Association".to_string(),
        subject_headings: vec!["Cattle--Arizona--Periodicals".to_string()],
        call_number: CallNumber::Periodical,
        oclc_number: "001481631".to_string(),
    }
}

fn file(title: &str, date: &str, range: &str) -> IssueFileData {
    IssueFileData {
        node_title: title.to_string(),
        date_original: date.to_string(),
        date_range: range.to_string(),
        format: DigitalFormat::PDF,
    }
}

fn input(issues: Vec<IssueFileData>) -> PeriodicalInput {
    PeriodicalInput {
        issues,
        marc: marc(),
        description: "A monthly for ranchers.".to_string(),
        topics: vec!["Agriculture".to_string(), "Business".to_string(), "Land".to_string()],
    }
}

fn assemble(issues: Vec<IssueFileData>) -> Periodical {
    assemble_periodical(
        input(issues),
        &vec!["English".to_string()],
        &DigitizingInstitution::default(),
        &RightsStatement::default(),
        &PeriodicalCollection::default(),
        &ContributingInstitution::default(),
    )
}

#[test]
fn defaults_of_the_shared_data() {
    assert_eq!(DigitizingInstitution::default().0, FAMILY_SEARCH_DIGITIZING_INSTITUION);
    assert_eq!(DigitizingInstitution::default().0, "FamilySearch International");
    assert_eq!(ContributingInstitution::default().0, AZ_CONTRIBUTING_INSTITUION);
    assert_eq!(PeriodicalCollection::default().0, AZ_PERIDICAL_COLLECTION);
    assert_eq!(
        PeriodicalCollection::default().0,
        "Arizona Collection|Arizona Periodicals and Magazines"
    );
    assert_eq!(RightsStatement::default().0, AZ_RIGHTS_STATEMENT);
    assert_eq!(
        DigitizingInstitution::from("Elsewhere".to_string()),
        DigitizingInstitution("Elsewhere".to_string())
    );
    assert_eq!(RightsStatement::from("None".to_string()).to_text(), "None");
}

#[test]
fn issues_are_linked_to_their_neighbours() {
    let periodical = assemble(vec![
        file("A Gazette", "1930-01", "1930s (1930-1939)"),
        file("A Gazette", "1930-02", "1930s (1930-1939)"),
        file("A Gazette", "1940-12", "1940s (1940-1949)"),
    ]);
    let links: Vec<(Option<&str>, &str, Option<&str>)> = periodical
        .issues
        .iter()
        .map(|i| (i.previous_issue.as_deref(), i.node_title.as_str(), i.next_issue.as_deref()))
        .collect();
    assert_eq!(
        links,
        vec![
            (None, "A Gazette, 1930-01", Some("A Gazette, 1930-02")),
            (Some("A Gazette, 1930-01"), "A Gazette, 1930-02", Some("A Gazette, 1940-12")),
            (Some("A Gazette, 1930-02"), "A Gazette, 1940-12", None),
        ]
    );
}

#[test]
fn one_issue_in_full() {
    let periodical = assemble(vec![file("A Gazette", "1930-01", "1930s (1930-1939)")]);
    assert_eq!(
        periodical,
        Periodical {
            description: "A monthly for ranchers.".to_string(),
            collection: PeriodicalCollection::default(),
            contributing_institution: ContributingInstitution::default(),
            issues: vec![Issue {
                node_title: "A Gazette, 1930-01".to_string(),
                previous_issue: None,
                next_issue: None,
                contributors: vec![],
                volume_no: None,
                issue_no: None,
                data_original: vec!["1930-01".to_string()],
                date_range: vec!["1930s (1930-1939)".to_string()],
                item_type: IssueType::Text,
                format_type: IssueFormatType::Periodical,
                languages: vec!["English".to_string()],
                parent_collection: "A Gazette".to_string(),
                marc: marc(),
                rights_statement: RightsStatement::default(),
                digital_format: DigitalFormat::PDF,
                digitizing_institution: DigitizingInstitution::default(),
            }],
            topics: vec!["Agriculture".to_string(), "Business".to_string(), "Land".to_string()],
        }
    );
}

#[test]
fn periodical_without_issues() {
    let periodical = assemble(vec![]);
    assert!(periodical.issues.is_empty());
    assert_eq!(periodical.description, "A monthly for ranchers.");
}

#[test]
fn periodicals_keep_the_order_of_their_inputs() {
    let groups = process_files(vec![
        FileEntry { path: "b".to_string(), file_name: "Zebra_1950.pdf".to_string() },
        FileEntry { path: "a".to_string(), file_name: "Apple_1940-02.tif".to_string() },
        FileEntry { path: "c".to_string(), file_name: "Zebra_1949.pdf".to_string() },
    ])
    .unwrap();
    let periodicals = process_periodicals(
        groups.into_iter().map(input).collect(),
        vec!["English".to_string(), "Spanish".to_string()],
        DigitizingInstitution("Scanner".to_string()),
        RightsStatement("Free".to_string()),
        PeriodicalCollection("Collection".to_string()),
        ContributingInstitution("Library".to_string()),
    )
    .unwrap();
    assert_eq!(periodicals.len(), 2);
    let titles: Vec<Vec<&str>> = periodicals
        .iter()
        .map(|p| p.issues.iter().map(|i| i.node_title.as_str()).collect())
        .collect();
    assert_eq!(titles, vec![vec!["Zebra, 1949", "Zebra, 1950"], vec!["Apple, 1940-02"]]);
    let apple = &periodicals[1].issues[0];
    assert_eq!(apple.parent_collection, "Apple");
    assert_eq!(apple.digital_format, DigitalFormat::Other("tif".to_string()));
    assert_eq!(apple.languages, vec!["English", "Spanish"]);
    assert_eq!(apple.digitizing_institution, DigitizingInstitution("Scanner".to_string()));
    assert_eq!(apple.rights_statement, RightsStatement("Free".to_string()));
    assert_eq!(periodicals[1].collection, PeriodicalCollection("Collection".to_string()));
    assert_eq!(
        periodicals[1].contributing_institution,
        ContributingInstitution("Library".to_string())
    );
}
