use robo_archiver::data::{
    CallNumber, ContributingInstitution, DigitalFormat, DigitizingInstitution, Issue,
    IssueFormatType, IssueNo, IssueType, MarcData, Periodical, PeriodicalCollection,
    RightsStatement,
};
use robo_archiver::save::{
    first_free_file_name, header_cells, next_file_name, periodical_rows, spreadsheet, COLUMNS,
    DEFAULT_FILE_NAME, HEADERS,
};

fn issue(title: &str, previous: Option<&str>, next: Option<&str>) -> Issue {
    Issue {
        node_title: title.to_string(),
        previous_issue: previous.map(|p| p.to_string()),
        next_issue: next.map(|n| n.to_string()),
        contributors: vec!["Ann Editor".to_string(), "Bob Writer".to_string()],
        volume_no: Some("12".to_string()),
        issue_no: Some(IssueNo::Number("3".to_string())),
        data_original: vec!["1930-12".to_string(), "1931-01".to_string()],
        date_range: vec!["1930s (1930-1939)".to_string(), "1930s (1930-1939)".to_string()],
        item_type: IssueType::Text,
        format_type: IssueFormatType::Periodical,
        languages: vec!["English".to_string(), "Spanish".to_string()],
        parent_collection: "A Gazette".to_string(),
        marc: MarcData {
            creators: vec!["John A. Smith".to_string(), "Jane Doe".to_string()],
            publisher: "Old Press".to_string(),
            subject_headings: vec!["Water rights--Arizona".to_string(), "Cattle".to_string()],
            call_number: CallNumber::Shelf("AZ CATTLELOG 1945-1976".to_string()),
            oclc_number: "000000004".to_string(),
        },
        rights_statement: RightsStatement("Free".to_string()),
        digital_format: DigitalFormat::PDF,
        digitizing_institution: DigitizingInstitution("Scanner".to_string()),
    }
}

fn periodical() -> Periodical {
    let mut second = issue("A Gazette, 1931-02", Some("A Gazette, 1930-12"), None);
    second.volume_no = None;
    second.issue_no = Some(IssueNo::Season("Summer".to_string()));
    second.marc.call_number = CallNumber::Periodical;
    second.digital_format = DigitalFormat::Other("tif".to_string());
    second.contributors = vec![];
    second.data_original = vec!["1931-02".to_string()];
    let mut third = issue("A Gazette, 1931-03", None, None);
    third.issue_no = None;
    Periodical {
        description: "A monthly for ranchers.".to_string(),
        collection: PeriodicalCollection("Collection".to_string()),
        contributing_institution: ContributingInstitution("Library".to_string()),
        issues: vec![issue("A Gazette, 1930-12", None, Some("A Gazette, 1931-02")), second, third],
        topics: vec!["Agriculture".to_string(), "Business".to_string(), "Land".to_string()],
    }
}

fn filled(cells: &[(usize, &str)]) -> Vec<String> {
    let mut row = vec![String::new(); 56];
    for (column, text) in cells {
        row[*column] = text.to_string();
    }
    row
}

#[test]
fn spreadsheet_has_fifty_six_columns() {
    assert_eq!(COLUMNS, 56);
    assert_eq!(HEADERS.len(), 56);
    assert_eq!(HEADERS[0], "NODE_TITLE");
    assert_eq!(HEADERS[5], "Previous Issue");
    assert_eq!(HEADERS[12], "Description");
    assert_eq!(HEADERS[22], "Rights Statement");
    assert_eq!(HEADERS[44], "Topic");
    assert_eq!(HEADERS[46], "Call Number");
    assert_eq!(HEADERS[48], "OCLC Number");
    assert_eq!(HEADERS[50], "Digital Format");
    assert_eq!(HEADERS[52], "Digitizing Institution");
    assert_eq!(HEADERS[55], "Admin Notes");
}

#[test]
fn first_row_of_a_periodical() {
    let rows = periodical_rows(&periodical());
    assert_eq!(rows.len(), 3);
    assert_eq!(
        rows[0].to_vec(),
        filled(&[
            (0, "A Gazette, 1930-12"),
            (6, "A Gazette, 1931-02"),
            (7, "John A. Smith|Jane Doe"),
            (8, "Ann Editor|Bob Writer"),
            (9, "Old Press"),
            (10, "12"),
            (11, "3"),
            (12, "A monthly for ranchers."),
            (13, "Water rights--Arizona|Cattle"),
            (14, "1930-12--1931-01"),
            (15, "1930s (1930-1939)|1930s (1930-1939)"),
            (16, "Text"),
            (17, "Periodical"),
            (18, "English|Spanish"),
            (19, "Library"),
            (20, "Collection"),
            (21, "A Gazette"),
            (22, "Free"),
            (44, "Agriculture|Business|Land"),
            (46, "AZ CATTLELOG 1945-1976"),
            (48, "000000004"),
            (50, "PDF"),
            (52, "Scanner"),
        ])
    );
}

#[test]
fn later_rows_of_a_periodical() {
    let rows: Vec<[String; 56]> = periodical().into();
    assert_eq!(
        rows[1].to_vec(),
        filled(&[
            (0, "A Gazette, 1931-02"),
            (5, "A Gazette, 1930-12"),
            (7, "John A. Smith|Jane Doe"),
            (9, "Old Press"),
            (11, "Summer"),
            (13, "Water rights--Arizona|Cattle"),
            (14, "1931-02"),
            (15, "1930s (1930-1939)|1930s (1930-1939)"),
            (16, "Text"),
            (17, "Periodical"),
            (18, "English|Spanish"),
            (19, "Library"),
            (20, "Collection"),
            (21, "A Gazette"),
            (22, "Free"),
            (46, "PERIODICAL"),
            (48, "000000004"),
            (50, "tif"),
            (52, "Scanner"),
        ])
    );
    assert_eq!(rows[2][11], "");
    assert_eq!(rows[2][12], "");
    assert_eq!(rows[2][44], "");
}

#[test]
fn periodical_without_issues_has_no_rows() {
    let mut empty = periodical();
    empty.issues.clear();
    assert!(periodical_rows(&empty).is_empty());
}

#[test]
fn spreadsheet_starts_with_the_headers() {
    assert_eq!(header_cells().to_vec(), HEADERS.to_vec());
    let rows = spreadsheet(&vec![]);
    assert_eq!(rows.len(), 1);
    assert_eq!(rows[0].to_vec(), HEADERS.to_vec());
}

#[test]
fn spreadsheet_holds_the_rows_of_each_periodical_in_order() {
    let mut other = periodical();
    other.issues.truncate(1);
    other.issues[0].node_title = "B Gazette, 1950".to_string();
    let mut empty = periodical();
    empty.issues.clear();
    let rows = spreadsheet(&vec![periodical(), empty, other]);
    let titles: Vec<&str> = rows.iter().map(|row| row[0].as_str()).collect();
    assert_eq!(
        titles,
        vec![
            "NODE_TITLE",
            "A Gazette, 1930-12",
            "A Gazette, 1931-02",
            "A Gazette, 1931-03",
            "B Gazette, 1950",
        ]
    );
    assert_eq!(rows[1].to_vec(), periodical_rows(&periodical())[0].to_vec());
    let descriptions: Vec<&str> = rows.iter().map(|row| row[12].as_str()).collect();
    assert_eq!(
        descriptions,
        vec!["Description", "A monthly for ranchers.", "", "", "A monthly for ranchers."]
    );
}

#[test]
fn institution_and_collection_stand_in_every_row() {
    let rows = periodical_rows(&periodical());
    for row in &rows {
        assert_eq!(row[19], "Library");
        assert_eq!(row[20], "Collection");
    }
}

#[test]
fn taken_name_gets_a_number_before_its_extension() {
    assert_eq!(DEFAULT_FILE_NAME, "archive.csv");
    assert_eq!(next_file_name("archive.csv", 1), Some("archive (1).csv".to_string()));
    assert_eq!(next_file_name("archive.csv", 2), Some("archive (2).csv".to_string()));
    assert_eq!(next_file_name("archive.csv", 10), Some("archive (10).csv".to_string()));
    assert_eq!(next_file_name("out.txt", 1), Some("out (1).txt".to_string()));
    assert_eq!(next_file_name("out.tar.gz", 3), Some("out.tar (3).gz".to_string()));
    assert_eq!(next_file_name(".csv", 7), Some(" (7).csv".to_string()));
    assert_eq!(next_file_name("archive.", 7), Some("archive (7).".to_string()));
    assert_eq!(
        next_file_name("archive.csv", u32::MAX),
        Some("archive (4294967295).csv".to_string())
    );
}

#[test]
fn numbered_name_gets_one_more_number() {
    assert_eq!(next_file_name("archive (1).csv", 2), Some("archive (1) (2).csv".to_string()));
    assert_eq!(next_file_name("a (x).csv", 1), Some("a (x) (1).csv".to_string()));
    assert_eq!(next_file_name("a (1.csv", 1), Some("a (1 (1).csv".to_string()));
}

#[test]
fn name_without_extension_cannot_be_numbered() {
    assert_eq!(next_file_name("archive", 1), None);
    assert_eq!(next_file_name("", 1), None);
    assert_eq!(first_free_file_name("archive", &vec![]), None);
    assert_eq!(first_free_file_name("archive", &vec!["archive".to_string()]), None);
}

#[test]
fn free_name_has_the_least_number_that_is_not_taken() {
    let taken = |names: &[&str]| names.iter().map(|n| n.to_string()).collect::<Vec<String>>();
    assert_eq!(
        first_free_file_name("archive.csv", &taken(&[])),
        Some("archive (1).csv".to_string())
    );
    assert_eq!(
        first_free_file_name("archive.csv", &taken(&["archive.csv"])),
        Some("archive (1).csv".to_string())
    );
    assert_eq!(
        first_free_file_name(
            "archive.csv",
            &taken(&["archive (2).csv", "archive.csv", "archive (1).csv", "archive (4).csv"])
        ),
        Some("archive (3).csv".to_string())
    );
    assert_eq!(
        first_free_file_name("out.txt", &taken(&["out (1).txt", "out (1).csv", "out (2).csv"])),
        Some("out (2).txt".to_string())
    );
    assert_eq!(
        first_free_file_name(
            "a.b",
            &taken(&["a (1).b", "a (2).b", "a (3).b", "a (1).b", "a (01).b"])
        ),
        Some("a (4).b".to_string())
    );
    let many: Vec<String> = (1..=12).map(|n| format!("archive ({}).csv", n)).collect();
    assert_eq!(first_free_file_name("archive.csv", &many), Some("archive (13).csv".to_string()));
}
