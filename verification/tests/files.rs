use robo_archiver::data::DigitalFormat;
use robo_archiver::files::{
    data_to_date_range, extract_data_from_file_name, process_files, FileEntry, IssueFileData,
};
use robo_archiver::ArchiveError;

fn entry(name: &str) -> FileEntry {
    FileEntry { path: format!("scans/{}", name), file_name: name.to_string() }
}

#[test]
fn date_range_of_year_month() {
    assert_eq!(data_to_date_range("1967-04"), Ok("1960s (1960-1969)".to_string()));
}

#[test]
fn date_range_of_year_month_day() {
    assert_eq!(data_to_date_range("1967-04-22"), Ok("1960s (1960-1969)".to_string()));
}

#[test]
fn date_range_of_year_alone() {
    assert_eq!(data_to_date_range("1845"), Ok("1840s (1840-1849)".to_string()));
    assert_eq!(data_to_date_range("1930"), Ok("1930s (1930-1939)".to_string()));
    assert_eq!(data_to_date_range("2009"), Ok("2000s (2000-2009)".to_string()));
}

#[test]
fn date_range_of_small_and_large_years() {
    assert_eq!(data_to_date_range("7"), Ok("0s (0-9)".to_string()));
    assert_eq!(data_to_date_range("0007"), Ok("0s (0-9)".to_string()));
    assert_eq!(data_to_date_range("+1967"), Ok("1960s (1960-1969)".to_string()));
    assert_eq!(
        data_to_date_range("2147483647"),
        Ok("2147483640s (2147483640-2147483649)".to_string())
    );
}

#[test]
fn date_range_ignores_month_and_day() {
    assert_eq!(data_to_date_range("1967-99-99"), Ok("1960s (1960-1969)".to_string()));
    assert_eq!(data_to_date_range("1967-"), Ok("1960s (1960-1969)".to_string()));
}

#[test]
fn date_range_refuses_what_is_no_year() {
    assert_eq!(data_to_date_range(""), Err(ArchiveError::UnparseableDate("".to_string())));
    assert_eq!(data_to_date_range("abc"), Err(ArchiveError::UnparseableDate("abc".to_string())));
    assert_eq!(
        data_to_date_range("-1967"),
        Err(ArchiveError::UnparseableDate("-1967".to_string()))
    );
    assert_eq!(data_to_date_range("19a7"), Err(ArchiveError::UnparseableDate("19a7".to_string())));
    assert_eq!(data_to_date_range("+"), Err(ArchiveError::UnparseableDate("+".to_string())));
    assert_eq!(
        data_to_date_range("2147483648"),
        Err(ArchiveError::UnparseableDate("2147483648".to_string()))
    );
}

#[test]
fn file_name_gives_title_date_range_and_format() {
    let data = extract_data_from_file_name(&entry("An_Arizona_Desert-ation_1967-04.pdf")).unwrap();
    assert_eq!(
        data,
        IssueFileData {
            node_title: "An Arizona Desert-ation".to_string(),
            date_original: "1967-04".to_string(),
            date_range: "1960s (1960-1969)".to_string(),
            format: DigitalFormat::PDF,
        }
    );
    assert_eq!(data.node_title_with_date(), "An Arizona Desert-ation, 1967-04");
}

#[test]
fn file_name_without_title_is_unparseable() {
    assert_eq!(
        extract_data_from_file_name(&entry("1967-04.pdf")),
        Err(ArchiveError::UnparseableFileName("scans/1967-04.pdf".to_string()))
    );
}

#[test]
fn file_name_without_date_is_unparseable() {
    assert_eq!(
        extract_data_from_file_name(&entry("NoDate.pdf")),
        Err(ArchiveError::UnparseableFileName("scans/NoDate.pdf".to_string()))
    );
}

#[test]
fn file_name_of_underscores_and_date_is_unparseable() {
    assert_eq!(
        extract_data_from_file_name(&entry("___1967.pdf")),
        Err(ArchiveError::UnparseableFileName("scans/___1967.pdf".to_string()))
    );
}

#[test]
fn file_name_without_extension_is_unparseable() {
    assert_eq!(
        extract_data_from_file_name(&entry("A_Gazette_1930-01")),
        Err(ArchiveError::UnparseableFileName("scans/A_Gazette_1930-01".to_string()))
    );
}

#[test]
fn file_name_with_hyphens_for_a_date_has_no_year() {
    assert_eq!(
        extract_data_from_file_name(&entry("Title_--.pdf")),
        Err(ArchiveError::UnparseableDate("--".to_string()))
    );
    assert_eq!(
        extract_data_from_file_name(&entry("Title-1967.pdf")),
        Err(ArchiveError::UnparseableDate("-1967".to_string()))
    );
}

#[test]
fn file_name_keeps_the_extension_of_other_formats() {
    let data = extract_data_from_file_name(&entry("A_Gazette_1930.TIFF")).unwrap();
    assert_eq!(data.format, DigitalFormat::Other("TIFF".to_string()));
    let data = extract_data_from_file_name(&entry("A_Gazette_1930.PdF")).unwrap();
    assert_eq!(data.format, DigitalFormat::PDF);
    let data = extract_data_from_file_name(&entry("A.B_Gazette_1930.tar.gz")).unwrap_err();
    assert_eq!(data, ArchiveError::UnparseableFileName("scans/A.B_Gazette_1930.tar.gz".to_string()));
}

#[test]
fn file_name_date_may_hold_other_numeric_characters() {
    let data = extract_data_from_file_name(&entry("Gazette_1930\u{0663}.pdf"));
    assert_eq!(data, Err(ArchiveError::UnparseableDate("1930\u{0663}".to_string())));
}

#[test]
fn digital_format_from_extension() {
    assert_eq!(DigitalFormat::from("pdf"), DigitalFormat::PDF);
    assert_eq!(DigitalFormat::from("PDF"), DigitalFormat::PDF);
    assert_eq!(DigitalFormat::from("Pdf".to_string()), DigitalFormat::PDF);
    assert_eq!(DigitalFormat::from("jpg"), DigitalFormat::Other("jpg".to_string()));
    assert_eq!(DigitalFormat::from("pdfx".to_string()), DigitalFormat::Other("pdfx".to_string()));
    assert_eq!(DigitalFormat::from(""), DigitalFormat::Other("".to_string()));
}

#[test]
fn two_issues_of_one_gazette() {
    let groups =
        process_files(vec![entry("A_Gazette_1930-12.pdf"), entry("A_Gazette_1930-01.pdf")])
            .unwrap();
    assert_eq!(groups.len(), 1);
    assert_eq!(groups[0].len(), 2);
    assert_eq!(groups[0][0].node_title, "A Gazette");
    assert_eq!(groups[0][0].date_original, "1930-01");
    assert_eq!(groups[0][1].date_original, "1930-12");
    assert_eq!(groups[0][0].date_range, "1930s (1930-1939)");
    assert_eq!(groups[0][1].date_range, "1930s (1930-1939)");
}

#[test]
fn groups_stand_in_the_order_of_first_occurrence() {
    let groups = process_files(vec![
        entry("Zebra_1950.pdf"),
        entry("Apple_1940-02.pdf"),
        entry("Zebra_1949.pdf"),
        entry("Mango_1900.pdf"),
        entry("Apple_1940-01.pdf"),
    ])
    .unwrap();
    let titles: Vec<&str> = groups.iter().map(|g| g[0].node_title.as_str()).collect();
    assert_eq!(titles, vec!["Zebra", "Apple", "Mango"]);
    let dates: Vec<Vec<&str>> =
        groups.iter().map(|g| g.iter().map(|i| i.date_original.as_str()).collect()).collect();
    assert_eq!(dates, vec![vec!["1949", "1950"], vec!["1940-01", "1940-02"], vec!["1900"]]);
}

#[test]
fn issues_of_one_date_keep_their_order() {
    let groups = process_files(vec![
        entry("Gazette_1930.tiff"),
        entry("Gazette_1929.pdf"),
        entry("Gazette_1930.pdf"),
        entry("Gazette_1930.jpg"),
    ])
    .unwrap();
    let formats: Vec<&DigitalFormat> = groups[0].iter().map(|i| &i.format).collect();
    assert_eq!(
        formats,
        vec![
            &DigitalFormat::PDF,
            &DigitalFormat::Other("tiff".to_string()),
            &DigitalFormat::PDF,
            &DigitalFormat::Other("jpg".to_string()),
        ]
    );
}

#[test]
fn dates_of_mixed_width_sort_as_strings() {
    let groups = process_files(vec![
        entry("Gazette_1930-01.pdf"),
        entry("Gazette_1930.pdf"),
        entry("Gazette_193.pdf"),
        entry("Gazette_1930-01-15.pdf"),
        entry("Gazette_20.pdf"),
    ])
    .unwrap();
    let dates: Vec<&str> = groups[0].iter().map(|i| i.date_original.as_str()).collect();
    assert_eq!(dates, vec!["193", "1930", "1930-01", "1930-01-15", "20"]);
}

#[test]
fn first_unparseable_file_ends_the_run() {
    assert_eq!(
        process_files(vec![entry("Gazette_1930.pdf"), entry("NoDate.pdf"), entry("1967.pdf")]),
        Err(ArchiveError::UnparseableFileName("scans/NoDate.pdf".to_string()))
    );
}

#[test]
fn no_files_no_periodicals() {
    assert_eq!(process_files(vec![]), Ok(vec![]));
}

#[test]
fn error_messages() {
    assert_eq!(
        ArchiveError::UnparseableFileName("a/b.pdf".to_string()).message(),
        "Unparseable file name: a/b.pdf"
    );
    assert_eq!(ArchiveError::Unimplemented.message(), "Unimplemented");
    assert_eq!(ArchiveError::Io("disk full".to_string()).message(), "I/O error: disk full");
    assert_eq!(ArchiveError::UnparseableDate("--".to_string()).message(), "Unparseable date: --");
    assert_eq!(ArchiveError::MissingIdentifier.message(), "No OCLC number found.");
}
