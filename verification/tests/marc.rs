use robo_archiver::data::{CallNumber, MarcData};
use robo_archiver::marc::{
    classify, is_grammatical_punctuation, parse_marc, tokenize, tokenize_line, FieldKind, Record,
    Subfield,
};
use robo_archiver::ArchiveError;

fn lines(text: &[&str]) -> Vec<String> {
    text.iter().map(|l| l.to_string()).collect()
}

fn sub(code: char, value: &str) -> Subfield {
    Subfield { code, value: value.to_string() }
}

fn record(tag: &str, subfields: Vec<Subfield>) -> Record {
    Record { tag: tag.to_string(), ind: "  ".to_string(), subfields }
}

fn control_number() -> Record {
    record("001", vec![sub('_', "ocn893691141")])
}

fn fold(records: Vec<Record>) -> MarcData {
    MarcData::try_from_records(CallNumber::Periodical, records).unwrap()
}

#[test]
fn grammatical_punctuation_is_four_characters() {
    assert!(is_grammatical_punctuation('.'));
    assert!(is_grammatical_punctuation(','));
    assert!(is_grammatical_punctuation(' '));
    assert!(is_grammatical_punctuation(';'));
    assert!(!is_grammatical_punctuation(':'));
    assert!(!is_grammatical_punctuation('-'));
    assert!(!is_grammatical_punctuation('a'));
    assert!(!is_grammatical_punctuation('\t'));
}

#[test]
fn tags_and_what_they_tell() {
    assert_eq!(classify("700"), FieldKind::PersonalName);
    assert_eq!(classify("100"), FieldKind::Creator);
    assert_eq!(classify("110"), FieldKind::Creator);
    assert_eq!(classify("710"), FieldKind::Creator);
    assert_eq!(classify("260"), FieldKind::Publisher);
    assert_eq!(classify("264"), FieldKind::Publisher);
    assert_eq!(classify("610"), FieldKind::Subject);
    assert_eq!(classify("650"), FieldKind::Subject);
    assert_eq!(classify("001"), FieldKind::ControlNumber);
    assert_eq!(classify("003"), FieldKind::ControlNumber);
    assert_eq!(classify("245"), FieldKind::Other);
    assert_eq!(classify("7000"), FieldKind::Other);
    assert_eq!(classify("70"), FieldKind::Other);
    assert_eq!(classify(""), FieldKind::Other);
}

#[test]
fn line_with_subfields() {
    assert_eq!(
        tokenize_line("650\t 0\t$aWater rights$zArizona."),
        Some(Record {
            tag: "650".to_string(),
            ind: " 0".to_string(),
            subfields: vec![sub('a', "Water rights"), sub('z', "Arizona.")],
        })
    );
}

#[test]
fn line_without_subfield_markup_is_one_sentinel_subfield() {
    assert_eq!(
        tokenize_line("001\t\tocn893691141"),
        Some(Record {
            tag: "001".to_string(),
            ind: "".to_string(),
            subfields: vec![sub('_', "ocn893691141")],
        })
    );
    assert_eq!(
        tokenize_line("003\t\t"),
        Some(Record { tag: "003".to_string(), ind: "".to_string(), subfields: vec![sub('_', "")] })
    );
}

#[test]
fn text_before_the_first_dollar_is_dropped() {
    assert_eq!(
        tokenize_line("245\t10\tnoise$aTitle$b"),
        Some(Record {
            tag: "245".to_string(),
            ind: "10".to_string(),
            subfields: vec![sub('a', "Title"), sub('b', "")],
        })
    );
}

#[test]
fn subfield_code_may_be_any_character() {
    assert_eq!(
        tokenize_line("245\t10\t$\u{e9}t\u{e9}$6"),
        Some(Record {
            tag: "245".to_string(),
            ind: "10".to_string(),
            subfields: vec![sub('\u{e9}', "t\u{e9}"), sub('6', "")],
        })
    );
}

#[test]
fn dollars_that_mark_nothing_leave_the_sentinel() {
    assert_eq!(
        tokenize_line("500\t  \t$$"),
        Some(Record {
            tag: "500".to_string(),
            ind: "  ".to_string(),
            subfields: vec![sub('_', "$$")],
        })
    );
}

#[test]
fn lines_with_other_than_three_columns_are_passed_over() {
    assert_eq!(tokenize_line(""), None);
    assert_eq!(tokenize_line("650 0 $aWater rights"), None);
    assert_eq!(tokenize_line("650\t$aWater rights"), None);
    assert_eq!(tokenize_line("650\t 0\t$aWater\trights"), None);
    let records = tokenize(&lines(&[
        "",
        "LEADER 00000cas a2200000 a 4500",
        "001\t\tocn893691141",
        "not\ta\tfield\tat all",
        "650\t 0\t$aWater rights$zArizona.",
    ]));
    assert_eq!(records.len(), 2);
    assert_eq!(records[0].tag, "001");
    assert_eq!(records[1].tag, "650");
}

#[test]
fn personal_name_is_turned_first_name_first() {
    let data = fold(vec![control_number(), record("700", vec![sub('a', "Smith, John A.")])]);
    assert_eq!(data.creators, vec!["John A. Smith"]);
}

#[test]
fn personal_name_with_trailing_punctuation() {
    let data = fold(vec![
        control_number(),
        record("700", vec![sub('a', "Smith, John,"), sub('d', "1900-1980."), sub('a', "Doe, Jane")]),
    ]);
    assert_eq!(data.creators, vec!["John, Smith", "Jane Doe"]);
}

#[test]
fn personal_name_with_no_or_two_commas_stays() {
    let data = fold(vec![
        control_number(),
        record(
            "700",
            vec![
                sub('a', "Cher."),
                sub('a', "Smith, John, Jr.;"),
                sub('a', "Smith,John"),
                sub('a', ", "),
                sub('a', "Smith, "),
            ],
        ),
    ]);
    assert_eq!(data.creators, vec!["Cher", "Smith, John, Jr", "Smith,John", "", " Smith"]);
}

#[test]
fn corporate_creators_are_only_trimmed() {
    let data = fold(vec![
        record("110", vec![sub('a', "Arizona Cattle Growers' Association, ."), sub('b', "Board")]),
        control_number(),
        record("100", vec![sub('a', "Smith, John A.,")]),
        record("710", vec![sub('a', "Salt River Project ; ")]),
    ]);
    assert_eq!(
        data.creators,
        vec!["Arizona Cattle Growers' Association", "Smith, John A", "Salt River Project"]
    );
}

#[test]
fn last_publication_statement_names_the_publisher() {
    let data = fold(vec![
        control_number(),
        record("260", vec![sub('a', "Phoenix :"), sub('b', "Old Press,"), sub('c', "1930.")]),
        record("264", vec![sub('a', "Tucson :"), sub('b', "New Press,"), sub('b', "Inc.,")]),
    ]);
    assert_eq!(data.publisher, "New Press Inc");
}

#[test]
fn publication_statement_without_publisher_clears_it() {
    let data = fold(vec![
        control_number(),
        record("260", vec![sub('b', "Old Press,")]),
        record("264", vec![sub('a', "Tucson")]),
    ]);
    assert_eq!(data.publisher, "");
}

#[test]
fn publisher_names_are_trimmed_before_and_after_joining() {
    let data = fold(vec![
        control_number(),
        record("260", vec![sub('b', "A. B.,"), sub('b', " ; "), sub('b', "C.")]),
    ]);
    assert_eq!(data.publisher, "A. B  C");
    let data = fold(vec![control_number(), record("260", vec![sub('b', "A,"), sub('b', ".")])]);
    assert_eq!(data.publisher, "A");
}

#[test]
fn subject_heading_with_place() {
    let data = fold(vec![
        control_number(),
        record("650", vec![sub('a', "Water rights"), sub('z', "Arizona")]),
    ]);
    assert_eq!(data.subject_headings, vec!["Water rights--Arizona"]);
}

#[test]
fn subject_heading_parts() {
    let data = fold(vec![
        control_number(),
        record("650", vec![sub('a', "Mexico"), sub('x', "Economic conditions ")]),
        record(
            "610",
            vec![
                sub('a', "Salt River Project"),
                sub('d', "1903-"),
                sub('2', "fast"),
                sub('v', "Periodicals."),
            ],
        ),
        record("650", vec![sub('0', "(OCoLC)fst01171938")]),
        record("650", vec![sub('z', "Arizona"), sub('a', "History.;, ")]),
    ]);
    assert_eq!(
        data.subject_headings,
        vec![
            "Mexico--Economic conditions",
            "Salt River Project, 1903---Periodicals",
            "",
            "--ArizonaHistory",
        ]
    );
}

#[test]
fn control_number_without_letters() {
    let data = fold(vec![record("001", vec![sub('_', "ocn893691141")])]);
    assert_eq!(data.oclc_number, "893691141");
}

#[test]
fn control_number_is_padded_to_nine() {
    let data = fold(vec![record("001", vec![sub('_', "4")])]);
    assert_eq!(data.oclc_number, "000000004");
    let data = fold(vec![record("003", vec![sub('_', "ocm")])]);
    assert_eq!(data.oclc_number, "000000000");
    let data = fold(vec![record("003", vec![sub('_', "on1234567890 ")])]);
    assert_eq!(data.oclc_number, "1234567890 ");
    let data = fold(vec![record("003", vec![sub('_', "x12y3")])]);
    assert_eq!(data.oclc_number, "0000012y3");
}

#[test]
fn first_control_number_wins() {
    let data = fold(vec![
        record("003", vec![sub('a', "OCoLC")]),
        record("003", vec![]),
        record("001", vec![sub('_', "12"), sub('_', "13")]),
        record("003", vec![sub('_', "99")]),
    ]);
    assert_eq!(data.oclc_number, "000000012");
}

#[test]
fn record_without_control_number_is_refused() {
    assert_eq!(
        MarcData::try_from_records(
            CallNumber::Periodical,
            vec![record("650", vec![sub('a', "Water rights")])]
        ),
        Err(ArchiveError::MissingIdentifier)
    );
    assert_eq!(
        MarcData::try_from_records(CallNumber::Periodical, vec![]),
        Err(ArchiveError::MissingIdentifier)
    );
    assert_eq!(
        parse_marc(CallNumber::Periodical, lines(&["650\t 0\t$aWater rights$zArizona."])),
        Err(ArchiveError::MissingIdentifier)
    );
    assert_eq!(
        parse_marc(CallNumber::Periodical, lines(&["003\t\t$aOCoLC"])),
        Err(ArchiveError::MissingIdentifier)
    );
}

#[test]
fn unknown_tags_are_ignored() {
    let data = fold(vec![
        control_number(),
        record("245", vec![sub('a', "Arizona cattlelog.")]),
        record("7000", vec![sub('a', "Smith, John")]),
    ]);
    assert_eq!(
        data,
        MarcData {
            creators: vec![],
            publisher: "".to_string(),
            subject_headings: vec![],
            call_number: CallNumber::Periodical,
            oclc_number: "893691141".to_string(),
        }
    );
}

#[test]
fn whole_record() {
    let data = parse_marc(
        CallNumber::Shelf("AZ CATTLELOG 1945-1976".to_string()),
        lines(&[
            "LDR\t00000cas a2200000 a 4500",
            "001\t\tocm01481631 ",
            "003\t\tOCoLC",
            "110\t2 \t$aArizona Cattle Growers' Association.",
            "245\t10\t$aArizona cattlelog.",
            "260\t  \t$aPhoenix, Ariz. :$bArizona Cattle Growers' Association,$c1945-",
            "650\t 0\t$aCattle$zArizona$vPeriodicals.",
            "650\t 0\t$aRanching$zArizona$vPeriodicals.",
            "700\t1 \t$aSmith, John A.",
            "",
        ]),
    )
    .unwrap();
    assert_eq!(
        data,
        MarcData {
            creators: vec![
                "Arizona Cattle Growers' Association".to_string(),
                "John A. Smith".to_string(),
            ],
            publisher: "Arizona Cattle Growers' Association".to_string(),
            subject_headings: vec![
                "Cattle--Arizona--Periodicals".to_string(),
                "Ranching--Arizona--Periodicals".to_string(),
            ],
            call_number: CallNumber::Shelf("AZ CATTLELOG 1945-1976".to_string()),
            oclc_number: "01481631 ".to_string(),
        }
    );
}
