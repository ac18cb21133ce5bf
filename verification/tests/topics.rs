use robo_archiver::listing::{is_skipped_directory, is_skipped_file, same_text, SKIP_DIRS, SKIP_EXTS, SKIP_FILES};
use robo_archiver::text::{from_chars, is_numeric_char, to_chars};
use robo_archiver::topics::{load_topics, select_topics, TopicError, REQUIRED_TOPICS};

fn vocabulary() -> Vec<String> {
    load_topics("Agriculture\nBusiness\r\nGovernment\nLand\n")
}

#[test]
fn topics_stand_one_on_a_line() {
    assert_eq!(vocabulary(), vec!["Agriculture", "Business", "Government", "Land"]);
}

#[test]
fn lines_of_a_text() {
    assert_eq!(load_topics(""), Vec::<String>::new());
    assert_eq!(load_topics("\n"), vec![""]);
    assert_eq!(load_topics("a"), vec!["a"]);
    assert_eq!(load_topics("a\n\nb"), vec!["a", "", "b"]);
    assert_eq!(load_topics("a\r\n\r\nb\r"), vec!["a", "", "b\r"]);
    assert_eq!(load_topics("a\r\r\nb\rc\n"), vec!["a\r", "b\rc"]);
    let text = "a\r\n\r\nb\r\n\nc\rd\n\r";
    let lines: Vec<String> = text.lines().map(|l| l.to_string()).collect();
    assert_eq!(load_topics(text), lines);
}

#[test]
fn three_topics_are_accepted() {
    assert_eq!(REQUIRED_TOPICS, 3);
    assert_eq!(
        select_topics(&vocabulary(), &vec![3, 0, 2]),
        Ok(vec!["Land".to_string(), "Agriculture".to_string(), "Government".to_string()])
    );
    assert_eq!(
        select_topics(&vocabulary(), &vec![1, 1, 1]),
        Ok(vec!["Business".to_string(), "Business".to_string(), "Business".to_string()])
    );
}

#[test]
fn fewer_than_three_topics_are_not_enough() {
    assert_eq!(select_topics(&vocabulary(), &vec![]), Err(TopicError::NotEnough(0)));
    assert_eq!(select_topics(&vocabulary(), &vec![1, 9]), Err(TopicError::NotEnough(2)));
}

#[test]
fn more_than_three_topics_are_too_many() {
    assert_eq!(select_topics(&vocabulary(), &vec![0, 1, 2, 3]), Err(TopicError::TooMany(4)));
    assert_eq!(select_topics(&vocabulary(), &vec![9, 9, 9, 9, 9]), Err(TopicError::TooMany(5)));
}

#[test]
fn topics_that_the_vocabulary_lacks() {
    assert_eq!(select_topics(&vocabulary(), &vec![0, 4, 5]), Err(TopicError::NoSuchTopic(4)));
    assert_eq!(select_topics(&vec![], &vec![2, 1, 0]), Err(TopicError::NoSuchTopic(2)));
}

#[test]
fn what_the_operator_is_told() {
    assert_eq!(
        TopicError::NotEnough(2).message(),
        "You need to select at least 3 topics. You selected 2 Press [ENTER] to retry."
    );
    assert_eq!(
        TopicError::TooMany(12).message(),
        "You may select at most 3 topics. You selected 12. Press [ENTER] to retry."
    );
    assert_eq!(
        TopicError::NoSuchTopic(40).message(),
        "There is no topic number 40. Press [ENTER] to retry."
    );
}

#[test]
fn entries_that_are_passed_over() {
    assert_eq!(SKIP_DIRS, ["target", "__MACOSX"]);
    assert_eq!(SKIP_EXTS, ["rs", "toml"]);
    assert_eq!(SKIP_FILES, [".DS_Store"]);
    assert!(is_skipped_directory("target"));
    assert!(is_skipped_directory("__MACOSX"));
    assert!(!is_skipped_directory("Target"));
    assert!(!is_skipped_directory("scans"));
    assert!(!is_skipped_directory(""));
    assert!(is_skipped_file(".DS_Store", None));
    assert!(is_skipped_file("main.rs", Some("rs")));
    assert!(is_skipped_file("Cargo.toml", Some("toml")));
    assert!(!is_skipped_file("A_Gazette_1930.pdf", Some("pdf")));
    assert!(!is_skipped_file("rs", None));
    assert!(!is_skipped_file("notes.RS", Some("RS")));
}

#[test]
fn same_text_compares_character_by_character() {
    assert!(same_text("", ""));
    assert!(same_text("abc", "abc"));
    assert!(!same_text("abc", "abd"));
    assert!(!same_text("abc", "ab"));
    assert!(!same_text("\u{e9}", "e"));
}

#[test]
fn strings_and_their_characters() {
    assert_eq!(to_chars("a\u{e9}\u{4e09}"), vec!['a', '\u{e9}', '\u{4e09}']);
    assert_eq!(from_chars(&vec!['a', '\u{e9}', '\u{4e09}']), "a\u{e9}\u{4e09}");
    assert_eq!(from_chars(&vec![]), "");
}

#[test]
fn numeric_characters() {
    assert!(is_numeric_char('0'));
    assert!(is_numeric_char('7'));
    assert!(is_numeric_char('9'));
    assert!(is_numeric_char('\u{0663}'));
    assert!(is_numeric_char('\u{00be}'));
    assert!(is_numeric_char('\u{2460}'));
    assert!(!is_numeric_char('K'));
    assert!(!is_numeric_char('-'));
    assert!(!is_numeric_char('_'));
    assert!(!is_numeric_char('\u{e9}'));
    assert!(!is_numeric_char('\u{4e09}'));
    for c in '\0'..='\u{ffff}' {
        assert_eq!(is_numeric_char(c), c.is_numeric());
    }
}
