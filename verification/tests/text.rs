use robo_archiver::files::{extract_data_from_file_name, FileEntry};
use robo_archiver::text::{
    append_chars, find_first, find_last, is_less, join_strings, push_decimal, split_chars,
};

fn chars(s: &str) -> Vec<char> {
    s.chars().collect()
}

fn pieces(s: &str, sep: char) -> Vec<String> {
    split_chars(&chars(s), sep).iter().map(|p| p.iter().collect()).collect()
}

#[test]
fn pieces_between_separators() {
    assert_eq!(pieces("a\tb\tc", '\t'), vec!["a", "b", "c"]);
    assert_eq!(pieces("", '\t'), vec![""]);
    assert_eq!(pieces("abc", '$'), vec!["abc"]);
    assert_eq!(pieces("$a$$b$", '$'), vec!["", "a", "", "b", ""]);
    let text = "650\t 0\t$aWater rights$zArizona.";
    let expected: Vec<String> = text.split('$').map(|p| p.to_string()).collect();
    assert_eq!(pieces(text, '$'), expected);
}

#[test]
fn strings_joined_by_a_separator() {
    let list = |items: &[&str]| items.iter().map(|i| i.to_string()).collect::<Vec<String>>();
    assert_eq!(join_strings(&list(&[]), "|"), "");
    assert_eq!(join_strings(&list(&["a"]), "|"), "a");
    assert_eq!(join_strings(&list(&["a", "", "b"]), "|"), "a||b");
    assert_eq!(join_strings(&list(&["1930", "1931"]), "--"), "1930--1931");
    assert_eq!(join_strings(&list(&["", ""]), " "), " ");
}

#[test]
fn first_and_last_index_of_a_character() {
    assert_eq!(find_first(&chars("1967-04-22"), '-'), 4);
    assert_eq!(find_first(&chars("1967"), '-'), 4);
    assert_eq!(find_first(&chars(""), '-'), 0);
    assert_eq!(find_last(&chars("a.b.c"), '.'), Some(3));
    assert_eq!(find_last(&chars(".abc"), '.'), Some(0));
    assert_eq!(find_last(&chars("abc"), '.'), None);
}

#[test]
fn order_of_strings() {
    let less = |a: &str, b: &str| is_less(&chars(a), &chars(b));
    assert!(less("1930-01", "1930-12"));
    assert!(!less("1930-12", "1930-01"));
    assert!(!less("1930", "1930"));
    assert!(less("1930", "1930-01"));
    assert!(less("", "0"));
    assert!(!less("", ""));
    assert!(less("193", "20"));
    assert!(less("z", "\u{e9}"));
    for (a, b) in [("a", "b"), ("ab", "a"), ("-", "0"), ("10", "9"), ("\u{ffff}", "\u{10000}")] {
        assert_eq!(less(a, b), a < b);
        assert_eq!(less(b, a), b < a);
    }
}

#[test]
fn numbers_in_base_ten() {
    let written = |n: u128| {
        let mut out = vec!['#'];
        push_decimal(&mut out, n);
        out.iter().collect::<String>()
    };
    assert_eq!(written(0), "#0");
    assert_eq!(written(7), "#7");
    assert_eq!(written(10), "#10");
    assert_eq!(written(1969), "#1969");
    assert_eq!(written(18446744073709551615), "#18446744073709551615");
    assert_eq!(written(u128::MAX), "#340282366920938463463374607431768211455");
}

#[test]
fn characters_appended() {
    let mut out = chars("ab");
    append_chars(&mut out, &chars("cd"));
    append_chars(&mut out, &chars(""));
    assert_eq!(out, chars("abcd"));
}

#[test]
fn file_name_built_from_title_and_date_reads_back() {
    for (title, date, ext) in [
        ("A Gazette", "1930-01", "pdf"),
        ("An Arizona Desert-ation", "1967-04-22", "PDF"),
        (" Vol. 2 (new series)", "1899", "tiff"),
        ("X", "0001-", ""),
    ] {
        let name = format!("{}_{}.{}", title.replace(' ', "_"), date, ext);
        let data = extract_data_from_file_name(&FileEntry {
            path: format!("dir/{}", name),
            file_name: name,
        })
        .unwrap();
        assert_eq!(data.node_title, title);
        assert_eq!(data.date_original, date);
    }
}

#[test]
fn title_that_ends_in_a_space_loses_it() {
    let data = extract_data_from_file_name(&FileEntry {
        path: "A__1930.pdf".to_string(),
        file_name: "A__1930.pdf".to_string(),
    })
    .unwrap();
    assert_eq!(data.node_title, "A");
}
