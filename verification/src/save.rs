//! The spreadsheet: its columns, the row of each issue, and the name of the
//! file that it is saved under when the name wanted is taken.

use vstd::prelude::*;
use vstd::std_specs::convert::FromSpecImpl;
use vstd::string::StringExecFns;
use crate::data::{Periodical, PeriodicalView};
use crate::text::{
    append_chars, copy_range, decimal_digits, find_last, from_chars, join_strings, join_with,
    last_index_of, push_decimal, to_chars,
};

verus! {

/// The number of columns of the spreadsheet.
pub const COLUMNS: usize = 56;

/// The headers of the columns of the spreadsheet, in their order.
pub const HEADERS: [&'static str; 56] = [
    "NODE_TITLE",
    "ASSETS",
    "ATTACHMENTS",
    "#REDACT",
    "Part Of",
    "Previous Issue",
    "Next Issue",
    "Creator",
    "Contributor",
    "Publisher",
    "Volume",
    "Issue",
    "Description",
    "Subject",
    "Date Original",
    "Date Range",
    "Type",
    "Original Format",
    "Language",
    "Contributing Institution",
    "Collection",
    "Subcollection",
    "Rights Statement",
    "State Agency",
    "State Sub-Agency",
    "Federal Legislative Branch Agency",
    "Federal Executive Department",
    "Federal Executive Department Sub-Agency or Bureau",
    "Federal Independent Agency",
    "Federal Board, Commission, or Committee",
    "Federal Quasi-Official Agency",
    "Federal Court or Judicial Agency",
    "City or Town",
    "Geographic Feature",
    "Tribal Homeland",
    "Road",
    "County",
    "State",
    "Country",
    "Agency",
    "Event",
    "Oral History",
    "Person",
    "Place",
    "Topic",
    "Acquisition Note",
    "Call Number",
    "Vertical File",
    "OCLC Number",
    "Date Digitized",
    "Digital Format",
    "File Size",
    "Digitizing Institution",
    "Date Ingested",
    "Batch Number",
    "Admin Notes",
];

/// The text of an optional cell: empty where there is none.
pub open spec fn text_or_empty(text: Option<Seq<char>>) -> Seq<char> {
    match text {
        Some(text) => text,
        None => Seq::empty(),
    }
}

/// What stands in only the first row of a periodical: empty in the others.
pub open spec fn in_first_row(i: int, text: Seq<char>) -> Seq<char> {
    if i == 0 {
        text
    } else {
        Seq::empty()
    }
}

/// The cell in column `column` of the row of the issue at index `i` of a
/// periodical. Lists are joined by a bar, the dates of an issue by two
/// hyphens. The description and the topics stand in the first row of the
/// periodical only; the collection and the contributing institution stand
/// in every row. The columns that are not named here are empty.
pub open spec fn cell(periodical: PeriodicalView, i: int, column: int) -> Seq<char> {
    let issue = periodical.issues[i];
    let bar = seq!['|'];
    if column == 0 {
        issue.node_title
    } else if column == 5 {
        text_or_empty(issue.previous_issue)
    } else if column == 6 {
        text_or_empty(issue.next_issue)
    } else if column == 7 {
        join_with(issue.marc.creators, bar)
    } else if column == 8 {
        join_with(issue.contributors, bar)
    } else if column == 9 {
        issue.marc.publisher
    } else if column == 10 {
        text_or_empty(issue.volume_no)
    } else if column == 11 {
        match issue.issue_no {
            Some(number) => number.text(),
            None => Seq::empty(),
        }
    } else if column == 12 {
        in_first_row(i, periodical.description)
    } else if column == 13 {
        join_with(issue.marc.subject_headings, bar)
    } else if column == 14 {
        join_with(issue.data_original, seq!['-', '-'])
    } else if column == 15 {
        join_with(issue.date_range, bar)
    } else if column == 16 {
        issue.item_type
    } else if column == 17 {
        issue.format_type
    } else if column == 18 {
        join_with(issue.languages, bar)
    } else if column == 19 {
        periodical.contributing_institution
    } else if column == 20 {
        periodical.collection
    } else if column == 21 {
        issue.parent_collection
    } else if column == 22 {
        issue.rights_statement
    } else if column == 44 {
        in_first_row(i, join_with(periodical.topics, bar))
    } else if column == 46 {
        issue.marc.call_number.text()
    } else if column == 48 {
        issue.marc.oclc_number
    } else if column == 50 {
        issue.digital_format.text()
    } else if column == 52 {
        issue.digitizing_institution
    } else {
        Seq::empty()
    }
}

/// The row of the issue at index `i` of a periodical.
pub open spec fn row_of(periodical: PeriodicalView, i: int) -> Seq<Seq<char>> {
    Seq::new(COLUMNS as nat, |column: int| cell(periodical, i, column))
}

/// The rows of a periodical: one for each issue, in the order of the
/// issues.
pub open spec fn rows_of(periodical: PeriodicalView) -> Seq<Seq<Seq<char>>> {
    Seq::new(periodical.issues.len(), |i: int| row_of(periodical, i))
}

/// The text of an optional cell: empty where there is none.
fn cell_text(text: &Option<String>) -> (cell: String)
    ensures
        cell@ == text_or_empty(text.deep_view()),
{
    match text {
        Some(text) => text.clone(),
        None => String::new(),
    }
}

/// What stands in only the first row of a periodical.
fn first_row_text(i: usize, text: String) -> (cell: String)
    ensures
        cell@ == in_first_row(i as int, text@),
{
    if i == 0 {
        text
    } else {
        String::new()
    }
}

/// The strings joined by a bar.
fn join_by_bar(strings: &Vec<String>) -> (joined: String)
    ensures
        joined@ == join_with(strings.deep_view(), seq!['|']),
{
    proof {
        reveal_strlit("|");
        assert("|"@ =~= seq!['|']);
    }
    join_strings(strings, "|")
}

/// The row of the issue at index `i` of a periodical.
fn issue_row(periodical: &Periodical, i: usize) -> (row: [String; 56])
    requires
        i < periodical.issues.len(),
    ensures
        row.deep_view() == row_of(periodical@, i as int),
{
    let issue = &periodical.issues[i];
    assert(periodical@.issues[i as int] == issue@);
    let node_title = issue.node_title.clone();
    let prev_issue = cell_text(&issue.previous_issue);
    let next_issue = cell_text(&issue.next_issue);
    let creator = join_by_bar(&issue.marc.creators);
    let contributor = join_by_bar(&issue.contributors);
    let publisher = issue.marc.publisher.clone();
    let volume = cell_text(&issue.volume_no);
    let issue_no = match &issue.issue_no {
        Some(number) => number.to_text(),
        None => String::new(),
    };
    let description = first_row_text(i, periodical.description.clone());
    let subject = join_by_bar(&issue.marc.subject_headings);
    proof {
        reveal_strlit("--");
        assert("--"@ =~= seq!['-', '-']);
    }
    let date_original = join_strings(&issue.data_original, "--");
    let date_range = join_by_bar(&issue.date_range);
    let item_type = issue.item_type.to_text();
    let original_format = issue.format_type.to_text();
    let languages = join_by_bar(&issue.languages);
    let contributing_institution = periodical.contributing_institution.to_text();
    let collection = periodical.collection.to_text();
    let subcollection = issue.parent_collection.clone();
    let rights_statement = issue.rights_statement.to_text();
    let topics = first_row_text(i, join_by_bar(&periodical.topics));
    let call_number = issue.marc.call_number.to_text();
    let oclc_number = issue.marc.oclc_number.clone();
    let digital_format = issue.digital_format.to_text();
    let digitizing_institution = issue.digitizing_institution.to_text();
    let row: [String; 56] = [
        node_title,
        String::new(),
        String::new(),
        String::new(),
        String::new(),
        prev_issue,
        next_issue,
        creator,
        contributor,
        publisher,
        volume,
        issue_no,
        description,
        subject,
        date_original,
        date_range,
        item_type,
        original_format,
        languages,
        contributing_institution,
        collection,
        subcollection,
        rights_statement,
        String::new(),
        String::new(),
        String::new(),
        String::new(),
        String::new(),
        String::new(),
        String::new(),
        String::new(),
        String::new(),
        String::new(),
        String::new(),
        String::new(),
        String::new(),
        String::new(),
        String::new(),
        String::new(),
        String::new(),
        String::new(),
        String::new(),
        String::new(),
        String::new(),
        topics,
        String::new(),
        call_number,
        String::new(),
        oclc_number,
        String::new(),
        digital_format,
        String::new(),
        digitizing_institution,
        String::new(),
        String::new(),
        String::new(),
    ];
    assert(row.deep_view() =~= row_of(periodical@, i as int));
    row
}

/// The rows of a periodical: one for each issue, in the order of the
/// issues, each with a cell for every column of the spreadsheet.
pub fn periodical_rows(periodical: &Periodical) -> (rows: Vec<[String; 56]>)
    ensures
        rows.deep_view() == rows_of(periodical@),
{
    let mut rows: Vec<[String; 56]> = Vec::new();
    let mut i: usize = 0;
    while i < periodical.issues.len()
        invariant
            i <= periodical.issues.len(),
            rows.len() == i,
            forall|j: int| 0 <= j < i ==> #[trigger] rows.deep_view()[j] == row_of(periodical@, j),
        decreases periodical.issues.len() - i,
    {
        let row = issue_row(periodical, i);
        let ghost done = rows.deep_view();
        rows.push(row);
        assert(rows.deep_view() =~= done.push(row.deep_view()));
        i += 1;
    }
    assert(rows.deep_view() =~= rows_of(periodical@));
    rows
}

impl From<Periodical> for Vec<[String; 56]> {
    fn from(periodical: Periodical) -> (rows: Self)
        ensures
            rows.deep_view() == rows_of(periodical@),
    {
        periodical_rows(&periodical)
    }
}

impl FromSpecImpl<Periodical> for Vec<[String; 56]> {
    /// The rows are made of new strings, which no specification names: the
    /// contract of `from` states their value instead.
    open spec fn obeys_from_spec() -> bool {
        false
    }

    open spec fn from_spec(periodical: Periodical) -> Self {
        arbitrary()
    }
}

/// The first row of the spreadsheet: the header of each column.
pub open spec fn header_row() -> Seq<Seq<char>> {
    Seq::new(COLUMNS as nat, |column: int| HEADERS[column]@)
}

/// The rows of the periodicals, one periodical after the other.
pub open spec fn rows_of_all(periodicals: Seq<PeriodicalView>) -> Seq<Seq<Seq<char>>>
    decreases periodicals.len(),
{
    if periodicals.len() == 0 {
        Seq::empty()
    } else {
        rows_of_all(periodicals.drop_last()) + rows_of(periodicals.last())
    }
}

/// The spreadsheet: the header row, then the rows of each periodical, in
/// the order of the periodicals.
pub open spec fn spreadsheet_of(periodicals: Seq<PeriodicalView>) -> Seq<Seq<Seq<char>>> {
    seq![header_row()] + rows_of_all(periodicals)
}

/// The first row of the spreadsheet: the header of each column.
pub fn header_cells() -> (row: [String; 56])
    ensures
        row.deep_view() == header_row(),
{
    let row: [String; 56] = [
        String::from_str(HEADERS[0]),
        String::from_str(HEADERS[1]),
        String::from_str(HEADERS[2]),
        String::from_str(HEADERS[3]),
        String::from_str(HEADERS[4]),
        String::from_str(HEADERS[5]),
        String::from_str(HEADERS[6]),
        String::from_str(HEADERS[7]),
        String::from_str(HEADERS[8]),
        String::from_str(HEADERS[9]),
        String::from_str(HEADERS[10]),
        String::from_str(HEADERS[11]),
        String::from_str(HEADERS[12]),
        String::from_str(HEADERS[13]),
        String::from_str(HEADERS[14]),
        String::from_str(HEADERS[15]),
        String::from_str(HEADERS[16]),
        String::from_str(HEADERS[17]),
        String::from_str(HEADERS[18]),
        String::from_str(HEADERS[19]),
        String::from_str(HEADERS[20]),
        String::from_str(HEADERS[21]),
        String::from_str(HEADERS[22]),
        String::from_str(HEADERS[23]),
        String::from_str(HEADERS[24]),
        String::from_str(HEADERS[25]),
        String::from_str(HEADERS[26]),
        String::from_str(HEADERS[27]),
        String::from_str(HEADERS[28]),
        String::from_str(HEADERS[29]),
        String::from_str(HEADERS[30]),
        String::from_str(HEADERS[31]),
        String::from_str(HEADERS[32]),
        String::from_str(HEADERS[33]),
        String::from_str(HEADERS[34]),
        String::from_str(HEADERS[35]),
        String::from_str(HEADERS[36]),
        String::from_str(HEADERS[37]),
        String::from_str(HEADERS[38]),
        String::from_str(HEADERS[39]),
        String::from_str(HEADERS[40]),
        String::from_str(HEADERS[41]),
        String::from_str(HEADERS[42]),
        String::from_str(HEADERS[43]),
        String::from_str(HEADERS[44]),
        String::from_str(HEADERS[45]),
        String::from_str(HEADERS[46]),
        String::from_str(HEADERS[47]),
        String::from_str(HEADERS[48]),
        String::from_str(HEADERS[49]),
        String::from_str(HEADERS[50]),
        String::from_str(HEADERS[51]),
        String::from_str(HEADERS[52]),
        String::from_str(HEADERS[53]),
        String::from_str(HEADERS[54]),
        String::from_str(HEADERS[55]),
    ];
    assert(row.deep_view() =~= header_row());
    row
}

/// The rows of the spreadsheet as they are written: the header row, then
/// the rows of each periodical, in the order of the periodicals.
pub fn spreadsheet(periodicals: &Vec<Periodical>) -> (rows: Vec<[String; 56]>)
    ensures
        rows.deep_view() == spreadsheet_of(periodicals.deep_view()),
{
    let mut rows: Vec<[String; 56]> = Vec::new();
    rows.push(header_cells());
    assert(rows.deep_view() =~= seq![header_row()] + rows_of_all(
        periodicals.deep_view().take(0),
    ));
    let mut i: usize = 0;
    while i < periodicals.len()
        invariant
            i <= periodicals.len(),
            rows.deep_view() == seq![header_row()] + rows_of_all(
                periodicals.deep_view().take(i as int),
            ),
        decreases periodicals.len() - i,
    {
        proof {
            let read = periodicals.deep_view().take(i + 1);
            assert(read.drop_last() =~= periodicals.deep_view().take(i as int));
            assert(read.last() == periodicals[i as int]@);
        }
        let ghost done = rows.deep_view();
        let mut more = periodical_rows(&periodicals[i]);
        let ghost added = more.deep_view();
        rows.append(&mut more);
        assert(rows.deep_view() =~= done + added);
        i += 1;
    }
    assert(periodicals.deep_view().take(i as int) =~= periodicals.deep_view());
    rows
}

/// The name that the spreadsheet is saved under where none is given.
pub const DEFAULT_FILE_NAME: &'static str = "archive.csv";

/// A file name with a number: the stem, the number in brackets after a
/// space, a dot and the extension.
pub open spec fn numbered(stem: Seq<char>, number: nat, extension: Seq<char>) -> Seq<char> {
    stem + seq![' ', '('] + decimal_digits(number) + seq![')', '.'] + extension
}

/// The name to try in place of a file name that is taken, at the given
/// attempt: the name with the attempt in brackets before its extension,
/// which is what follows its last dot. A name without a dot has no place
/// for the number, and so no such name.
pub open spec fn numbered_file_name(file_name: Seq<char>, attempt: nat) -> Option<Seq<char>> {
    let dot = last_index_of(file_name, '.');
    if dot < 0 {
        None
    } else {
        Some(numbered(file_name.take(dot), attempt, file_name.skip(dot + 1)))
    }
}

/// The characters of a file name with a number before its extension.
fn numbered_chars(chars: &Vec<char>, dot: usize, number: u128) -> (name: Vec<char>)
    requires
        dot < chars.len(),
    ensures
        name@ == numbered(chars@.take(dot as int), number as nat, chars@.skip(dot + 1)),
{
    let mut name = copy_range(chars, 0, dot);
    name.push(' ');
    name.push('(');
    push_decimal(&mut name, number);
    name.push(')');
    name.push('.');
    let extension = copy_range(chars, dot + 1, chars.len());
    append_chars(&mut name, &extension);
    assert(name@ =~= numbered(chars@.take(dot as int), number as nat, chars@.skip(dot + 1)));
    name
}

/// The name to try in place of a file name that is taken, at the given
/// attempt: `archive.csv` gives `archive (1).csv` at the first attempt and
/// `archive (2).csv` at the second.
pub fn next_file_name(file_name: &str, attempt: u32) -> (name: Option<String>)
    ensures
        name.deep_view() == numbered_file_name(file_name@, attempt as nat),
{
    let chars = to_chars(file_name);
    match find_last(&chars, '.') {
        Some(dot) => Some(from_chars(&numbered_chars(&chars, dot, attempt as u128))),
        None => None,
    }
}

/// Whether the name of the given attempt exists and is not among the names
/// that are taken.
pub open spec fn is_free_attempt(
    file_name: Seq<char>,
    taken: Seq<Seq<char>>,
    attempt: nat,
) -> bool {
    numbered_file_name(file_name, attempt) matches Some(name) && !taken.contains(name)
}

/// The least attempt, among the `tries` attempts from `from` on, whose name
/// is free.
pub open spec fn first_free_attempt(
    file_name: Seq<char>,
    taken: Seq<Seq<char>>,
    from: nat,
    tries: nat,
) -> Option<nat>
    decreases tries,
{
    if tries == 0 {
        None
    } else if is_free_attempt(file_name, taken, from) {
        Some(from)
    } else {
        first_free_attempt(file_name, taken, from + 1, (tries - 1) as nat)
    }
}

/// The name to save under in place of a file name that is taken: the name
/// with the least number from 1 on, in brackets before the extension, that
/// is not among the names taken. One more number is tried than names are
/// taken.
pub open spec fn free_file_name(file_name: Seq<char>, taken: Seq<Seq<char>>) -> Option<Seq<char>> {
    match first_free_attempt(file_name, taken, 1, taken.len() + 1) {
        Some(attempt) => numbered_file_name(file_name, attempt),
        None => None,
    }
}

/// Whether the name is one of the names taken.
fn is_taken(taken: &Vec<String>, name: &String) -> (found: bool)
    ensures
        found == taken.deep_view().contains(name@),
{
    let mut i: usize = 0;
    while i < taken.len()
        invariant
            i <= taken.len(),
            forall|j: int| 0 <= j < i ==> taken.deep_view()[j] != name@,
        decreases taken.len() - i,
    {
        if taken[i] == *name {
            assert(taken.deep_view()[i as int] == name@);
            return true;
        }
        i += 1;
    }
    false
}

/// Without an extension no attempt has a name, and so none is free.
proof fn lemma_no_attempt_without_extension(
    file_name: Seq<char>,
    taken: Seq<Seq<char>>,
    from: nat,
    tries: nat,
)
    requires
        last_index_of(file_name, '.') < 0,
    ensures
        first_free_attempt(file_name, taken, from, tries) is None,
    decreases tries,
{
    if tries > 0 {
        lemma_no_attempt_without_extension(file_name, taken, from + 1, (tries - 1) as nat);
    }
}

/// Finds the name to save under in place of a file name that is taken:
/// the name with the least number from 1 on that is not among the names
/// taken. With `archive (1).csv` taken, `archive.csv` gives
/// `archive (2).csv`.
pub fn first_free_file_name(file_name: &str, taken: &Vec<String>) -> (name: Option<String>)
    ensures
        name.deep_view() == free_file_name(file_name@, taken.deep_view()),
{
    let chars = to_chars(file_name);
    let dot = match find_last(&chars, '.') {
        Some(dot) => dot,
        None => {
            proof {
                lemma_no_attempt_without_extension(
                    file_name@,
                    taken.deep_view(),
                    1,
                    taken.len() as nat + 1,
                );
            }
            return None;
        },
    };
    let ghost names = taken.deep_view();
    let mut i: usize = 0;
    loop
        invariant
            i <= taken.len(),
            dot < chars.len(),
            dot == last_index_of(chars@, '.'),
            chars@ == file_name@,
            names == taken.deep_view(),
            first_free_attempt(file_name@, names, 1, names.len() + 1) == first_free_attempt(
                file_name@,
                names,
                i as nat + 1,
                (names.len() + 1 - i) as nat,
            ),
        decreases taken.len() - i,
    {
        let candidate = from_chars(&numbered_chars(&chars, dot, i as u128 + 1));
        assert(numbered_file_name(file_name@, i as nat + 1) == Some(candidate@));
        if !is_taken(taken, &candidate) {
            return Some(candidate);
        }
        if i == taken.len() {
            assert(first_free_attempt(file_name@, names, i as nat + 2, 0) is None);
            return None;
        }
        i += 1;
    }
}

} // verus!
