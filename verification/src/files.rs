//! From file names to issues: the date of an issue and its decade, the title
//! of its periodical, and the issues of each periodical in order of date.

use vstd::prelude::*;
use crate::{ArchiveError, ArchiveErrorView};
use crate::data::{DigitalFormat, DigitalFormatView};
use crate::text::{
    append_chars, copy_range, decimal_digits, find_first, find_last, first_index_of, from_chars,
    is_less, is_numeric_char, last_index_of, lex_less, numeric_char, parse_number, push_decimal,
    read_number, to_chars,
};

verus! {

/// The part of a date that holds the year: what stands before the first
/// hyphen.
pub open spec fn year_segment(date: Seq<char>) -> Seq<char> {
    date.take(first_index_of(date, '-'))
}

/// The year that a segment writes: decimal digits, at least one, with or
/// without a plus sign before them, and no greater than `i32::MAX`.
pub open spec fn parse_year(segment: Seq<char>) -> Option<nat> {
    parse_number(segment, i32::MAX as nat)
}

/// The first year of the decade that `year` falls in.
pub open spec fn decade_of(year: nat) -> nat {
    (year - year % 10) as nat
}

/// The label of the decade that starts with the year `decade`, such as
/// `1960s (1960-1969)`.
pub open spec fn date_range_label(decade: nat) -> Seq<char> {
    decimal_digits(decade) + seq!['s', ' ', '('] + decimal_digits(decade) + seq!['-']
        + decimal_digits(decade + 9) + seq![')']
}

/// The decade label of a date, where its year is a number.
pub open spec fn date_range_of(date: Seq<char>) -> Option<Seq<char>> {
    match parse_year(year_segment(date)) {
        Some(year) => Some(date_range_label(decade_of(year))),
        None => None,
    }
}

/// The year of a date, where its first segment writes one.
fn read_year(date: &Vec<char>) -> (year: Option<u32>)
    ensures
        match year {
            Some(y) => parse_year(year_segment(date@)) == Some(y as nat),
            None => parse_year(year_segment(date@)) is None,
        },
{
    let end = find_first(date, '-');
    assert(date@.subrange(0, end as int) =~= year_segment(date@));
    read_number(date, 0, end, 0x7fff_ffff)
}

/// The characters of the label of the decade that starts with `decade`.
fn decade_label(decade: u32) -> (label: Vec<char>)
    requires
        decade <= i32::MAX,
    ensures
        label@ == date_range_label(decade as nat),
{
    let mut label: Vec<char> = Vec::new();
    push_decimal(&mut label, decade as u128);
    label.push('s');
    label.push(' ');
    label.push('(');
    push_decimal(&mut label, decade as u128);
    label.push('-');
    push_decimal(&mut label, decade as u128 + 9);
    label.push(')');
    assert(label@ =~= date_range_label(decade as nat));
    label
}

/// Takes a date in the form `yyyy-mm-dd`, `yyyy-mm` or `yyyy` and returns the
/// label of its decade: `1967-04` gives `1960s (1960-1969)`.
///
/// Only the year is read. A date whose year is not a number is refused.
pub fn data_to_date_range(date: &str) -> (r: Result<String, ArchiveError>)
    ensures
        match r {
            Ok(label) => date_range_of(date@) == Some(label@),
            Err(e) => date_range_of(date@) is None && e@ == ArchiveErrorView::UnparseableDate(
                date@,
            ),
        },
{
    let chars = to_chars(date);
    match read_year(&chars) {
        Some(year) => {
            let decade: u32 = year - year % 10;
            let label = decade_label(decade);
            Ok(from_chars(&label))
        },
        None => Err(ArchiveError::UnparseableDate(from_chars(&chars))),
    }
}

/// A file to take an issue from: where it lies, and the last component of
/// that path, which is its name.
#[derive(Debug, PartialEq, Eq)]
pub struct FileEntry {
    /// The whole path, as it is shown to the operator.
    pub path: String,
    /// The name of the file, extension included.
    pub file_name: String,
}

/// The mathematical value of a [`FileEntry`].
pub struct FileEntryView {
    pub path: Seq<char>,
    pub file_name: Seq<char>,
}

impl View for FileEntry {
    type V = FileEntryView;

    open spec fn view(&self) -> FileEntryView {
        FileEntryView { path: self.path@, file_name: self.file_name@ }
    }
}

impl DeepView for FileEntry {
    type V = FileEntryView;

    open spec fn deep_view(&self) -> FileEntryView {
        self@
    }
}

/// The data extracted from the file name.
#[derive(Debug, PartialEq, Eq)]
pub struct IssueFileData {
    /// The name of the periodical.
    pub node_title: String,
    /// The date of the issue.
    pub date_original: String,
    /// The decade of the issue.
    pub date_range: String,
    /// The format of the file.
    pub format: DigitalFormat,
}

/// The mathematical value of an [`IssueFileData`].
pub struct IssueFileDataView {
    pub node_title: Seq<char>,
    pub date_original: Seq<char>,
    pub date_range: Seq<char>,
    pub format: DigitalFormatView,
}

impl View for IssueFileData {
    type V = IssueFileDataView;

    open spec fn view(&self) -> IssueFileDataView {
        IssueFileDataView {
            node_title: self.node_title@,
            date_original: self.date_original@,
            date_range: self.date_range@,
            format: self.format@,
        }
    }
}

impl DeepView for IssueFileData {
    type V = IssueFileDataView;

    open spec fn deep_view(&self) -> IssueFileDataView {
        self@
    }
}

impl Clone for IssueFileData {
    fn clone(&self) -> (r: Self)
        ensures
            r == *self,
    {
        IssueFileData {
            node_title: self.node_title.clone(),
            date_original: self.date_original.clone(),
            date_range: self.date_range.clone(),
            format: self.format.clone(),
        }
    }
}

impl IssueFileDataView {
    /// The title of the issue: the name of the periodical, a comma and a
    /// space, and the date.
    pub open spec fn node_title_with_date(self) -> Seq<char> {
        self.node_title + seq![',', ' '] + self.date_original
    }
}

impl IssueFileData {
    /// Returns the name of the periodical with the date appended to it,
    /// separated by a comma.
    pub fn node_title_with_date(&self) -> (title: String)
        ensures
            title@ == self@.node_title_with_date(),
    {
        let mut title = to_chars(self.node_title.as_str());
        title.push(',');
        title.push(' ');
        let date = to_chars(self.date_original.as_str());
        append_chars(&mut title, &date);
        from_chars(&title)
    }
}

/// Whether a character can stand in the date at the end of a file name.
pub open spec fn is_date_char(c: char) -> bool {
    numeric_char(c) || c == '-'
}

/// How many characters at the end of `s` can stand in a date.
pub open spec fn date_run_len(s: Seq<char>) -> nat
    decreases s.len(),
{
    if s.len() > 0 && is_date_char(s.last()) {
        1 + date_run_len(s.drop_last())
    } else {
        0
    }
}

/// How many underscores stand at the end of `s`.
pub open spec fn trailing_underscores(s: Seq<char>) -> nat
    decreases s.len(),
{
    if s.len() > 0 && s.last() == '_' {
        1 + trailing_underscores(s.drop_last())
    } else {
        0
    }
}

/// `s` with a space in place of each underscore.
pub open spec fn underscores_to_spaces(s: Seq<char>) -> Seq<char> {
    Seq::new(s.len(), |i: int| if s[i] == '_' { ' ' } else { s[i] })
}

/// Whether a file name has an extension: a dot, with the extension after the
/// last one.
pub open spec fn has_extension(name: Seq<char>) -> bool {
    last_index_of(name, '.') >= 0
}

/// A file name without its extension and the dot before it.
pub open spec fn file_stem(name: Seq<char>) -> Seq<char> {
    name.take(last_index_of(name, '.'))
}

/// The extension of a file name: what follows its last dot.
pub open spec fn file_extension(name: Seq<char>) -> Seq<char> {
    name.skip(last_index_of(name, '.') + 1)
}

/// The date that a file name ends in: the longest run of numeric characters
/// and hyphens at the end of its stem.
pub open spec fn file_date(name: Seq<char>) -> Seq<char> {
    let stem = file_stem(name);
    stem.skip(stem.len() - date_run_len(stem))
}

/// The title that a file name starts with: its stem without the date and the
/// underscores before the date, with a space for each underscore left.
pub open spec fn file_title(name: Seq<char>) -> Seq<char> {
    let stem = file_stem(name);
    let dated = stem.take(stem.len() - date_run_len(stem));
    underscores_to_spaces(dated.take(dated.len() - trailing_underscores(dated)))
}

/// What the name of a file says of the issue in it. A name without an
/// extension, without a title or without a date is unparseable; a date whose
/// year is not a number is refused as such.
pub open spec fn parse_file_name(file: FileEntryView) -> Result<
    IssueFileDataView,
    ArchiveErrorView,
> {
    let name = file.file_name;
    if !has_extension(name) || file_title(name).len() == 0 || file_date(name).len() == 0 {
        Err(ArchiveErrorView::UnparseableFileName(file.path))
    } else {
        match date_range_of(file_date(name)) {
            Some(label) => Ok(
                IssueFileDataView {
                    node_title: file_title(name),
                    date_original: file_date(name),
                    date_range: label,
                    format: DigitalFormatView::of_extension(file_extension(name)),
                },
            ),
            None => Err(ArchiveErrorView::UnparseableDate(file_date(name))),
        }
    }
}

/// Where the date at the end of the first `end` characters starts.
fn date_start(chars: &Vec<char>, end: usize) -> (start: usize)
    requires
        end <= chars.len(),
    ensures
        start == end - date_run_len(chars@.take(end as int)),
{
    let mut start: usize = end;
    while start > 0 && (is_numeric_char(chars[start - 1]) || chars[start - 1] == '-')
        invariant
            start <= end <= chars.len(),
            date_run_len(chars@.take(end as int)) == date_run_len(chars@.take(start as int)) + (
            end - start),
        decreases start,
    {
        assert(chars@.take(start as int).drop_last() =~= chars@.take(start - 1));
        start -= 1;
    }
    start
}

/// Where the underscores at the end of the first `end` characters start.
fn underscores_start(chars: &Vec<char>, end: usize) -> (start: usize)
    requires
        end <= chars.len(),
    ensures
        start == end - trailing_underscores(chars@.take(end as int)),
{
    let mut start: usize = end;
    while start > 0 && chars[start - 1] == '_'
        invariant
            start <= end <= chars.len(),
            trailing_underscores(chars@.take(end as int)) == trailing_underscores(
                chars@.take(start as int),
            ) + (end - start),
        decreases start,
    {
        assert(chars@.take(start as int).drop_last() =~= chars@.take(start - 1));
        start -= 1;
    }
    start
}

/// The first `end` characters, with a space in place of each underscore.
fn spaced(chars: &Vec<char>, end: usize) -> (out: Vec<char>)
    requires
        end <= chars.len(),
    ensures
        out@ == underscores_to_spaces(chars@.take(end as int)),
{
    let mut out: Vec<char> = Vec::new();
    let mut i: usize = 0;
    while i < end
        invariant
            i <= end <= chars.len(),
            out@ == underscores_to_spaces(chars@.take(i as int)),
        decreases end - i,
    {
        let c = chars[i];
        out.push(if c == '_' { ' ' } else { c });
        i += 1;
        assert(out@ =~= underscores_to_spaces(chars@.take(i as int)));
    }
    out
}

/// Reads the title of the periodical, the date of the issue and the format
/// of the file out of a file name.
///
/// `An_Arizona_Desert-ation_1967-04.pdf` gives the title
/// `An Arizona Desert-ation`, the date `1967-04`, the decade
/// `1960s (1960-1969)` and the format PDF.
pub fn extract_data_from_file_name(file: &FileEntry) -> (r: Result<IssueFileData, ArchiveError>)
    ensures
        match r {
            Ok(data) => parse_file_name(file@) == Ok::<IssueFileDataView, ArchiveErrorView>(data@),
            Err(e) => parse_file_name(file@) == Err::<IssueFileDataView, ArchiveErrorView>(e@),
        },
{
    let name = to_chars(file.file_name.as_str());
    let dot = match find_last(&name, '.') {
        Some(dot) => dot,
        None => {
            return Err(ArchiveError::UnparseableFileName(file.path.clone()));
        },
    };
    let ghost stem = file_stem(name@);
    assert(stem =~= name@.take(dot as int));
    let date_at = date_start(&name, dot);
    let title_end = underscores_start(&name, date_at);
    let date = copy_range(&name, date_at, dot);
    let title = spaced(&name, title_end);
    proof {
        let dated = stem.take(stem.len() - date_run_len(stem));
        assert(dated =~= name@.take(date_at as int));
        assert(dated.take(dated.len() - trailing_underscores(dated)) =~= name@.take(
            title_end as int,
        ));
        assert(date@ =~= file_date(name@));
        assert(title@ == file_title(name@));
    }
    if title.len() == 0 || date.len() == 0 {
        return Err(ArchiveError::UnparseableFileName(file.path.clone()));
    }
    let date_original = from_chars(&date);
    match data_to_date_range(date_original.as_str()) {
        Ok(date_range) => {
            let ext = copy_range(&name, dot + 1, name.len());
            assert(ext@ =~= file_extension(name@));
            let format = DigitalFormat::from(from_chars(&ext));
            Ok(IssueFileData { node_title: from_chars(&title), date_original, date_range, format })
        },
        Err(e) => Err(e),
    }
}

/// The issues that a list of files holds, in the order of the files, or the
/// error of the first file that has one.
pub open spec fn parse_file_names(files: Seq<FileEntryView>) -> Result<
    Seq<IssueFileDataView>,
    ArchiveErrorView,
>
    decreases files.len(),
{
    if files.len() == 0 {
        Ok(Seq::empty())
    } else {
        match parse_file_names(files.drop_last()) {
            Ok(issues) => match parse_file_name(files.last()) {
                Ok(issue) => Ok(issues.push(issue)),
                Err(e) => Err(e),
            },
            Err(e) => Err(e),
        }
    }
}

/// Whether one of the issues of `group` has the title `title`.
pub open spec fn holds_title(group: Seq<IssueFileDataView>, title: Seq<char>) -> bool {
    exists|j: int| 0 <= j < group.len() && (#[trigger] group[j]).node_title == title
}

/// The index of the first group that holds the title, or the number of
/// groups where none does.
pub open spec fn group_of_title(groups: Seq<Seq<IssueFileDataView>>, title: Seq<char>) -> int
    decreases groups.len(),
{
    if groups.len() == 0 || holds_title(groups[0], title) {
        0
    } else {
        1 + group_of_title(groups.drop_first(), title)
    }
}

/// The groups with one more issue: at the end of the first group that holds
/// its title, or in a new group after the others.
pub open spec fn add_to_groups(
    groups: Seq<Seq<IssueFileDataView>>,
    issue: IssueFileDataView,
) -> Seq<Seq<IssueFileDataView>> {
    let at = group_of_title(groups, issue.node_title);
    if at < groups.len() {
        groups.update(at, groups[at].push(issue))
    } else {
        groups.push(seq![issue])
    }
}

/// The issues grouped by title: the groups in the order in which their
/// titles first occur, the issues of a group in the order in which they
/// occur.
pub open spec fn group_by_title(issues: Seq<IssueFileDataView>) -> Seq<Seq<IssueFileDataView>>
    decreases issues.len(),
{
    if issues.len() == 0 {
        Seq::empty()
    } else {
        add_to_groups(group_by_title(issues.drop_last()), issues.last())
    }
}

/// A list sorted by date with one more issue: after the issues that are not
/// later than it.
pub open spec fn insert_by_date(
    sorted: Seq<IssueFileDataView>,
    issue: IssueFileDataView,
) -> Seq<IssueFileDataView>
    decreases sorted.len(),
{
    if sorted.len() > 0 && lex_less(issue.date_original, sorted.last().date_original) {
        insert_by_date(sorted.drop_last(), issue).push(sorted.last())
    } else {
        sorted.push(issue)
    }
}

/// The issues in the order of their dates, compared as strings; issues of
/// one date stay in the order they had.
pub open spec fn sort_by_date(issues: Seq<IssueFileDataView>) -> Seq<IssueFileDataView>
    decreases issues.len(),
{
    if issues.len() == 0 {
        issues
    } else {
        insert_by_date(sort_by_date(issues.drop_last()), issues.last())
    }
}

/// The periodicals that a list of files holds: the issues grouped by title,
/// each group sorted by date.
pub open spec fn periodicals_of(files: Seq<FileEntryView>) -> Result<
    Seq<Seq<IssueFileDataView>>,
    ArchiveErrorView,
> {
    match parse_file_names(files) {
        Ok(issues) => {
            let groups = group_by_title(issues);
            Ok(Seq::new(groups.len(), |i: int| sort_by_date(groups[i])))
        },
        Err(e) => Err(e),
    }
}

/// `group_of_title` is the one index whose group holds the title while no
/// group before it does.
pub proof fn lemma_group_of_title(groups: Seq<Seq<IssueFileDataView>>, title: Seq<char>, i: int)
    requires
        0 <= i <= groups.len(),
        forall|j: int| 0 <= j < i ==> !holds_title(#[trigger] groups[j], title),
        i < groups.len() ==> holds_title(groups[i], title),
    ensures
        group_of_title(groups, title) == i,
    decreases i,
{
    if i > 0 {
        let rest = groups.drop_first();
        assert(!holds_title(groups[0], title));
        assert forall|j: int| 0 <= j < i - 1 implies !holds_title(#[trigger] rest[j], title) by {
            assert(rest[j] == groups[j + 1]);
        }
        lemma_group_of_title(rest, title, i - 1);
    }
}

/// Whether one of the issues of `group` has the title `title`.
fn group_holds(group: &Vec<IssueFileData>, title: &String) -> (b: bool)
    ensures
        b == holds_title(group.deep_view(), title@),
{
    let mut j: usize = 0;
    while j < group.len()
        invariant
            j <= group.len(),
            forall|k: int| 0 <= k < j ==> (#[trigger] group.deep_view()[k]).node_title != title@,
        decreases group.len() - j,
    {
        if group[j].node_title == *title {
            assert(group.deep_view()[j as int].node_title == title@);
            return true;
        }
        j += 1;
    }
    false
}

/// The index of the first group that holds the title, or the number of
/// groups where none does.
fn find_group(groups: &Vec<Vec<IssueFileData>>, title: &String) -> (at: usize)
    ensures
        at == group_of_title(groups.deep_view(), title@),
        at <= groups.len(),
{
    let mut i: usize = 0;
    while i < groups.len()
        invariant
            i <= groups.len(),
            forall|j: int| 0 <= j < i ==> !holds_title(#[trigger] groups.deep_view()[j], title@),
        decreases groups.len() - i,
    {
        if group_holds(&groups[i], title) {
            proof {
                lemma_group_of_title(groups.deep_view(), title@, i as int);
            }
            return i;
        }
        i += 1;
    }
    proof {
        lemma_group_of_title(groups.deep_view(), title@, i as int);
    }
    i
}

/// The issues of `group` in the order of their dates.
fn sorted_by_date(group: &Vec<IssueFileData>) -> (sorted: Vec<IssueFileData>)
    ensures
        sorted.deep_view() == sort_by_date(group.deep_view()),
{
    let mut sorted: Vec<IssueFileData> = Vec::new();
    let mut i: usize = 0;
    while i < group.len()
        invariant
            i <= group.len(),
            sorted.deep_view() == sort_by_date(group.deep_view().take(i as int)),
        decreases group.len() - i,
    {
        let issue = group[i].clone();
        let date = to_chars(issue.date_original.as_str());
        let ghost before = sorted.deep_view();
        let mut at: usize = sorted.len();
        assert(before.take(at as int) =~= before);
        assert(insert_by_date(before, issue@) + before.skip(at as int) =~= insert_by_date(
            before,
            issue@,
        ));
        while at > 0 && is_less(&date, &to_chars(sorted[at - 1].date_original.as_str()))
            invariant
                at <= sorted.len(),
                date@ == issue@.date_original,
                before == sorted.deep_view(),
                insert_by_date(before, issue@) == insert_by_date(before.take(at as int), issue@)
                    + before.skip(at as int),
            decreases at,
        {
            assert(before.take(at as int).drop_last() =~= before.take(at - 1));
            assert(before.take(at as int).last() == before[at - 1]);
            assert(insert_by_date(before.take(at - 1), issue@).push(before[at - 1]) + before.skip(
                at as int,
            ) =~= insert_by_date(before.take(at - 1), issue@) + before.skip(at - 1));
            at -= 1;
        }
        sorted.insert(at, issue);
        proof {
            assert(sorted.deep_view() =~= before.take(at as int).push(issue@) + before.skip(
                at as int,
            ));
            assert(group.deep_view().take(i + 1).drop_last() =~= group.deep_view().take(i as int));
            assert(group.deep_view().take(i + 1).last() == issue@);
        }
        i += 1;
    }
    assert(group.deep_view().take(i as int) =~= group.deep_view());
    sorted
}

/// Reads an issue out of each file name, groups the issues by the title of
/// their periodical, in the order in which the titles first occur, and sorts
/// the issues of each periodical by their dates, compared as strings.
///
/// The first file whose name cannot be read ends the run with its error.
pub fn process_files(file_paths: Vec<FileEntry>) -> (r: Result<
    Vec<Vec<IssueFileData>>,
    ArchiveError,
>)
    ensures
        match r {
            Ok(periodicals) => periodicals_of(file_paths.deep_view()) == Ok::<
                Seq<Seq<IssueFileDataView>>,
                ArchiveErrorView,
            >(periodicals.deep_view()),
            Err(e) => periodicals_of(file_paths.deep_view()) == Err::<
                Seq<Seq<IssueFileDataView>>,
                ArchiveErrorView,
            >(e@),
        },
{
    let ghost files = file_paths.deep_view();
    let ghost mut issues: Seq<IssueFileDataView> = Seq::empty();
    let mut groups: Vec<Vec<IssueFileData>> = Vec::new();
    let mut i: usize = 0;
    while i < file_paths.len()
        invariant
            i <= file_paths.len(),
            files == file_paths.deep_view(),
            parse_file_names(files.take(i as int)) == Ok::<
                Seq<IssueFileDataView>,
                ArchiveErrorView,
            >(issues),
            groups.deep_view() == group_by_title(issues),
        decreases file_paths.len() - i,
    {
        proof {
            assert(files.take(i + 1).drop_last() =~= files.take(i as int));
            assert(files.take(i + 1).last() == file_paths[i as int]@);
        }
        let data = match extract_data_from_file_name(&file_paths[i]) {
            Ok(data) => data,
            Err(e) => {
                proof {
                    lemma_parse_error_stays(files, i + 1);
                }
                return Err(e);
            },
        };
        let at = find_group(&groups, &data.node_title);
        let ghost grouped = groups.deep_view();
        if at < groups.len() {
            let mut group = groups.remove(at);
            group.push(data);
            assert(group.deep_view() =~= grouped[at as int].push(data@));
            groups.insert(at, group);
            assert(groups.deep_view() =~= grouped.update(at as int, grouped[at as int].push(data@)));
        } else {
            let mut group: Vec<IssueFileData> = Vec::new();
            group.push(data);
            assert(group.deep_view() =~= seq![data@]);
            groups.push(group);
            assert(groups.deep_view() =~= grouped.push(seq![data@]));
        }
        proof {
            assert(issues.push(data@).drop_last() =~= issues);
            issues = issues.push(data@);
        }
        i += 1;
    }
    assert(files.take(i as int) =~= files);
    let mut periodicals: Vec<Vec<IssueFileData>> = Vec::new();
    let mut k: usize = 0;
    while k < groups.len()
        invariant
            k <= groups.len(),
            periodicals.len() == k,
            forall|j: int|
                0 <= j < k ==> #[trigger] periodicals.deep_view()[j] == sort_by_date(
                    groups.deep_view()[j],
                ),
        decreases groups.len() - k,
    {
        let sorted = sorted_by_date(&groups[k]);
        let ghost done = periodicals.deep_view();
        periodicals.push(sorted);
        assert(periodicals.deep_view() =~= done.push(sorted.deep_view()));
        k += 1;
    }
    assert(periodicals.deep_view() =~= Seq::new(
        groups.deep_view().len(),
        |i: int| sort_by_date(groups.deep_view()[i]),
    ));
    Ok(periodicals)
}

/// Once a file has an error, the list has that error however it goes on.
proof fn lemma_parse_error_stays(files: Seq<FileEntryView>, k: int)
    requires
        0 <= k <= files.len(),
        parse_file_names(files.take(k)) is Err,
    ensures
        parse_file_names(files) == parse_file_names(files.take(k)),
    decreases files.len(),
{
    if k < files.len() {
        let init = files.drop_last();
        assert(init.take(k) =~= files.take(k));
        lemma_parse_error_stays(init, k);
    } else {
        assert(files.take(k) =~= files);
    }
}

} // verus!
