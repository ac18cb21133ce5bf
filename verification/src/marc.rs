//! From the lines of a catalog record to bibliographic data: each line with
//! three columns is a tagged field, and the tag decides what its subfields
//! add to the creators, the publisher, the subject headings or the
//! identifier.

use vstd::prelude::*;
use crate::{ArchiveError, ArchiveErrorView};
use crate::data::{CallNumber, CallNumberView, MarcData, MarcDataView};
use crate::text::{
    append_chars, char_at, copy_range, from_chars, is_numeric_char, join_strings, join_with,
    numeric_char,
    split_chars, split_on, to_chars, views,
};

verus! {

/// One part of a tagged field: a code and the value that it marks.
///
/// The code `_` marks the whole of a field that has no subfield markup.
#[derive(Debug, PartialEq, Eq)]
pub struct Subfield {
    pub code: char,
    pub value: String,
}

/// The mathematical value of a [`Subfield`].
pub struct SubfieldView {
    pub code: char,
    pub value: Seq<char>,
}

impl View for Subfield {
    type V = SubfieldView;

    open spec fn view(&self) -> SubfieldView {
        SubfieldView { code: self.code, value: self.value@ }
    }
}

impl DeepView for Subfield {
    type V = SubfieldView;

    open spec fn deep_view(&self) -> SubfieldView {
        self@
    }
}

/// One tagged field of a catalog record: a line of the record.
#[derive(Debug, PartialEq, Eq)]
pub struct Record {
    pub tag: String,
    pub ind: String,
    pub subfields: Vec<Subfield>,
}

/// The mathematical value of a [`Record`].
pub struct RecordView {
    pub tag: Seq<char>,
    pub ind: Seq<char>,
    pub subfields: Seq<SubfieldView>,
}

impl View for Record {
    type V = RecordView;

    open spec fn view(&self) -> RecordView {
        RecordView { tag: self.tag@, ind: self.ind@, subfields: self.subfields.deep_view() }
    }
}

impl DeepView for Record {
    type V = RecordView;

    open spec fn deep_view(&self) -> RecordView {
        self@
    }
}

/// The subfields that the fragments after the dollar signs of a field
/// write: the first character of a fragment is the code, the rest the value.
/// A fragment without a character writes none.
pub open spec fn marked_subfields(fragments: Seq<Seq<char>>) -> Seq<SubfieldView>
    decreases fragments.len(),
{
    if fragments.len() == 0 {
        Seq::empty()
    } else {
        let before = marked_subfields(fragments.drop_last());
        let fragment = fragments.last();
        if fragment.len() == 0 {
            before
        } else {
            before.push(SubfieldView { code: fragment[0], value: fragment.drop_first() })
        }
    }
}

/// The subfields of a field: those that its dollar signs mark, or, where
/// they mark none, the whole field under the code `_`.
pub open spec fn subfields_of(field: Seq<char>) -> Seq<SubfieldView> {
    let marked = marked_subfields(split_on(field, '$').drop_first());
    if marked.len() == 0 {
        seq![SubfieldView { code: '_', value: field }]
    } else {
        marked
    }
}

/// The tagged field that a line writes: tag, indicator and subfields, with a
/// tab between each two. A line with more or fewer than three columns writes
/// none.
pub open spec fn record_of_line(line: Seq<char>) -> Option<RecordView> {
    let columns = split_on(line, '\t');
    if columns.len() == 3 {
        Some(RecordView { tag: columns[0], ind: columns[1], subfields: subfields_of(columns[2]) })
    } else {
        None
    }
}

/// The tagged fields that the lines write, in the order of the lines.
pub open spec fn records_of_lines(lines: Seq<Seq<char>>) -> Seq<RecordView>
    decreases lines.len(),
{
    if lines.len() == 0 {
        Seq::empty()
    } else {
        let before = records_of_lines(lines.drop_last());
        match record_of_line(lines.last()) {
            Some(record) => before.push(record),
            None => before,
        }
    }
}

/// The subfields of a field.
fn read_subfields(field: &Vec<char>) -> (subfields: Vec<Subfield>)
    ensures
        subfields.deep_view() == subfields_of(field@),
{
    let fragments = split_chars(field, '$');
    let ghost marked = views(fragments@).drop_first();
    let mut subfields: Vec<Subfield> = Vec::new();
    let mut i: usize = 1;
    assert(marked.take(0) =~= Seq::<Seq<char>>::empty());
    while i < fragments.len()
        invariant
            1 <= i <= fragments.len(),
            marked == views(fragments@).drop_first(),
            subfields.deep_view() == marked_subfields(marked.take(i - 1)),
        decreases fragments.len() - i,
    {
        let fragment = &fragments[i];
        let ghost before = subfields.deep_view();
        proof {
            assert(marked.take(i as int).drop_last() =~= marked.take(i - 1));
            assert(marked.take(i as int).last() == fragment@);
        }
        if fragment.len() > 0 {
            let value = copy_range(fragment, 1, fragment.len());
            assert(value@ =~= fragment@.drop_first());
            let subfield = Subfield { code: char_at(fragment, 0), value: from_chars(&value) };
            subfields.push(subfield);
            assert(subfields.deep_view() =~= before.push(subfield@));
        }
        i += 1;
    }
    assert(marked.take(i - 1) =~= marked);
    if subfields.len() == 0 {
        let subfield = Subfield { code: '_', value: from_chars(field) };
        subfields.push(subfield);
        assert(subfields.deep_view() =~= seq![subfield@]);
    }
    subfields
}

/// Reads one line of a catalog record. A line that does not have exactly
/// three columns holds no field.
pub fn tokenize_line(line: &str) -> (record: Option<Record>)
    ensures
        record.deep_view() == record_of_line(line@),
{
    let chars = to_chars(line);
    let columns = split_chars(&chars, '\t');
    if columns.len() == 3 {
        Some(
            Record {
                tag: from_chars(&columns[0]),
                ind: from_chars(&columns[1]),
                subfields: read_subfields(&columns[2]),
            },
        )
    } else {
        None
    }
}

/// Reads the tagged fields of a catalog record, one from each line with
/// three columns, in the order of the lines.
pub fn tokenize(lines: &Vec<String>) -> (records: Vec<Record>)
    ensures
        records.deep_view() == records_of_lines(lines.deep_view()),
{
    let mut records: Vec<Record> = Vec::new();
    let mut i: usize = 0;
    while i < lines.len()
        invariant
            i <= lines.len(),
            records.deep_view() == records_of_lines(lines.deep_view().take(i as int)),
        decreases lines.len() - i,
    {
        let ghost before = records.deep_view();
        proof {
            let read = lines.deep_view().take(i + 1);
            assert(read.drop_last() =~= lines.deep_view().take(i as int));
            assert(read.last() == lines[i as int]@);
        }
        match tokenize_line(lines[i].as_str()) {
            Some(record) => {
                records.push(record);
                assert(records.deep_view() =~= before.push(record@));
            },
            None => {},
        }
        i += 1;
    }
    assert(lines.deep_view().take(i as int) =~= lines.deep_view());
    records
}

/// Whether a character is punctuation that ends a catalog value without
/// belonging to it: full stop, comma, space or semicolon.
pub open spec fn grammatical_punctuation(c: char) -> bool {
    c == '.' || c == ',' || c == ' ' || c == ';'
}

/// Whether a character is punctuation that ends a catalog value without
/// belonging to it: full stop, comma, space or semicolon.
#[verifier::when_used_as_spec(grammatical_punctuation)]
pub fn is_grammatical_punctuation(c: char) -> (b: bool)
    ensures
        b == grammatical_punctuation(c),
{
    match c {
        '.' | ',' | ' ' | ';' => true,
        _ => false,
    }
}

/// `s` without the grammatical punctuation at its end.
pub open spec fn trim_punctuation(s: Seq<char>) -> Seq<char>
    decreases s.len(),
{
    if s.len() > 0 && grammatical_punctuation(s.last()) {
        trim_punctuation(s.drop_last())
    } else {
        s
    }
}

/// What a tagged field tells of the periodical.
#[derive(Clone, Copy, Debug, PartialEq, Eq)]
pub enum FieldKind {
    /// 100, 110, 710: names of creators, written as they stand.
    Creator,
    /// 700: names of persons, written last name first.
    PersonalName,
    /// 260, 264: the publication statement.
    Publisher,
    /// 610, 650: a subject heading.
    Subject,
    /// 001, 003: the control number.
    ControlNumber,
    /// Any other tag: nothing.
    Other,
}

/// Whether a tag is made of the three characters given.
pub open spec fn is_tag(tag: Seq<char>, a: char, b: char, c: char) -> bool {
    tag.len() == 3 && tag[0] == a && tag[1] == b && tag[2] == c
}

/// What the field with this tag tells of the periodical.
pub open spec fn field_kind(tag: Seq<char>) -> FieldKind {
    if is_tag(tag, '7', '0', '0') {
        FieldKind::PersonalName
    } else if is_tag(tag, '1', '0', '0') || is_tag(tag, '1', '1', '0') || is_tag(
        tag,
        '7',
        '1',
        '0',
    ) {
        FieldKind::Creator
    } else if is_tag(tag, '2', '6', '0') || is_tag(tag, '2', '6', '4') {
        FieldKind::Publisher
    } else if is_tag(tag, '6', '1', '0') || is_tag(tag, '6', '5', '0') {
        FieldKind::Subject
    } else if is_tag(tag, '0', '0', '1') || is_tag(tag, '0', '0', '3') {
        FieldKind::ControlNumber
    } else {
        FieldKind::Other
    }
}

/// Whether a comma stands at index `i` of `s` and a space after it.
pub open spec fn comma_space_at(s: Seq<char>, i: int) -> bool {
    0 <= i && i + 1 < s.len() && s[i] == ',' && s[i + 1] == ' '
}

/// The index of the first comma that a space follows, or the length of `s`
/// where there is none.
pub open spec fn first_comma_space(s: Seq<char>) -> int
    decreases s.len(),
{
    if s.len() < 2 {
        s.len() as int
    } else if comma_space_at(s, 0) {
        0
    } else {
        1 + first_comma_space(s.drop_first())
    }
}

/// A name written `Last, First` turned into `First Last`. A name with no
/// comma and space, or with more than one, stays as it is.
pub open spec fn first_name_first(name: Seq<char>) -> Seq<char> {
    let at = first_comma_space(name);
    let first = name.skip(at + 2);
    if at < name.len() && first_comma_space(first) == first.len() {
        first + seq![' '] + name.take(at)
    } else {
        name
    }
}

/// The names that the subfields `a` of a field give, each without the
/// punctuation at its end; with `invert`, each turned first name first
/// before that.
pub open spec fn creator_names(subfields: Seq<SubfieldView>, invert: bool) -> Seq<Seq<char>>
    decreases subfields.len(),
{
    if subfields.len() == 0 {
        Seq::empty()
    } else {
        let before = creator_names(subfields.drop_last(), invert);
        let subfield = subfields.last();
        if subfield.code == 'a' {
            before.push(
                trim_punctuation(
                    if invert {
                        first_name_first(subfield.value)
                    } else {
                        subfield.value
                    },
                ),
            )
        } else {
            before
        }
    }
}

/// The values of the subfields `b` of a field, each without the punctuation
/// at its end.
pub open spec fn publisher_names(subfields: Seq<SubfieldView>) -> Seq<Seq<char>>
    decreases subfields.len(),
{
    if subfields.len() == 0 {
        Seq::empty()
    } else {
        let before = publisher_names(subfields.drop_last());
        let subfield = subfields.last();
        if subfield.code == 'b' {
            before.push(trim_punctuation(subfield.value))
        } else {
            before
        }
    }
}

/// The publisher that a publication statement names: its subfields `b`
/// joined by spaces, without the punctuation at the end.
pub open spec fn publisher_of(subfields: Seq<SubfieldView>) -> Seq<char> {
    trim_punctuation(join_with(publisher_names(subfields), seq![' ']))
}

/// What one subfield adds to a subject heading: `a` its value, `x`, `v` and
/// `z` two hyphens and the value, `d` a comma, a space and the value, any
/// other code nothing.
pub open spec fn subject_part(subfield: SubfieldView) -> Seq<char> {
    if subfield.code == 'a' {
        subfield.value
    } else if subfield.code == 'x' || subfield.code == 'v' || subfield.code == 'z' {
        seq!['-', '-'] + subfield.value
    } else if subfield.code == 'd' {
        seq![',', ' '] + subfield.value
    } else {
        Seq::empty()
    }
}

/// The parts that the subfields add to a subject heading, one after the
/// other.
pub open spec fn subject_text(subfields: Seq<SubfieldView>) -> Seq<char>
    decreases subfields.len(),
{
    if subfields.len() == 0 {
        Seq::empty()
    } else {
        subject_text(subfields.drop_last()) + subject_part(subfields.last())
    }
}

/// The subject heading that a field writes, without the punctuation at its
/// end.
pub open spec fn subject_heading(subfields: Seq<SubfieldView>) -> Seq<char> {
    trim_punctuation(subject_text(subfields))
}

/// How many characters at the start of `s` are not numeric.
pub open spec fn leading_non_numeric(s: Seq<char>) -> nat
    decreases s.len(),
{
    if s.len() > 0 && !numeric_char(s[0]) {
        1 + leading_non_numeric(s.drop_first())
    } else {
        0
    }
}

/// `s` with zeros before it, as many as it takes to make `width`
/// characters; a longer `s` stays as it is.
pub open spec fn pad_with_zeros(s: Seq<char>, width: nat) -> Seq<char> {
    if s.len() >= width {
        s
    } else {
        Seq::new((width - s.len()) as nat, |i: int| '0') + s
    }
}

/// The identifier that a control number gives: the number from its first
/// numeric character on, padded with zeros to nine characters.
pub open spec fn identifier_of(value: Seq<char>) -> Seq<char> {
    pad_with_zeros(value.skip(leading_non_numeric(value) as int), 9)
}

/// What the fields read so far tell of the periodical.
pub struct CatalogFields {
    pub creators: Seq<Seq<char>>,
    pub publisher: Seq<char>,
    pub subject_headings: Seq<Seq<char>>,
    pub identifier: Option<Seq<char>>,
}

/// Whether a field can give the identifier: its first subfield stands for
/// the whole field.
pub open spec fn holds_control_number(subfields: Seq<SubfieldView>) -> bool {
    subfields.len() > 0 && subfields[0].code == '_'
}

/// What is known after one more field: creators are added to those before,
/// a publisher replaces the one before, a subject heading is added to those
/// before, and the first control number stays the identifier.
pub open spec fn add_record(fields: CatalogFields, record: RecordView) -> CatalogFields {
    match field_kind(record.tag) {
        FieldKind::PersonalName => CatalogFields {
            creators: fields.creators + creator_names(record.subfields, true),
            ..fields
        },
        FieldKind::Creator => CatalogFields {
            creators: fields.creators + creator_names(record.subfields, false),
            ..fields
        },
        FieldKind::Publisher => CatalogFields { publisher: publisher_of(record.subfields), ..fields },
        FieldKind::Subject => CatalogFields {
            subject_headings: fields.subject_headings.push(subject_heading(record.subfields)),
            ..fields
        },
        FieldKind::ControlNumber => if fields.identifier is None && holds_control_number(
            record.subfields,
        ) {
            CatalogFields { identifier: Some(identifier_of(record.subfields[0].value)), ..fields }
        } else {
            fields
        },
        FieldKind::Other => fields,
    }
}

/// What the fields of a record tell of the periodical, read in their order.
pub open spec fn fields_of_records(records: Seq<RecordView>) -> CatalogFields
    decreases records.len(),
{
    if records.len() == 0 {
        CatalogFields {
            creators: Seq::empty(),
            publisher: Seq::empty(),
            subject_headings: Seq::empty(),
            identifier: None,
        }
    } else {
        add_record(fields_of_records(records.drop_last()), records.last())
    }
}

/// The bibliographic data that a catalog record gives under a call number.
/// A record without a control number gives none.
pub open spec fn catalog_data(call_number: CallNumberView, records: Seq<RecordView>) -> Result<
    MarcDataView,
    ArchiveErrorView,
> {
    let fields = fields_of_records(records);
    match fields.identifier {
        Some(identifier) => Ok(
            MarcDataView {
                creators: fields.creators,
                publisher: fields.publisher,
                subject_headings: fields.subject_headings,
                call_number,
                oclc_number: identifier,
            },
        ),
        None => Err(ArchiveErrorView::MissingIdentifier),
    }
}

/// Takes the grammatical punctuation off the end of `chars`.
fn trim_end_punctuation(chars: &mut Vec<char>)
    ensures
        final(chars)@ == trim_punctuation(old(chars)@),
{
    while chars.len() > 0 && is_grammatical_punctuation(chars[chars.len() - 1])
        invariant
            trim_punctuation(chars@) == trim_punctuation(old(chars)@),
        decreases chars.len(),
    {
        assert(chars@.drop_last() =~= chars@.subrange(0, chars.len() - 1));
        chars.pop();
    }
}

/// What the field with this tag tells of the periodical.
pub fn classify(tag: &str) -> (kind: FieldKind)
    ensures
        kind == field_kind(tag@),
{
    let tag = to_chars(tag);
    if tag.len() != 3 {
        return FieldKind::Other;
    }
    let a = tag[0];
    let b = tag[1];
    let c = tag[2];
    if a == '7' && b == '0' && c == '0' {
        FieldKind::PersonalName
    } else if (a == '1' && (b == '0' || b == '1') && c == '0') || (a == '7' && b == '1' && c
        == '0') {
        FieldKind::Creator
    } else if a == '2' && b == '6' && (c == '0' || c == '4') {
        FieldKind::Publisher
    } else if a == '6' && (b == '1' || b == '5') && c == '0' {
        FieldKind::Subject
    } else if a == '0' && b == '0' && (c == '1' || c == '3') {
        FieldKind::ControlNumber
    } else {
        FieldKind::Other
    }
}

/// `first_comma_space` is the one index where a comma and a space stand
/// with none before them.
proof fn lemma_first_comma_space(s: Seq<char>, i: int)
    requires
        0 <= i <= s.len(),
        forall|j: int| 0 <= j < i ==> !#[trigger] comma_space_at(s, j),
        i < s.len() ==> comma_space_at(s, i),
    ensures
        first_comma_space(s) == i,
    decreases i,
{
    if s.len() >= 2 && i > 0 {
        let rest = s.drop_first();
        assert(!comma_space_at(s, 0));
        assert forall|j: int| 0 <= j < i - 1 implies !#[trigger] comma_space_at(rest, j) by {
            assert(!comma_space_at(s, j + 1));
        }
        lemma_first_comma_space(rest, i - 1);
    }
}

/// The index of the first comma at or after `from` that a space follows,
/// or the length where there is none.
fn find_comma_space(chars: &Vec<char>, from: usize) -> (at: usize)
    requires
        from <= chars.len(),
    ensures
        from <= at <= chars.len(),
        at < chars.len() ==> comma_space_at(chars@, at as int),
        at - from == first_comma_space(chars@.skip(from as int)),
{
    let ghost rest = chars@.skip(from as int);
    let mut at: usize = from;
    while at < chars.len() && !(at + 1 < chars.len() && chars[at] == ',' && chars[at + 1] == ' ')
        invariant
            from <= at <= chars.len(),
            rest == chars@.skip(from as int),
            forall|j: int| 0 <= j < at - from ==> !#[trigger] comma_space_at(rest, j),
        decreases chars.len() - at,
    {
        at += 1;
    }
    proof {
        lemma_first_comma_space(rest, at - from);
    }
    at
}

/// A name written `Last, First` turned into `First Last`.
fn turn_first_name_first(name: &Vec<char>) -> (turned: Vec<char>)
    ensures
        turned@ == first_name_first(name@),
{
    let at = find_comma_space(name, 0);
    assert(name@.skip(0) =~= name@);
    if at < name.len() {
        let second = find_comma_space(name, at + 2);
        if second == name.len() {
            let mut turned = copy_range(name, at + 2, name.len());
            turned.push(' ');
            let last = copy_range(name, 0, at);
            append_chars(&mut turned, &last);
            assert(turned@ =~= name@.skip(at + 2) + seq![' '] + name@.take(at as int));
            return turned;
        }
    }
    copy_range(name, 0, name.len())
}

/// Adds the names that the subfields `a` of a field give to `creators`.
fn push_creators(creators: &mut Vec<String>, subfields: &Vec<Subfield>, invert: bool)
    ensures
        final(creators).deep_view() == old(creators).deep_view() + creator_names(
            subfields.deep_view(),
            invert,
        ),
{
    let ghost before = creators.deep_view();
    let mut i: usize = 0;
    assert(creators.deep_view() =~= before + creator_names(subfields.deep_view().take(0), invert));
    while i < subfields.len()
        invariant
            i <= subfields.len(),
            creators.deep_view() == before + creator_names(
                subfields.deep_view().take(i as int),
                invert,
            ),
        decreases subfields.len() - i,
    {
        proof {
            let read = subfields.deep_view().take(i + 1);
            assert(read.drop_last() =~= subfields.deep_view().take(i as int));
            assert(read.last() == subfields[i as int]@);
        }
        if subfields[i].code == 'a' {
            let value = to_chars(subfields[i].value.as_str());
            let mut name = if invert {
                turn_first_name_first(&value)
            } else {
                value
            };
            trim_end_punctuation(&mut name);
            let ghost listed = creators.deep_view();
            creators.push(from_chars(&name));
            assert(creators.deep_view() =~= listed.push(name@));
            assert(creators.deep_view() =~= before + creator_names(
                subfields.deep_view().take(i + 1),
                invert,
            ));
        }
        i += 1;
    }
    assert(subfields.deep_view().take(i as int) =~= subfields.deep_view());
}

/// The publisher that a publication statement names.
fn read_publisher(subfields: &Vec<Subfield>) -> (publisher: String)
    ensures
        publisher@ == publisher_of(subfields.deep_view()),
{
    let mut names: Vec<String> = Vec::new();
    let mut i: usize = 0;
    assert(subfields.deep_view().take(0) =~= Seq::<SubfieldView>::empty());
    while i < subfields.len()
        invariant
            i <= subfields.len(),
            names.deep_view() == publisher_names(subfields.deep_view().take(i as int)),
        decreases subfields.len() - i,
    {
        proof {
            let read = subfields.deep_view().take(i + 1);
            assert(read.drop_last() =~= subfields.deep_view().take(i as int));
            assert(read.last() == subfields[i as int]@);
        }
        if subfields[i].code == 'b' {
            let mut name = to_chars(subfields[i].value.as_str());
            trim_end_punctuation(&mut name);
            let ghost listed = names.deep_view();
            names.push(from_chars(&name));
            assert(names.deep_view() =~= listed.push(name@));
        }
        i += 1;
    }
    assert(subfields.deep_view().take(i as int) =~= subfields.deep_view());
    let joined = join_strings(&names, " ");
    proof {
        reveal_strlit(" ");
        assert(" "@ =~= seq![' ']);
    }
    let mut publisher = to_chars(joined.as_str());
    trim_end_punctuation(&mut publisher);
    from_chars(&publisher)
}

/// The subject heading that a field writes.
fn read_subject_heading(subfields: &Vec<Subfield>) -> (heading: String)
    ensures
        heading@ == subject_heading(subfields.deep_view()),
{
    let mut text: Vec<char> = Vec::new();
    let mut i: usize = 0;
    assert(subfields.deep_view().take(0) =~= Seq::<SubfieldView>::empty());
    while i < subfields.len()
        invariant
            i <= subfields.len(),
            text@ == subject_text(subfields.deep_view().take(i as int)),
        decreases subfields.len() - i,
    {
        proof {
            let read = subfields.deep_view().take(i + 1);
            assert(read.drop_last() =~= subfields.deep_view().take(i as int));
            assert(read.last() == subfields[i as int]@);
        }
        let ghost before = text@;
        let code = subfields[i].code;
        if code == 'a' {
            let value = to_chars(subfields[i].value.as_str());
            append_chars(&mut text, &value);
        } else if code == 'x' || code == 'v' || code == 'z' {
            let value = to_chars(subfields[i].value.as_str());
            text.push('-');
            text.push('-');
            append_chars(&mut text, &value);
            assert(text@ =~= before + (seq!['-', '-'] + value@));
        } else if code == 'd' {
            let value = to_chars(subfields[i].value.as_str());
            text.push(',');
            text.push(' ');
            append_chars(&mut text, &value);
            assert(text@ =~= before + (seq![',', ' '] + value@));
        } else {
            assert(text@ =~= before + Seq::<char>::empty());
        }
        i += 1;
    }
    assert(subfields.deep_view().take(i as int) =~= subfields.deep_view());
    trim_end_punctuation(&mut text);
    from_chars(&text)
}

/// The identifier that a control number gives.
fn read_identifier(value: &str) -> (identifier: String)
    ensures
        identifier@ == identifier_of(value@),
{
    let chars = to_chars(value);
    let mut start: usize = 0;
    assert(chars@.skip(0) =~= chars@);
    while start < chars.len() && !is_numeric_char(chars[start])
        invariant
            start <= chars.len(),
            leading_non_numeric(chars@) == start + leading_non_numeric(chars@.skip(start as int)),
        decreases chars.len() - start,
    {
        assert(chars@.skip(start as int).drop_first() =~= chars@.skip(start + 1));
        start += 1;
    }
    let number = copy_range(&chars, start, chars.len());
    assert(number@ =~= chars@.skip(leading_non_numeric(chars@) as int));
    let mut identifier: Vec<char> = Vec::new();
    let mut width: usize = number.len();
    while width < 9
        invariant
            number.len() <= width,
            width <= 9 || width == number.len(),
            identifier@ == Seq::new((width - number.len()) as nat, |i: int| '0'),
        decreases 9 - width,
    {
        identifier.push('0');
        width += 1;
        assert(identifier@ =~= Seq::new((width - number.len()) as nat, |i: int| '0'));
    }
    append_chars(&mut identifier, &number);
    assert(identifier@ =~= pad_with_zeros(number@, 9));
    from_chars(&identifier)
}

impl MarcData {
    /// Folds the fields of a catalog record into bibliographic data, in the
    /// order of the fields: creators and subject headings add up, the last
    /// publication statement names the publisher, and the first control
    /// number gives the identifier. Without a control number there is no
    /// data.
    pub fn try_from_records(call_number: CallNumber, records: Vec<Record>) -> (r: Result<
        Self,
        ArchiveError,
    >)
        ensures
            match r {
                Ok(data) => catalog_data(call_number@, records.deep_view()) == Ok::<
                    MarcDataView,
                    ArchiveErrorView,
                >(data@),
                Err(e) => catalog_data(call_number@, records.deep_view()) == Err::<
                    MarcDataView,
                    ArchiveErrorView,
                >(e@),
            },
    {
        let mut creators: Vec<String> = Vec::new();
        let mut publisher: String = String::new();
        let mut subject_headings: Vec<String> = Vec::new();
        let mut oclc_number: Option<String> = None;
        let mut i: usize = 0;
        assert(records.deep_view().take(0) =~= Seq::<RecordView>::empty());
        assert(creators.deep_view() =~= Seq::<Seq<char>>::empty());
        assert(subject_headings.deep_view() =~= Seq::<Seq<char>>::empty());
        while i < records.len()
            invariant
                i <= records.len(),
                fields_of_records(records.deep_view().take(i as int)) == (CatalogFields {
                    creators: creators.deep_view(),
                    publisher: publisher@,
                    subject_headings: subject_headings.deep_view(),
                    identifier: oclc_number.deep_view(),
                }),
            decreases records.len() - i,
        {
            proof {
                let read = records.deep_view().take(i + 1);
                assert(read.drop_last() =~= records.deep_view().take(i as int));
                assert(read.last() == records[i as int]@);
            }
            let record = &records[i];
            match classify(record.tag.as_str()) {
                FieldKind::PersonalName => {
                    push_creators(&mut creators, &record.subfields, true);
                },
                FieldKind::Creator => {
                    push_creators(&mut creators, &record.subfields, false);
                },
                FieldKind::Publisher => {
                    publisher = read_publisher(&record.subfields);
                },
                FieldKind::Subject => {
                    let ghost listed = subject_headings.deep_view();
                    let heading = read_subject_heading(&record.subfields);
                    subject_headings.push(heading);
                    assert(subject_headings.deep_view() =~= listed.push(heading@));
                },
                FieldKind::ControlNumber => {
                    if oclc_number.is_none() && record.subfields.len() > 0
                        && record.subfields[0].code == '_' {
                        oclc_number = Some(read_identifier(record.subfields[0].value.as_str()));
                    }
                },
                FieldKind::Other => {},
            }
            i += 1;
        }
        assert(records.deep_view().take(i as int) =~= records.deep_view());
        match oclc_number {
            Some(oclc_number) => Ok(
                MarcData { call_number, creators, publisher, subject_headings, oclc_number },
            ),
            None => Err(ArchiveError::MissingIdentifier),
        }
    }
}

/// Whether a subfield code has a part in a subject heading.
pub open spec fn is_subject_code(code: char) -> bool {
    code == 'a' || code == 'x' || code == 'v' || code == 'z' || code == 'd'
}

/// The codes of the subfields that add nothing to a subject heading, in
/// the order of the subfields.
pub open spec fn codes_without_part(subfields: Seq<SubfieldView>) -> Seq<char>
    decreases subfields.len(),
{
    if subfields.len() == 0 {
        Seq::empty()
    } else {
        let before = codes_without_part(subfields.drop_last());
        if is_subject_code(subfields.last().code) {
            before
        } else {
            before.push(subfields.last().code)
        }
    }
}

/// The subfield codes that were passed over in the subject headings of a
/// catalog record, in the order in which they stand in the record.
pub open spec fn ignored_subject_codes(records: Seq<RecordView>) -> Seq<char>
    decreases records.len(),
{
    if records.len() == 0 {
        Seq::empty()
    } else {
        let before = ignored_subject_codes(records.drop_last());
        if field_kind(records.last().tag) == FieldKind::Subject {
            before + codes_without_part(records.last().subfields)
        } else {
            before
        }
    }
}

/// The subfield codes that are passed over in the subject headings of a
/// catalog record, for the operator to be warned of.
pub fn unknown_subject_codes(records: &Vec<Record>) -> (codes: Vec<char>)
    ensures
        codes@ == ignored_subject_codes(records.deep_view()),
{
    let mut codes: Vec<char> = Vec::new();
    let mut i: usize = 0;
    assert(records.deep_view().take(0) =~= Seq::<RecordView>::empty());
    while i < records.len()
        invariant
            i <= records.len(),
            codes@ == ignored_subject_codes(records.deep_view().take(i as int)),
        decreases records.len() - i,
    {
        proof {
            let read = records.deep_view().take(i + 1);
            assert(read.drop_last() =~= records.deep_view().take(i as int));
            assert(read.last() == records[i as int]@);
        }
        let record = &records[i];
        if let FieldKind::Subject = classify(record.tag.as_str()) {
            let ghost before = codes@;
            let ghost subfields = record.subfields.deep_view();
            let mut j: usize = 0;
            assert(subfields.take(0) =~= Seq::<SubfieldView>::empty());
            assert(codes@ =~= before + codes_without_part(subfields.take(0)));
            while j < record.subfields.len()
                invariant
                    j <= record.subfields.len(),
                    subfields == record.subfields.deep_view(),
                    codes@ == before + codes_without_part(subfields.take(j as int)),
                decreases record.subfields.len() - j,
            {
                proof {
                    let read = subfields.take(j + 1);
                    assert(read.drop_last() =~= subfields.take(j as int));
                    assert(read.last() == record.subfields[j as int]@);
                }
                let code = record.subfields[j].code;
                if !(code == 'a' || code == 'x' || code == 'v' || code == 'z' || code == 'd') {
                    codes.push(code);
                    assert(codes@ =~= before + codes_without_part(subfields.take(j + 1)));
                }
                j += 1;
            }
            assert(subfields.take(j as int) =~= subfields);
        }
        i += 1;
    }
    assert(records.deep_view().take(i as int) =~= records.deep_view());
    codes
}

/// Reads the lines of a catalog record into bibliographic data under the
/// call number given. Lines that do not have three columns are passed over;
/// a record without a control number is refused.
pub fn parse_marc(call_number: CallNumber, lines: Vec<String>) -> (r: Result<
    MarcData,
    ArchiveError,
>)
    ensures
        match r {
            Ok(data) => catalog_data(call_number@, records_of_lines(lines.deep_view())) == Ok::<
                MarcDataView,
                ArchiveErrorView,
            >(data@),
            Err(e) => catalog_data(call_number@, records_of_lines(lines.deep_view())) == Err::<
                MarcDataView,
                ArchiveErrorView,
            >(e@),
        },
{
    let records = tokenize(&lines);
    MarcData::try_from_records(call_number, records)
}

} // verus!
