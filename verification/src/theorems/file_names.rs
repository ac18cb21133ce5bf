//! Reading a file name gives back the title and the date that it was built
//! from.

use vstd::prelude::*;
use crate::ArchiveErrorView;
use crate::data::DigitalFormatView;
use crate::files::{
    date_range_of, date_run_len, file_date, file_extension, file_stem, file_title, has_extension,
    is_date_char, parse_file_name, trailing_underscores, underscores_to_spaces, FileEntryView,
    IssueFileDataView,
};
use crate::text::{is_decimal_digit, lemma_last_index_of};

verus! {

/// `s` with an underscore in place of each space.
pub open spec fn spaces_to_underscores(s: Seq<char>) -> Seq<char> {
    Seq::new(s.len(), |i: int| if s[i] == ' ' { '_' } else { s[i] })
}

/// The file name that stands for a title, a date and an extension: the
/// title with underscores for its spaces, an underscore, the date, a dot and
/// the extension.
pub open spec fn file_name_of(title: Seq<char>, date: Seq<char>, ext: Seq<char>) -> Seq<char> {
    spaces_to_underscores(title) + seq!['_'] + date + seq!['.'] + ext
}

/// Whether a title can be read back from a file name: it is not empty, has
/// no underscore and does not end in a space.
pub open spec fn is_plain_title(title: Seq<char>) -> bool {
    &&& title.len() > 0
    &&& title.last() != ' '
    &&& forall|i: int| 0 <= i < title.len() ==> #[trigger] title[i] != '_'
}

/// Whether a date is made of decimal digits and hyphens, at least one of
/// them.
pub open spec fn is_plain_date(date: Seq<char>) -> bool {
    &&& date.len() > 0
    &&& forall|i: int|
        0 <= i < date.len() ==> is_decimal_digit(#[trigger] date[i]) || date[i] == '-'
}

/// A run of date characters at the end of a string is the date run of the
/// string where the character before it is none.
proof fn lemma_date_run(s: Seq<char>, run: int)
    requires
        0 <= run <= s.len(),
        forall|j: int| s.len() - run <= j < s.len() ==> is_date_char(#[trigger] s[j]),
        run < s.len() ==> !is_date_char(s[s.len() - run - 1]),
    ensures
        date_run_len(s) == run,
    decreases run,
{
    if run > 0 {
        let init = s.drop_last();
        assert(is_date_char(s[s.len() - 1]));
        assert forall|j: int| init.len() - (run - 1) <= j < init.len() implies is_date_char(
            #[trigger] init[j],
        ) by {
            assert(init[j] == s[j]);
        }
        lemma_date_run(init, run - 1);
    }
}

/// A string that ends in one underscore after another character ends in
/// exactly one.
proof fn lemma_one_trailing_underscore(s: Seq<char>)
    requires
        s.len() >= 2,
        s.last() == '_',
        s[s.len() - 2] != '_',
    ensures
        trailing_underscores(s) == 1,
{
    let init = s.drop_last();
    assert(init.last() == s[s.len() - 2]);
    assert(trailing_underscores(init) == 0);
}

/// The name built from a stem and an extension without a dot has that stem
/// and that extension.
proof fn lemma_stem_and_extension(stem: Seq<char>, ext: Seq<char>)
    requires
        forall|i: int| 0 <= i < ext.len() ==> #[trigger] ext[i] != '.',
    ensures
        has_extension(stem + seq!['.'] + ext),
        file_stem(stem + seq!['.'] + ext) == stem,
        file_extension(stem + seq!['.'] + ext) == ext,
{
    let name = stem + seq!['.'] + ext;
    let dot = stem.len() as int;
    assert(name[dot] == '.');
    assert forall|j: int| dot < j < name.len() implies name[j] != '.' by {
        assert(name[j] == ext[j - dot - 1]);
    }
    lemma_last_index_of(name, '.', dot);
    assert(name.take(dot) =~= stem);
    assert(name.skip(dot + 1) =~= ext);
}

/// The stem built from a written title, an underscore and a date of digits
/// and hyphens ends in that date and in nothing more of a date.
proof fn lemma_date_of_stem(written: Seq<char>, date: Seq<char>)
    requires
        is_plain_date(date),
    ensures
        date_run_len(written + seq!['_'] + date) == date.len(),
{
    let stem = written + seq!['_'] + date;
    assert forall|j: int| stem.len() - date.len() <= j < stem.len() implies is_date_char(
        #[trigger] stem[j],
    ) by {
        assert(stem[j] == date[j - written.len() - 1]);
        assert(is_decimal_digit(date[j - written.len() - 1]) || date[j - written.len() - 1]
            == '-');
    }
    assert(stem[stem.len() - date.len() - 1] == '_');
    assert(!is_date_char('_'));
    lemma_date_run(stem, date.len() as int);
}

/// A title written with underscores for its spaces, and an underscore after
/// it, reads as the title.
proof fn lemma_title_of_written(title: Seq<char>)
    requires
        is_plain_title(title),
    ensures
        ({
            let dated = spaces_to_underscores(title) + seq!['_'];
            underscores_to_spaces(dated.take(dated.len() - trailing_underscores(dated))) == title
        }),
{
    let written = spaces_to_underscores(title);
    let dated = written + seq!['_'];
    assert(dated.last() == '_');
    assert(dated[dated.len() - 2] == written[written.len() - 1]);
    assert(written[written.len() - 1] != '_');
    lemma_one_trailing_underscore(dated);
    assert(dated.take(dated.len() - 1) =~= written);
    assert(underscores_to_spaces(written) =~= title);
}

/// Reading a file name is a left inverse of building one: the name built
/// from a title without underscores that does not end in a space, a date of
/// digits and hyphens and an extension without a dot gives back the title,
/// the date and the extension.
pub proof fn lemma_file_name_of(title: Seq<char>, date: Seq<char>, ext: Seq<char>)
    requires
        is_plain_title(title),
        is_plain_date(date),
        forall|i: int| 0 <= i < ext.len() ==> #[trigger] ext[i] != '.',
    ensures
        has_extension(file_name_of(title, date, ext)),
        file_title(file_name_of(title, date, ext)) == title,
        file_date(file_name_of(title, date, ext)) == date,
        file_extension(file_name_of(title, date, ext)) == ext,
{
    let name = file_name_of(title, date, ext);
    let written = spaces_to_underscores(title);
    let stem = written + seq!['_'] + date;
    lemma_stem_and_extension(stem, ext);
    lemma_date_of_stem(written, date);
    lemma_title_of_written(title);
    assert(file_stem(name) == stem);
    assert(stem.skip(stem.len() - date.len()) =~= date);
    assert(stem.take(stem.len() - date.len()) =~= written + seq!['_']);
}

/// The name built from a title, a date and an extension is read as the
/// issue of that title and date where the year of the date is a number, and
/// refused for its date where it is not.
pub proof fn lemma_parse_file_name_of(
    path: Seq<char>,
    title: Seq<char>,
    date: Seq<char>,
    ext: Seq<char>,
)
    requires
        is_plain_title(title),
        is_plain_date(date),
        forall|i: int| 0 <= i < ext.len() ==> #[trigger] ext[i] != '.',
    ensures
        parse_file_name(FileEntryView { path, file_name: file_name_of(title, date, ext) })
            == match date_range_of(date) {
            Some(label) => Ok::<IssueFileDataView, ArchiveErrorView>(
                IssueFileDataView {
                    node_title: title,
                    date_original: date,
                    date_range: label,
                    format: DigitalFormatView::of_extension(ext),
                },
            ),
            None => Err::<IssueFileDataView, ArchiveErrorView>(
                ArchiveErrorView::UnparseableDate(date),
            ),
        },
{
    lemma_file_name_of(title, date, ext);
}

} // verus!
