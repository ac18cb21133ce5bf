//! Which entries of a directory are passed over when it is searched for
//! issues.

use vstd::prelude::*;
use crate::text::to_chars;

verus! {

/// The directories that are not searched.
pub const SKIP_DIRS: [&'static str; 2] = ["target", "__MACOSX"];

/// The extensions of files that hold no issue.
pub const SKIP_EXTS: [&'static str; 2] = ["rs", "toml"];

/// The files that hold no issue.
pub const SKIP_FILES: [&'static str; 1] = [".DS_Store"];

/// Whether two strings are made of the same characters.
pub fn same_text(a: &str, b: &str) -> (same: bool)
    ensures
        same == (a@ == b@),
{
    let first = to_chars(a);
    let second = to_chars(b);
    if first.len() != second.len() {
        return false;
    }
    let mut i: usize = 0;
    while i < first.len()
        invariant
            i <= first.len() == second.len(),
            first@ == a@,
            second@ == b@,
            forall|j: int| 0 <= j < i ==> first@[j] == second@[j],
        decreases first.len() - i,
    {
        if first[i] != second[i] {
            return false;
        }
        i += 1;
    }
    assert(first@ =~= second@);
    true
}

/// Whether a directory of this name is not searched.
pub open spec fn skips_directory(name: Seq<char>) -> bool {
    name == "target"@ || name == "__MACOSX"@
}

/// Whether a file of this name, with this extension if it has one, holds no
/// issue.
pub open spec fn skips_file(name: Seq<char>, extension: Option<Seq<char>>) -> bool {
    name == ".DS_Store"@ || extension == Some("rs"@) || extension == Some("toml"@)
}

/// Whether a directory of this name is not searched.
pub fn is_skipped_directory(name: &str) -> (skipped: bool)
    ensures
        skipped == skips_directory(name@),
{
    same_text(name, "target") || same_text(name, "__MACOSX")
}

/// Whether a file of this name, with this extension if it has one, holds no
/// issue.
pub fn is_skipped_file(name: &str, extension: Option<&str>) -> (skipped: bool)
    ensures
        skipped == skips_file(name@, extension.deep_view()),
{
    if same_text(name, ".DS_Store") {
        return true;
    }
    match extension {
        Some(extension) => same_text(extension, "rs") || same_text(extension, "toml"),
        None => false,
    }
}

} // verus!
