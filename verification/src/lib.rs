//! Metadata inference for scanned periodical issues: file names become issue
//! records grouped into periodicals, and a pasted catalog record becomes
//! bibliographic data. Every function is verified against a contract stated
//! over sequences of characters.

use vstd::prelude::*;
use vstd::string::StringExecFns;

pub mod data;
pub mod files;
pub mod listing;
pub mod marc;
pub mod periodicals;
pub mod save;
pub mod text;
pub mod topics;
pub mod theorems;

verus! {

/// Why a run over a batch of files or a catalog record was abandoned.
#[derive(Debug, PartialEq, Eq)]
pub enum ArchiveError {
    /// A collaborator failed to read or write; the payload is its message.
    Io(String),
    Unimplemented,
    /// The file at this path has a name that yields no title or no date.
    UnparseableFileName(String),
    /// The year of this date is not a number.
    UnparseableDate(String),
    /// The catalog record holds no control number.
    MissingIdentifier,
}

/// The mathematical value of an [`ArchiveError`].
pub enum ArchiveErrorView {
    Io(Seq<char>),
    Unimplemented,
    UnparseableFileName(Seq<char>),
    UnparseableDate(Seq<char>),
    MissingIdentifier,
}

impl View for ArchiveError {
    type V = ArchiveErrorView;

    open spec fn view(&self) -> ArchiveErrorView {
        match self {
            ArchiveError::Io(message) => ArchiveErrorView::Io(message@),
            ArchiveError::Unimplemented => ArchiveErrorView::Unimplemented,
            ArchiveError::UnparseableFileName(path) => ArchiveErrorView::UnparseableFileName(path@),
            ArchiveError::UnparseableDate(date) => ArchiveErrorView::UnparseableDate(date@),
            ArchiveError::MissingIdentifier => ArchiveErrorView::MissingIdentifier,
        }
    }
}

impl ArchiveErrorView {
    /// The sentence that reports this error to the operator.
    pub open spec fn message(self) -> Seq<char> {
        match self {
            ArchiveErrorView::Io(message) => "I/O error: "@ + message,
            ArchiveErrorView::Unimplemented => "Unimplemented"@,
            ArchiveErrorView::UnparseableFileName(path) => "Unparseable file name: "@ + path,
            ArchiveErrorView::UnparseableDate(date) => "Unparseable date: "@ + date,
            ArchiveErrorView::MissingIdentifier => "No OCLC number found."@,
        }
    }
}

impl ArchiveError {
    /// The sentence that reports this error to the operator.
    pub fn message(&self) -> (text: String)
        ensures
            text@ == self@.message(),
    {
        match self {
            ArchiveError::Io(message) => String::from_str("I/O error: ").concat(message.as_str()),
            ArchiveError::Unimplemented => String::from_str("Unimplemented"),
            ArchiveError::UnparseableFileName(path) => String::from_str(
                "Unparseable file name: ",
            ).concat(path.as_str()),
            ArchiveError::UnparseableDate(date) => String::from_str("Unparseable date: ").concat(
                date.as_str(),
            ),
            ArchiveError::MissingIdentifier => String::from_str("No OCLC number found."),
        }
    }
}

} // verus!
