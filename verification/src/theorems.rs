//! What holds of the library whatever the input: of the decade labels, of
//! file names built from a title and a date, of the grouping and the order
//! of issues, and of catalog records.

pub mod catalog;
pub mod dates;
pub mod file_names;
pub mod grouping;
pub mod naming;
pub mod order;
pub mod sorting;
