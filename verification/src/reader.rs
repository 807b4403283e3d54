//! Reading comma-separated text with the `csv` crate.
//!
//! What the crate makes of a text is not restated here: the two results the
//! library uses are named, and everything else is proved over those names.

use vstd::prelude::*;

verus! {

/// The error type of the `csv` crate. Nothing is known of a value of it.
#[verifier::external_type_specification]
#[verifier::external_body]
pub struct ExCsvError(csv::Error);

/// The fields of the first record of `text`, as `csv::Reader::headers`
/// returns them from a reader with default settings over the bytes of
/// `text`; `None` where it returns an error. Text without any record has a
/// first record without fields.
pub uninterp spec fn csv_headers(text: Seq<char>) -> Option<Seq<Seq<char>>>;

/// The records below the first one, in the order of the text, as the
/// iterator of `csv::Reader::records` yields them from a reader with default
/// settings over the bytes of `text`, run until it ends. Each record is its
/// fields; `None` stands for an item that is an error.
pub uninterp spec fn csv_records(text: Seq<char>) -> Seq<Option<Seq<Seq<char>>>>;

/// Calls `csv::Reader::headers` on a new reader over `text`, with the first
/// record taken as the header and all other settings at their defaults, and
/// copies the fields out. The result is `csv_headers(text)`.
#[verifier::external_body]
pub(crate) fn read_headers(text: &str) -> (r: Result<Vec<String>, csv::Error>)
    ensures
        match r {
            Ok(fields) => csv_headers(text@) == Some(fields.deep_view()),
            Err(_) => csv_headers(text@) is None,
        },
{
    let mut reader = csv::ReaderBuilder::new().has_headers(true).from_reader(text.as_bytes());
    reader.headers().map(|record| record.iter().map(String::from).collect())
}

/// Runs the iterator of `csv::Reader::records` to its end on a new reader
/// over `text`, with the first record taken as the header and all other
/// settings at their defaults, and copies the fields of each record out.
/// The items are those of `csv_records(text)`, one for one.
#[verifier::external_body]
pub(crate) fn read_records(text: &str) -> (r: Vec<Result<Vec<String>, csv::Error>>)
    ensures
        r@.len() == csv_records(text@).len(),
        forall|i: int|
            0 <= i < r@.len() ==> match #[trigger] r@[i] {
                Ok(fields) => csv_records(text@)[i] == Some(fields.deep_view()),
                Err(_) => csv_records(text@)[i] is None,
            },
{
    let mut reader = csv::ReaderBuilder::new().has_headers(true).from_reader(text.as_bytes());
    reader.records().map(|item| item.map(|record| record.iter().map(String::from).collect())).collect()
}

} // verus!
