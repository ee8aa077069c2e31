//! Splitting delimited text into records, as `csv` does it.

use crate::domain::data::{header_view, Record};
use csv::ReaderBuilder;
use vstd::prelude::*;

verus! {

/// The header record that `csv` reads from `bytes`.
///
/// This is what `csv::Reader::headers` returns on a reader over `bytes`,
/// built with the given delimiter and with headers switched on: the fields
/// of the first record, or nothing where that record is not valid UTF-8.
/// For input without any record, `csv` returns a record without fields.
pub uninterp spec fn csv_header(bytes: Seq<u8>, delimiter: u8) -> Option<Seq<Seq<char>>>;

/// The records that `csv` reads from `bytes`, in file order.
///
/// This is what the iterator `csv::Reader::records` yields on a reader over
/// `bytes`, built with the given delimiter and header setting and accepting
/// records of any number of fields: for each record its fields, or nothing
/// where `csv` reports an error for it. With headers switched on the first
/// record is not among them.
pub uninterp spec fn csv_records(bytes: Seq<u8>, delimiter: u8, has_headers: bool) -> Seq<
    Option<Seq<Seq<char>>>,
>;

/// The views of a list of parse results.
pub open spec fn parsed_views(records: Seq<Option<Record>>) -> Seq<Option<Seq<Seq<char>>>> {
    records.map_values(|record: Option<Record>| header_view(record))
}

/// Builds a `csv::Reader` over `bytes` and calls `csv::Reader::headers`.
///
/// Trusted: the result is [`csv_header`] of the arguments. The reader works
/// on the bytes in memory alone, so the same bytes give the same header.
#[verifier::external_body]
pub(crate) fn parse_header(bytes: &[u8], delimiter: u8) -> (header: Option<Record>)
    ensures
        header_view(header) == csv_header(bytes@, delimiter),
{
    let mut reader = ReaderBuilder::new().delimiter(delimiter).has_headers(true).from_reader(bytes);
    reader.headers().ok().map(|header| Record { fields: header.iter().map(String::from).collect() })
}

/// Builds a `csv::Reader` over `bytes` that accepts records of any number
/// of fields, and collects what `csv::Reader::records` yields.
///
/// Trusted: the result is [`csv_records`] of the arguments, one entry per
/// record that the iterator yields, in its order.
#[verifier::external_body]
pub(crate) fn parse_records(bytes: &[u8], delimiter: u8, has_headers: bool) -> (records: Vec<
    Option<Record>,
>)
    ensures
        parsed_views(records@) == csv_records(bytes@, delimiter, has_headers),
{
    let mut reader = ReaderBuilder::new().delimiter(delimiter).has_headers(has_headers).flexible(
        true,
    ).from_reader(bytes);
    reader.records().map(
        |parsed| parsed.ok().map(|row| Record { fields: row.iter().map(String::from).collect() }),
    ).collect()
}

} // verus!
