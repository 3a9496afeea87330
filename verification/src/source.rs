//! Where the library meets the `csv` crate.
//!
//! Nothing in this file is proved. Each item says what it takes on trust from the crate.

use vstd::prelude::*;

verus! {

/// The records that the `csv` crate reads from `data`.
///
/// The reader is the crate's default one with `;` as its delimiter, set not to keep the first
/// record back as a header, so that the header is the first entry. An entry is `None` where the
/// reader reports an error in place of a record: a record that is not UTF-8, or one whose number
/// of fields differs from that of the first record.
pub uninterp spec fn csv_records(data: Seq<u8>) -> Seq<Option<Seq<Seq<char>>>>;

/// What the `csv` crate makes of a cell that a record type declares as `u8`.
pub uninterp spec fn cell_as_u8(cell: Seq<char>) -> Option<u8>;

/// What the `csv` crate makes of a cell that a record type declares as `i32`.
pub uninterp spec fn cell_as_i32(cell: Seq<char>) -> Option<i32>;

/// Runs `csv::Reader::records` over `data` to its end and copies out every record's fields.
///
/// Trusted: that the reader's answer depends on the bytes alone, which is what gives
/// [`csv_records`] its meaning.
#[verifier::external_body]
pub(crate) fn read_records(data: &[u8]) -> (records: Vec<Option<Vec<String>>>)
    ensures
        records.deep_view() == csv_records(data@),
{
    let mut reader =
        csv::ReaderBuilder::new().delimiter(b';').has_headers(false).from_reader(data);
    reader.records().map(|r| r.ok().map(|rec| rec.iter().map(String::from).collect())).collect()
}

/// Hands `cell` to `csv::StringRecord::deserialize` as the only field of a record whose type is
/// one `u8`.
///
/// Trusted: that the outcome depends on the cell's text alone. `None` stands for every error
/// that the crate reports.
#[verifier::external_body]
pub(crate) fn parse_u8(cell: &str) -> (parsed: Option<u8>)
    ensures
        parsed == cell_as_u8(cell@),
{
    let mut record = csv::StringRecord::new();
    record.push_field(cell);
    record.deserialize::<(u8,)>(None).ok().map(|fields| fields.0)
}

/// Hands `cell` to `csv::StringRecord::deserialize` as the only field of a record whose type is
/// one `i32`.
///
/// Trusted: that the outcome depends on the cell's text alone. `None` stands for every error
/// that the crate reports.
#[verifier::external_body]
pub(crate) fn parse_i32(cell: &str) -> (parsed: Option<i32>)
    ensures
        parsed == cell_as_i32(cell@),
{
    let mut record = csv::StringRecord::new();
    record.push_field(cell);
    record.deserialize::<(i32,)>(None).ok().map(|fields| fields.0)
}

} // verus!
