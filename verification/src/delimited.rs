//! Delimited text, read by the `csv` crate.

use crate::error::{FileError, IoErrorKind};
use crate::records::{keep_successes, lemma_successes_map, successes};
use crate::text::{rows, texts};
use vstd::prelude::*;

verus! {

#[verifier::external_type_specification]
#[verifier::external_body]
pub struct ExCsvError(csv::Error);

/// The first row of a delimited text as `csv::Reader::headers` gives it, for
/// a reader built with this delimiter and otherwise by default; `None` where
/// the reader reports an error.
pub uninterp spec fn csv_header_row(data: Seq<u8>, delimiter: u8) -> Option<Seq<Seq<char>>>;

/// What `csv::Reader::records` yields for a delimited text, for a reader
/// built with this delimiter and otherwise by default: the fields of each row
/// after the first, or `None` where the reader reports an error for a row.
pub uninterp spec fn csv_data_rows(data: Seq<u8>, delimiter: u8) -> Seq<Option<Seq<Seq<char>>>>;

/// Builds a `csv::Reader` over `data` and calls `headers` on it.
#[verifier::external_body]
fn header_row(data: &[u8], delimiter: u8) -> (r: Result<Vec<String>, csv::Error>)
    ensures
        match r {
            Ok(fields) => csv_header_row(data@, delimiter) == Some(texts(fields@)),
            Err(_) => csv_header_row(data@, delimiter) is None,
        },
{
    let mut reader = csv::ReaderBuilder::new().delimiter(delimiter).from_reader(data);
    match reader.headers() {
        Ok(record) => Ok(record.iter().map(|field| field.to_string()).collect()),
        Err(error) => Err(error),
    }
}

/// Builds a `csv::Reader` over `data` and collects what `records` yields,
/// each row as its fields or as `None` where the reader reported an error.
#[verifier::external_body]
fn data_rows(data: &[u8], delimiter: u8) -> (r: Vec<Option<Vec<String>>>)
    ensures
        r@.len() == csv_data_rows(data@, delimiter).len(),
        forall|i: int|
            0 <= i < r@.len() ==> match #[trigger] r@[i] {
                Some(fields) => csv_data_rows(data@, delimiter)[i] == Some(texts(fields@)),
                None => csv_data_rows(data@, delimiter)[i] is None,
            },
{
    let mut reader = csv::ReaderBuilder::new().delimiter(delimiter).from_reader(data);
    reader.records().map(
        |row| row.ok().map(|record| record.iter().map(|field| field.to_string()).collect()),
    ).collect()
}

/// The byte that stands for a delimiter: its code point, cut to eight bits.
pub open spec fn delimiter_code(delimiter: char) -> u8 {
    ((delimiter as u32) % 256) as u8
}

/// The byte that stands for a delimiter.
pub fn delimiter_byte(delimiter: char) -> (byte: u8)
    ensures
        byte == delimiter_code(delimiter),
{
    ((delimiter as u32) % 256) as u8
}

/// The header list of a delimited text: the fields of its first row.
///
/// A first row that the reader cannot decode is refused with an I/O error
/// of kind `Other`.
pub fn read_csv_headers(data: &[u8], delimiter: char) -> (r: Result<Vec<String>, FileError>)
    ensures
        match csv_header_row(data@, delimiter_code(delimiter)) {
            Some(fields) => r matches Ok(headers) && texts(headers@) == fields,
            None => r == Err::<Vec<String>, FileError>(FileError::IoError(IoErrorKind::Other)),
        },
{
    match header_row(data, delimiter_byte(delimiter)) {
        Ok(fields) => Ok(fields),
        Err(_) => Err(FileError::IoError(IoErrorKind::Other)),
    }
}

/// The records of a delimited text: the fields of each row after the first,
/// in file order. A row that the reader cannot decode is left out.
pub fn read_csv_records(data: &[u8], delimiter: char) -> (records: Vec<Vec<String>>)
    ensures
        rows(records@) == successes(csv_data_rows(data@, delimiter_code(delimiter))),
{
    let outcomes = data_rows(data, delimiter_byte(delimiter));
    proof {
        lemma_successes_map(
            outcomes@,
            csv_data_rows(data@, delimiter_code(delimiter)),
            |record: Vec<String>| texts(record@),
        );
    }
    keep_successes(outcomes)
}

} // verus!
