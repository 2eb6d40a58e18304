//! Columnar files: the column names of the schema, read by the `parquet`
//! crate, and the rendering of decoded rows as records.

use crate::error::FileError;
use crate::text::{rows, texts};
use vstd::prelude::*;

verus! {

/// The value of one column in one row, as the decoder of a columnar file
/// hands it out.
#[derive(Debug, PartialEq, Eq)]
pub enum ColumnValue {
    /// A character string.
    Str(String),
    /// A byte array.
    Bytes(Vec<u8>),
    /// A value of any other type, in its default textual form.
    Other(String),
}

/// The column names that the schema of a columnar file declares, in schema
/// order, as `parquet::file::reader::SerializedFileReader` reads them from
/// the file's footer; `None` where it refuses the file.
pub uninterp spec fn parquet_columns(data: Seq<u8>) -> Option<Seq<Seq<char>>>;

/// The text that `String::from_utf8_lossy` gives for a byte array: the
/// decoded characters, with U+FFFD in place of each invalid sequence.
pub uninterp spec fn lossy_text(bytes: Seq<u8>) -> Seq<char>;

/// Opens `data` with `parquet::file::reader::SerializedFileReader::new` and
/// hands out the name of each column of its schema descriptor.
#[verifier::external_body]
fn schema_columns(data: &[u8]) -> (r: Result<Vec<String>, parquet::errors::ParquetError>)
    ensures
        match r {
            Ok(names) => parquet_columns(data@) == Some(texts(names@)),
            Err(_) => parquet_columns(data@) is None,
        },
{
    let source = bytes::Bytes::copy_from_slice(data);
    let reader = parquet::file::reader::SerializedFileReader::new(source)?;
    let schema = parquet::file::reader::FileReader::metadata(&reader).file_metadata().schema_descr();
    Ok(schema.columns().iter().map(|column| column.name().to_string()).collect())
}

/// Calls `String::from_utf8_lossy`.
#[verifier::external_body]
fn utf8_lossy(bytes: &[u8]) -> (text: String)
    ensures
        text@ == lossy_text(bytes@),
{
    String::from_utf8_lossy(bytes).into_owned()
}

/// The field that a column value becomes: a string is itself, a byte array
/// is decoded as UTF-8 with replacement of what is invalid, any other value
/// is its default text.
pub open spec fn rendered(value: ColumnValue) -> Seq<char> {
    match value {
        ColumnValue::Str(text) => text@,
        ColumnValue::Bytes(bytes) => lossy_text(bytes@),
        ColumnValue::Other(text) => text@,
    }
}

/// The record of a decoded row: the field of each of its values; the empty
/// record for a row that could not be decoded.
pub open spec fn row_record(row: Option<Vec<ColumnValue>>) -> Seq<Seq<char>> {
    match row {
        Some(values) => values@.map_values(|value: ColumnValue| rendered(value)),
        None => Seq::empty(),
    }
}

/// The records of the rows from index `from` on: the record of each row in
/// order, without the records that have no field.
pub open spec fn records_from(row_group: Seq<Option<Vec<ColumnValue>>>, from: int) -> Seq<
    Seq<Seq<char>>,
>
    decreases row_group.len() - from,
{
    if from < 0 || from >= row_group.len() {
        Seq::empty()
    } else if row_record(row_group[from]).len() == 0 {
        records_from(row_group, from + 1)
    } else {
        seq![row_record(row_group[from])] + records_from(row_group, from + 1)
    }
}

/// The records of a row group.
pub open spec fn columnar_records(row_group: Seq<Option<Vec<ColumnValue>>>) -> Seq<Seq<Seq<char>>> {
    records_from(row_group, 0)
}

/// The header list of a columnar file: the column names of its schema.
pub fn read_parquet_headers(data: &[u8]) -> (r: Result<Vec<String>, FileError>)
    ensures
        match parquet_columns(data@) {
            Some(names) => r matches Ok(headers) && texts(headers@) == names,
            None => r matches Err(FileError::ParquetError(_)),
        },
{
    match schema_columns(data) {
        Ok(names) => Ok(names),
        Err(error) => Err(FileError::ParquetError(error)),
    }
}

/// Renders one column value as a field.
pub fn render_value(value: &ColumnValue) -> (field: String)
    ensures
        field@ == rendered(*value),
{
    match value {
        ColumnValue::Str(text) => text.clone(),
        ColumnValue::Bytes(bytes) => utf8_lossy(bytes.as_slice()),
        ColumnValue::Other(text) => text.clone(),
    }
}

/// Renders one decoded row as a record.
pub fn render_row(row: &Option<Vec<ColumnValue>>) -> (record: Vec<String>)
    ensures
        texts(record@) == row_record(*row),
{
    let mut record: Vec<String> = Vec::new();
    if let Some(values) = row {
        let mut i: usize = 0;
        while i < values.len()
            invariant
                i <= values.len(),
                texts(record@) == values@.take(i as int).map_values(
                    |value: ColumnValue| rendered(value),
                ),
            decreases values.len() - i,
        {
            let field = render_value(&values[i]);
            record.push(field);
            proof {
                assert(values@.take(i + 1).map_values(|value: ColumnValue| rendered(value))
                    =~= values@.take(i as int).map_values(
                    |value: ColumnValue| rendered(value),
                ).push(rendered(values@[i as int])));
            }
            i += 1;
        }
    }
    record
}

/// The records of a row group: each row rendered, in row order; a row that
/// could not be decoded, or that renders to no field, is left out.
pub fn read_parquet_records(row_group: &Vec<Option<Vec<ColumnValue>>>) -> (records: Vec<
    Vec<String>,
>)
    ensures
        rows(records@) == columnar_records(row_group@),
{
    let mut records: Vec<Vec<String>> = Vec::new();
    let mut i: usize = 0;
    while i < row_group.len()
        invariant
            i <= row_group.len(),
            rows(records@) + records_from(row_group@, i as int) == records_from(row_group@, 0),
        decreases row_group.len() - i,
    {
        let record = render_row(&row_group[i]);
        if record.len() != 0 {
            records.push(record);
        }
        i += 1;
    }
    records
}

} // verus!
