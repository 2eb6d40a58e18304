use parquet::data_type::{ByteArray, ByteArrayType, Int32Type};
use parquet::file::properties::WriterProperties;
use parquet::file::reader::{FileReader as ParquetFileReader, SerializedFileReader};
use parquet::file::writer::SerializedFileWriter;
use parquet::record::reader::RowIter;
use parquet::record::Field;
use parquet::schema::parser::parse_message_type;
use readervzrd::columnar::{read_parquet_headers, read_parquet_records, render_row, render_value};
use readervzrd::{ColumnValue, FileError, FileReader, FlexRecordIter};
use std::sync::Arc;

/// A columnar file with the columns `name`, `age` and `country` and three rows.
fn people_file() -> Vec<u8> {
    let schema = parse_message_type(
        "message schema {
            REQUIRED BYTE_ARRAY name (UTF8);
            REQUIRED INT32 age;
            REQUIRED BYTE_ARRAY country (UTF8);
        }",
    )
    .unwrap();
    let mut buffer: Vec<u8> = Vec::new();
    let mut writer = SerializedFileWriter::new(
        &mut buffer,
        Arc::new(schema),
        Arc::new(WriterProperties::builder().build()),
    )
    .unwrap();
    let mut row_group = writer.next_row_group().unwrap();

    let mut column = row_group.next_column().unwrap().unwrap();
    let names = vec![ByteArray::from("John"), ByteArray::from("Alice"), ByteArray::from("Bob")];
    column.typed::<ByteArrayType>().write_batch(&names, None, None).unwrap();
    column.close().unwrap();

    let mut column = row_group.next_column().unwrap().unwrap();
    column.typed::<Int32Type>().write_batch(&[30, 25, 40], None, None).unwrap();
    column.close().unwrap();

    let mut column = row_group.next_column().unwrap().unwrap();
    let countries = vec![ByteArray::from("USA"), ByteArray::from("UK"), ByteArray::from("Canada")];
    column.typed::<ByteArrayType>().write_batch(&countries, None, None).unwrap();
    column.close().unwrap();

    row_group.close().unwrap();
    writer.close().unwrap();
    buffer
}

/// The rows of the first row group of a columnar file, decoded.
fn first_row_group(data: &[u8]) -> Vec<Option<Vec<ColumnValue>>> {
    let reader = SerializedFileReader::new(bytes::Bytes::copy_from_slice(data)).unwrap();
    let row_group = reader.get_row_group(0).unwrap();
    let rows = RowIter::from_row_group(None, row_group.as_ref()).unwrap();
    rows.map(|row| match row {
        Ok(row) => Some(
            row.get_column_iter()
                .map(|(_name, value)| match value {
                    Field::Str(text) => ColumnValue::Str(text.clone()),
                    Field::Bytes(bytes) => ColumnValue::Bytes(bytes.data().to_vec()),
                    other => ColumnValue::Other(other.to_string()),
                })
                .collect(),
        ),
        Err(_) => None,
    })
    .collect()
}

#[test]
fn test_parquet_records() {
    let data = people_file();
    let rows = first_row_group(&data);
    let mut reader = FileReader::new("tests/test.parquet", None, data)
        .expect("Failed to create FileReader")
        .with_row_group(rows);
    let records: Vec<Vec<String>> = reader.records().unwrap().collect();

    assert_eq!(records.len(), 3);
    assert_eq!(records[0], vec!["John", "30", "USA"]);
    assert_eq!(records[1], vec!["Alice", "25", "UK"]);
    assert_eq!(records[2], vec!["Bob", "40", "Canada"]);
}

#[test]
fn test_parquet_headers() {
    let mut reader = FileReader::new("tests/test.parquet", None, people_file())
        .expect("Failed to create FileReader");
    let headers = reader.headers().expect("Failed to get headers");

    assert_eq!(headers, vec!["name", "age", "country"]);
}

#[test]
fn columnar_reads_are_not_destructive() {
    let data = people_file();
    let rows = first_row_group(&data);
    let mut reader = FileReader::new("people.parquet", None, data).unwrap().with_row_group(rows);
    let first: Vec<Vec<String>> = reader.records().unwrap().collect();
    let headers = reader.headers().unwrap();
    let second: Vec<Vec<String>> = reader.records().unwrap().collect();
    assert_eq!(first, second);
    assert_eq!(headers, reader.headers().unwrap());
    assert!(matches!(reader.records().unwrap(), FlexRecordIter::Parquet(_)));
}

#[test]
fn a_file_that_is_not_columnar_has_no_headers() {
    assert!(matches!(read_parquet_headers(b"not a columnar file"), Err(FileError::ParquetError(_))));
    assert!(matches!(read_parquet_headers(b""), Err(FileError::ParquetError(_))));
    let mut reader = FileReader::new("x.parquet", None, b"PAR1".to_vec()).unwrap();
    assert!(matches!(reader.headers(), Err(FileError::ParquetError(_))));
}

#[test]
fn a_columnar_reader_without_rows_has_no_records() {
    let mut reader = FileReader::new("people.parquet", None, people_file()).unwrap();
    assert_eq!(reader.records().unwrap().collect(), Vec::<Vec<String>>::new());
}

#[test]
fn each_kind_of_value_is_rendered() {
    assert_eq!(render_value(&ColumnValue::Str("John".to_string())), "John");
    assert_eq!(render_value(&ColumnValue::Other("30".to_string())), "30");
    assert_eq!(render_value(&ColumnValue::Bytes(b"caf\xc3\xa9".to_vec())), "caf\u{e9}");
    assert_eq!(render_value(&ColumnValue::Bytes(Vec::new())), "");
}

#[test]
fn bytes_that_are_not_text_are_replaced() {
    assert_eq!(render_value(&ColumnValue::Bytes(vec![b'a', 0xff, b'b'])), "a\u{fffd}b");
    assert_eq!(render_value(&ColumnValue::Bytes(vec![0xe2, 0x82])), "\u{fffd}");
}

#[test]
fn a_row_becomes_the_fields_of_its_values() {
    let row = Some(vec![
        ColumnValue::Str("John".to_string()),
        ColumnValue::Other("30".to_string()),
        ColumnValue::Bytes(b"USA".to_vec()),
    ]);
    assert_eq!(render_row(&row), vec!["John", "30", "USA"]);
    assert_eq!(render_row(&None), Vec::<String>::new());
    assert_eq!(render_row(&Some(Vec::new())), Vec::<String>::new());
}

#[test]
fn rows_without_a_field_are_left_out() {
    let row_group = vec![
        None,
        Some(vec![ColumnValue::Str("John".to_string())]),
        Some(Vec::new()),
        None,
        Some(vec![ColumnValue::Str(String::new())]),
        Some(vec![ColumnValue::Other("1".to_string()), ColumnValue::Other("2".to_string())]),
    ];
    assert_eq!(read_parquet_records(&row_group), vec![vec!["John"], vec![""], vec!["1", "2"]]);
    assert_eq!(read_parquet_records(&Vec::new()), Vec::<Vec<String>>::new());
}

#[test]
fn rows_given_to_another_encoding_are_not_looked_at() {
    let rows = vec![Some(vec![ColumnValue::Str("John".to_string())])];
    let mut reader = FileReader::new("x.csv", Some(','), b"a\n1\n".to_vec())
        .unwrap()
        .with_row_group(rows);
    assert_eq!(reader.records().unwrap().collect(), vec![vec!["1"]]);
}
