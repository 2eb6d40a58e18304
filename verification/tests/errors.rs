use readervzrd::{FileError, FileReader, IoErrorKind};

#[test]
fn test_unknown_file_format() {
    let result = FileReader::new("tests/test.txt", None, b"John,30,USA\n".to_vec());
    assert!(result.is_err());
    assert_eq!(result.err().unwrap(), FileError::UnknownFileFormat);
}

#[test]
fn test_partial_eq_file_error() {
    assert_eq!(FileError::UnknownFileFormat, FileError::UnknownFileFormat);
    assert_eq!(
        FileError::InvalidJsonStructure,
        FileError::InvalidJsonStructure
    );
    assert_eq!(
        FileError::IoError(IoErrorKind::NotFound),
        FileError::IoError(IoErrorKind::NotFound)
    );
    assert_ne!(
        FileError::UnknownFileFormat,
        FileError::InvalidJsonStructure
    );
}

#[test]
fn io_errors_compare_by_their_classification() {
    assert_ne!(
        FileError::IoError(IoErrorKind::NotFound),
        FileError::IoError(IoErrorKind::PermissionDenied)
    );
    assert_eq!(FileError::IoError(IoErrorKind::Other), FileError::IoError(IoErrorKind::Other));
    assert_ne!(FileError::IoError(IoErrorKind::NotFound), FileError::UnknownFileFormat);
}

#[test]
fn errors_of_one_kind_compare_without_their_text() {
    assert_eq!(
        FileError::MissingExtension("a".to_string()),
        FileError::MissingExtension("b".to_string())
    );
    assert_ne!(FileError::MissingExtension("a".to_string()), FileError::UnknownFileFormat);
    assert_eq!(
        FileError::ParquetError(parquet::errors::ParquetError::General("one".to_string())),
        FileError::ParquetError(parquet::errors::ParquetError::EOF("two".to_string()))
    );
    assert_ne!(
        FileError::ParquetError(parquet::errors::ParquetError::General("one".to_string())),
        FileError::InvalidJsonStructure
    );
}

#[test]
fn opening_delimited_text_without_a_delimiter_fails() {
    let result = FileReader::new("tests/test.csv", None, b"Name,Age\nJohn,30\n".to_vec());
    assert_eq!(result.err().unwrap(), FileError::UnknownFileFormat);
}

#[test]
fn opening_a_path_without_extension_fails() {
    let result = FileReader::new("tests/test", Some(','), Vec::new());
    match result.err().unwrap() {
        FileError::MissingExtension(path) => assert_eq!(path, "tests/test"),
        other => panic!("expected a missing extension, got {:?}", other),
    }
}
