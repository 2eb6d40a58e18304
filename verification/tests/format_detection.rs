use readervzrd::{FileError, FileFormat};

#[test]
fn test_parquet_file_format_detection() {
    let format =
        FileFormat::from_file("tests/test.parquet", None).expect("Failed to detect file format");

    match format {
        FileFormat::Parquet => assert!(true),
        _ => panic!("Expected Parquet format"),
    }
}

#[test]
fn detects_delimited_text_with_its_delimiter() {
    assert_eq!(FileFormat::from_file("data/people.csv", Some(',')), Ok(FileFormat::Csv(',')));
    assert_eq!(FileFormat::from_file("data/people.tsv", Some('\t')), Ok(FileFormat::Csv('\t')));
    assert_eq!(FileFormat::from_file("people.csv", Some(';')), Ok(FileFormat::Csv(';')));
}

#[test]
fn delimited_text_without_a_delimiter_is_unknown() {
    assert_eq!(FileFormat::from_file("people.csv", None), Err(FileError::UnknownFileFormat));
    assert_eq!(FileFormat::from_file("people.tsv", None), Err(FileError::UnknownFileFormat));
}

#[test]
fn json_and_columnar_files_ignore_the_delimiter() {
    assert_eq!(FileFormat::from_file("a/b/people.json", None), Ok(FileFormat::Json));
    assert_eq!(FileFormat::from_file("a/b/people.json", Some(',')), Ok(FileFormat::Json));
    assert_eq!(FileFormat::from_file("people.parquet", None), Ok(FileFormat::Parquet));
    assert_eq!(FileFormat::from_file("people.parquet", Some('|')), Ok(FileFormat::Parquet));
}

#[test]
fn other_extensions_are_unknown() {
    assert_eq!(FileFormat::from_file("notes.txt", None), Err(FileError::UnknownFileFormat));
    assert_eq!(FileFormat::from_file("notes.txt", Some(',')), Err(FileError::UnknownFileFormat));
    assert_eq!(FileFormat::from_file("people.CSV", Some(',')), Err(FileError::UnknownFileFormat));
    assert_eq!(FileFormat::from_file("people.csv.bak", Some(',')), Err(FileError::UnknownFileFormat));
    assert_eq!(FileFormat::from_file("people.", None), Err(FileError::UnknownFileFormat));
}

#[test]
fn a_path_without_extension_is_refused_with_the_path() {
    match FileFormat::from_file("data/people", Some(',')) {
        Err(FileError::MissingExtension(path)) => assert_eq!(path, "data/people"),
        other => panic!("expected a missing extension, got {:?}", other),
    }
    match FileFormat::from_file(".hidden", None) {
        Err(FileError::MissingExtension(path)) => assert_eq!(path, ".hidden"),
        other => panic!("expected a missing extension, got {:?}", other),
    }
    assert!(matches!(FileFormat::from_file("", None), Err(FileError::MissingExtension(_))));
}

#[test]
fn the_extension_is_that_of_the_last_component() {
    assert_eq!(FileFormat::from_file("archive.csv/people.json", None), Ok(FileFormat::Json));
    assert!(matches!(
        FileFormat::from_file("archive.csv/people", Some(',')),
        Err(FileError::MissingExtension(_))
    ));
}

#[test]
fn from_extension_follows_the_rule_table() {
    assert_eq!(FileFormat::from_extension("csv", Some(',')), Ok(FileFormat::Csv(',')));
    assert_eq!(FileFormat::from_extension("tsv", Some('\t')), Ok(FileFormat::Csv('\t')));
    assert_eq!(FileFormat::from_extension("csv", None), Err(FileError::UnknownFileFormat));
    assert_eq!(FileFormat::from_extension("json", None), Ok(FileFormat::Json));
    assert_eq!(FileFormat::from_extension("json", Some(',')), Ok(FileFormat::Json));
    assert_eq!(FileFormat::from_extension("parquet", None), Ok(FileFormat::Parquet));
    assert_eq!(FileFormat::from_extension("txt", Some(',')), Err(FileError::UnknownFileFormat));
    assert_eq!(FileFormat::from_extension("", Some(',')), Err(FileError::UnknownFileFormat));
    assert_eq!(FileFormat::from_extension("jso", None), Err(FileError::UnknownFileFormat));
    assert_eq!(FileFormat::from_extension("jsonl", None), Err(FileError::UnknownFileFormat));
}
