//! A reader over the content of one file: its header list and its records.

use crate::columnar::{columnar_records, parquet_columns, read_parquet_headers, read_parquet_records, ColumnValue};
use crate::delimited::{csv_data_rows, csv_header_row, delimiter_code, read_csv_headers, read_csv_records};
use crate::error::{FileError, IoErrorKind};
use crate::format::{detected, path_extension, FileFormat};
use crate::json::{document_headers, documents_of, elements, stream_records};
use crate::json_source::{json_document, json_stream, read_json_headers, read_json_records};
use crate::records::{successes, FlexRecordIter, RecordSource};
use crate::text::texts;
use vstd::prelude::*;

verus! {

/// Reads the header list and the records of one file from its content.
///
/// The reader holds the encoding that was detected when it was made, the
/// bytes of the file and, for a columnar file, the rows of its first row
/// group as the decoder of such files handed them out. Reading changes
/// nothing in it: each call starts from the beginning of the content.
pub struct FileReader {
    file_format: FileFormat,
    data: Vec<u8>,
    row_group: Vec<Option<Vec<ColumnValue>>>,
}

/// The encoding that records of a file of this format come from.
pub open spec fn source_of(format: FileFormat) -> RecordSource {
    match format {
        FileFormat::Csv(_) => RecordSource::Csv,
        FileFormat::Json => RecordSource::Json,
        FileFormat::Parquet => RecordSource::Parquet,
    }
}

/// Whether two answers of `headers` are the same: the same header list, or
/// the same error.
pub open spec fn same_headers(a: Result<Vec<String>, FileError>, b: Result<Vec<String>, FileError>) -> bool {
    match (a, b) {
        (Ok(x), Ok(y)) => texts(x@) == texts(y@),
        (Err(e), Err(f)) => e.same_as(f),
        _ => false,
    }
}

/// Whether two answers of `records` are the same: the same records from the
/// same encoding, or the same error.
pub open spec fn same_records(
    a: Result<FlexRecordIter, FileError>,
    b: Result<FlexRecordIter, FileError>,
) -> bool {
    match (a, b) {
        (Ok(x), Ok(y)) => x.remaining() == y.remaining() && x.source() == y.source(),
        (Err(e), Err(f)) => e.same_as(f),
        _ => false,
    }
}

impl FileReader {
    /// The encoding of the file.
    pub closed spec fn format(self) -> FileFormat {
        self.file_format
    }

    /// The bytes of the file.
    pub closed spec fn content(self) -> Seq<u8> {
        self.data@
    }

    /// The decoded rows of the first row group of a columnar file.
    pub closed spec fn row_group(self) -> Seq<Option<Vec<ColumnValue>>> {
        self.row_group@
    }

    /// The header list of the file; `None` where it cannot be read.
    ///
    /// Delimited text has the fields of its first row, a JSON document the
    /// paths that its elements add, a columnar file the column names of its
    /// schema.
    pub open spec fn header_list(self) -> Option<Seq<Seq<char>>> {
        match self.format() {
            FileFormat::Csv(delimiter) => csv_header_row(self.content(), delimiter_code(delimiter)),
            FileFormat::Json => match json_document(self.content()) {
                Some(value) => Some(document_headers(elements(value))),
                None => None,
            },
            FileFormat::Parquet => parquet_columns(self.content()),
        }
    }

    /// The records of the file; `None` where they cannot be read.
    ///
    /// Delimited text has a record for each row after the first that could
    /// be decoded, JSON text a record for each element of each top-level
    /// array, a columnar file a record for each decoded row that has a field.
    pub open spec fn record_list(self) -> Option<Seq<Seq<Seq<char>>>> {
        match self.format() {
            FileFormat::Csv(delimiter) => Some(
                successes(csv_data_rows(self.content(), delimiter_code(delimiter))),
            ),
            FileFormat::Json => stream_records(
                documents_of(successes(json_stream(self.content()))),
            ),
            FileFormat::Parquet => Some(columnar_records(self.row_group())),
        }
    }

    /// What `headers` answers on this reader: the header list, or the error
    /// of the encoding where there is none.
    pub open spec fn headers_answer(self, r: Result<Vec<String>, FileError>) -> bool {
        match self.header_list() {
            Some(list) => r matches Ok(headers) && texts(headers@) == list,
            None => match self.format() {
                FileFormat::Csv(_) => r == Err::<Vec<String>, FileError>(
                    FileError::IoError(IoErrorKind::Other),
                ),
                FileFormat::Json => r == Err::<Vec<String>, FileError>(
                    FileError::InvalidJsonStructure,
                ),
                FileFormat::Parquet => r matches Err(FileError::ParquetError(_)),
            },
        }
    }

    /// What `records` answers on this reader: the records, under the
    /// encoding of the file, or `InvalidJsonStructure` where there are none.
    pub open spec fn records_answer(self, r: Result<FlexRecordIter, FileError>) -> bool {
        match self.record_list() {
            Some(list) => r matches Ok(records) && records.remaining() == list && records.source()
                == source_of(self.format()),
            None => r == Err::<FlexRecordIter, FileError>(FileError::InvalidJsonStructure),
        }
    }

    /// Makes a reader for the file at `file_path` from its bytes.
    ///
    /// The encoding is detected from the path and the delimiter as
    /// `FileFormat::from_file` does, with the same errors. The reader has no
    /// decoded rows yet: see `with_row_group`.
    pub fn new(file_path: &str, delimiter: Option<char>, data: Vec<u8>) -> (r: Result<
        FileReader,
        FileError,
    >)
        ensures
            match r {
                Ok(reader) => {
                    &&& detected(
                        file_path@,
                        path_extension(file_path@),
                        delimiter,
                        Ok(reader.format()),
                    )
                    &&& reader.content() == data@
                    &&& reader.row_group() == Seq::<Option<Vec<ColumnValue>>>::empty()
                },
                Err(error) => detected(
                    file_path@,
                    path_extension(file_path@),
                    delimiter,
                    Err(error),
                ),
            },
    {
        match FileFormat::from_file(file_path, delimiter) {
            Ok(file_format) => Ok(FileReader { file_format, data, row_group: Vec::new() }),
            Err(error) => Err(error),
        }
    }

    /// Gives the reader the rows of the first row group of a columnar file,
    /// each as the values of its columns or as `None` where the row could
    /// not be decoded. The records of a columnar file are rendered from
    /// these rows; for a file of another encoding they are not looked at.
    pub fn with_row_group(self, row_group: Vec<Option<Vec<ColumnValue>>>) -> (reader: FileReader)
        ensures
            reader.format() == self.format(),
            reader.content() == self.content(),
            reader.row_group() == row_group@,
    {
        FileReader { file_format: self.file_format, data: self.data, row_group }
    }

    /// Returns the header list of the file, and leaves the reader as it was.
    pub fn headers(&mut self) -> (r: Result<Vec<String>, FileError>)
        ensures
            headers_call(*old(self), *final(self), r),
    {
        match self.file_format {
            FileFormat::Csv(delimiter) => read_csv_headers(self.data.as_slice(), delimiter),
            FileFormat::Json => read_json_headers(self.data.as_slice()),
            FileFormat::Parquet => read_parquet_headers(self.data.as_slice()),
        }
    }

    /// Returns the records of the file, first record first, and leaves the
    /// reader as it was.
    pub fn records(&mut self) -> (r: Result<FlexRecordIter, FileError>)
        ensures
            records_call(*old(self), *final(self), r),
    {
        match self.file_format {
            FileFormat::Csv(delimiter) => {
                let list = read_csv_records(self.data.as_slice(), delimiter);
                Ok(FlexRecordIter::new(RecordSource::Csv, list))
            },
            FileFormat::Json => self.read_json_records(),
            FileFormat::Parquet => {
                let list = read_parquet_records(&self.row_group);
                Ok(FlexRecordIter::new(RecordSource::Parquet, list))
            },
        }
    }

    /// Returns the records that the content holds when it is read as JSON
    /// text, whatever the encoding of the file, and leaves the reader as it
    /// was.
    pub fn read_json_records(&mut self) -> (r: Result<FlexRecordIter, FileError>)
        ensures
            *final(self) == *old(self),
            match stream_records(documents_of(successes(json_stream(old(self).content())))) {
                Some(list) => r matches Ok(records) && records.remaining() == list
                    && records.source() == RecordSource::Json,
                None => r == Err::<FlexRecordIter, FileError>(FileError::InvalidJsonStructure),
            },
    {
        match read_json_records(self.data.as_slice()) {
            Ok(list) => Ok(FlexRecordIter::new(RecordSource::Json, list)),
            Err(error) => Err(error),
        }
    }
}

/// What a call of `headers` does: it leaves the reader as it was and answers
/// for it.
pub open spec fn headers_call(
    before: FileReader,
    after: FileReader,
    r: Result<Vec<String>, FileError>,
) -> bool {
    after == before && before.headers_answer(r)
}

/// What a call of `records` does: it leaves the reader as it was and answers
/// for it.
pub open spec fn records_call(
    before: FileReader,
    after: FileReader,
    r: Result<FlexRecordIter, FileError>,
) -> bool {
    after == before && before.records_answer(r)
}

/// Reading is not destructive: `headers` followed by `records` and `records`
/// followed by `headers` answer the same and end with the same reader.
pub proof fn lemma_read_order_makes_no_difference(
    start: FileReader,
    after_headers: FileReader,
    headers_first: Result<Vec<String>, FileError>,
    after_both: FileReader,
    records_second: Result<FlexRecordIter, FileError>,
    after_records: FileReader,
    records_first: Result<FlexRecordIter, FileError>,
    after_both_reversed: FileReader,
    headers_second: Result<Vec<String>, FileError>,
)
    requires
        headers_call(start, after_headers, headers_first),
        records_call(after_headers, after_both, records_second),
        records_call(start, after_records, records_first),
        headers_call(after_records, after_both_reversed, headers_second),
    ensures
        same_headers(headers_first, headers_second),
        same_records(records_first, records_second),
        after_both == after_both_reversed,
{
}

/// Two calls of `records`, one after the other, answer the same.
pub proof fn lemma_records_twice(
    start: FileReader,
    after_first: FileReader,
    first: Result<FlexRecordIter, FileError>,
    after_second: FileReader,
    second: Result<FlexRecordIter, FileError>,
)
    requires
        records_call(start, after_first, first),
        records_call(after_first, after_second, second),
    ensures
        same_records(first, second),
{
}

} // verus!
