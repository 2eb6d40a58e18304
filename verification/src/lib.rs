//! A uniform tabular view over delimited text, JSON documents and columnar
//! files: one header list and one sequence of string records, whatever the
//! encoding of the source.

pub mod columnar;
pub mod delimited;
pub mod error;
pub mod format;
pub mod json;
pub mod json_source;
pub mod reader;
pub mod records;
pub mod text;

pub use columnar::ColumnValue;
pub use error::{FileError, IoErrorKind};
pub use format::FileFormat;
pub use json::{flatten_json_object, flatten_json_record, JsonDocument, JsonMember, JsonValue};
pub use reader::FileReader;
pub use records::{FlexRecordIter, RecordList, RecordSource};
