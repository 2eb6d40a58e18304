//! Detection of a file's encoding from its path.

use crate::error::FileError;
use crate::text::same_text;
use vstd::prelude::*;

verus! {

/// The encoding of a file, fixed once when the file is opened.
#[derive(Clone, Copy, Debug, PartialEq, Eq, Structural)]
pub enum FileFormat {
    /// Delimited text with the given field delimiter.
    Csv(char),
    /// A JSON document.
    Json,
    /// A columnar binary file.
    Parquet,
}

/// The format that an extension and an optional delimiter select, by the
/// first rule that applies: `csv` and `tsv` with a delimiter are delimited
/// text, `json` is a JSON document, `parquet` is a columnar file. Anything
/// else, and `csv` or `tsv` without a delimiter, selects nothing.
pub open spec fn format_for_extension(extension: Seq<char>, delimiter: Option<char>) -> Option<
    FileFormat,
> {
    if (extension == "csv"@ || extension == "tsv"@) && delimiter is Some {
        Some(FileFormat::Csv(delimiter->0))
    } else if extension == "json"@ {
        Some(FileFormat::Json)
    } else if extension == "parquet"@ {
        Some(FileFormat::Parquet)
    } else {
        None
    }
}

/// The final component of a path as `std::path::Path::file_name` gives it,
/// under the path syntax of the platform; `None` where the path has none.
pub uninterp spec fn path_file_name(path: Seq<char>) -> Option<Seq<char>>;

/// The index of the last dot of a name that holds one.
pub open spec fn last_dot(name: Seq<char>) -> int {
    choose|at: int|
        0 <= at < name.len() && name[at] == '.' && forall|after: int|
            at < after < name.len() ==> name[after] != '.'
}

/// The extension of a file name: none where there is no file name, where the
/// name holds no dot, and where its only dot is its first character; else
/// what follows the last dot.
pub open spec fn extension_in(file_name: Option<Seq<char>>) -> Option<Seq<char>> {
    match file_name {
        None => None,
        Some(name) => if !name.contains('.') || last_dot(name) == 0 {
            None
        } else {
            Some(name.skip(last_dot(name) + 1))
        },
    }
}

/// Calls `std::path::Path::extension` on the path and hands the extension
/// out as text. The contract says what the documentation of that function
/// says: how the extension is cut out of the file name of the path.
#[verifier::external_body]
fn extension_of(file_path: &str) -> (r: Option<String>)
    ensures
        match r {
            Some(text) => extension_in(path_file_name(file_path@)) == Some(text@),
            None => extension_in(path_file_name(file_path@)) is None,
        },
{
    match std::path::Path::new(file_path).extension() {
        Some(extension) => Some(extension.to_string_lossy().into_owned()),
        None => None,
    }
}

/// What detection answers for a path whose extension is `extension`: the
/// format that the extension selects; `MissingExtension` with the path where
/// there is no extension, `UnknownFileFormat` where it selects no format.
pub open spec fn detected(
    file_path: Seq<char>,
    extension: Option<Seq<char>>,
    delimiter: Option<char>,
    r: Result<FileFormat, FileError>,
) -> bool {
    match extension {
        None => r matches Err(FileError::MissingExtension(path)) && path@ == file_path,
        Some(text) => match format_for_extension(text, delimiter) {
            Some(format) => r == Ok::<FileFormat, FileError>(format),
            None => r == Err::<FileFormat, FileError>(FileError::UnknownFileFormat),
        },
    }
}

/// The extension of a path.
pub open spec fn path_extension(path: Seq<char>) -> Option<Seq<char>> {
    extension_in(path_file_name(path))
}

impl FileFormat {
    /// Detects the format of the file at `file_path` from its extension.
    ///
    /// A path without an extension is refused with `MissingExtension`; an
    /// extension that selects no format with `UnknownFileFormat`.
    pub fn from_file(file_path: &str, delimiter: Option<char>) -> (r: Result<FileFormat, FileError>)
        ensures
            detected(file_path@, path_extension(file_path@), delimiter, r),
    {
        match extension_of(file_path) {
            None => Err(FileError::MissingExtension(file_path.to_owned())),
            Some(text) => FileFormat::from_extension(text.as_str(), delimiter),
        }
    }

    /// Selects the format for a known extension.
    pub fn from_extension(extension: &str, delimiter: Option<char>) -> (r: Result<
        FileFormat,
        FileError,
    >)
        ensures
            match format_for_extension(extension@, delimiter) {
                Some(format) => r == Ok::<FileFormat, FileError>(format),
                None => r == Err::<FileFormat, FileError>(FileError::UnknownFileFormat),
            },
    {
        let is_delimited = same_text(extension, "csv") || same_text(extension, "tsv");
        if is_delimited && delimiter.is_some() {
            Ok(FileFormat::Csv(delimiter.unwrap()))
        } else if same_text(extension, "json") {
            Ok(FileFormat::Json)
        } else if same_text(extension, "parquet") {
            Ok(FileFormat::Parquet)
        } else {
            Err(FileError::UnknownFileFormat)
        }
    }
}

} // verus!
