//! The errors of the library and how they compare.

use vstd::prelude::*;
use vstd::std_specs::cmp::PartialEqSpecImpl;

verus! {

/// How the operating system classified a failed read or open.
///
/// `Other` stands for every classification that has no variant of its own.
#[derive(Clone, Copy, Debug, PartialEq, Eq, Structural)]
pub enum IoErrorKind {
    NotFound,
    PermissionDenied,
    ConnectionRefused,
    ConnectionReset,
    HostUnreachable,
    NetworkUnreachable,
    ConnectionAborted,
    NotConnected,
    AddrInUse,
    AddrNotAvailable,
    NetworkDown,
    BrokenPipe,
    AlreadyExists,
    WouldBlock,
    NotADirectory,
    IsADirectory,
    DirectoryNotEmpty,
    ReadOnlyFilesystem,
    StaleNetworkFileHandle,
    InvalidInput,
    InvalidData,
    TimedOut,
    WriteZero,
    StorageFull,
    NotSeekable,
    QuotaExceeded,
    FileTooLarge,
    ResourceBusy,
    ExecutableFileBusy,
    Deadlock,
    CrossesDevices,
    TooManyLinks,
    InvalidFilename,
    ArgumentListTooLong,
    Interrupted,
    Unsupported,
    UnexpectedEof,
    OutOfMemory,
    Other,
}

#[verifier::external_type_specification]
#[verifier::external_body]
pub struct ExParquetError(parquet::errors::ParquetError);

/// Why a file could not be opened or read as a table.
#[derive(Debug)]
pub enum FileError {
    /// The path has no extension; the payload is the path.
    MissingExtension(String),
    /// The extension names no supported encoding, or it names delimited text
    /// and no delimiter was given.
    UnknownFileFormat,
    /// A JSON source is malformed or does not have the expected shape.
    InvalidJsonStructure,
    /// A read or an open failed, or delimited text could not be decoded.
    IoError(IoErrorKind),
    /// The columnar decoder rejected the file; the payload is its own error.
    ParquetError(parquet::errors::ParquetError),
}

impl FileError {
    /// Two errors are the same when they are of the same kind; two I/O errors
    /// also need the same classification. Payload text is never compared.
    pub open spec fn same_as(self, other: FileError) -> bool {
        match (self, other) {
            (FileError::MissingExtension(_), FileError::MissingExtension(_)) => true,
            (FileError::UnknownFileFormat, FileError::UnknownFileFormat) => true,
            (FileError::InvalidJsonStructure, FileError::InvalidJsonStructure) => true,
            (FileError::IoError(k1), FileError::IoError(k2)) => k1 == k2,
            (FileError::ParquetError(_), FileError::ParquetError(_)) => true,
            (_, _) => false,
        }
    }
}

impl PartialEq for FileError {
    fn eq(&self, other: &Self) -> (r: bool) {
        match (self, other) {
            (FileError::MissingExtension(_), FileError::MissingExtension(_)) => true,
            (FileError::UnknownFileFormat, FileError::UnknownFileFormat) => true,
            (FileError::InvalidJsonStructure, FileError::InvalidJsonStructure) => true,
            (FileError::IoError(k1), FileError::IoError(k2)) => *k1 == *k2,
            (FileError::ParquetError(_), FileError::ParquetError(_)) => true,
            (_, _) => false,
        }
    }
}

impl PartialEqSpecImpl for FileError {
    open spec fn obeys_eq_spec() -> bool {
        true
    }

    open spec fn eq_spec(&self, other: &FileError) -> bool {
        self.same_as(*other)
    }
}

/// Equality of errors is reflexive, symmetric and transitive.
pub proof fn lemma_error_equality_is_equivalence(a: FileError, b: FileError, c: FileError)
    ensures
        a.same_as(a),
        a.same_as(b) == b.same_as(a),
        a.same_as(b) && b.same_as(c) ==> a.same_as(c),
{
}

} // verus!
