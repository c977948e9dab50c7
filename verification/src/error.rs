//! Error values returned by the archive reader and writer.

use vstd::prelude::*;

verus! {

/// The header record at which a signature was expected.
#[derive(Clone, Copy, Debug, PartialEq, Eq, Structural)]
pub enum RecordKind {
    /// A central directory entry.
    CentralDirectoryHeader,
    /// A local file header.
    LocalFileHeader,
    /// The end-of-central-directory footer.
    CentralDirectoryEnd,
}

/// Why an operation on the byte transport failed.
#[derive(Clone, Copy, Debug, PartialEq, Eq, Structural)]
pub enum IoErrorKind {
    /// Fewer bytes were left in the stream than a read asked for.
    UnexpectedEof,
    /// A seek pointed past the end of the stream.
    SeekPastEnd,
    /// A size, an offset or a count does not fit the width the format gives
    /// it, or a stream would grow past the machine's address width.
    FileTooLarge,
    /// An argument cannot be represented in a header.
    InvalidInput,
    /// The compressor refused a chunk or could not end its stream.
    Backend,
}

/// All the ways in which reading or writing an archive can fail.
#[derive(Clone, Copy, Debug, PartialEq, Eq, Structural)]
pub enum ZipError {
    /// The bytes at a header position do not start with that header's signature.
    FormatMismatch(RecordKind),
    /// An extra-field block holds a record that runs past the end of the block.
    MalformedExtraField,
    /// An entry was requested with a method other than Stored or Deflated.
    UnsupportedCompressionMethod,
    /// The writer has been closed.
    WriterClosed,
    /// Content was written before any entry was started.
    NoActiveEntry,
    /// The transport failed.
    Io(IoErrorKind),
}

impl ZipError {
    /// A short description of the error.
    pub fn description(&self) -> (text: &'static str)
        ensures
            text@ == self.spec_description(),
    {
        match self {
            ZipError::FormatMismatch(RecordKind::CentralDirectoryHeader) => "Invalid central directory header",
            ZipError::FormatMismatch(RecordKind::LocalFileHeader) => "Invalid local file header",
            ZipError::FormatMismatch(RecordKind::CentralDirectoryEnd) => "Invalid end of central directory record",
            ZipError::MalformedExtraField => "Malformed extra field",
            ZipError::UnsupportedCompressionMethod => "Unsupported compression requested",
            ZipError::WriterClosed => "This writer has been closed",
            ZipError::NoActiveEntry => "No file has been started",
            ZipError::Io(IoErrorKind::UnexpectedEof) => "Unexpected end of stream",
            ZipError::Io(IoErrorKind::SeekPastEnd) => "Seek past the end of the stream",
            ZipError::Io(IoErrorKind::FileTooLarge) => "Archive too large",
            ZipError::Io(IoErrorKind::InvalidInput) => "Value cannot be stored in a header",
            ZipError::Io(IoErrorKind::Backend) => "Compression backend failure",
        }
    }

    /// The text that [`ZipError::description`] returns.
    pub open spec fn spec_description(&self) -> Seq<char> {
        match self {
            ZipError::FormatMismatch(RecordKind::CentralDirectoryHeader) => "Invalid central directory header"@,
            ZipError::FormatMismatch(RecordKind::LocalFileHeader) => "Invalid local file header"@,
            ZipError::FormatMismatch(RecordKind::CentralDirectoryEnd) => "Invalid end of central directory record"@,
            ZipError::MalformedExtraField => "Malformed extra field"@,
            ZipError::UnsupportedCompressionMethod => "Unsupported compression requested"@,
            ZipError::WriterClosed => "This writer has been closed"@,
            ZipError::NoActiveEntry => "No file has been started"@,
            ZipError::Io(IoErrorKind::UnexpectedEof) => "Unexpected end of stream"@,
            ZipError::Io(IoErrorKind::SeekPastEnd) => "Seek past the end of the stream"@,
            ZipError::Io(IoErrorKind::FileTooLarge) => "Archive too large"@,
            ZipError::Io(IoErrorKind::InvalidInput) => "Value cannot be stored in a header"@,
            ZipError::Io(IoErrorKind::Backend) => "Compression backend failure"@,
        }
    }
}

} // verus!
