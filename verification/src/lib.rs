//! Reading and writing of ZIP archives.
//!
//! [`writer::ZipWriter`] produces an archive entry by entry into a byte
//! stream, and [`reader_spec::central_header_to_zip_file`] reads the
//! descriptor of an entry from the central directory of an archive. The
//! functions are verified against their contracts; the few that call into
//! other crates say what they take on trust. [`laws`] states what follows for
//! whole archives.

pub mod clock;
pub mod compression;
pub mod crc32;
pub mod datetime;
pub mod deflate;
pub mod endian;
pub mod error;
pub mod footer;
pub mod format;
pub mod laws;
pub mod reader_spec;
pub mod stream;
pub mod text;
pub mod types;
pub mod writer;
pub mod writer_lemmas;
pub mod writer_model;
pub mod writer_spec;

pub use crate::compression::CompressionMethod;
pub use crate::datetime::DateTime;
pub use crate::error::ZipError;
pub use crate::reader_spec::central_header_to_zip_file;
pub use crate::stream::ByteStream;
pub use crate::types::ZipFile;
pub use crate::writer::ZipWriter;
