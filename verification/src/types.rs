//! The descriptor of an archive entry.

use vstd::prelude::*;
use crate::compression::CompressionMethod;
use crate::datetime::DateTime;

verus! {

/// What is known of one entry of an archive. The same type describes entries
/// that were read and entries that are being written.
#[derive(Clone, Debug)]
pub struct ZipFile {
    /// The content is encrypted.
    pub encrypted: bool,
    /// How the content is stored.
    pub compression_method: CompressionMethod,
    /// When the entry was last modified.
    pub last_modified_time: DateTime,
    /// The CRC-32 checksum of the content.
    pub crc32: u32,
    /// The number of bytes that the content takes in the archive.
    pub compressed_size: u64,
    /// The number of bytes of the content itself.
    pub uncompressed_size: u64,
    /// The name of the entry.
    pub file_name: String,
    /// The comment of the entry.
    pub file_comment: String,
    /// The offset of the entry's local header in the archive.
    pub header_start: u64,
    /// The offset of the first byte of the entry's content in the archive.
    pub data_start: u64,
}

/// The mathematical value of a [`ZipFile`]: its texts are sequences of
/// characters.
pub struct ZipFileView {
    pub encrypted: bool,
    pub compression_method: CompressionMethod,
    pub last_modified_time: DateTime,
    pub crc32: u32,
    pub compressed_size: u64,
    pub uncompressed_size: u64,
    pub file_name: Seq<char>,
    pub file_comment: Seq<char>,
    pub header_start: u64,
    pub data_start: u64,
}

impl View for ZipFile {
    type V = ZipFileView;

    open spec fn view(&self) -> ZipFileView {
        ZipFileView {
            encrypted: self.encrypted,
            compression_method: self.compression_method,
            last_modified_time: self.last_modified_time,
            crc32: self.crc32,
            compressed_size: self.compressed_size,
            uncompressed_size: self.uncompressed_size,
            file_name: self.file_name@,
            file_comment: self.file_comment@,
            header_start: self.header_start,
            data_start: self.data_start,
        }
    }
}

/// The views of a list of descriptors, in the list's order.
pub open spec fn views_of(files: Seq<ZipFile>) -> Seq<ZipFileView> {
    Seq::new(files.len(), |i: int| files[i]@)
}

} // verus!
