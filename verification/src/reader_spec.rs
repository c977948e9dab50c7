//! Reading of one entry's descriptor from the central directory.

use vstd::prelude::*;
use crate::compression::CompressionMethod;
use crate::datetime::DateTime;
use crate::endian::{get_u16, u16_at, u32_at};
use crate::error::{IoErrorKind, RecordKind, ZipError};
use crate::format::{
    CENTRAL_DIRECTORY_HEADER_SIGNATURE, FLAG_ENCRYPTED, FLAG_UTF8, LOCAL_FILE_HEADER_SIGNATURE,
};
use crate::stream::ByteStream;
use crate::text::{decode_text, spec_decode_text};
use crate::types::{ZipFile, ZipFileView};

verus! {

/// The extra-field block is a run of records from `at` to its end, each with
/// a two-byte kind, a two-byte length and as many bytes as the length says.
pub open spec fn extra_field_ok(block: Seq<u8>, at: int) -> bool
    decreases block.len() - at,
{
    if at >= block.len() {
        at == block.len()
    } else if at < 0 || at + 4 > block.len() {
        false
    } else if at + 4 + u16_at(block, at + 2) > block.len() {
        false
    } else {
        extra_field_ok(block, at + 4 + u16_at(block, at + 2))
    }
}

/// The offset of an entry's content, as the local file header at `offset`
/// gives it: behind the header's 30 bytes and behind the name and the extra
/// field whose lengths that header states. The error is that of the first
/// step that fails.
pub open spec fn local_data_start(bytes: Seq<u8>, offset: int) -> Result<int, ZipError> {
    if offset > bytes.len() {
        Err(ZipError::Io(IoErrorKind::SeekPastEnd))
    } else if offset + 4 > bytes.len() {
        Err(ZipError::Io(IoErrorKind::UnexpectedEof))
    } else if u32_at(bytes, offset) != LOCAL_FILE_HEADER_SIGNATURE {
        Err(ZipError::FormatMismatch(RecordKind::LocalFileHeader))
    } else if offset + 26 > bytes.len() {
        Err(ZipError::Io(IoErrorKind::SeekPastEnd))
    } else if offset + 30 > bytes.len() {
        Err(ZipError::Io(IoErrorKind::UnexpectedEof))
    } else {
        Ok(offset + 30 + u16_at(bytes, offset + 26) + u16_at(bytes, offset + 28))
    }
}

/// The end of the central directory entry at `pos`, given that its 46 fixed
/// bytes are there.
pub open spec fn central_header_end(bytes: Seq<u8>, pos: int) -> int {
    pos + 46 + u16_at(bytes, pos + 28) + u16_at(bytes, pos + 30) + u16_at(bytes, pos + 32)
}

/// The descriptor that the central directory entry at `pos` holds, given that
/// the whole entry is there and that its content starts at `data_start`.
pub open spec fn central_header_fields(bytes: Seq<u8>, pos: int, data_start: int) -> ZipFileView {
    let flags = u16_at(bytes, pos + 8);
    let is_utf8 = (flags / 2048) % 2 == 1;
    let name_end = pos + 46 + u16_at(bytes, pos + 28);
    let extra_end = name_end + u16_at(bytes, pos + 30);
    let comment_end = extra_end + u16_at(bytes, pos + 32);
    ZipFileView {
        encrypted: flags % 2 == 1,
        compression_method: CompressionMethod::spec_from_u16(u16_at(bytes, pos + 10)),
        last_modified_time: DateTime::spec_from_msdos(
            u16_at(bytes, pos + 12),
            u16_at(bytes, pos + 14),
        ),
        crc32: u32_at(bytes, pos + 16),
        compressed_size: u32_at(bytes, pos + 20) as u64,
        uncompressed_size: u32_at(bytes, pos + 24) as u64,
        file_name: spec_decode_text(bytes.subrange(pos + 46, name_end), is_utf8),
        file_comment: spec_decode_text(bytes.subrange(extra_end, comment_end), is_utf8),
        header_start: u32_at(bytes, pos + 42) as u64,
        data_start: data_start as u64,
    }
}

/// What reading the central directory entry at `pos` gives: the descriptor
/// and the position behind the entry, or the error of the first step that
/// fails. The steps are: the signature, the fixed fields, the name, extra
/// field and comment, the local file header that the entry points to, and
/// the records of the entry's extra field.
pub open spec fn parse_central_header(bytes: Seq<u8>, pos: int) -> Result<
    (ZipFileView, int),
    ZipError,
> {
    if pos + 4 > bytes.len() {
        Err(ZipError::Io(IoErrorKind::UnexpectedEof))
    } else if u32_at(bytes, pos) != CENTRAL_DIRECTORY_HEADER_SIGNATURE {
        Err(ZipError::FormatMismatch(RecordKind::CentralDirectoryHeader))
    } else if pos + 46 > bytes.len() || central_header_end(bytes, pos) > bytes.len() {
        Err(ZipError::Io(IoErrorKind::UnexpectedEof))
    } else {
        match local_data_start(bytes, u32_at(bytes, pos + 42) as int) {
            Err(e) => Err(e),
            Ok(data_start) => {
                let extra_start = pos + 46 + u16_at(bytes, pos + 28);
                let extra = bytes.subrange(extra_start, extra_start + u16_at(bytes, pos + 30));
                if !extra_field_ok(extra, 0) {
                    Err(ZipError::MalformedExtraField)
                } else {
                    Ok(
                        (
                            central_header_fields(bytes, pos, data_start),
                            central_header_end(bytes, pos),
                        ),
                    )
                }
            },
        }
    }
}

/// The fixed fields of a central directory entry that the reader keeps.
struct CentralFields {
    flags: u16,
    compression_method: u16,
    last_mod_time: u16,
    last_mod_date: u16,
    crc32: u32,
    compressed_size: u32,
    uncompressed_size: u32,
    file_name_length: u16,
    extra_field_length: u16,
    file_comment_length: u16,
    offset: u32,
}

impl CentralFields {
    /// The fields are those of the entry at `pos`.
    spec fn read_from(self, bytes: Seq<u8>, pos: int) -> bool {
        &&& self.flags == u16_at(bytes, pos + 8)
        &&& self.compression_method == u16_at(bytes, pos + 10)
        &&& self.last_mod_time == u16_at(bytes, pos + 12)
        &&& self.last_mod_date == u16_at(bytes, pos + 14)
        &&& self.crc32 == u32_at(bytes, pos + 16)
        &&& self.compressed_size == u32_at(bytes, pos + 20)
        &&& self.uncompressed_size == u32_at(bytes, pos + 24)
        &&& self.file_name_length == u16_at(bytes, pos + 28)
        &&& self.extra_field_length == u16_at(bytes, pos + 30)
        &&& self.file_comment_length == u16_at(bytes, pos + 32)
        &&& self.offset == u32_at(bytes, pos + 42)
    }
}

/// Reads the signature and the fixed fields of a central directory entry.
#[verifier::rlimit(50)]
fn read_central_fields(reader: &mut ByteStream) -> (r: Result<CentralFields, ZipError>)
    requires
        old(reader).wf(),
    ensures
        final(reader).wf(),
        final(reader)@.bytes == old(reader)@.bytes,
        old(reader)@.pos + 4 > old(reader)@.bytes.len() ==> r matches Err(
            ZipError::Io(IoErrorKind::UnexpectedEof),
        ),
        old(reader)@.pos + 4 <= old(reader)@.bytes.len() && u32_at(
            old(reader)@.bytes,
            old(reader)@.pos,
        ) != CENTRAL_DIRECTORY_HEADER_SIGNATURE ==> r matches Err(
            ZipError::FormatMismatch(RecordKind::CentralDirectoryHeader),
        ),
        old(reader)@.pos + 4 <= old(reader)@.bytes.len() && u32_at(
            old(reader)@.bytes,
            old(reader)@.pos,
        ) == CENTRAL_DIRECTORY_HEADER_SIGNATURE && old(reader)@.pos + 46 > old(
            reader,
        )@.bytes.len() ==> r matches Err(ZipError::Io(IoErrorKind::UnexpectedEof)),
        old(reader)@.pos + 46 <= old(reader)@.bytes.len() && u32_at(
            old(reader)@.bytes,
            old(reader)@.pos,
        ) == CENTRAL_DIRECTORY_HEADER_SIGNATURE ==> (r matches Ok(fields) && fields.read_from(
            old(reader)@.bytes,
            old(reader)@.pos,
        ) && final(reader)@.pos == old(reader)@.pos + 46),
{
    let signature = reader.read_le_u32()?;
    if signature != CENTRAL_DIRECTORY_HEADER_SIGNATURE {
        return Err(ZipError::FormatMismatch(RecordKind::CentralDirectoryHeader));
    }
    reader.read_le_u16()?;
    reader.read_le_u16()?;
    let flags = reader.read_le_u16()?;
    let compression_method = reader.read_le_u16()?;
    let last_mod_time = reader.read_le_u16()?;
    let last_mod_date = reader.read_le_u16()?;
    let crc32 = reader.read_le_u32()?;
    let compressed_size = reader.read_le_u32()?;
    let uncompressed_size = reader.read_le_u32()?;
    let file_name_length = reader.read_le_u16()?;
    let extra_field_length = reader.read_le_u16()?;
    let file_comment_length = reader.read_le_u16()?;
    reader.read_le_u16()?;
    reader.read_le_u16()?;
    reader.read_le_u32()?;
    let offset = reader.read_le_u32()?;
    Ok(
        CentralFields {
            flags,
            compression_method,
            last_mod_time,
            last_mod_date,
            crc32,
            compressed_size,
            uncompressed_size,
            file_name_length,
            extra_field_length,
            file_comment_length,
            offset,
        },
    )
}

/// Reads the local file header at `offset` as far as the offset of the
/// content needs it: the signature is tested, the 22 bytes of fields that the
/// central directory repeats are passed over, and the two lengths are read.
fn read_local_data_start(reader: &mut ByteStream, offset: u64) -> (r: Result<u64, ZipError>)
    requires
        old(reader).wf(),
        offset <= 0xffff_ffff,
    ensures
        final(reader).wf(),
        final(reader)@.bytes == old(reader)@.bytes,
        match local_data_start(old(reader)@.bytes, offset as int) {
            Ok(data_start) => r matches Ok(start) && start == data_start,
            Err(e) => r matches Err(x) && x == e,
        },
{
    reader.seek(offset)?;
    let signature = reader.read_le_u32()?;
    if signature != LOCAL_FILE_HEADER_SIGNATURE {
        return Err(ZipError::FormatMismatch(RecordKind::LocalFileHeader));
    }
    reader.skip(22)?;
    let file_name_length = reader.read_le_u16()? as u64;
    let extra_field_length = reader.read_le_u16()? as u64;
    let magic_and_header: u64 = 4 + 22 + 2 + 2;
    Ok(offset + magic_and_header + file_name_length + extra_field_length)
}

/// Reads the descriptor of one entry from the central directory.
///
/// The cursor of `reader` stands at the start of a central directory entry.
/// On success it stands behind that entry, so that the next entry can be read
/// at once. The offset of the content is taken from the lengths that the
/// local file header states, which may differ from those of the central
/// directory. Every failure is one of [`parse_central_header`]'s errors, and
/// no descriptor is returned with it. The bytes of the stream never change.
#[verifier::rlimit(50)]
pub fn central_header_to_zip_file(reader: &mut ByteStream) -> (r: Result<ZipFile, ZipError>)
    requires
        old(reader).wf(),
    ensures
        final(reader).wf(),
        final(reader)@.bytes == old(reader)@.bytes,
        match parse_central_header(old(reader)@.bytes, old(reader)@.pos) {
            Ok((file, next)) => r matches Ok(f) && f@ == file && final(reader)@.pos == next,
            Err(e) => r matches Err(x) && x == e,
        },
{
    // Parse central header
    let fields = read_central_fields(reader)?;
    let flags = fields.flags;
    let encrypted = flags & FLAG_ENCRYPTED == 1;
    let is_utf8 = flags & FLAG_UTF8 != 0;
    assert(encrypted == (flags % 2 == 1) && is_utf8 == ((flags / 2048) % 2 == 1)) by (bit_vector)
        requires
            encrypted == (flags & 1 == 1),
            is_utf8 == (flags & 0x0800 != 0),
    ;
    let file_name_raw = reader.read_exact(fields.file_name_length as usize)?;
    let extra_field = reader.read_exact(fields.extra_field_length as usize)?;
    let file_comment_raw = reader.read_exact(fields.file_comment_length as usize)?;

    let file_name = decode_text(file_name_raw.as_slice(), is_utf8);
    let file_comment = decode_text(file_comment_raw.as_slice(), is_utf8);

    // Remember end of central header
    let return_position = reader.tell();

    // Parse local header
    let offset = fields.offset as u64;
    let data_start = read_local_data_start(reader, offset)?;

    // Construct the result
    let mut result = ZipFile {
        encrypted,
        compression_method: CompressionMethod::from_u16(fields.compression_method),
        last_modified_time: DateTime::from_msdos(fields.last_mod_time, fields.last_mod_date),
        crc32: fields.crc32,
        compressed_size: fields.compressed_size as u64,
        uncompressed_size: fields.uncompressed_size as u64,
        file_name,
        file_comment,
        header_start: offset,
        data_start,
    };

    parse_extra_field(&mut result, extra_field.as_slice())?;

    // Go back after the central header
    reader.seek(return_position)?;

    Ok(result)
}

/// Walks the records of an extra-field block. No kind of record is known, so
/// each is passed over by its stated length and `file` stays as it is. A
/// record that runs past the end of the block makes the block malformed.
pub fn parse_extra_field(file: &mut ZipFile, data: &[u8]) -> (r: Result<(), ZipError>)
    ensures
        *final(file) == *old(file),
        extra_field_ok(data@, 0) ==> r == Ok::<(), ZipError>(()),
        !extra_field_ok(data@, 0) ==> r == Err::<(), ZipError>(ZipError::MalformedExtraField),
{
    let mut at: usize = 0;
    while at < data.len()
        invariant
            at <= data.len(),
            extra_field_ok(data@, 0) == extra_field_ok(data@, at as int),
        decreases data.len() - at,
    {
        if data.len() - at < 4 {
            return Err(ZipError::MalformedExtraField);
        }
        let kind = get_u16(data, at);
        let len = get_u16(data, at + 2) as usize;
        if len > data.len() - at - 4 {
            return Err(ZipError::MalformedExtraField);
        }
        match kind {
            _ => {
                at = at + 4 + len;
            },
        }
    }
    Ok(())
}

} // verus!
