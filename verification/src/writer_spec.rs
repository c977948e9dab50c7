//! Writing of the header records of an entry.

use vstd::prelude::*;
use crate::endian::{put_bytes, put_u16, put_u32};
use crate::error::{IoErrorKind, ZipError};
use crate::format::{
    central_header_bytes, encodable, local_header_bytes, CENTRAL_DIRECTORY_HEADER_SIGNATURE,
    FLAG_ENCRYPTED, FLAG_UTF8, FORMAT_VERSION, LOCAL_FILE_HEADER_SIGNATURE, MAX_U16, MAX_U32,
};
use crate::stream::ByteStream;
use crate::types::ZipFile;

verus! {

/// Tells whether every field of the descriptor fits its width in a header.
pub fn is_encodable(file: &ZipFile) -> (b: bool)
    ensures
        b == encodable(file@),
{
    file.file_name.as_str().as_bytes().len() as u64 <= MAX_U16
        && file.file_comment.as_str().as_bytes().len() as u64 <= MAX_U16 && file.compressed_size
        <= MAX_U32 && file.uncompressed_size <= MAX_U32 && file.header_start <= MAX_U32
        && file.last_modified_time.is_representable()
}

/// The flags of a written header.
fn flags_of(file: &ZipFile) -> (flags: u16)
    ensures
        flags == crate::format::header_flags(file@),
{
    if file.encrypted {
        assert(FLAG_UTF8 | FLAG_ENCRYPTED == 0x0801) by (bit_vector);
        FLAG_UTF8 | FLAG_ENCRYPTED
    } else {
        FLAG_UTF8
    }
}

/// The bytes of the local file header of `file`, or nothing where a field
/// does not fit.
pub fn encode_local_file_header(file: &ZipFile) -> (header: Option<Vec<u8>>)
    ensures
        encodable(file@) ==> (header matches Some(bytes) && bytes@ == local_header_bytes(file@)),
        !encodable(file@) ==> header.is_none(),
{
    if !is_encodable(file) {
        return None;
    }
    let (time, date) = match file.last_modified_time.to_msdos() {
        Some(packed) => packed,
        None => { return None; },
    };
    let name = file.file_name.as_str().as_bytes();
    let mut out: Vec<u8> = Vec::new();
    put_u32(&mut out, LOCAL_FILE_HEADER_SIGNATURE);
    put_u16(&mut out, FORMAT_VERSION);
    put_u16(&mut out, flags_of(file));
    put_u16(&mut out, file.compression_method.to_u16());
    put_u16(&mut out, time);
    put_u16(&mut out, date);
    put_u32(&mut out, file.crc32);
    put_u32(&mut out, file.compressed_size as u32);
    put_u32(&mut out, file.uncompressed_size as u32);
    put_u16(&mut out, name.len() as u16);
    put_u16(&mut out, 0);
    put_bytes(&mut out, name);
    proof {
        reveal(local_header_bytes);
    }
    assert(out@ =~= crate::format::local_header_fields(file@));
    Some(out)
}

/// The bytes of the central directory entry of `file`, or nothing where a
/// field does not fit.
pub fn encode_central_directory_header(file: &ZipFile) -> (header: Option<Vec<u8>>)
    ensures
        encodable(file@) ==> (header matches Some(bytes) && bytes@ == central_header_bytes(
            file@,
        )),
        !encodable(file@) ==> header.is_none(),
{
    if !is_encodable(file) {
        return None;
    }
    let (time, date) = match file.last_modified_time.to_msdos() {
        Some(packed) => packed,
        None => { return None; },
    };
    let name = file.file_name.as_str().as_bytes();
    let comment = file.file_comment.as_str().as_bytes();
    let mut out: Vec<u8> = Vec::new();
    put_u32(&mut out, CENTRAL_DIRECTORY_HEADER_SIGNATURE);
    put_u16(&mut out, FORMAT_VERSION);
    put_u16(&mut out, FORMAT_VERSION);
    put_u16(&mut out, flags_of(file));
    put_u16(&mut out, file.compression_method.to_u16());
    put_u16(&mut out, time);
    put_u16(&mut out, date);
    put_u32(&mut out, file.crc32);
    put_u32(&mut out, file.compressed_size as u32);
    put_u32(&mut out, file.uncompressed_size as u32);
    put_u16(&mut out, name.len() as u16);
    put_u16(&mut out, 0);
    put_u16(&mut out, comment.len() as u16);
    put_u16(&mut out, 0);
    put_u16(&mut out, 0);
    put_u32(&mut out, 0);
    put_u32(&mut out, file.header_start as u32);
    put_bytes(&mut out, name);
    put_bytes(&mut out, comment);
    proof {
        reveal(central_header_bytes);
    }
    assert(out@ =~= crate::format::central_header_fields(file@));
    Some(out)
}

/// Writes the local file header of `file` at the cursor.
///
/// A descriptor with a field that does not fit its width is refused as
/// invalid input, and a header that would move the cursor past the
/// machine's address width as too large; both leave the stream as it was.
pub fn write_local_file_header(writer: &mut ByteStream, file: &ZipFile) -> (r: Result<
    (),
    ZipError,
>)
    requires
        old(writer).wf(),
    ensures
        final(writer).wf(),
        !encodable(file@) ==> r == Err::<(), ZipError>(ZipError::Io(IoErrorKind::InvalidInput))
            && final(writer)@ == old(writer)@,
        encodable(file@) && old(writer)@.pos + local_header_bytes(file@).len() > usize::MAX ==> r
            == Err::<(), ZipError>(ZipError::Io(IoErrorKind::FileTooLarge)) && final(writer)@
            == old(writer)@,
        encodable(file@) && old(writer)@.pos + local_header_bytes(file@).len() <= usize::MAX ==> r
            == Ok::<(), ZipError>(()) && final(writer)@ == old(writer)@.write(
            local_header_bytes(file@),
        ),
{
    match encode_local_file_header(file) {
        Some(header) => writer.write(header.as_slice()),
        None => Err(ZipError::Io(IoErrorKind::InvalidInput)),
    }
}

/// Writes the local file header of `file` again, over the one that stands at
/// `file.header_start`, and leaves the cursor behind it.
///
/// Refused like [`write_local_file_header`], and with a seek error where
/// `file.header_start` lies behind the end of the stream; each refusal leaves
/// the stream as it was.
pub fn update_local_file_header(writer: &mut ByteStream, file: &ZipFile) -> (r: Result<
    (),
    ZipError,
>)
    requires
        old(writer).wf(),
    ensures
        final(writer).wf(),
        !encodable(file@) ==> r == Err::<(), ZipError>(ZipError::Io(IoErrorKind::InvalidInput))
            && final(writer)@ == old(writer)@,
        encodable(file@) && file.header_start > old(writer)@.bytes.len() ==> r == Err::<
            (),
            ZipError,
        >(ZipError::Io(IoErrorKind::SeekPastEnd)) && final(writer)@ == old(writer)@,
        encodable(file@) && file.header_start <= old(writer)@.bytes.len() && file.header_start
            + local_header_bytes(file@).len() > usize::MAX ==> r == Err::<(), ZipError>(
            ZipError::Io(IoErrorKind::FileTooLarge),
        ) && final(writer)@ == old(writer)@,
        encodable(file@) && file.header_start <= old(writer)@.bytes.len() && file.header_start
            + local_header_bytes(file@).len() <= usize::MAX ==> r == Ok::<(), ZipError>(())
            && final(writer)@ == old(writer)@.at(file.header_start as int).write(
            local_header_bytes(file@),
        ),
{
    let header = match encode_local_file_header(file) {
        Some(header) => header,
        None => { return Err(ZipError::Io(IoErrorKind::InvalidInput)); },
    };
    let back = writer.tell();
    match writer.seek(file.header_start) {
        Ok(()) => {},
        Err(e) => { return Err(e); },
    }
    match writer.write(header.as_slice()) {
        Ok(()) => Ok(()),
        Err(e) => {
            let restored = writer.seek(back);
            assert(restored is Ok);
            Err(e)
        },
    }
}

/// Writes the central directory entry of `file` at the cursor.
///
/// Refused like [`write_local_file_header`].
pub fn write_central_directory_header(writer: &mut ByteStream, file: &ZipFile) -> (r: Result<
    (),
    ZipError,
>)
    requires
        old(writer).wf(),
    ensures
        final(writer).wf(),
        !encodable(file@) ==> r == Err::<(), ZipError>(ZipError::Io(IoErrorKind::InvalidInput))
            && final(writer)@ == old(writer)@,
        encodable(file@) && old(writer)@.pos + central_header_bytes(file@).len() > usize::MAX
            ==> r == Err::<(), ZipError>(ZipError::Io(IoErrorKind::FileTooLarge))
            && final(writer)@ == old(writer)@,
        encodable(file@) && old(writer)@.pos + central_header_bytes(file@).len() <= usize::MAX
            ==> r == Ok::<(), ZipError>(()) && final(writer)@ == old(writer)@.write(
            central_header_bytes(file@),
        ),
{
    match encode_central_directory_header(file) {
        Some(header) => writer.write(header.as_slice()),
        None => Err(ZipError::Io(IoErrorKind::InvalidInput)),
    }
}

} // verus!
