//! The byte layout of the three header records: local file header, central
//! directory entry and end-of-central-directory footer.

use vstd::prelude::*;
use vstd::utf8::encode_utf8;
use crate::endian::{lemma_u16_round_trip, lemma_u32_round_trip, u16_at, u16_le, u32_at, u32_le};
use crate::types::ZipFileView;

verus! {

/// The signature that a local file header starts with.
pub const LOCAL_FILE_HEADER_SIGNATURE: u32 = 0x04034b50;

/// The signature that a central directory entry starts with.
pub const CENTRAL_DIRECTORY_HEADER_SIGNATURE: u32 = 0x02014b50;

/// The signature that the end-of-central-directory footer starts with.
pub const CENTRAL_DIRECTORY_END_SIGNATURE: u32 = 0x06054b50;

/// The size of a local file header without its name and extra field.
pub const LOCAL_HEADER_SIZE: u64 = 30;

/// The size of a central directory entry without its name, extra field and
/// comment.
pub const CENTRAL_HEADER_SIZE: u64 = 46;

/// The size of the footer without its comment.
pub const FOOTER_SIZE: u64 = 22;

/// The version of the format that written headers name: 2.0.
pub const FORMAT_VERSION: u16 = 20;

/// The flag bit that marks an entry as encrypted.
pub const FLAG_ENCRYPTED: u16 = 0x0001;

/// The flag bit that marks name and comment as UTF-8.
pub const FLAG_UTF8: u16 = 0x0800;

/// The largest value of a 32-bit header field.
pub const MAX_U32: u64 = 0xffff_ffff;

/// The largest value of a 16-bit header field.
pub const MAX_U16: u64 = 0xffff;

/// The flags that a written header holds for an entry: the UTF-8 bit always,
/// since names are written in UTF-8, and the encryption bit where it applies.
pub open spec fn header_flags(file: ZipFileView) -> u16 {
    if file.encrypted {
        0x0801
    } else {
        0x0800
    }
}

/// The bytes of an entry's name in a written header.
pub open spec fn name_bytes(file: ZipFileView) -> Seq<u8> {
    encode_utf8(file.file_name)
}

/// The bytes of an entry's comment in a written header.
pub open spec fn comment_bytes(file: ZipFileView) -> Seq<u8> {
    encode_utf8(file.file_comment)
}

/// No text is written as no bytes.
pub proof fn lemma_encode_empty()
    ensures
        encode_utf8(Seq::<char>::empty()) == Seq::<u8>::empty(),
{
    reveal_with_fuel(encode_utf8, 1);
    assert(encode_utf8(Seq::<char>::empty()) =~= Seq::<u8>::empty());
}

/// Every field of the descriptor fits the width that the headers give it.
pub open spec fn encodable(file: ZipFileView) -> bool {
    &&& name_bytes(file).len() <= 0xffff
    &&& comment_bytes(file).len() <= 0xffff
    &&& file.compressed_size <= 0xffff_ffff
    &&& file.uncompressed_size <= 0xffff_ffff
    &&& file.header_start <= 0xffff_ffff
    &&& file.last_modified_time.representable()
}

/// The fields of a local file header one behind the other: signature,
/// version, flags, method, time, date, checksum, compressed size, size, length
/// of the name, length of the extra field, name.
pub open spec fn local_header_fields(file: ZipFileView) -> Seq<u8> {
    u32_le(LOCAL_FILE_HEADER_SIGNATURE) + u16_le(FORMAT_VERSION) + u16_le(header_flags(file))
        + u16_le(file.compression_method.spec_to_u16()) + u16_le(
        file.last_modified_time.spec_msdos_time(),
    ) + u16_le(file.last_modified_time.spec_msdos_date()) + u32_le(file.crc32) + u32_le(
        file.compressed_size as u32,
    ) + u32_le(file.uncompressed_size as u32) + u16_le(name_bytes(file).len() as u16) + u16_le(0)
        + name_bytes(file)
}

/// The local file header of an entry: 30 bytes and the name. No extra field
/// is written.
#[verifier::opaque]
pub open spec fn local_header_bytes(file: ZipFileView) -> Seq<u8>
    recommends
        encodable(file),
{
    local_header_fields(file)
}

/// The fields of a central directory entry one behind the other: signature,
/// version made by, version needed, flags, method, time, date, checksum,
/// compressed size, size, lengths of name, extra field and comment, disk
/// number, internal and external attributes, offset of the local file header,
/// name, comment.
pub open spec fn central_header_fields(file: ZipFileView) -> Seq<u8> {
    u32_le(CENTRAL_DIRECTORY_HEADER_SIGNATURE) + u16_le(FORMAT_VERSION) + u16_le(FORMAT_VERSION)
        + u16_le(header_flags(file)) + u16_le(file.compression_method.spec_to_u16()) + u16_le(
        file.last_modified_time.spec_msdos_time(),
    ) + u16_le(file.last_modified_time.spec_msdos_date()) + u32_le(file.crc32) + u32_le(
        file.compressed_size as u32,
    ) + u32_le(file.uncompressed_size as u32) + u16_le(name_bytes(file).len() as u16) + u16_le(0)
        + u16_le(comment_bytes(file).len() as u16) + u16_le(0) + u16_le(0) + u32_le(0) + u32_le(
        file.header_start as u32,
    ) + name_bytes(file) + comment_bytes(file)
}

/// The central directory entry of an entry: 46 bytes, the name and the
/// comment. No extra field is written.
#[verifier::opaque]
pub open spec fn central_header_bytes(file: ZipFileView) -> Seq<u8>
    recommends
        encodable(file),
{
    central_header_fields(file)
}

/// The length of an entry's local file header.
pub open spec fn local_header_len(file: ZipFileView) -> int {
    LOCAL_HEADER_SIZE + name_bytes(file).len() as int
}

/// The length of an entry's central directory entry.
pub open spec fn central_header_len(file: ZipFileView) -> int {
    CENTRAL_HEADER_SIZE + name_bytes(file).len() as int + comment_bytes(file).len() as int
}

/// Where the fields of a local file header stand.
#[verifier::rlimit(50)]
pub proof fn lemma_local_header_layout(file: ZipFileView)
    requires
        encodable(file),
    ensures
        local_header_bytes(file).len() == local_header_len(file),
        u32_at(local_header_bytes(file), 0) == LOCAL_FILE_HEADER_SIGNATURE,
        u16_at(local_header_bytes(file), 6) == header_flags(file),
        u16_at(local_header_bytes(file), 8) == file.compression_method.spec_to_u16(),
        u16_at(local_header_bytes(file), 10) == file.last_modified_time.spec_msdos_time(),
        u16_at(local_header_bytes(file), 12) == file.last_modified_time.spec_msdos_date(),
        u32_at(local_header_bytes(file), 14) == file.crc32,
        u32_at(local_header_bytes(file), 18) == file.compressed_size,
        u32_at(local_header_bytes(file), 22) == file.uncompressed_size,
        u16_at(local_header_bytes(file), 26) == name_bytes(file).len(),
        u16_at(local_header_bytes(file), 28) == 0,
        local_header_bytes(file).subrange(30, local_header_len(file)) == name_bytes(file),
{
    reveal(local_header_bytes);
    let h = local_header_fields(file);
    assert(h.subrange(0, 4) =~= u32_le(LOCAL_FILE_HEADER_SIGNATURE));
    assert(h.subrange(6, 8) =~= u16_le(header_flags(file)));
    assert(h.subrange(8, 10) =~= u16_le(file.compression_method.spec_to_u16()));
    assert(h.subrange(10, 12) =~= u16_le(file.last_modified_time.spec_msdos_time()));
    assert(h.subrange(12, 14) =~= u16_le(file.last_modified_time.spec_msdos_date()));
    assert(h.subrange(14, 18) =~= u32_le(file.crc32));
    assert(h.subrange(18, 22) =~= u32_le(file.compressed_size as u32));
    assert(h.subrange(22, 26) =~= u32_le(file.uncompressed_size as u32));
    assert(h.subrange(26, 28) =~= u16_le(name_bytes(file).len() as u16));
    assert(h.subrange(28, 30) =~= u16_le(0));
    assert(h.subrange(30, local_header_len(file)) =~= name_bytes(file));
    lemma_u32_round_trip(h, 0, LOCAL_FILE_HEADER_SIGNATURE);
    lemma_u16_round_trip(h, 6, header_flags(file));
    lemma_u16_round_trip(h, 8, file.compression_method.spec_to_u16());
    lemma_u16_round_trip(h, 10, file.last_modified_time.spec_msdos_time());
    lemma_u16_round_trip(h, 12, file.last_modified_time.spec_msdos_date());
    lemma_u32_round_trip(h, 14, file.crc32);
    lemma_u32_round_trip(h, 18, file.compressed_size as u32);
    lemma_u32_round_trip(h, 22, file.uncompressed_size as u32);
    lemma_u16_round_trip(h, 26, name_bytes(file).len() as u16);
    lemma_u16_round_trip(h, 28, 0);
}

/// Where the first fields of a central directory entry stand.
#[verifier::rlimit(50)]
proof fn lemma_central_header_front(file: ZipFileView)
    requires
        encodable(file),
    ensures
        central_header_bytes(file).len() == central_header_len(file),
        u32_at(central_header_bytes(file), 0) == CENTRAL_DIRECTORY_HEADER_SIGNATURE,
        u16_at(central_header_bytes(file), 8) == header_flags(file),
        u16_at(central_header_bytes(file), 10) == file.compression_method.spec_to_u16(),
        u16_at(central_header_bytes(file), 12) == file.last_modified_time.spec_msdos_time(),
        u16_at(central_header_bytes(file), 14) == file.last_modified_time.spec_msdos_date(),
        u32_at(central_header_bytes(file), 16) == file.crc32,
        u32_at(central_header_bytes(file), 20) == file.compressed_size,
{
    reveal(central_header_bytes);
    let h = central_header_fields(file);
    assert(h.subrange(0, 4) =~= u32_le(CENTRAL_DIRECTORY_HEADER_SIGNATURE));
    assert(h.subrange(8, 10) =~= u16_le(header_flags(file)));
    assert(h.subrange(10, 12) =~= u16_le(file.compression_method.spec_to_u16()));
    assert(h.subrange(12, 14) =~= u16_le(file.last_modified_time.spec_msdos_time()));
    assert(h.subrange(14, 16) =~= u16_le(file.last_modified_time.spec_msdos_date()));
    assert(h.subrange(16, 20) =~= u32_le(file.crc32));
    assert(h.subrange(20, 24) =~= u32_le(file.compressed_size as u32));
    lemma_u32_round_trip(h, 0, CENTRAL_DIRECTORY_HEADER_SIGNATURE);
    lemma_u16_round_trip(h, 8, header_flags(file));
    lemma_u16_round_trip(h, 10, file.compression_method.spec_to_u16());
    lemma_u16_round_trip(h, 12, file.last_modified_time.spec_msdos_time());
    lemma_u16_round_trip(h, 14, file.last_modified_time.spec_msdos_date());
    lemma_u32_round_trip(h, 16, file.crc32);
    lemma_u32_round_trip(h, 20, file.compressed_size as u32);
}

/// Where the last fields of a central directory entry stand.
#[verifier::rlimit(50)]
proof fn lemma_central_header_back(file: ZipFileView)
    requires
        encodable(file),
    ensures
        central_header_bytes(file).len() == central_header_len(file),
        u32_at(central_header_bytes(file), 24) == file.uncompressed_size,
        u16_at(central_header_bytes(file), 28) == name_bytes(file).len(),
        u16_at(central_header_bytes(file), 30) == 0,
        u16_at(central_header_bytes(file), 32) == comment_bytes(file).len(),
        u32_at(central_header_bytes(file), 42) == file.header_start,
        central_header_bytes(file).subrange(46, 46 + name_bytes(file).len() as int) == name_bytes(
            file,
        ),
        central_header_bytes(file).subrange(
            46 + name_bytes(file).len() as int,
            central_header_len(file),
        ) == comment_bytes(file),
{
    reveal(central_header_bytes);
    let h = central_header_fields(file);
    let n = name_bytes(file).len() as int;
    assert(h.subrange(24, 28) =~= u32_le(file.uncompressed_size as u32));
    assert(h.subrange(28, 30) =~= u16_le(n as u16));
    assert(h.subrange(30, 32) =~= u16_le(0));
    assert(h.subrange(32, 34) =~= u16_le(comment_bytes(file).len() as u16));
    assert(h.subrange(42, 46) =~= u32_le(file.header_start as u32));
    assert(h.subrange(46, 46 + n) =~= name_bytes(file));
    assert(h.subrange(46 + n, central_header_len(file)) =~= comment_bytes(file));
    lemma_u32_round_trip(h, 24, file.uncompressed_size as u32);
    lemma_u16_round_trip(h, 28, n as u16);
    lemma_u16_round_trip(h, 30, 0);
    lemma_u16_round_trip(h, 32, comment_bytes(file).len() as u16);
    lemma_u32_round_trip(h, 42, file.header_start as u32);
}

/// Where the fields of a central directory entry stand.
pub proof fn lemma_central_header_layout(file: ZipFileView)
    requires
        encodable(file),
    ensures
        central_header_bytes(file).len() == central_header_len(file),
        u32_at(central_header_bytes(file), 0) == CENTRAL_DIRECTORY_HEADER_SIGNATURE,
        u16_at(central_header_bytes(file), 8) == header_flags(file),
        u16_at(central_header_bytes(file), 10) == file.compression_method.spec_to_u16(),
        u16_at(central_header_bytes(file), 12) == file.last_modified_time.spec_msdos_time(),
        u16_at(central_header_bytes(file), 14) == file.last_modified_time.spec_msdos_date(),
        u32_at(central_header_bytes(file), 16) == file.crc32,
        u32_at(central_header_bytes(file), 20) == file.compressed_size,
        u32_at(central_header_bytes(file), 24) == file.uncompressed_size,
        u16_at(central_header_bytes(file), 28) == name_bytes(file).len(),
        u16_at(central_header_bytes(file), 30) == 0,
        u16_at(central_header_bytes(file), 32) == comment_bytes(file).len(),
        u32_at(central_header_bytes(file), 42) == file.header_start,
        central_header_bytes(file).subrange(46, 46 + name_bytes(file).len() as int) == name_bytes(
            file,
        ),
        central_header_bytes(file).subrange(
            46 + name_bytes(file).len() as int,
            central_header_len(file),
        ) == comment_bytes(file),
{
    lemma_central_header_front(file);
    lemma_central_header_back(file);
}

} // verus!
