//! What holds of every archive that the writer produces and of everything
//! that the reader accepts or refuses.

use vstd::prelude::*;
use vstd::utf8::{encode_utf8, encode_utf8_decode_utf8, encode_utf8_valid_utf8};
use crate::compression::CompressionMethod;
use crate::crc32::content_crc32;
use crate::datetime::DateTime;
use crate::endian::{lemma_fields_within, lemma_u32_bytes_round_trip, u16_at, u32_at, u32_le};
use crate::error::{RecordKind, ZipError};
use crate::footer::{
    footer_bytes, lemma_footer_layout, lemma_footer_round_trip, parse_footer,
    CentralDirectoryEndView,
};
use crate::format::{
    central_header_bytes, central_header_len, comment_bytes, encodable, header_flags,
    lemma_central_header_layout, lemma_local_header_layout, local_header_bytes, local_header_len,
    name_bytes, CENTRAL_DIRECTORY_END_SIGNATURE, CENTRAL_DIRECTORY_HEADER_SIGNATURE,
    LOCAL_FILE_HEADER_SIGNATURE,
};
use crate::text::spec_decode_text;
use crate::reader_spec::{
    central_header_end, central_header_fields, extra_field_ok, local_data_start,
    parse_central_header,
};
use crate::stream::{overwrite, StreamView};
use crate::types::ZipFileView;
use crate::writer_lemmas::{
    lemma_concat_push, lemma_content_push, lemma_directory_prefix, lemma_finish_file, lemma_fresh,
    lemma_open_facts, lemma_start_file, lemma_write,
};
use crate::writer_model::{
    accepted_content, archive_footer, archive_tail, central_directory_bytes, concat_chunks,
    data_end, entries_complete, entry_complete, entry_content, new_entry, payload, spec_finalize,
    spec_finish_file, spec_start_file, spec_write, BackendView, WriterView,
};

verus! {

/// The descriptor as a reader finds it: the timestamp has lost the odd
/// second that the headers cannot hold.
pub open spec fn read_back(file: ZipFileView) -> ZipFileView {
    ZipFileView { last_modified_time: file.last_modified_time.spec_truncated(), ..file }
}

/// The fixed fields of a central directory entry that was written are read
/// as they were written.
#[verifier::rlimit(50)]
proof fn lemma_central_fields_read(archive: Seq<u8>, at: int, file: ZipFileView)
    requires
        encodable(file),
        0 <= at,
        at + central_header_len(file) <= archive.len(),
        archive.subrange(at, at + central_header_len(file)) == central_header_bytes(file),
    ensures
        u32_at(archive, at) == CENTRAL_DIRECTORY_HEADER_SIGNATURE,
        u16_at(archive, at + 8) == header_flags(file),
        u16_at(archive, at + 10) == file.compression_method.spec_to_u16(),
        u16_at(archive, at + 12) == file.last_modified_time.spec_msdos_time(),
        u16_at(archive, at + 14) == file.last_modified_time.spec_msdos_date(),
        u32_at(archive, at + 16) == file.crc32,
        u32_at(archive, at + 20) == file.compressed_size,
        u32_at(archive, at + 24) == file.uncompressed_size,
        u16_at(archive, at + 28) == name_bytes(file).len(),
        u16_at(archive, at + 30) == 0,
        u16_at(archive, at + 32) == comment_bytes(file).len(),
        u32_at(archive, at + 42) == file.header_start,
        archive.subrange(at + 46, at + 46 + name_bytes(file).len()) == name_bytes(file),
        archive.subrange(at + 46 + name_bytes(file).len(), at + central_header_len(file))
            == comment_bytes(file),
{
    let central = central_header_bytes(file);
    let n = name_bytes(file).len() as int;
    let c = comment_bytes(file).len() as int;
    lemma_central_header_layout(file);
    lemma_fields_within(archive, at, central);
    assert(u32_at(archive, at + 0) == u32_at(central, 0));
    assert(u16_at(archive, at + 8) == u16_at(central, 8));
    assert(u16_at(archive, at + 10) == u16_at(central, 10));
    assert(u16_at(archive, at + 12) == u16_at(central, 12));
    assert(u16_at(archive, at + 14) == u16_at(central, 14));
    assert(u32_at(archive, at + 16) == u32_at(central, 16));
    assert(u32_at(archive, at + 20) == u32_at(central, 20));
    assert(u32_at(archive, at + 24) == u32_at(central, 24));
    assert(u16_at(archive, at + 28) == u16_at(central, 28));
    assert(u16_at(archive, at + 30) == u16_at(central, 30));
    assert(u16_at(archive, at + 32) == u16_at(central, 32));
    assert(u32_at(archive, at + 42) == u32_at(central, 42));
    assert(archive.subrange(at + 46, at + 46 + n) == central.subrange(46, 46 + n));
    assert(archive.subrange(at + 46 + n, at + 46 + n + c) == central.subrange(46 + n, 46 + n + c));
}

/// The local file header that was written leads the reader to the content
/// behind it.
proof fn lemma_local_header_read(archive: Seq<u8>, file: ZipFileView)
    requires
        encodable(file),
        file.data_start == file.header_start + local_header_len(file),
        file.data_start <= archive.len(),
        archive.subrange(file.header_start as int, file.data_start as int) == local_header_bytes(
            file,
        ),
    ensures
        local_data_start(archive, file.header_start as int) == Ok::<int, ZipError>(
            file.data_start as int,
        ),
{
    let local = local_header_bytes(file);
    let offset = file.header_start as int;
    lemma_local_header_layout(file);
    lemma_fields_within(archive, offset, local);
    assert(u32_at(archive, offset + 0) == u32_at(local, 0));
    assert(u16_at(archive, offset + 26) == u16_at(local, 26));
    assert(u16_at(archive, offset + 28) == u16_at(local, 28));
}

/// Text that was written as UTF-8 is read as it was.
proof fn lemma_text_round_trip(text: Seq<char>)
    ensures
        spec_decode_text(encode_utf8(text), true) == text,
{
    encode_utf8_valid_utf8(text);
    encode_utf8_decode_utf8(text);
}

/// The flags of a written header say that the texts are UTF-8, and whether
/// the entry is encrypted.
proof fn lemma_flags_read(file: ZipFileView)
    ensures
        (header_flags(file) / 2048) % 2 == 1,
        (header_flags(file) % 2 == 1) == file.encrypted,
{
}

/// Reading gives back what the header codec wrote.
///
/// Let `archive` hold the central directory entry of `file` at `at`, and the
/// local file header of `file` at the offset that the descriptor names, with
/// the content of the entry starting directly behind it. Then the reader
/// positioned at `at` succeeds; it returns the descriptor, whose timestamp
/// has lost its odd second, and leaves the cursor behind the entry.
#[verifier::rlimit(50)]
pub proof fn law_headers_round_trip(archive: Seq<u8>, at: int, file: ZipFileView)
    requires
        encodable(file),
        file.compression_method.canonical(),
        0 <= at,
        at + central_header_len(file) <= archive.len(),
        archive.subrange(at, at + central_header_len(file)) == central_header_bytes(file),
        file.data_start == file.header_start + local_header_len(file),
        file.data_start <= archive.len(),
        archive.subrange(file.header_start as int, file.data_start as int) == local_header_bytes(
            file,
        ),
    ensures
        parse_central_header(archive, at) == Ok::<(ZipFileView, int), ZipError>(
            (read_back(file), at + central_header_len(file)),
        ),
{
    let n = name_bytes(file).len() as int;
    lemma_central_fields_read(archive, at, file);
    lemma_local_header_read(archive, file);
    lemma_text_round_trip(file.file_name);
    lemma_text_round_trip(file.file_comment);
    lemma_flags_read(file);
    file.last_modified_time.lemma_pack_unpack();
    assert(central_header_end(archive, at) == at + central_header_len(file));
    let extra = archive.subrange(at + 46 + n, at + 46 + n + 0);
    assert(extra.len() == 0);
    assert(extra_field_ok(extra, 0));
    let parsed = central_header_fields(archive, at, file.data_start as int);
    assert(parsed.file_name == file.file_name);
    assert(parsed.file_comment == file.file_comment);
    assert(parsed.encrypted == file.encrypted);
    assert(parsed.compression_method == file.compression_method);
    assert(parsed.last_modified_time == file.last_modified_time.spec_truncated());
    assert(parsed == read_back(file));
}

/// A central directory entry whose first four bytes are not its signature
/// is refused as a format mismatch, whatever follows.
pub proof fn law_altered_central_signature(bytes: Seq<u8>, pos: int)
    requires
        0 <= pos,
        pos + 4 <= bytes.len(),
        bytes.subrange(pos, pos + 4) != u32_le(CENTRAL_DIRECTORY_HEADER_SIGNATURE),
    ensures
        parse_central_header(bytes, pos) == Err::<(ZipFileView, int), ZipError>(
            ZipError::FormatMismatch(RecordKind::CentralDirectoryHeader),
        ),
{
    lemma_u32_bytes_round_trip(bytes, pos);
}

/// A central directory entry that is whole, and that points to four bytes
/// which are not the signature of a local file header, is refused as a format
/// mismatch: no descriptor is made from the central directory alone.
pub proof fn law_altered_local_signature(bytes: Seq<u8>, pos: int)
    requires
        0 <= pos,
        pos + 46 <= bytes.len(),
        u32_at(bytes, pos) == CENTRAL_DIRECTORY_HEADER_SIGNATURE,
        central_header_end(bytes, pos) <= bytes.len(),
        u32_at(bytes, pos + 42) + 4 <= bytes.len(),
        bytes.subrange(u32_at(bytes, pos + 42) as int, u32_at(bytes, pos + 42) + 4) != u32_le(
            LOCAL_FILE_HEADER_SIGNATURE,
        ),
    ensures
        parse_central_header(bytes, pos) == Err::<(ZipFileView, int), ZipError>(
            ZipError::FormatMismatch(RecordKind::LocalFileHeader),
        ),
{
    lemma_u32_bytes_round_trip(bytes, u32_at(bytes, pos + 42) as int);
}

/// A footer whose first four bytes are not its signature is refused as a
/// format mismatch.
pub proof fn law_altered_footer_signature(bytes: Seq<u8>, pos: int)
    requires
        0 <= pos,
        pos + 4 <= bytes.len(),
        bytes.subrange(pos, pos + 4) != u32_le(CENTRAL_DIRECTORY_END_SIGNATURE),
    ensures
        parse_footer(bytes, pos) == Err::<(CentralDirectoryEndView, int), ZipError>(
            ZipError::FormatMismatch(RecordKind::CentralDirectoryEnd),
        ),
{
    lemma_u32_bytes_round_trip(bytes, pos);
}

/// The offset, within the central directory of `files`, of the central
/// directory entry of entry `i`.
pub open spec fn directory_offset(files: Seq<ZipFileView>, i: int) -> int {
    central_directory_bytes(files.subrange(0, i)).len() as int
}

/// The central directory holds the central directory entry of each entry at
/// that entry's offset, and the next entry's offset is where it ends.
pub proof fn lemma_directory_entry(files: Seq<ZipFileView>, i: int)
    requires
        0 <= i < files.len(),
    ensures
        directory_offset(files, i + 1) == directory_offset(files, i) + central_header_bytes(
            files[i],
        ).len(),
        directory_offset(files, i + 1) <= central_directory_bytes(files).len(),
        central_directory_bytes(files).subrange(
            directory_offset(files, i),
            directory_offset(files, i + 1),
        ) == central_header_bytes(files[i]),
{
    lemma_directory_prefix(files, i);
    lemma_directory_is_prefix(files, i + 1);
    let whole = central_directory_bytes(files);
    let upto = central_directory_bytes(files.subrange(0, i + 1));
    assert(whole.subrange(directory_offset(files, i), directory_offset(files, i + 1))
        =~= upto.subrange(directory_offset(files, i), directory_offset(files, i + 1)));
    assert(upto.subrange(directory_offset(files, i), directory_offset(files, i + 1))
        =~= central_header_bytes(files[i]));
}

/// The central directory of the first `k` entries is the start of the
/// central directory of all of them.
proof fn lemma_directory_is_prefix(files: Seq<ZipFileView>, k: int)
    requires
        0 <= k <= files.len(),
    ensures
        central_directory_bytes(files.subrange(0, k)).len() <= central_directory_bytes(
            files,
        ).len(),
        central_directory_bytes(files).subrange(
            0,
            central_directory_bytes(files.subrange(0, k)).len() as int,
        ) == central_directory_bytes(files.subrange(0, k)),
    decreases files.len() - k,
{
    if k == files.len() {
        assert(files.subrange(0, k) =~= files);
        assert(central_directory_bytes(files).subrange(
            0,
            central_directory_bytes(files).len() as int,
        ) =~= central_directory_bytes(files));
    } else {
        lemma_directory_prefix(files, k);
        lemma_directory_is_prefix(files, k + 1);
        let next = central_directory_bytes(files.subrange(0, k + 1));
        let this = central_directory_bytes(files.subrange(0, k));
        assert(central_directory_bytes(files).subrange(0, this.len() as int) =~= next.subrange(
            0,
            this.len() as int,
        ));
        assert(next.subrange(0, this.len() as int) =~= this);
    }
}

/// The bytes of the archive that a successful end of writing leaves in the
/// sink.
pub open spec fn archive_of(w: WriterView) -> Seq<u8> {
    spec_finalize(w).0.backend.sink().bytes
}

/// The descriptors of the entries at the end of writing.
pub open spec fn descriptors_of(w: WriterView) -> Seq<ZipFileView> {
    spec_finalize(w).0.files
}

/// The offset at which the central directory of the archive starts.
pub open spec fn directory_start(w: WriterView) -> int {
    spec_finish_file(w).0.backend.sink().pos
}

/// What a settled writer holds of one of its entries.
proof fn lemma_settled_entry(w: WriterView, i: int)
    requires
        w.settled(),
        0 <= i < w.files.len(),
    ensures
        w.backend is Storer,
        w.backend.sink().wf(),
        w.backend.sink().pos == w.backend.sink().bytes.len(),
        w.files.len() <= 0xffff,
        entry_complete(w.backend.sink().bytes, w.files[i], w.contents[i]),
{
    reveal(entries_complete);
    reveal(WriterView::settled);
}

/// An archive that ends with a tail written behind everything else holds
/// what stood before the tail, and the tail.
proof fn lemma_tail_regions(bytes: Seq<u8>, tail: Seq<u8>)
    ensures
        overwrite(bytes, bytes.len() as int, tail).len() == bytes.len() + tail.len(),
        forall|a: int, b: int|
            0 <= a <= b <= bytes.len() ==> #[trigger] overwrite(
                bytes,
                bytes.len() as int,
                tail,
            ).subrange(a, b) == bytes.subrange(a, b),
        forall|a: int, b: int|
            0 <= a <= b <= tail.len() ==> overwrite(bytes, bytes.len() as int, tail).subrange(
                bytes.len() + a,
                bytes.len() + b,
            ) == #[trigger] tail.subrange(a, b),
{
    let archive = overwrite(bytes, bytes.len() as int, tail);
    assert forall|a: int, b: int| 0 <= a <= b <= bytes.len() implies #[trigger] archive.subrange(
        a,
        b,
    ) == bytes.subrange(a, b) by {
        assert(archive.subrange(a, b) =~= bytes.subrange(a, b));
    }
    assert forall|a: int, b: int| 0 <= a <= b <= tail.len() implies archive.subrange(
        bytes.len() + a,
        bytes.len() + b,
    ) == #[trigger] tail.subrange(a, b) by {
        assert(archive.subrange(bytes.len() + a, bytes.len() + b) =~= tail.subrange(a, b));
    }
}

/// The tail of an archive holds each central directory entry at its offset
/// and the footer behind the central directory.
proof fn lemma_tail_parts(files: Seq<ZipFileView>, offset: int, i: int)
    requires
        0 <= i <= files.len() <= 0xffff,
    ensures
        archive_tail(files, offset).len() == central_directory_bytes(files).len() + 28,
        directory_offset(files, files.len() as int) == central_directory_bytes(files).len(),
        archive_tail(files, offset).subrange(
            central_directory_bytes(files).len() as int,
            archive_tail(files, offset).len() as int,
        ) == footer_bytes(
            archive_footer(
                files.len() as int,
                central_directory_bytes(files).len() as int,
                offset,
            ),
        ),
        i < files.len() ==> {
            &&& directory_offset(files, i + 1) == directory_offset(files, i)
                + central_header_bytes(files[i]).len()
            &&& directory_offset(files, i + 1) <= central_directory_bytes(files).len()
            &&& archive_tail(files, offset).subrange(
                directory_offset(files, i),
                directory_offset(files, i + 1),
            ) == central_header_bytes(files[i])
        },
{
    let directory = central_directory_bytes(files);
    let footer = archive_footer(files.len() as int, directory.len() as int, offset);
    let tail = archive_tail(files, offset);
    lemma_footer_layout(footer);
    assert(files.subrange(0, files.len() as int) =~= files);
    assert(tail.subrange(directory.len() as int, tail.len() as int) =~= footer_bytes(footer));
    if i < files.len() {
        lemma_directory_entry(files, i);
        assert(tail.subrange(directory_offset(files, i), directory_offset(files, i + 1))
            =~= directory.subrange(directory_offset(files, i), directory_offset(files, i + 1)));
    }
}

/// The end of writing, after the last entry was completed: the tail is
/// written behind the entries.
proof fn lemma_finalize_steps(w: WriterView)
    requires
        w.wf(),
        spec_finalize(w).1 is Ok,
    ensures
        spec_finish_file(w).1 is Ok,
        spec_finish_file(w).0.settled(),
        spec_finish_file(w).0.contents == w.contents,
        descriptors_of(w) == spec_finish_file(w).0.files,
        descriptors_of(w).len() == w.files.len(),
        archive_of(w) == overwrite(
            spec_finish_file(w).0.backend.sink().bytes,
            directory_start(w),
            archive_tail(descriptors_of(w), directory_start(w)),
        ),
        forall|i: int|
            0 <= i < w.files.len() ==> {
                &&& (#[trigger] descriptors_of(w)[i]).file_name == w.files[i].file_name
                &&& descriptors_of(w)[i].compression_method == w.files[i].compression_method
            },
{
    lemma_finish_file(w);
}

/// Every entry of a finished archive is read back as it was written, and
/// its content stands where the reader says.
///
/// Let a writer in any state that its operations can reach end the archive
/// with success. Then for each entry, in the order in which the entries were
/// started:
/// - its descriptor has the name and the method that it had all along;
/// - the reader, positioned at the entry's place in the central directory,
///   returns that descriptor and stops at the next entry's place;
/// - the bytes from `data_start` on, `compressed_size` of them, are the
///   payload of the chunks that were written to the entry: the content
///   itself for Stored, the compressor's stream for Deflated;
/// - `uncompressed_size` is the length of the content and `crc32` its
///   checksum, where the content of a Deflated entry is made of the chunks
///   that the compressor took;
/// - for Stored, `compressed_size` equals `uncompressed_size`.
pub proof fn law_archive_round_trip(w: WriterView, i: int)
    requires
        w.wf(),
        spec_finalize(w).1 is Ok,
        0 <= i < w.files.len(),
    ensures
        ({
            let archive = archive_of(w);
            let files = descriptors_of(w);
            let file = files[i];
            let at = directory_start(w) + directory_offset(files, i);
            &&& files.len() == w.files.len()
            &&& file.file_name == w.files[i].file_name
            &&& file.compression_method == w.files[i].compression_method
            &&& parse_central_header(archive, at) == Ok::<(ZipFileView, int), ZipError>(
                (read_back(file), directory_start(w) + directory_offset(files, i + 1)),
            )
            &&& file.data_start + file.compressed_size <= archive.len()
            &&& archive.subrange(
                file.data_start as int,
                file.data_start + file.compressed_size,
            ) == payload(file.compression_method, w.contents[i])
            &&& file.uncompressed_size == entry_content(
                file.compression_method,
                w.contents[i],
            ).len()
            &&& file.crc32 == content_crc32(entry_content(file.compression_method, w.contents[i]))
            &&& file.compression_method == CompressionMethod::Stored ==> file.compressed_size
                == file.uncompressed_size
        }),
{
    lemma_finalize_steps(w);
    let w1 = spec_finish_file(w).0;
    lemma_settled_entry(w1, i);
    lemma_archive_entry(
        w1.backend.sink().bytes,
        descriptors_of(w),
        i,
        w.contents[i],
    );
}

/// An entry that is complete before the tail of the archive is written is
/// read back from the archive with the tail.
#[verifier::rlimit(50)]
proof fn lemma_archive_entry(
    bytes: Seq<u8>,
    files: Seq<ZipFileView>,
    i: int,
    chunks: Seq<Seq<u8>>,
)
    requires
        0 <= i < files.len() <= 0xffff,
        entry_complete(bytes, files[i], chunks),
    ensures
        ({
            let start = bytes.len() as int;
            let archive = overwrite(bytes, start, archive_tail(files, start));
            let file = files[i];
            &&& parse_central_header(archive, start + directory_offset(files, i)) == Ok::<
                (ZipFileView, int),
                ZipError,
            >((read_back(file), start + directory_offset(files, i + 1)))
            &&& file.data_start + file.compressed_size <= archive.len()
            &&& archive.subrange(
                file.data_start as int,
                file.data_start + file.compressed_size,
            ) == payload(file.compression_method, chunks)
            &&& file.uncompressed_size == entry_content(file.compression_method, chunks).len()
            &&& file.crc32 == content_crc32(entry_content(file.compression_method, chunks))
            &&& file.compression_method == CompressionMethod::Stored ==> file.compressed_size
                == file.uncompressed_size
        }),
{
    let start = bytes.len() as int;
    let file = files[i];
    let tail = archive_tail(files, start);
    let archive = overwrite(bytes, start, tail);
    let from = directory_offset(files, i);
    let to = directory_offset(files, i + 1);
    lemma_tail_regions(bytes, tail);
    lemma_tail_parts(files, start, i);
    lemma_central_header_layout(file);
    assert(archive.subrange(start + from, start + to) == tail.subrange(from, to));
    assert(archive.subrange(file.header_start as int, file.data_start as int) == bytes.subrange(
        file.header_start as int,
        file.data_start as int,
    ));
    assert(archive.subrange(file.data_start as int, data_end(file)) == bytes.subrange(
        file.data_start as int,
        data_end(file),
    ));
    law_headers_round_trip(archive, start + from, file);
    assert(payload(file.compression_method, chunks).len() == file.compressed_size);
}

/// A finished archive ends with its footer, and the footer leads to the
/// central directory.
///
/// Let a writer that has started an entry, or whose sink had its cursor at
/// the end, end the archive with success. Then the last 28 bytes of the
/// archive are read as a footer that counts the entries, gives the offset
/// and the size of the central directory, and carries the writer's comment;
/// and the central directory ends where the footer starts.
pub proof fn law_archive_footer(w: WriterView)
    requires
        w.wf(),
        spec_finalize(w).1 is Ok,
        w.files.len() > 0 || w.backend.sink().pos == w.backend.sink().bytes.len(),
    ensures
        ({
            let archive = archive_of(w);
            let files = descriptors_of(w);
            let start = directory_start(w);
            let size = directory_offset(files, files.len() as int);
            let footer = archive_footer(files.len() as int, size, start);
            &&& archive.len() == start + size + 28
            &&& parse_footer(archive, archive.len() - 28) == Ok::<
                (CentralDirectoryEndView, int),
                ZipError,
            >((footer, archive.len() as int))
            &&& footer.number_of_files == files.len()
            &&& footer.central_directory_offset == start
            &&& footer.central_directory_size == size
        }),
{
    lemma_finalize_steps(w);
    lemma_cursor_at_end(w);
    let w1 = spec_finish_file(w).0;
    let bytes = w1.backend.sink().bytes;
    let start = directory_start(w);
    let files = descriptors_of(w);
    let tail = archive_tail(files, start);
    let archive = archive_of(w);
    let size = directory_offset(files, files.len() as int);
    let footer = archive_footer(files.len() as int, size, start);
    lemma_tail_regions(bytes, tail);
    lemma_tail_parts(files, start, files.len() as int);
    assert(archive.subrange(start + size, start + tail.len()) == tail.subrange(
        size,
        tail.len() as int,
    ));
    lemma_footer_round_trip(archive, start + size, footer);
}

/// After the last entry was completed the cursor stands at the end of the
/// sink, if an entry was started or the cursor stood there from the
/// beginning.
proof fn lemma_cursor_at_end(w: WriterView)
    requires
        w.wf(),
        spec_finish_file(w).1 is Ok,
        w.files.len() > 0 || w.backend.sink().pos == w.backend.sink().bytes.len(),
    ensures
        spec_finish_file(w).0.backend.sink().pos == spec_finish_file(
            w,
        ).0.backend.sink().bytes.len(),
        spec_finish_file(w).0.files.len() <= 0xffff,
{
    reveal(entries_complete);
    reveal(WriterView::settled);
    reveal(WriterView::entry_open);
    lemma_finish_file(w);
}

/// One call of the writer: an entry is started, or content is written.
pub enum Step {
    /// An entry is started with a name, a method and a timestamp.
    Start(Seq<char>, CompressionMethod, DateTime),
    /// A chunk of content is written to the entry started last.
    Write(Seq<u8>),
}

/// What a run of calls asks for: one entry for each start, with the chunks
/// that were written before the next start.
pub struct Planned {
    pub name: Seq<char>,
    pub method: CompressionMethod,
    pub chunks: Seq<Seq<u8>>,
}

/// The writer over a sink, before any call.
pub open spec fn fresh(sink: StreamView) -> WriterView {
    WriterView {
        backend: BackendView::Storer(sink),
        files: Seq::empty(),
        crc32: 0,
        start: 0,
        bytes_written: 0,
        contents: Seq::empty(),
    }
}

/// The state and the result of one call.
pub open spec fn step(w: WriterView, call: Step) -> (WriterView, Result<(), ZipError>) {
    match call {
        Step::Start(name, method, modified) => spec_start_file(w, name, method, modified),
        Step::Write(buf) => spec_write(w, buf),
    }
}

/// The state after a run of calls.
pub open spec fn run(w: WriterView, calls: Seq<Step>) -> WriterView
    decreases calls.len(),
{
    if calls.len() == 0 {
        w
    } else {
        step(run(w, calls.drop_last()), calls.last()).0
    }
}

/// Every call of the run succeeds.
pub open spec fn all_ok(w: WriterView, calls: Seq<Step>) -> bool
    decreases calls.len(),
{
    calls.len() == 0 || (all_ok(w, calls.drop_last()) && step(
        run(w, calls.drop_last()),
        calls.last(),
    ).1 is Ok)
}

/// The entries that a run of calls asks for, in the order of the starts.
pub open spec fn planned(calls: Seq<Step>) -> Seq<Planned>
    decreases calls.len(),
{
    if calls.len() == 0 {
        Seq::empty()
    } else {
        let before = planned(calls.drop_last());
        match calls.last() {
            Step::Start(name, method, _) => before.push(
                Planned { name, method, chunks: Seq::empty() },
            ),
            Step::Write(buf) => if before.len() == 0 {
                before
            } else {
                before.update(
                    before.len() - 1,
                    Planned { chunks: before.last().chunks.push(buf), ..before.last() },
                )
            },
        }
    }
}

/// The writer keeps what it was asked for.
///
/// After a run of calls that all succeed, on a writer over any sink, the
/// writer upholds its invariant and holds one descriptor for each start, in
/// the order of the starts, each with the name and the method of its start
/// and with the chunks that were written to it.
pub proof fn law_run_keeps_plan(sink: StreamView, calls: Seq<Step>)
    requires
        sink.wf(),
        all_ok(fresh(sink), calls),
    ensures
        run(fresh(sink), calls).wf(),
        run(fresh(sink), calls).files.len() == planned(calls).len(),
        run(fresh(sink), calls).contents.len() == planned(calls).len(),
        forall|i: int|
            0 <= i < planned(calls).len() ==> {
                &&& (#[trigger] run(fresh(sink), calls).files[i]).file_name == planned(
                    calls,
                )[i].name
                &&& run(fresh(sink), calls).files[i].compression_method == planned(
                    calls,
                )[i].method
                &&& run(fresh(sink), calls).contents[i] == planned(calls)[i].chunks
                &&& entry_content(
                    run(fresh(sink), calls).files[i].compression_method,
                    run(fresh(sink), calls).contents[i],
                ) == concat_chunks(planned(calls)[i].chunks)
            },
    decreases calls.len(),
{
    let start = fresh(sink);
    if calls.len() == 0 {
        lemma_fresh(start);
    } else {
        let before = calls.drop_last();
        law_run_keeps_plan(sink, before);
        let w = run(start, before);
        let plan = planned(before);
        let (next, r) = step(w, calls.last());
        match calls.last() {
            Step::Start(name, method, modified) => {
                lemma_start_file(w, name, method, modified);
                lemma_finish_file(w);
                let w1 = spec_finish_file(w).0;
                assert(next.files == w1.files.push(
                    new_entry(name, method, modified, w1.backend.sink().pos),
                ));
                assert(next.contents == w.contents.push(Seq::empty()));
                assert forall|i: int| 0 <= i < planned(calls).len() implies {
                    &&& (#[trigger] next.files[i]).file_name == planned(calls)[i].name
                    &&& next.files[i].compression_method == planned(calls)[i].method
                    &&& next.contents[i] == planned(calls)[i].chunks
                    &&& entry_content(next.files[i].compression_method, next.contents[i])
                        == concat_chunks(planned(calls)[i].chunks)
                } by {
                    if i < plan.len() {
                        assert(next.files[i] == w1.files[i]);
                        assert(w1.files[i].file_name == w.files[i].file_name);
                        assert(w1.files[i].compression_method == w.files[i].compression_method);
                        assert(next.contents[i] == w.contents[i]);
                    } else {
                        assert(next.contents[i] == Seq::<Seq<u8>>::empty());
                        assert(accepted_content(next.contents[i]) == Seq::<u8>::empty());
                        assert(concat_chunks(next.contents[i]) == Seq::<u8>::empty());
                    }
                }
            },
            Step::Write(buf) => {
                lemma_write(w, buf);
                lemma_open_facts(w);
                lemma_content_push(w.files.last().compression_method, w.contents.last(), buf);
                assert(next.files == w.files);
                assert forall|i: int| 0 <= i < planned(calls).len() implies {
                    &&& (#[trigger] next.files[i]).file_name == planned(calls)[i].name
                    &&& next.files[i].compression_method == planned(calls)[i].method
                    &&& next.contents[i] == planned(calls)[i].chunks
                    &&& entry_content(next.files[i].compression_method, next.contents[i])
                        == concat_chunks(planned(calls)[i].chunks)
                } by {
                    assert(w.files[i].file_name == plan[i].name);
                    if i == plan.len() - 1 {
                        lemma_concat_push(plan[i].chunks, buf);
                    }
                }
            },
        }
    }
}

/// Writing entries and reading them back gives what was written.
///
/// Let a run of calls succeed on a writer over any sink, and let the end of
/// writing succeed too. Then the archive holds exactly the planned entries, in
/// the order of their starts. For the entry of each start:
/// - the reader, positioned at the entry's place in the central directory,
///   succeeds and stops at the next entry's place;
/// - the descriptor that it returns has the name and the method of the start;
/// - `crc32` is the checksum of the chunks written to the entry, joined, and
///   `uncompressed_size` their length: in a run without failure the
///   compressor took every chunk;
/// - from `data_start` on, `compressed_size` bytes are the payload of the
///   chunks: the content itself for Stored, so that both sizes are equal, and
///   the compressor's stream for Deflated.
pub proof fn law_round_trip(sink: StreamView, calls: Seq<Step>, i: int)
    requires
        sink.wf(),
        all_ok(fresh(sink), calls),
        spec_finalize(run(fresh(sink), calls)).1 is Ok,
        0 <= i < planned(calls).len(),
    ensures
        ({
            let w = run(fresh(sink), calls);
            let archive = archive_of(w);
            let files = descriptors_of(w);
            let at = directory_start(w) + directory_offset(files, i);
            let wanted = planned(calls)[i];
            &&& files.len() == planned(calls).len()
            &&& parse_central_header(archive, at) matches Ok((file, next))
            &&& next == directory_start(w) + directory_offset(files, i + 1)
            &&& file.file_name == wanted.name
            &&& file.compression_method == wanted.method
            &&& file.crc32 == content_crc32(concat_chunks(wanted.chunks))
            &&& file.uncompressed_size == concat_chunks(wanted.chunks).len()
            &&& file.data_start + file.compressed_size <= archive.len()
            &&& archive.subrange(
                file.data_start as int,
                file.data_start + file.compressed_size,
            ) == payload(wanted.method, wanted.chunks)
            &&& wanted.method == CompressionMethod::Stored ==> file.compressed_size
                == file.uncompressed_size
        }),
{
    law_run_keeps_plan(sink, calls);
    law_archive_round_trip(run(fresh(sink), calls), i);
}

/// No two entries share the offset of their local file header: of any two
/// entries of a writer that takes content, the one started first ends before
/// the other starts.
pub proof fn law_entries_do_not_overlap(w: WriterView, i: int, j: int)
    requires
        w.wf(),
        !w.is_closed(),
        0 <= i < j < w.files.len(),
    ensures
        w.files[i].header_start < w.files[i].data_start,
        w.files[i].data_start + w.files[i].compressed_size <= w.files[j].header_start,
{
    reveal(entries_complete);
    reveal(WriterView::settled);
    reveal(WriterView::entry_open);
    let bytes = w.backend.sink().bytes;
    assert(entry_complete(bytes, w.files[i], w.contents[i]));
    assert(data_end(w.files[i]) <= w.files[j].header_start);
}

} // verus!
