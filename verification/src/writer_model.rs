//! The archive writer as a state machine over mathematical values: what
//! each operation does to the sink, to the list of descriptors and to the
//! running statistics.

use vstd::prelude::*;
use vstd::utf8::encode_utf8;
use crate::compression::CompressionMethod;
use crate::crc32::content_crc32;
use crate::datetime::DateTime;
use crate::deflate::{deflate_accepts, deflate_finishes, deflate_stream};
use crate::error::{IoErrorKind, ZipError};
use crate::footer::{footer_bytes, CentralDirectoryEndView};
use crate::format::{central_header_bytes, encodable, local_header_bytes, local_header_len};
use crate::stream::StreamView;
use crate::types::ZipFileView;

verus! {

/// The state of the compression backend.
pub enum BackendView {
    /// The sink has been given up; nothing can be written any more.
    Closed,
    /// Content goes to the sink as it is.
    Storer(StreamView),
    /// Content goes to a compressor, which has taken the given chunks; the
    /// sink receives the compressed stream when the compressor is finished.
    Deflater(Seq<Seq<u8>>, StreamView),
}

impl BackendView {
    /// The sink that the backend holds.
    pub open spec fn sink(self) -> StreamView
        recommends
            self !is Closed,
    {
        match self {
            BackendView::Storer(sink) => sink,
            BackendView::Deflater(_, sink) => sink,
            BackendView::Closed => arbitrary(),
        }
    }
}

/// The state of an archive writer.
pub struct WriterView {
    /// The compression backend and, inside it, the sink.
    pub backend: BackendView,
    /// The descriptors of the entries started so far, in the order of the
    /// starts.
    pub files: Seq<ZipFileView>,
    /// The checksum of the content written to the last entry.
    pub crc32: u32,
    /// The offset at which the content of the last entry starts.
    pub start: u64,
    /// The number of content bytes written to the last entry.
    pub bytes_written: u64,
    /// For each entry, the chunks that were handed to its backend, in order:
    /// for Stored the chunks that were written, for Deflated also those that
    /// the compressor refused.
    pub contents: Seq<Seq<Seq<u8>>>,
}

/// The comment that the writer puts into the footer of every archive.
pub open spec fn archive_comment() -> Seq<u8> {
    seq![0x7a, 0x69, 0x70, 0x2d, 0x72, 0x73]
}

/// The chunks of a content, joined.
pub open spec fn concat_chunks(chunks: Seq<Seq<u8>>) -> Seq<u8>
    decreases chunks.len(),
{
    if chunks.len() == 0 {
        Seq::empty()
    } else {
        concat_chunks(chunks.drop_last()) + chunks.last()
    }
}

/// The chunks that the compressor took, joined: each chunk counts if the
/// compressor accepted it after the chunks before it.
pub open spec fn accepted_content(chunks: Seq<Seq<u8>>) -> Seq<u8>
    decreases chunks.len(),
{
    if chunks.len() == 0 {
        Seq::empty()
    } else if deflate_accepts(chunks.drop_last(), chunks.last()) {
        accepted_content(chunks.drop_last()) + chunks.last()
    } else {
        accepted_content(chunks.drop_last())
    }
}

/// The content of an entry: all its chunks joined for Stored, and those
/// that the compressor took for Deflated.
pub open spec fn entry_content(method: CompressionMethod, chunks: Seq<Seq<u8>>) -> Seq<u8> {
    if method == CompressionMethod::Deflated {
        accepted_content(chunks)
    } else {
        concat_chunks(chunks)
    }
}

/// The bytes that an entry's content takes in the archive: the content
/// itself for Stored, and the compressor's stream for Deflated.
pub open spec fn payload(method: CompressionMethod, chunks: Seq<Seq<u8>>) -> Seq<u8> {
    if method == CompressionMethod::Deflated {
        deflate_stream(chunks)
    } else {
        concat_chunks(chunks)
    }
}

/// The central directory of a list of entries: their central directory
/// entries in the list's order.
pub open spec fn central_directory_bytes(files: Seq<ZipFileView>) -> Seq<u8>
    decreases files.len(),
{
    if files.len() == 0 {
        Seq::empty()
    } else {
        central_directory_bytes(files.drop_last()) + central_header_bytes(files.last())
    }
}

/// The footer that closes an archive of `count` entries whose central
/// directory stands at `offset` and is `size` bytes long.
pub open spec fn archive_footer(count: int, size: int, offset: int) -> CentralDirectoryEndView {
    CentralDirectoryEndView {
        disk_number: 0,
        disk_with_central_directory: 0,
        number_of_files_on_this_disk: count as u16,
        number_of_files: count as u16,
        central_directory_size: size as u32,
        central_directory_offset: offset as u32,
        zip_file_comment: archive_comment(),
    }
}

/// The descriptor that a new entry gets when its local file header is
/// written at `header_start`: checksum and sizes are still zero.
pub open spec fn new_entry(
    name: Seq<char>,
    method: CompressionMethod,
    modified: DateTime,
    header_start: int,
) -> ZipFileView {
    ZipFileView {
        encrypted: false,
        compression_method: method,
        last_modified_time: modified,
        crc32: 0,
        compressed_size: 0,
        uncompressed_size: 0,
        file_name: name,
        file_comment: Seq::empty(),
        header_start: header_start as u64,
        data_start: (header_start + 30 + encode_utf8(name).len()) as u64,
    }
}

/// Installs the backend for `method` over a raw sink. A method that cannot
/// be written closes the backend.
pub open spec fn spec_install(sink: StreamView, method: CompressionMethod) -> (
    BackendView,
    Result<(), ZipError>,
) {
    match method {
        CompressionMethod::Stored => (BackendView::Storer(sink), Ok(())),
        CompressionMethod::Deflated => (BackendView::Deflater(Seq::empty(), sink), Ok(())),
        CompressionMethod::Unknown(_) => (
            BackendView::Closed,
            Err(ZipError::UnsupportedCompressionMethod),
        ),
    }
}

/// Switches the backend to `method`. A running compression is finished first
/// and its stream written to the sink. A compressor that cannot end its
/// stream, a stream that is longer than 32 bits can count or that the sink
/// cannot take within the machine's address width, and a method that cannot
/// be written each leave the backend closed.
pub open spec fn spec_switch_to(backend: BackendView, method: CompressionMethod) -> (
    BackendView,
    Result<(), ZipError>,
) {
    match backend {
        BackendView::Closed => (BackendView::Closed, Err(ZipError::WriterClosed)),
        BackendView::Storer(sink) => spec_install(sink, method),
        BackendView::Deflater(chunks, sink) => {
            if !deflate_finishes(chunks) {
                (BackendView::Closed, Err(ZipError::Io(IoErrorKind::Backend)))
            } else if deflate_stream(chunks).len() > 0xffff_ffff || sink.pos + deflate_stream(
                chunks,
            ).len() > usize::MAX {
                (BackendView::Closed, Err(ZipError::Io(IoErrorKind::FileTooLarge)))
            } else {
                spec_install(sink.write(deflate_stream(chunks)), method)
            }
        },
    }
}

/// The descriptor `last` once the entry's content is complete: checksum and
/// sizes are those of the running statistics and of the sink's cursor.
pub open spec fn completed_entry(
    last: ZipFileView,
    crc32: u32,
    written: u64,
    end: int,
    start: int,
) -> ZipFileView {
    ZipFileView {
        crc32,
        uncompressed_size: written,
        compressed_size: (end - start) as u64,
        ..last
    }
}

/// The sink after the local file header of `file` was written again at its
/// place and the cursor was put behind the last byte.
pub open spec fn patched_sink(sink: StreamView, file: ZipFileView) -> StreamView {
    let patched = sink.at(file.header_start as int).write(local_header_bytes(file));
    patched.at(patched.bytes.len() as int)
}

/// Completes the last entry: the backend is switched to Stored, the
/// descriptor receives checksum and sizes, the local file header is written
/// again over the provisional one, and the cursor goes to the end of the
/// sink. Without an entry only the backend is switched.
pub open spec fn spec_finish_file(w: WriterView) -> (WriterView, Result<(), ZipError>) {
    let (backend, r) = spec_switch_to(w.backend, CompressionMethod::Stored);
    if r is Err || w.files.len() == 0 {
        (WriterView { backend, ..w }, r)
    } else {
        let sink = backend.sink();
        let file = completed_entry(
            w.files.last(),
            w.crc32,
            w.bytes_written,
            sink.pos,
            w.start as int,
        );
        (
            WriterView {
                backend: BackendView::Storer(patched_sink(sink, file)),
                files: w.files.update(w.files.len() - 1, file),
                ..w
            },
            Ok(()),
        )
    }
}

/// Starts an entry. A closed writer stays closed. A name of more than 65535
/// bytes and a timestamp that the headers cannot hold are refused before
/// anything happens. Then the last entry is completed, a provisional local
/// file header is written, the descriptor is appended, the statistics start again at zero, and the
/// backend is switched to `method`. The archive is given up where the entry
/// would be one more than 16 bits can count, where its header would start
/// past what 32 bits can address, and where the sink cannot take the header
/// within the machine's address width.
pub open spec fn spec_start_file(
    w: WriterView,
    name: Seq<char>,
    method: CompressionMethod,
    modified: DateTime,
) -> (WriterView, Result<(), ZipError>) {
    if w.backend is Closed {
        (w, Err(ZipError::WriterClosed))
    } else if encode_utf8(name).len() > 0xffff || !modified.representable() {
        (w, Err(ZipError::Io(IoErrorKind::InvalidInput)))
    } else {
        let (w1, r1) = spec_finish_file(w);
        if r1 is Err {
            (w1, r1)
        } else {
            let sink = w1.backend.sink();
            let file = new_entry(name, method, modified, sink.pos);
            if w1.files.len() >= 0xffff || sink.pos > 0xffff_ffff || sink.pos + 30 + encode_utf8(
                name,
            ).len() > usize::MAX {
                (
                    WriterView { backend: BackendView::Closed, ..w1 },
                    Err(ZipError::Io(IoErrorKind::FileTooLarge)),
                )
            } else {
                let (backend, r) = spec_install(sink.write(local_header_bytes(file)), method);
                (
                    WriterView {
                        backend,
                        files: w1.files.push(file),
                        crc32: 0,
                        start: file.data_start,
                        bytes_written: 0,
                        contents: w1.contents.push(Seq::empty()),
                    },
                    r,
                )
            }
        }
    }
}

/// The writer after `buf` was taken as the next chunk of the last entry's
/// content, with the backend as given.
pub open spec fn with_chunk(w: WriterView, buf: Seq<u8>, backend: BackendView) -> WriterView {
    WriterView {
        backend,
        crc32: content_crc32(
            entry_content(w.files.last().compression_method, w.contents.last().push(buf)),
        ),
        bytes_written: (w.bytes_written + buf.len()) as u64,
        contents: w.contents.update(w.contents.len() - 1, w.contents.last().push(buf)),
        ..w
    }
}

/// The writer after the compressor refused `buf`: the refusal is recorded,
/// and nothing else changes.
pub open spec fn with_refusal(w: WriterView, buf: Seq<u8>, backend: BackendView) -> WriterView {
    WriterView {
        backend,
        contents: w.contents.update(w.contents.len() - 1, w.contents.last().push(buf)),
        ..w
    }
}

/// Writes content to the last entry. Without an entry, on a closed writer,
/// where the content would be longer than 32 bits can count, and where the
/// sink cannot take it within the machine's address width, nothing changes. A
/// chunk that the compressor refuses leaves descriptors, statistics, sink and
/// backend as they were; only the refusal is recorded.
pub open spec fn spec_write(w: WriterView, buf: Seq<u8>) -> (WriterView, Result<(), ZipError>) {
    if w.files.len() == 0 {
        (w, Err(ZipError::NoActiveEntry))
    } else {
        match w.backend {
            BackendView::Closed => (w, Err(ZipError::WriterClosed)),
            BackendView::Storer(sink) => {
                if w.bytes_written + buf.len() > 0xffff_ffff || sink.pos + buf.len()
                    > usize::MAX {
                    (w, Err(ZipError::Io(IoErrorKind::FileTooLarge)))
                } else {
                    (with_chunk(w, buf, BackendView::Storer(sink.write(buf))), Ok(()))
                }
            },
            BackendView::Deflater(chunks, sink) => {
                if w.bytes_written + buf.len() > 0xffff_ffff {
                    (w, Err(ZipError::Io(IoErrorKind::FileTooLarge)))
                } else if !deflate_accepts(chunks, buf) {
                    (
                        with_refusal(w, buf, BackendView::Deflater(chunks.push(buf), sink)),
                        Err(ZipError::Io(IoErrorKind::Backend)),
                    )
                } else {
                    (with_chunk(w, buf, BackendView::Deflater(chunks.push(buf), sink)), Ok(()))
                }
            },
        }
    }
}

/// The central directory of `files` and the footer that belongs to it, for
/// a directory that starts at `offset`.
pub open spec fn archive_tail(files: Seq<ZipFileView>, offset: int) -> Seq<u8> {
    let directory = central_directory_bytes(files);
    directory + footer_bytes(archive_footer(files.len() as int, directory.len() as int, offset))
}

/// Ends the archive: the last entry is completed, then the central
/// directory and the footer are written at the cursor. The archive is given
/// up where the offset or the size of the central directory does not fit the
/// 32 bits that the footer has for it, and where the sink would outgrow the
/// machine's address width.
pub open spec fn spec_finalize(w: WriterView) -> (WriterView, Result<(), ZipError>) {
    let (w1, r1) = spec_finish_file(w);
    if r1 is Err {
        (w1, r1)
    } else {
        let sink = w1.backend.sink();
        if sink.pos > 0xffff_ffff || central_directory_bytes(w1.files).len() > 0xffff_ffff
            || sink.pos + archive_tail(w1.files, sink.pos).len() > usize::MAX {
            (
                WriterView { backend: BackendView::Closed, ..w1 },
                Err(ZipError::Io(IoErrorKind::FileTooLarge)),
            )
        } else {
            (
                WriterView {
                    backend: BackendView::Storer(sink.write(archive_tail(w1.files, sink.pos))),
                    ..w1
                },
                Ok(()),
            )
        }
    }
}

/// The end of an entry's content in the archive.
pub open spec fn data_end(file: ZipFileView) -> int {
    file.data_start + file.compressed_size
}

/// The descriptor can be written, and its content starts directly behind its
/// local file header.
pub open spec fn entry_placed(file: ZipFileView) -> bool {
    &&& encodable(file)
    &&& file.compression_method.writable()
    &&& file.data_start == file.header_start + local_header_len(file)
}

/// The archive bytes hold a completed entry: the local file header with the
/// descriptor's values at `header_start`, and behind it the payload of the
/// content that was written, whose length and checksum the descriptor gives.
pub open spec fn entry_complete(bytes: Seq<u8>, file: ZipFileView, chunks: Seq<Seq<u8>>) -> bool {
    &&& entry_placed(file)
    &&& data_end(file) <= bytes.len()
    &&& bytes.subrange(file.header_start as int, file.data_start as int) == local_header_bytes(
        file,
    )
    &&& bytes.subrange(file.data_start as int, data_end(file)) == payload(
        file.compression_method,
        chunks,
    )
    &&& file.uncompressed_size == entry_content(file.compression_method, chunks).len()
    &&& file.crc32 == content_crc32(entry_content(file.compression_method, chunks))
}

/// The first `count` entries are complete in `bytes`, and each of them ends
/// before any later entry starts.
#[verifier::opaque]
pub open spec fn entries_complete(
    bytes: Seq<u8>,
    files: Seq<ZipFileView>,
    contents: Seq<Seq<Seq<u8>>>,
    count: int,
) -> bool {
    &&& forall|i: int| 0 <= i < count ==> entry_complete(bytes, #[trigger] files[i], contents[i])
    &&& forall|i: int, j: int|
        0 <= i < j < files.len() && i < count ==> data_end(#[trigger] files[i])
            <= (#[trigger] files[j]).header_start
}

impl WriterView {
    /// The writer has given up its sink.
    pub open spec fn is_closed(self) -> bool {
        self.backend is Closed
    }

    /// All entries are complete and the raw sink is at hand: the state
    /// between two entries.
    #[verifier::opaque]
    pub open spec fn settled(self) -> bool {
        &&& self.backend matches BackendView::Storer(sink)
        &&& sink.wf()
        &&& self.files.len() == self.contents.len()
        &&& self.files.len() <= 0xffff
        &&& entries_complete(sink.bytes, self.files, self.contents, self.files.len() as int)
        &&& self.files.len() > 0 ==> sink.pos == sink.bytes.len()
    }

    /// The last entry is taking content: all entries before it are
    /// complete, the statistics are those of the content written so far, and
    /// the backend is that of the entry's method. A storing backend has put
    /// the content behind the entry's header; a compressing backend has
    /// taken it and left the sink's cursor at the start of the content.
    #[verifier::opaque]
    pub open spec fn entry_open(self) -> bool {
        let last = self.files.len() - 1;
        &&& self.files.len() > 0
        &&& self.files.len() == self.contents.len()
        &&& self.files.len() <= 0xffff
        &&& entry_placed(self.files[last])
        &&& self.files[last].data_start == self.start
        &&& self.crc32 == content_crc32(
            entry_content(self.files[last].compression_method, self.contents[last]),
        )
        &&& self.bytes_written == entry_content(
            self.files[last].compression_method,
            self.contents[last],
        ).len()
        &&& self.bytes_written <= 0xffff_ffff
        &&& match self.backend {
            BackendView::Closed => false,
            BackendView::Storer(sink) => {
                &&& self.files[last].compression_method == CompressionMethod::Stored
                &&& sink.wf()
                &&& sink.pos == self.start + self.bytes_written
                &&& sink.bytes.subrange(self.start as int, sink.pos) == concat_chunks(
                    self.contents[last],
                )
                &&& entries_complete(sink.bytes, self.files, self.contents, last)
            },
            BackendView::Deflater(chunks, sink) => {
                &&& self.files[last].compression_method == CompressionMethod::Deflated
                &&& sink.wf()
                &&& sink.pos == self.start
                &&& chunks == self.contents[last]
                &&& entries_complete(sink.bytes, self.files, self.contents, last)
            },
        }
    }

    /// The invariant of the writer. A closed writer is valid as it is; a
    /// writer without entries holds a raw sink; any other writer has its last
    /// entry open.
    pub open spec fn wf(self) -> bool {
        ||| self.is_closed()
        ||| (self.files.len() == 0 && self.settled())
        ||| self.entry_open()
    }
}

} // verus!
