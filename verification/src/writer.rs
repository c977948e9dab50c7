//! The archive writer.

use vstd::prelude::*;
use crate::clock;
use crate::compression::CompressionMethod;
use crate::crc32;
use crate::datetime::DateTime;
use crate::deflate::{encoder_finish, encoder_input, encoder_new, encoder_write, DeflateEncoder};
use crate::error::{IoErrorKind, ZipError};
use crate::footer::CentralDirectoryEnd;
use crate::format::{
    encodable, lemma_encode_empty, lemma_local_header_layout, local_header_bytes,
    local_header_len, name_bytes, MAX_U16, MAX_U32,
};
use crate::stream::ByteStream;
use crate::types::{views_of, ZipFile, ZipFileView};
use crate::writer_lemmas::{
    lemma_content_push, lemma_directory_step, lemma_finish_file, lemma_fresh, lemma_open_facts,
    lemma_settled_facts, lemma_start_file, lemma_tail_written, lemma_views_replace_last,
    lemma_write,
};
use crate::writer_model::{
    archive_comment, archive_tail, central_directory_bytes, completed_entry, entry_content,
    new_entry, patched_sink, spec_finalize, spec_finish_file, spec_start_file, spec_switch_to,
    spec_write, BackendView, WriterView,
};
use crate::writer_spec::{
    encode_central_directory_header, update_local_file_header, write_local_file_header,
};

verus! {

/// The compression backend: it owns the sink and wraps it in at most one
/// compressor at a time.
pub enum GenericZipWriter {
    /// The sink has been given up.
    Closed,
    /// Content goes to the sink as it is.
    Storer(ByteStream),
    /// Content goes to the compressor; the sink receives the compressed
    /// stream when the backend is switched.
    Deflater(DeflateEncoder, ByteStream),
}

impl View for GenericZipWriter {
    type V = BackendView;

    open spec fn view(&self) -> BackendView {
        match self {
            GenericZipWriter::Closed => BackendView::Closed,
            GenericZipWriter::Storer(sink) => BackendView::Storer(sink@),
            GenericZipWriter::Deflater(encoder, sink) => BackendView::Deflater(
                encoder_input(*encoder),
                sink@,
            ),
        }
    }
}

impl GenericZipWriter {
    /// The sink of an open backend upholds the stream's invariant.
    pub open spec fn wf(&self) -> bool {
        self@ is Closed || self@.sink().wf()
    }

    /// Switches to the backend of `compression`. A running compression is
    /// finished and its stream written to the sink before the new backend is
    /// installed. Every failure leaves the backend closed.
    pub fn switch_to(&mut self, compression: CompressionMethod) -> (r: Result<(), ZipError>)
        requires
            old(self).wf(),
        ensures
            final(self).wf(),
            (final(self)@, r) == spec_switch_to(old(self)@, compression),
    {
        let mut taken = GenericZipWriter::Closed;
        core::mem::swap(self, &mut taken);
        let bare = match taken {
            GenericZipWriter::Storer(w) => w,
            GenericZipWriter::Deflater(encoder, mut w) => {
                let compressed = match encoder_finish(encoder) {
                    Ok(compressed) => compressed,
                    Err(_) => { return Err(ZipError::Io(IoErrorKind::Backend)); },
                };
                if compressed.len() as u64 > MAX_U32 {
                    return Err(ZipError::Io(IoErrorKind::FileTooLarge));
                }
                match w.write(compressed.as_slice()) {
                    Ok(()) => {},
                    Err(e) => { return Err(e); },
                }
                w
            },
            GenericZipWriter::Closed => { return Err(ZipError::WriterClosed); },
        };
        *self = match compression {
            CompressionMethod::Stored => GenericZipWriter::Storer(bare),
            CompressionMethod::Deflated => GenericZipWriter::Deflater(encoder_new(), bare),
            _ => { return Err(ZipError::UnsupportedCompressionMethod); },
        };
        Ok(())
    }

    /// Tells whether the backend has given up its sink.
    pub fn is_closed(&self) -> (b: bool)
        ensures
            b == (self@ is Closed),
    {
        match *self {
            GenericZipWriter::Closed => true,
            _ => false,
        }
    }

    /// The raw sink, for seeking. Only a storing backend gives it out.
    pub fn get_plain(&mut self) -> (sink: &mut ByteStream)
        requires
            old(self)@ is Storer,
        ensures
            *sink == old(self)->Storer_0,
            *final(self) == GenericZipWriter::Storer(*final(sink)),
    {
        match self {
            GenericZipWriter::Storer(w) => w,
            _ => vstd::pervasive::unreached(),
        }
    }

    /// Gives up the backend for its raw sink. Only a storing backend can be
    /// unwrapped.
    pub fn unwrap(self) -> (sink: ByteStream)
        requires
            self@ is Storer,
        ensures
            sink == self->Storer_0,
    {
        match self {
            GenericZipWriter::Storer(w) => w,
            _ => vstd::pervasive::unreached(),
        }
    }
}

/// The running statistics of the entry that is taking content.
struct ZipWriterStats {
    crc32: u32,
    start: u64,
    bytes_written: u64,
}

impl ZipWriterStats {
    /// Takes `buf` into the checksum and the count. `content` is what was
    /// taken before.
    fn update(&mut self, buf: &[u8], content: Ghost<Seq<u8>>)
        requires
            old(self).crc32 == crc32::content_crc32(content@),
            old(self).bytes_written + buf@.len() <= 0xffff_ffff,
        ensures
            final(self).crc32 == crc32::content_crc32(content@ + buf@),
            final(self).bytes_written == old(self).bytes_written + buf@.len(),
            final(self).start == old(self).start,
    {
        self.crc32 = crc32::extend(self.crc32, buf, content);
        self.bytes_written += buf.len() as u64;
    }
}

/// Generator for ZIP archives.
///
/// Entries are started one after the other; content written to the writer
/// goes to the entry started last. The local file header of an entry is
/// written before its content, with checksum and sizes still zero, and
/// written again over itself when the content is complete.
pub struct ZipWriter {
    inner: GenericZipWriter,
    files: Vec<ZipFile>,
    stats: ZipWriterStats,
    contents: Ghost<Seq<Seq<Seq<u8>>>>,
}

impl View for ZipWriter {
    type V = WriterView;

    closed spec fn view(&self) -> WriterView {
        WriterView {
            backend: self.inner@,
            files: views_of(self.files@),
            crc32: self.stats.crc32,
            start: self.stats.start,
            bytes_written: self.stats.bytes_written,
            contents: self.contents@,
        }
    }
}

impl ZipWriter {
    /// The invariant of the writer: see [`WriterView::wf`].
    pub open spec fn wf(&self) -> bool {
        self@.wf()
    }

    /// Initializes the writer over `inner`, which receives the archive from
    /// its cursor on.
    ///
    /// Before content is written, an entry has to be started.
    pub fn new(inner: ByteStream) -> (writer: ZipWriter)
        requires
            inner.wf(),
        ensures
            writer.wf(),
            writer@ == (WriterView {
                backend: BackendView::Storer(inner@),
                files: Seq::empty(),
                crc32: 0,
                start: 0,
                bytes_written: 0,
                contents: Seq::empty(),
            }),
    {
        let writer = ZipWriter {
            inner: GenericZipWriter::Storer(inner),
            files: Vec::new(),
            stats: ZipWriterStats { crc32: 0, start: 0, bytes_written: 0 },
            contents: Ghost(Seq::empty()),
        };
        proof {
            assert(views_of(writer.files@) =~= Seq::empty());
            lemma_fresh(writer@);
        }
        writer
    }

    /// Writes content to the entry started last.
    ///
    /// Fails without an entry, on a closed writer, where the content would
    /// be longer than 32 bits can count, and where the sink cannot take it
    /// within the machine's address width; none of these changes the writer. A
    /// chunk that the compressor refuses fails too, and leaves descriptors,
    /// statistics, sink and backend as they were.
    #[verifier::rlimit(50)]
    pub fn write(&mut self, buf: &[u8]) -> (r: Result<(), ZipError>)
        requires
            old(self).wf(),
        ensures
            final(self).wf(),
            (final(self)@, r) == spec_write(old(self)@, buf@),
    {
        if self.files.len() == 0 {
            return Err(ZipError::NoActiveEntry);
        }
        proof {
            lemma_write(self@, buf@);
            if !self@.is_closed() {
                lemma_open_facts(self@);
            }
        }
        let ghost chunks = self.contents@.last();
        let ghost method = self@.files.last().compression_method;
        let count = buf.len() as u64;
        let mut refused = false;
        match &mut self.inner {
            GenericZipWriter::Closed => { return Err(ZipError::WriterClosed); },
            GenericZipWriter::Storer(w) => {
                if count > MAX_U32 - self.stats.bytes_written {
                    return Err(ZipError::Io(IoErrorKind::FileTooLarge));
                }
                match w.write(buf) {
                    Ok(()) => {},
                    Err(e) => { return Err(e); },
                }
            },
            GenericZipWriter::Deflater(encoder, w) => {
                if count > MAX_U32 - self.stats.bytes_written {
                    return Err(ZipError::Io(IoErrorKind::FileTooLarge));
                }
                match encoder_write(encoder, buf) {
                    Ok(()) => {},
                    Err(_) => { refused = true; },
                }
            },
        }
        proof {
            self.contents@ = self.contents@.update(
                self.contents@.len() - 1,
                chunks.push(buf@),
            );
        }
        if refused {
            return Err(ZipError::Io(IoErrorKind::Backend));
        }
        self.stats.update(buf, Ghost(entry_content(method, chunks)));
        proof {
            lemma_content_push(method, chunks, buf@);
        }
        Ok(())
    }

    /// Start a new file with the requested compression method. The entry's
    /// timestamp is the current time.
    ///
    /// Behaves as [`ZipWriter::start_file_at`] does for some timestamp that
    /// names a time of the day and a day of the calendar.
    pub fn start_file(&mut self, name: &str, compression: CompressionMethod) -> (r: Result<
        (),
        ZipError,
    >)
        requires
            old(self).wf(),
        ensures
            final(self).wf(),
            exists|modified: DateTime|
                modified.plausible() && (final(self)@, r) == #[trigger] spec_start_file(
                    old(self)@,
                    name@,
                    compression,
                    modified,
                ),
    {
        let modified = clock::now();
        self.start_file_at(name, compression, modified)
    }

    /// Start a new file with the requested compression method and the given
    /// timestamp.
    ///
    /// A closed writer refuses the call. An argument that no header can hold
    /// is refused before anything happens. Then the entry started before is
    /// completed; every failure from there on leaves the writer closed.
    #[verifier::rlimit(50)]
    pub fn start_file_at(
        &mut self,
        name: &str,
        compression: CompressionMethod,
        modified: DateTime,
    ) -> (r: Result<(), ZipError>)
        requires
            old(self).wf(),
        ensures
            final(self).wf(),
            (final(self)@, r) == spec_start_file(old(self)@, name@, compression, modified),
    {
        proof {
            lemma_start_file(self@, name@, compression, modified);
        }
        if self.inner.is_closed() {
            return Err(ZipError::WriterClosed);
        }
        let name_length = name.as_bytes().len() as u64;
        if name_length > MAX_U16 || !modified.is_representable() {
            return Err(ZipError::Io(IoErrorKind::InvalidInput));
        }
        self.finish_file()?;

        let ghost settled = self@;
        proof {
            lemma_settled_facts(settled);
        }
        let count = self.files.len();
        let mut too_large = false;
        {
            let writer = self.inner.get_plain();
            let header_start = writer.tell();
            if count as u64 >= MAX_U16 || header_start > MAX_U32 {
                too_large = true;
            } else {
                let mut file = ZipFile {
                    encrypted: false,
                    compression_method: compression,
                    last_modified_time: modified,
                    crc32: 0,
                    compressed_size: 0,
                    uncompressed_size: 0,
                    file_name: name.to_owned(),
                    file_comment: String::new(),
                    header_start,
                    data_start: 0,
                };
                proof {
                    let entry = new_entry(name@, compression, modified, header_start as int);
                    lemma_encode_empty();
                    assert(local_header_bytes(file@) == local_header_bytes(entry)) by {
                        reveal(local_header_bytes);
                    }
                    assert(encodable(file@));
                    lemma_local_header_layout(file@);
                }
                match write_local_file_header(writer, &file) {
                    Ok(()) => {
                        let header_end = writer.tell();
                        self.stats.start = header_end;
                        file.data_start = header_end;

                        self.stats.bytes_written = 0;
                        self.stats.crc32 = 0;

                        self.files.push(file);
                        proof {
                            self.contents@ = self.contents@.push(Seq::empty());
                            assert(views_of(self.files@) =~= settled.files.push(file@));
                        }
                    },
                    Err(_) => {
                        too_large = true;
                    },
                }
            }
        }
        if too_large {
            self.inner = GenericZipWriter::Closed;
            return Err(ZipError::Io(IoErrorKind::FileTooLarge));
        }
        self.inner.switch_to(compression)?;

        Ok(())
    }

    /// Completes the entry started last: its descriptor receives checksum
    /// and sizes, and its local file header is written again with them.
    #[verifier::rlimit(50)]
    fn finish_file(&mut self) -> (r: Result<(), ZipError>)
        requires
            old(self).wf(),
        ensures
            (final(self)@, r) == spec_finish_file(old(self)@),
            r is Ok ==> final(self)@.settled(),
            r is Err ==> final(self)@.is_closed(),
    {
        proof {
            if !self@.is_closed() {
                lemma_open_facts(self@);
            }
        }
        let switched = self.inner.switch_to(CompressionMethod::Stored);
        proof {
            lemma_finish_file(old(self)@);
        }
        match switched {
            Ok(()) => {},
            Err(e) => { return Err(e); },
        }
        let writer = self.inner.get_plain();
        if self.files.len() == 0 {
            return Ok(());
        }
        patch_last_header(writer, &mut self.files, &self.stats);
        proof {
            lemma_views_replace_last(old(self).files@, self.files@);
        }
        Ok(())
    }

    /// Finish the last file and write all other zip-structures.
    ///
    /// This returns the sink, which holds the archive. On every failure the
    /// sink is given up.
    pub fn finish(self) -> (r: Result<ByteStream, ZipError>)
        requires
            self.wf(),
        ensures
            match r {
                Ok(sink) => {
                    &&& spec_finalize(self@).1 is Ok
                    &&& spec_finalize(self@).0.backend == BackendView::Storer(sink@)
                    &&& sink.wf()
                },
                Err(e) => spec_finalize(self@).1 == Err::<(), ZipError>(e),
            },
    {
        let mut writer = self;
        match writer.finalize() {
            Ok(()) => {},
            Err(e) => { return Err(e); },
        }
        let mut inner = GenericZipWriter::Closed;
        core::mem::swap(&mut writer.inner, &mut inner);
        Ok(inner.unwrap())
    }

    /// Completes the last entry and writes the central directory and the
    /// footer.
    fn finalize(&mut self) -> (r: Result<(), ZipError>)
        requires
            old(self).wf(),
        ensures
            (final(self)@, r) == spec_finalize(old(self)@),
            r is Ok ==> final(self)@.backend is Storer && final(self)@.backend.sink().wf(),
    {
        self.finish_file()?;

        proof {
            lemma_settled_facts(self@);
        }
        let written = {
            let writer = self.inner.get_plain();
            write_central_directory(writer, &self.files)
        };
        match written {
            Ok(()) => Ok(()),
            Err(e) => {
                self.inner = GenericZipWriter::Closed;
                Err(e)
            },
        }
    }
}

/// Gives the last descriptor the checksum and the sizes of the finished
/// content, writes its local file header again over the provisional one, and
/// puts the cursor behind the last byte of the sink.
fn patch_last_header(writer: &mut ByteStream, files: &mut Vec<ZipFile>, stats: &ZipWriterStats)
    requires
        old(writer).wf(),
        old(files).len() > 0,
        stats.start <= old(writer)@.pos,
        encodable(
            completed_entry(
                old(files)@.last()@,
                stats.crc32,
                stats.bytes_written,
                old(writer)@.pos,
                stats.start as int,
            ),
        ),
        old(files)@.last().header_start + local_header_len(old(files)@.last()@) <= old(
            writer,
        )@.bytes.len(),
    ensures
        final(writer).wf(),
        final(files).len() == old(files).len(),
        final(files)@.drop_last() == old(files)@.drop_last(),
        final(files)@.last()@ == completed_entry(
            old(files)@.last()@,
            stats.crc32,
            stats.bytes_written,
            old(writer)@.pos,
            stats.start as int,
        ),
        final(writer)@ == patched_sink(old(writer)@, final(files)@.last()@),
{
    let mut file = match files.pop() {
        None => vstd::pervasive::unreached(),
        Some(f) => f,
    };
    file.crc32 = stats.crc32;
    file.uncompressed_size = stats.bytes_written;
    file.compressed_size = writer.tell() - stats.start;
    proof {
        assert(name_bytes(file@) == name_bytes(old(files)@.last()@));
        lemma_local_header_layout(file@);
    }
    let updated = update_local_file_header(writer, &file);
    assert(updated is Ok);
    writer.seek_to_end();
    files.push(file);
    proof {
        assert(files@.drop_last() =~= old(files)@.drop_last());
    }
}

/// The central directory of `files` and its footer can be written at `pos`:
/// offset and size of the directory fit their 32 bits, and the sink stays
/// within the machine's address width.
spec fn tail_fits(files: Seq<ZipFileView>, pos: int) -> bool {
    &&& pos <= 0xffff_ffff
    &&& central_directory_bytes(files).len() <= 0xffff_ffff
    &&& pos + archive_tail(files, pos).len() <= usize::MAX
}

/// Writes the central directory entries of `files`, in order, and the footer
/// behind them. Fails, with the sink in no stated condition, where the
/// offset or the size of the central directory does not fit its 32 bits or
/// the sink would outgrow the machine's address width.
#[verifier::rlimit(50)]
fn write_central_directory(writer: &mut ByteStream, files: &Vec<ZipFile>) -> (r: Result<
    (),
    ZipError,
>)
    requires
        old(writer).wf(),
        files.len() <= 0xffff,
        forall|i: int| 0 <= i < files.len() ==> encodable(#[trigger] views_of(files@)[i]),
    ensures
        final(writer).wf(),
        tail_fits(views_of(files@), old(writer)@.pos) ==> r == Ok::<(), ZipError>(())
            && final(writer)@ == old(writer)@.write(
            archive_tail(views_of(files@), old(writer)@.pos),
        ),
        !tail_fits(views_of(files@), old(writer)@.pos) ==> r == Err::<(), ZipError>(
            ZipError::Io(IoErrorKind::FileTooLarge),
        ),
{
    let ghost sink = writer@;
    let ghost entries = views_of(files@);
    let central_start = writer.tell();
    proof {
        lemma_tail_written(sink, entries);
    }
    if central_start > MAX_U32 {
        return Err(ZipError::Io(IoErrorKind::FileTooLarge));
    }
    let mut central_size: u64 = 0;
    let mut i: usize = 0;
    while i < files.len()
        invariant
            i <= files.len(),
            entries == views_of(files@),
            forall|k: int| 0 <= k < entries.len() ==> encodable(#[trigger] entries[k]),
            sink.wf(),
            sink == old(writer)@,
            central_start == sink.pos,
            central_start <= 0xffff_ffff,
            writer.wf(),
            writer@ == sink.write(central_directory_bytes(entries.subrange(0, i as int))),
            central_size == central_directory_bytes(entries.subrange(0, i as int)).len(),
            central_size <= 0xffff_ffff,
            archive_tail(entries, sink.pos).len() == central_directory_bytes(entries).len() + 28,
        decreases files.len() - i,
    {
        let file = &files[i];
        proof {
            assert(entries[i as int] == file@);
            lemma_directory_step(sink, entries, i as int);
        }
        let header = match encode_central_directory_header(file) {
            None => { return Err(ZipError::Io(IoErrorKind::InvalidInput)); },
            Some(header) => header,
        };
        if header.len() as u64 > MAX_U32 - central_size {
            return Err(ZipError::Io(IoErrorKind::FileTooLarge));
        }
        match writer.write(header.as_slice()) {
            Ok(()) => {},
            Err(e) => { return Err(e); },
        }
        central_size = central_size + header.len() as u64;
        i = i + 1;
    }

    let footer = CentralDirectoryEnd {
        disk_number: 0,
        disk_with_central_directory: 0,
        number_of_files_on_this_disk: files.len() as u16,
        number_of_files: files.len() as u16,
        central_directory_size: central_size as u32,
        central_directory_offset: central_start as u32,
        zip_file_comment: comment_bytes(),
    };
    footer.write(writer)
}

/// The comment that every written archive carries in its footer.
fn comment_bytes() -> (comment: Vec<u8>)
    ensures
        comment@ == archive_comment(),
{
    let mut comment: Vec<u8> = Vec::new();
    comment.push(0x7a);
    comment.push(0x69);
    comment.push(0x70);
    comment.push(0x2d);
    comment.push(0x72);
    comment.push(0x73);
    assert(comment@ =~= archive_comment());
    comment
}

} // verus!
