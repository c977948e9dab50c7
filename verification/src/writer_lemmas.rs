//! Proofs that the operations of the writer keep its invariant.

use vstd::prelude::*;
use crate::compression::CompressionMethod;
use crate::crc32::content_crc32;
use crate::datetime::DateTime;
use crate::deflate::{deflate_accepts, deflate_stream};
use crate::footer::{footer_bytes, lemma_footer_layout};
use crate::format::{
    central_header_bytes, encodable, lemma_encode_empty, lemma_local_header_layout,
    local_header_bytes, local_header_len, name_bytes,
};
use crate::stream::{lemma_overwrite_regions, overwrite, StreamView};
use crate::types::{views_of, ZipFile, ZipFileView};
use crate::writer_model::{
    accepted_content, archive_footer, archive_tail, central_directory_bytes, completed_entry,
    concat_chunks, data_end, entries_complete, entry_complete, entry_content, new_entry, payload,
    spec_finish_file, spec_start_file, spec_switch_to, spec_write, BackendView, WriterView,
};

verus! {

/// Joining the chunks after one more was added appends that chunk.
pub proof fn lemma_concat_push(chunks: Seq<Seq<u8>>, buf: Seq<u8>)
    ensures
        concat_chunks(chunks.push(buf)) == concat_chunks(chunks) + buf,
{
    assert(chunks.push(buf).drop_last() =~= chunks);
}

/// The content that the compressor took after one more chunk was handed to
/// it: the chunk is appended if the compressor accepted it.
pub proof fn lemma_accepted_push(chunks: Seq<Seq<u8>>, buf: Seq<u8>)
    ensures
        deflate_accepts(chunks, buf) ==> accepted_content(chunks.push(buf)) == accepted_content(
            chunks,
        ) + buf,
        !deflate_accepts(chunks, buf) ==> accepted_content(chunks.push(buf)) == accepted_content(
            chunks,
        ),
{
    assert(chunks.push(buf).drop_last() =~= chunks);
}

/// The content of an entry after one more chunk was taken.
pub proof fn lemma_content_push(method: CompressionMethod, chunks: Seq<Seq<u8>>, buf: Seq<u8>)
    requires
        method == CompressionMethod::Deflated ==> deflate_accepts(chunks, buf),
    ensures
        entry_content(method, chunks.push(buf)) == entry_content(method, chunks) + buf,
{
    lemma_concat_push(chunks, buf);
    lemma_accepted_push(chunks, buf);
}

/// Two writes in a row are one write of both.
pub proof fn lemma_write_write(sink: StreamView, first: Seq<u8>, second: Seq<u8>)
    requires
        sink.wf(),
    ensures
        sink.write(first).write(second) == sink.write(first + second),
{
    assert(sink.write(first).write(second).bytes =~= sink.write(first + second).bytes);
}

/// Entries that are complete stay complete where the bytes up to `bound`
/// stay as they are and every entry ends before `bound`.
pub proof fn lemma_entries_frame(
    bytes: Seq<u8>,
    after: Seq<u8>,
    files: Seq<ZipFileView>,
    contents: Seq<Seq<Seq<u8>>>,
    count: int,
    bound: int,
)
    requires
        entries_complete(bytes, files, contents, count),
        0 <= count <= files.len(),
        0 <= bound <= bytes.len(),
        bound <= after.len(),
        after.subrange(0, bound) == bytes.subrange(0, bound),
        forall|i: int| 0 <= i < count ==> data_end(#[trigger] files[i]) <= bound,
    ensures
        entries_complete(after, files, contents, count),
{
    reveal(entries_complete);
    assert forall|i: int| 0 <= i < count implies entry_complete(
        after,
        #[trigger] files[i],
        contents[i],
    ) by {
        let f = files[i];
        assert(entry_complete(bytes, f, contents[i]));
        assert(data_end(f) <= bound);
        let a = after.subrange(0, bound);
        let b = bytes.subrange(0, bound);
        assert(after.subrange(f.header_start as int, f.data_start as int) =~= a.subrange(
            f.header_start as int,
            f.data_start as int,
        ));
        assert(bytes.subrange(f.header_start as int, f.data_start as int) =~= b.subrange(
            f.header_start as int,
            f.data_start as int,
        ));
        assert(after.subrange(f.data_start as int, data_end(f)) =~= a.subrange(
            f.data_start as int,
            data_end(f),
        ));
        assert(bytes.subrange(f.data_start as int, data_end(f)) =~= b.subrange(
            f.data_start as int,
            data_end(f),
        ));
    }
}

/// Completing the last entry leaves a settled writer, and a failure leaves a
/// closed one.
#[verifier::rlimit(50)]
pub proof fn lemma_finish_file(w: WriterView)
    requires
        w.wf(),
    ensures
        spec_finish_file(w).1 is Ok ==> spec_finish_file(w).0.settled(),
        spec_finish_file(w).1 is Err ==> spec_finish_file(w).0.is_closed(),
        spec_finish_file(w).0.files.len() == w.files.len(),
        spec_finish_file(w).0.contents == w.contents,
        ({
            let (backend, r) = spec_switch_to(w.backend, CompressionMethod::Stored);
            r is Ok && w.files.len() > 0 ==> {
                &&& backend is Storer
                &&& backend.sink().wf()
                &&& w.start <= backend.sink().pos
                &&& backend.sink().pos - w.start <= 0xffff_ffff
                &&& encodable(
                    completed_entry(
                        w.files.last(),
                        w.crc32,
                        w.bytes_written,
                        backend.sink().pos,
                        w.start as int,
                    ),
                )
                &&& w.files.last().header_start + local_header_len(w.files.last())
                    <= backend.sink().bytes.len()
            }
        }),
{
    reveal(entries_complete);
    reveal(WriterView::settled);
    reveal(WriterView::entry_open);
    let (w1, r) = spec_finish_file(w);
    let (backend, r0) = spec_switch_to(w.backend, CompressionMethod::Stored);
    if r is Ok && w.files.len() > 0 {
        let n = w.files.len() as int;
        let last = w.files[n - 1];
        let before = w.backend.sink();
        let sink = backend.sink();
        let file = completed_entry(last, w.crc32, w.bytes_written, sink.pos, w.start as int);
        let header = local_header_bytes(file);
        assert(w.entry_open());
        assert(name_bytes(last) == name_bytes(file));
        assert(encodable(file));
        lemma_local_header_layout(file);
        assert(header.len() == local_header_len(last));
        if w.backend is Deflater {
            lemma_overwrite_regions(before.bytes, before.pos, deflate_stream(w.backend->Deflater_0));
        }
        assert(sink.bytes.subrange(0, before.pos) == before.bytes.subrange(0, before.pos));
        assert(sink.bytes.subrange(w.start as int, sink.pos) == payload(
            file.compression_method,
            w.contents[n - 1],
        ));
        let patched = overwrite(sink.bytes, file.header_start as int, header);
        lemma_overwrite_regions(sink.bytes, file.header_start as int, header);
        assert(patched.len() == sink.bytes.len());
        assert(w1.backend == BackendView::Storer(
            StreamView { bytes: patched, pos: patched.len() as int },
        ));
        let bound = last.header_start as int;
        assert(patched.subrange(0, bound) == before.bytes.subrange(0, bound)) by {
            assert(sink.bytes.subrange(0, bound) =~= sink.bytes.subrange(0, before.pos).subrange(
                0,
                bound,
            ));
            assert(before.bytes.subrange(0, bound) =~= before.bytes.subrange(
                0,
                before.pos,
            ).subrange(0, bound));
        }
        assert forall|i: int| 0 <= i < n - 1 implies data_end(#[trigger] w.files[i]) <= bound by {
            assert(data_end(w.files[i]) <= w.files[n - 1].header_start);
        }
        lemma_entries_frame(before.bytes, patched, w.files, w.contents, n - 1, bound);
        assert forall|i: int| 0 <= i < n implies entry_complete(
            patched,
            #[trigger] w1.files[i],
            w1.contents[i],
        ) by {
            if i < n - 1 {
                assert(w1.files[i] == w.files[i]);
                assert(entry_complete(patched, w.files[i], w.contents[i]));
            } else {
                assert(w1.files[i] == file);
                assert(patched.subrange(file.data_start as int, data_end(file))
                    == sink.bytes.subrange(file.data_start as int, data_end(file)));
            }
        }
        assert forall|i: int, j: int| 0 <= i < j < w1.files.len() && i < n implies data_end(
            #[trigger] w1.files[i],
        ) <= (#[trigger] w1.files[j]).header_start by {
            assert(w1.files[i] == w.files[i]);
            assert(w1.files[j].header_start == w.files[j].header_start);
            assert(data_end(w.files[i]) <= w.files[j].header_start);
        }
    }
}

/// Starting an entry keeps the invariant.
#[verifier::rlimit(50)]
pub proof fn lemma_start_file(
    w: WriterView,
    name: Seq<char>,
    method: CompressionMethod,
    modified: DateTime,
)
    requires
        w.wf(),
    ensures
        spec_start_file(w, name, method, modified).0.wf(),
        spec_start_file(w, name, method, modified).1 is Ok ==> spec_start_file(
            w,
            name,
            method,
            modified,
        ).0.entry_open(),
{
    reveal(entries_complete);
    reveal(WriterView::settled);
    reveal(WriterView::entry_open);
    let (w2, r) = spec_start_file(w, name, method, modified);
    lemma_finish_file(w);
    let (w1, r1) = spec_finish_file(w);
    if r is Ok {
        let n = w1.files.len() as int;
        let sink = w1.backend.sink();
        let file = new_entry(name, method, modified, sink.pos);
        let header = local_header_bytes(file);
        assert(w1.settled());
        lemma_encode_empty();
        assert(encodable(file));
        lemma_local_header_layout(file);
        let after = sink.write(header);
        lemma_overwrite_regions(sink.bytes, sink.pos, header);
        assert(w2.files == w1.files.push(file));
        assert(w2.contents == w1.contents.push(Seq::<Seq<u8>>::empty()));
        assert(entries_complete(after.bytes, w2.files, w2.contents, n)) by {
            assert forall|i: int| 0 <= i < n implies data_end(#[trigger] w1.files[i])
                <= sink.pos by {
                assert(entry_complete(sink.bytes, w1.files[i], w1.contents[i]));
            }
            lemma_entries_frame(sink.bytes, after.bytes, w1.files, w1.contents, n, sink.pos);
            assert forall|i: int| 0 <= i < n implies entry_complete(
                after.bytes,
                #[trigger] w2.files[i],
                w2.contents[i],
            ) by {
                assert(w2.files[i] == w1.files[i]);
                assert(w2.contents[i] == w1.contents[i]);
                assert(entry_complete(after.bytes, w1.files[i], w1.contents[i]));
            }
            assert forall|i: int, j: int| 0 <= i < j < w2.files.len() && i < n implies data_end(
                #[trigger] w2.files[i],
            ) <= (#[trigger] w2.files[j]).header_start by {
                assert(w2.files[i] == w1.files[i]);
                if j < n {
                    assert(w2.files[j] == w1.files[j]);
                    assert(data_end(w1.files[i]) <= w1.files[j].header_start);
                } else {
                    assert(data_end(w1.files[i]) <= sink.pos);
                }
            }
        }
        assert(w2.files[n] == file);
        assert(w2.contents[n] == Seq::<Seq<u8>>::empty());
        assert(concat_chunks(w2.contents[n]) == Seq::<u8>::empty());
        assert(accepted_content(w2.contents[n]) == Seq::<u8>::empty());
        assert(after.bytes.subrange(w2.start as int, after.pos) =~= Seq::<u8>::empty());
        assert(w2.entry_open());
    }
}

/// Writing content keeps the invariant.
#[verifier::rlimit(50)]
pub proof fn lemma_write(w: WriterView, buf: Seq<u8>)
    requires
        w.wf(),
    ensures
        spec_write(w, buf).0.wf(),
{
    reveal(entries_complete);
    reveal(WriterView::settled);
    reveal(WriterView::entry_open);
    let (w2, r) = spec_write(w, buf);
    if w2 != w {
        let n = w.files.len() as int;
        let chunks = w.contents[n - 1];
        let method = w.files[n - 1].compression_method;
        assert(w.entry_open());
        lemma_concat_push(chunks, buf);
        lemma_accepted_push(chunks, buf);
        assert(w2.contents[n - 1] == chunks.push(buf));
        assert(w2.files == w.files);
        assert forall|i: int| 0 <= i < n - 1 implies w2.contents[i] == w.contents[i] by {}
        match w.backend {
            BackendView::Storer(sink) => {
                let after = sink.write(buf);
                lemma_overwrite_regions(sink.bytes, sink.pos, buf);
                let bound = w.files[n - 1].header_start as int;
                assert forall|i: int| 0 <= i < n - 1 implies data_end(#[trigger] w.files[i])
                    <= bound by {
                    assert(data_end(w.files[i]) <= w.files[n - 1].header_start);
                }
                assert(after.bytes.subrange(0, bound) == sink.bytes.subrange(0, bound));
                lemma_entries_frame(sink.bytes, after.bytes, w.files, w.contents, n - 1, bound);
                assert(entries_complete(after.bytes, w2.files, w2.contents, n - 1)) by {
                    assert forall|i: int| 0 <= i < n - 1 implies entry_complete(
                        after.bytes,
                        #[trigger] w2.files[i],
                        w2.contents[i],
                    ) by {
                        assert(entry_complete(after.bytes, w.files[i], w.contents[i]));
                    }
                }
                assert(after.bytes.subrange(w.start as int, after.pos) =~= sink.bytes.subrange(
                    w.start as int,
                    sink.pos,
                ) + buf) by {
                    assert(after.bytes.subrange(w.start as int, sink.pos) == sink.bytes.subrange(
                        w.start as int,
                        sink.pos,
                    ));
                    assert(after.bytes.subrange(sink.pos, after.pos) == buf);
                    assert(after.bytes.subrange(w.start as int, after.pos)
                        =~= after.bytes.subrange(w.start as int, sink.pos)
                        + after.bytes.subrange(sink.pos, after.pos));
                }
                assert(w2.entry_open());
            },
            BackendView::Deflater(taken, sink) => {
                assert(entries_complete(sink.bytes, w2.files, w2.contents, n - 1)) by {
                    assert forall|i: int| 0 <= i < n - 1 implies entry_complete(
                        sink.bytes,
                        #[trigger] w2.files[i],
                        w2.contents[i],
                    ) by {
                        assert(entry_complete(sink.bytes, w.files[i], w.contents[i]));
                    }
                }
                assert(w2.entry_open());
            },
            BackendView::Closed => {},
        }
    }
}

/// The central directory of the first `i + 1` entries is that of the first
/// `i` entries and the central directory entry of entry `i`; and the
/// directory of a part of the list is no longer than that of the whole.
pub proof fn lemma_directory_prefix(files: Seq<ZipFileView>, i: int)
    requires
        0 <= i < files.len(),
    ensures
        central_directory_bytes(files.subrange(0, i + 1)) == central_directory_bytes(
            files.subrange(0, i),
        ) + central_header_bytes(files[i]),
        central_directory_bytes(files.subrange(0, i + 1)).len() <= central_directory_bytes(
            files,
        ).len(),
    decreases files.len() - i,
{
    let part = files.subrange(0, i + 1);
    assert(part.drop_last() =~= files.subrange(0, i));
    assert(part.last() == files[i]);
    if i + 1 < files.len() {
        lemma_directory_prefix(files, i + 1);
    } else {
        assert(part =~= files);
    }
}

/// One more central directory entry written behind the first `i` makes the
/// central directory of the first `i + 1` entries.
pub proof fn lemma_directory_step(sink: StreamView, files: Seq<ZipFileView>, i: int)
    requires
        sink.wf(),
        0 <= i < files.len(),
    ensures
        sink.write(central_directory_bytes(files.subrange(0, i))).write(
            central_header_bytes(files[i]),
        ) == sink.write(central_directory_bytes(files.subrange(0, i + 1))),
        central_directory_bytes(files.subrange(0, i + 1)).len() == central_directory_bytes(
            files.subrange(0, i),
        ).len() + central_header_bytes(files[i]).len(),
        central_directory_bytes(files.subrange(0, i + 1)).len() <= central_directory_bytes(
            files,
        ).len(),
{
    lemma_directory_prefix(files, i);
    lemma_write_write(
        sink,
        central_directory_bytes(files.subrange(0, i)),
        central_header_bytes(files[i]),
    );
}

/// The central directory and the footer, written one behind the other, are
/// the tail of the archive.
pub proof fn lemma_tail_written(sink: StreamView, files: Seq<ZipFileView>)
    requires
        sink.wf(),
        files.len() <= 0xffff,
    ensures
        sink.write(central_directory_bytes(files)).write(
            footer_bytes(
                archive_footer(
                    files.len() as int,
                    central_directory_bytes(files).len() as int,
                    sink.pos,
                ),
            ),
        ) == sink.write(archive_tail(files, sink.pos)),
        archive_tail(files, sink.pos).len() == central_directory_bytes(files).len() + 28,
        sink.write(central_directory_bytes(files.subrange(0, 0))) == sink,
        files.subrange(0, files.len() as int) == files,
{
    let footer = archive_footer(
        files.len() as int,
        central_directory_bytes(files).len() as int,
        sink.pos,
    );
    lemma_footer_layout(footer);
    lemma_write_write(sink, central_directory_bytes(files), footer_bytes(footer));
    assert(files.subrange(0, 0) =~= Seq::empty());
    assert(sink.write(Seq::empty()).bytes =~= sink.bytes);
    assert(files.subrange(0, files.len() as int) =~= files);
}

/// The views of a list of descriptors whose last element was replaced.
pub proof fn lemma_views_replace_last(before: Seq<ZipFile>, after: Seq<ZipFile>)
    requires
        before.len() > 0,
        after.len() == before.len(),
        after.drop_last() == before.drop_last(),
    ensures
        views_of(after) == views_of(before).update(
            before.len() - 1,
            after.last()@,
        ),
{
    assert forall|i: int| 0 <= i < before.len() - 1 implies after[i] == before[i] by {
        assert(after.drop_last()[i] == after[i]);
        assert(before.drop_last()[i] == before[i]);
    }
    assert(views_of(after) =~= views_of(before).update(
        before.len() - 1,
        after.last()@,
    ));
}

/// What the invariant says of a writer that takes content.
pub proof fn lemma_open_facts(w: WriterView)
    requires
        w.wf(),
        !w.is_closed(),
    ensures
        w.backend.sink().wf(),
        w.files.len() == w.contents.len(),
        w.files.len() <= 0xffff,
        w.files.len() == 0 ==> w.backend is Storer,
        w.files.len() > 0 ==> {
            &&& w.bytes_written <= 0xffff_ffff
            &&& w.crc32 == content_crc32(
                entry_content(w.files.last().compression_method, w.contents.last()),
            )
            &&& w.backend is Storer ==> w.files.last().compression_method
                == CompressionMethod::Stored
            &&& w.backend is Deflater ==> w.files.last().compression_method
                == CompressionMethod::Deflated && w.backend->Deflater_0 == w.contents.last()
        },
{
    reveal(WriterView::settled);
    reveal(WriterView::entry_open);
}

/// What a settled writer offers: a raw sink and descriptors that can all be
/// written.
pub proof fn lemma_settled_facts(w: WriterView)
    requires
        w.settled(),
    ensures
        w.backend is Storer,
        w.backend.sink().wf(),
        w.files.len() == w.contents.len(),
        w.files.len() <= 0xffff,
        forall|i: int| 0 <= i < w.files.len() ==> encodable(#[trigger] w.files[i]),
{
    reveal(entries_complete);
    reveal(WriterView::settled);
}

/// A writer without entries over a raw sink upholds the invariant.
pub proof fn lemma_fresh(w: WriterView)
    requires
        w.backend is Storer,
        w.backend.sink().wf(),
        w.files.len() == 0,
        w.contents.len() == 0,
    ensures
        w.wf(),
        w.settled(),
{
    reveal(entries_complete);
    reveal(WriterView::settled);
}

} // verus!
