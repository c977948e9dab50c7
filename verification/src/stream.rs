//! An in-memory byte stream with a cursor: the transport that archives are
//! read from and written to.

use vstd::prelude::*;
use crate::endian::{get_u16, get_u32, u16_at, u32_at};
use crate::error::{IoErrorKind, ZipError};

verus! {

/// A growable sequence of bytes and a cursor into it. Reads and writes start
/// at the cursor and move it; a write past the end extends the stream.
pub struct ByteStream {
    data: Vec<u8>,
    pos: usize,
}

/// What a [`ByteStream`] holds: its bytes and the position of its cursor.
pub struct StreamView {
    pub bytes: Seq<u8>,
    pub pos: int,
}

impl StreamView {
    /// The cursor stands inside the bytes or directly behind them, and the
    /// bytes fit the machine's address width.
    pub open spec fn wf(self) -> bool {
        0 <= self.pos <= self.bytes.len() <= usize::MAX
    }

    /// The stream after `new` was written at the cursor.
    pub open spec fn write(self, new: Seq<u8>) -> StreamView {
        StreamView { bytes: overwrite(self.bytes, self.pos, new), pos: self.pos + new.len() }
    }

    /// The stream with its cursor moved to `pos`.
    pub open spec fn at(self, pos: int) -> StreamView {
        StreamView { bytes: self.bytes, pos }
    }
}

/// `bytes` with `new` laid over it from index `at` on: what lies under `new`
/// is replaced, and what reaches past the end is appended.
pub open spec fn overwrite(bytes: Seq<u8>, at: int, new: Seq<u8>) -> Seq<u8>
    recommends
        0 <= at <= bytes.len(),
{
    Seq::new(
        (if bytes.len() >= at + new.len() {
            bytes.len() as int
        } else {
            at + new.len()
        }) as nat,
        |i: int|
            if at <= i < at + new.len() {
                new[i - at]
            } else {
                bytes[i]
            },
    )
}

/// What was written can be read back where it was written, and everything
/// outside that range is as it was.
pub proof fn lemma_overwrite_regions(bytes: Seq<u8>, at: int, new: Seq<u8>)
    requires
        0 <= at <= bytes.len(),
    ensures
        overwrite(bytes, at, new).len() >= bytes.len(),
        overwrite(bytes, at, new).len() >= at + new.len(),
        overwrite(bytes, at, new).subrange(at, at + new.len()) == new,
        forall|i: int, j: int|
            0 <= i <= j <= at ==> #[trigger] overwrite(bytes, at, new).subrange(i, j)
                == bytes.subrange(i, j),
        forall|i: int, j: int|
            at + new.len() <= i <= j <= bytes.len() ==> #[trigger] overwrite(
                bytes,
                at,
                new,
            ).subrange(i, j) == bytes.subrange(i, j),
{
    let out = overwrite(bytes, at, new);
    assert(out.subrange(at, at + new.len()) =~= new);
    assert forall|i: int, j: int| 0 <= i <= j <= at implies #[trigger] out.subrange(i, j)
        == bytes.subrange(i, j) by {
        assert(out.subrange(i, j) =~= bytes.subrange(i, j));
    }
    assert forall|i: int, j: int| at + new.len() <= i <= j <= bytes.len() implies #[trigger] out.subrange(
        i,
        j,
    ) == bytes.subrange(i, j) by {
        assert(out.subrange(i, j) =~= bytes.subrange(i, j));
    }
}

impl View for ByteStream {
    type V = StreamView;

    closed spec fn view(&self) -> StreamView {
        StreamView { bytes: self.data@, pos: self.pos as int }
    }
}

impl ByteStream {
    /// The cursor never stands behind the end of the bytes. Every
    /// constructor establishes this and every method keeps it.
    pub open spec fn wf(&self) -> bool {
        self@.wf()
    }


    /// An empty stream.
    pub fn new() -> (stream: ByteStream)
        ensures
            stream@.bytes == Seq::<u8>::empty(),
            stream@.pos == 0,
            stream.wf(),
    {
        ByteStream { data: Vec::new(), pos: 0 }
    }

    /// A stream over `data`, with the cursor at the start.
    pub fn from_bytes(data: Vec<u8>) -> (stream: ByteStream)
        ensures
            stream@.bytes == data@,
            stream@.pos == 0,
            stream.wf(),
    {
        let _ = data.len();
        ByteStream { data, pos: 0 }
    }

    /// The bytes of the stream, whatever the cursor's position.
    pub fn into_bytes(self) -> (data: Vec<u8>)
        ensures
            data@ == self@.bytes,
    {
        self.data
    }

    /// The bytes of the stream, whatever the cursor's position.
    pub fn as_slice(&self) -> (data: &[u8])
        ensures
            data@ == self@.bytes,
    {
        self.data.as_slice()
    }

    /// The number of bytes in the stream.
    pub fn len(&self) -> (n: u64)
        ensures
            n == self@.bytes.len(),
    {
        self.data.len() as u64
    }

    /// The position of the cursor.
    pub fn tell(&self) -> (pos: u64)
        requires
            self.wf(),
        ensures
            pos == self@.pos,
    {
        self.pos as u64
    }

    /// Moves the cursor to `to`, counted from the start. A position behind
    /// the end is refused and leaves the stream as it was.
    pub fn seek(&mut self, to: u64) -> (r: Result<(), ZipError>)
        requires
            old(self).wf(),
        ensures
            to <= old(self)@.bytes.len() ==> r == Ok::<(), ZipError>(()) && final(self)@
                == old(self)@.at(to as int),
            to > old(self)@.bytes.len() ==> r == Err::<(), ZipError>(
                ZipError::Io(IoErrorKind::SeekPastEnd),
            ) && final(self)@ == old(self)@,
            final(self).wf(),
    {
        if to > self.data.len() as u64 {
            return Err(ZipError::Io(IoErrorKind::SeekPastEnd));
        }
        self.pos = to as usize;
        Ok(())
    }

    /// Moves the cursor behind the last byte.
    pub fn seek_to_end(&mut self)
        requires
            old(self).wf(),
        ensures
            final(self)@ == old(self)@.at(old(self)@.bytes.len() as int),
            final(self).wf(),
    {
        self.pos = self.data.len();
    }

    /// Moves the cursor forward by `count` bytes. A position behind the end is
    /// refused and leaves the stream as it was.
    pub fn skip(&mut self, count: u64) -> (r: Result<(), ZipError>)
        requires
            old(self).wf(),
        ensures
            old(self)@.pos + count <= old(self)@.bytes.len() ==> r == Ok::<(), ZipError>(())
                && final(self)@ == old(self)@.at(old(self)@.pos + count),
            old(self)@.pos + count > old(self)@.bytes.len() ==> r == Err::<(), ZipError>(
                ZipError::Io(IoErrorKind::SeekPastEnd),
            ) && final(self)@ == old(self)@,
            final(self).wf(),
    {
        if count > (self.data.len() - self.pos) as u64 {
            return Err(ZipError::Io(IoErrorKind::SeekPastEnd));
        }
        self.pos = self.pos + count as usize;
        Ok(())
    }

    /// Reads `count` bytes at the cursor and moves the cursor behind them.
    /// Where fewer are left the read fails and the stream stays as it was.
    pub fn read_exact(&mut self, count: usize) -> (r: Result<Vec<u8>, ZipError>)
        requires
            old(self).wf(),
        ensures
            final(self)@.bytes == old(self)@.bytes,
            old(self)@.pos + count <= old(self)@.bytes.len() ==> {
                &&& r matches Ok(block)
                &&& block@ == old(self)@.bytes.subrange(old(self)@.pos, old(self)@.pos + count)
                &&& final(self)@.pos == old(self)@.pos + count
            },
            old(self)@.pos + count > old(self)@.bytes.len() ==> r == Err::<Vec<u8>, ZipError>(
                ZipError::Io(IoErrorKind::UnexpectedEof),
            ) && final(self)@ == old(self)@,
            final(self).wf(),
    {
        if count > self.data.len() - self.pos {
            return Err(ZipError::Io(IoErrorKind::UnexpectedEof));
        }
        let start = self.pos;
        let mut block: Vec<u8> = Vec::new();
        let mut i: usize = 0;
        while i < count
            invariant
                i <= count,
                start + count <= self.data.len(),
                block@ == self.data@.subrange(start as int, start + i),
            decreases count - i,
        {
            block.push(self.data[start + i]);
            i = i + 1;
            assert(block@ =~= self.data@.subrange(start as int, start + i));
        }
        self.pos = start + count;
        Ok(block)
    }

    /// Reads a 16-bit little-endian value at the cursor.
    pub fn read_le_u16(&mut self) -> (r: Result<u16, ZipError>)
        requires
            old(self).wf(),
        ensures
            final(self)@.bytes == old(self)@.bytes,
            old(self)@.pos + 2 <= old(self)@.bytes.len() ==> r == Ok::<u16, ZipError>(
                u16_at(old(self)@.bytes, old(self)@.pos),
            ) && final(self)@.pos == old(self)@.pos + 2,
            old(self)@.pos + 2 > old(self)@.bytes.len() ==> r == Err::<u16, ZipError>(
                ZipError::Io(IoErrorKind::UnexpectedEof),
            ) && final(self)@ == old(self)@,
            final(self).wf(),
    {
        if self.data.len() - self.pos < 2 {
            return Err(ZipError::Io(IoErrorKind::UnexpectedEof));
        }
        let value = get_u16(self.data.as_slice(), self.pos);
        self.pos = self.pos + 2;
        Ok(value)
    }

    /// Reads a 32-bit little-endian value at the cursor.
    pub fn read_le_u32(&mut self) -> (r: Result<u32, ZipError>)
        requires
            old(self).wf(),
        ensures
            final(self)@.bytes == old(self)@.bytes,
            old(self)@.pos + 4 <= old(self)@.bytes.len() ==> r == Ok::<u32, ZipError>(
                u32_at(old(self)@.bytes, old(self)@.pos),
            ) && final(self)@.pos == old(self)@.pos + 4,
            old(self)@.pos + 4 > old(self)@.bytes.len() ==> r == Err::<u32, ZipError>(
                ZipError::Io(IoErrorKind::UnexpectedEof),
            ) && final(self)@ == old(self)@,
            final(self).wf(),
    {
        if self.data.len() - self.pos < 4 {
            return Err(ZipError::Io(IoErrorKind::UnexpectedEof));
        }
        let value = get_u32(self.data.as_slice(), self.pos);
        self.pos = self.pos + 4;
        Ok(value)
    }

    /// Writes `buf` at the cursor, over what stands there and past the end
    /// where it reaches further, and moves the cursor behind it. The write is
    /// refused, and nothing changes, where the new cursor would not fit the
    /// machine's address width.
    pub fn write(&mut self, buf: &[u8]) -> (r: Result<(), ZipError>)
        requires
            old(self).wf(),
        ensures
            old(self)@.pos + buf@.len() <= usize::MAX ==> r == Ok::<(), ZipError>(())
                && final(self)@ == old(self)@.write(buf@),
            old(self)@.pos + buf@.len() > usize::MAX ==> r == Err::<(), ZipError>(
                ZipError::Io(IoErrorKind::FileTooLarge),
            ) && final(self)@ == old(self)@,
            final(self).wf(),
    {
        let count = buf.len();
        if count > usize::MAX - self.pos {
            return Err(ZipError::Io(IoErrorKind::FileTooLarge));
        }
        let start = self.pos;
        let mut i: usize = 0;
        while i < count
            invariant
                i <= count,
                count == buf.len(),
                start + count <= usize::MAX,
                self.pos == start,
                start <= old(self).data.len(),
                self.data@ == overwrite(old(self).data@, start as int, buf@.subrange(0, i as int)),
            decreases count - i,
        {
            let at = start + i;
            if at < self.data.len() {
                self.data.set(at, buf[i]);
            } else {
                self.data.push(buf[i]);
            }
            i = i + 1;
            assert(self.data@ =~= overwrite(
                old(self).data@,
                start as int,
                buf@.subrange(0, i as int),
            ));
        }
        assert(buf@.subrange(0, count as int) =~= buf@);
        let _ = self.data.len();
        self.pos = start + count;
        Ok(())
    }
}

} // verus!
