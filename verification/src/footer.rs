//! The end-of-central-directory record that closes an archive.

use vstd::prelude::*;
use crate::endian::{
    lemma_fields_within, lemma_u16_round_trip, lemma_u32_round_trip, put_bytes, put_u16, put_u32,
    u16_at, u16_le, u32_at, u32_le,
};
use crate::error::{IoErrorKind, RecordKind, ZipError};
use crate::format::{CENTRAL_DIRECTORY_END_SIGNATURE, MAX_U16};
use crate::stream::ByteStream;

verus! {

/// The footer of an archive: where its central directory stands and how many
/// entries it lists.
#[derive(Clone, Debug)]
pub struct CentralDirectoryEnd {
    /// The number of this disk; zero in an archive of one part.
    pub disk_number: u16,
    /// The number of the disk on which the central directory starts.
    pub disk_with_central_directory: u16,
    /// The number of entries in the central directory on this disk.
    pub number_of_files_on_this_disk: u16,
    /// The number of entries in the whole central directory.
    pub number_of_files: u16,
    /// The size of the central directory in bytes.
    pub central_directory_size: u32,
    /// The offset of the central directory in the archive.
    pub central_directory_offset: u32,
    /// The comment of the archive.
    pub zip_file_comment: Vec<u8>,
}

/// The mathematical value of a [`CentralDirectoryEnd`].
pub struct CentralDirectoryEndView {
    pub disk_number: u16,
    pub disk_with_central_directory: u16,
    pub number_of_files_on_this_disk: u16,
    pub number_of_files: u16,
    pub central_directory_size: u32,
    pub central_directory_offset: u32,
    pub zip_file_comment: Seq<u8>,
}

impl View for CentralDirectoryEnd {
    type V = CentralDirectoryEndView;

    open spec fn view(&self) -> CentralDirectoryEndView {
        CentralDirectoryEndView {
            disk_number: self.disk_number,
            disk_with_central_directory: self.disk_with_central_directory,
            number_of_files_on_this_disk: self.number_of_files_on_this_disk,
            number_of_files: self.number_of_files,
            central_directory_size: self.central_directory_size,
            central_directory_offset: self.central_directory_offset,
            zip_file_comment: self.zip_file_comment@,
        }
    }
}

/// The bytes of a footer: 22 bytes and the comment.
pub open spec fn footer_bytes(footer: CentralDirectoryEndView) -> Seq<u8>
    recommends
        footer.zip_file_comment.len() <= 0xffff,
{
    u32_le(CENTRAL_DIRECTORY_END_SIGNATURE) + u16_le(footer.disk_number) + u16_le(
        footer.disk_with_central_directory,
    ) + u16_le(footer.number_of_files_on_this_disk) + u16_le(footer.number_of_files) + u32_le(
        footer.central_directory_size,
    ) + u32_le(footer.central_directory_offset) + u16_le(footer.zip_file_comment.len() as u16)
        + footer.zip_file_comment
}

/// What reading a footer at `pos` gives: the footer and the position behind
/// it, or the error of the first step that fails.
pub open spec fn parse_footer(bytes: Seq<u8>, pos: int) -> Result<
    (CentralDirectoryEndView, int),
    ZipError,
> {
    if pos + 4 > bytes.len() {
        Err(ZipError::Io(IoErrorKind::UnexpectedEof))
    } else if u32_at(bytes, pos) != CENTRAL_DIRECTORY_END_SIGNATURE {
        Err(ZipError::FormatMismatch(RecordKind::CentralDirectoryEnd))
    } else if pos + 22 + u16_at(bytes, pos + 20) > bytes.len() {
        Err(ZipError::Io(IoErrorKind::UnexpectedEof))
    } else {
        Ok(
            (
                CentralDirectoryEndView {
                    disk_number: u16_at(bytes, pos + 4),
                    disk_with_central_directory: u16_at(bytes, pos + 6),
                    number_of_files_on_this_disk: u16_at(bytes, pos + 8),
                    number_of_files: u16_at(bytes, pos + 10),
                    central_directory_size: u32_at(bytes, pos + 12),
                    central_directory_offset: u32_at(bytes, pos + 16),
                    zip_file_comment: bytes.subrange(
                        pos + 22,
                        pos + 22 + u16_at(bytes, pos + 20),
                    ),
                },
                pos + 22 + u16_at(bytes, pos + 20),
            ),
        )
    }
}

/// Where the fields of a footer stand.
#[verifier::rlimit(50)]
pub proof fn lemma_footer_layout(footer: CentralDirectoryEndView)
    requires
        footer.zip_file_comment.len() <= 0xffff,
    ensures
        footer_bytes(footer).len() == 22 + footer.zip_file_comment.len(),
        u32_at(footer_bytes(footer), 0) == CENTRAL_DIRECTORY_END_SIGNATURE,
        u16_at(footer_bytes(footer), 4) == footer.disk_number,
        u16_at(footer_bytes(footer), 6) == footer.disk_with_central_directory,
        u16_at(footer_bytes(footer), 8) == footer.number_of_files_on_this_disk,
        u16_at(footer_bytes(footer), 10) == footer.number_of_files,
        u32_at(footer_bytes(footer), 12) == footer.central_directory_size,
        u32_at(footer_bytes(footer), 16) == footer.central_directory_offset,
        u16_at(footer_bytes(footer), 20) == footer.zip_file_comment.len(),
        footer_bytes(footer).subrange(22, 22 + footer.zip_file_comment.len() as int)
            == footer.zip_file_comment,
{
    let f = footer_bytes(footer);
    let c = footer.zip_file_comment.len() as int;
    assert(f.subrange(0, 4) =~= u32_le(CENTRAL_DIRECTORY_END_SIGNATURE));
    assert(f.subrange(4, 6) =~= u16_le(footer.disk_number));
    assert(f.subrange(6, 8) =~= u16_le(footer.disk_with_central_directory));
    assert(f.subrange(8, 10) =~= u16_le(footer.number_of_files_on_this_disk));
    assert(f.subrange(10, 12) =~= u16_le(footer.number_of_files));
    assert(f.subrange(12, 16) =~= u32_le(footer.central_directory_size));
    assert(f.subrange(16, 20) =~= u32_le(footer.central_directory_offset));
    assert(f.subrange(20, 22) =~= u16_le(c as u16));
    assert(f.subrange(22, 22 + c) =~= footer.zip_file_comment);
    lemma_u32_round_trip(f, 0, CENTRAL_DIRECTORY_END_SIGNATURE);
    lemma_u16_round_trip(f, 4, footer.disk_number);
    lemma_u16_round_trip(f, 6, footer.disk_with_central_directory);
    lemma_u16_round_trip(f, 8, footer.number_of_files_on_this_disk);
    lemma_u16_round_trip(f, 10, footer.number_of_files);
    lemma_u32_round_trip(f, 12, footer.central_directory_size);
    lemma_u32_round_trip(f, 16, footer.central_directory_offset);
    lemma_u16_round_trip(f, 20, c as u16);
}

/// A footer that was written is read back as it was, wherever it stands.
pub proof fn lemma_footer_round_trip(bytes: Seq<u8>, pos: int, footer: CentralDirectoryEndView)
    requires
        footer.zip_file_comment.len() <= 0xffff,
        0 <= pos,
        pos + footer_bytes(footer).len() <= bytes.len(),
        bytes.subrange(pos, pos + footer_bytes(footer).len()) == footer_bytes(footer),
    ensures
        parse_footer(bytes, pos) == Ok::<(CentralDirectoryEndView, int), ZipError>(
            (footer, pos + footer_bytes(footer).len()),
        ),
{
    let f = footer_bytes(footer);
    let c = footer.zip_file_comment.len() as int;
    lemma_footer_layout(footer);
    lemma_fields_within(bytes, pos, f);
    assert(u32_at(bytes, pos + 0) == u32_at(f, 0));
    assert(u16_at(bytes, pos + 4) == u16_at(f, 4));
    assert(u16_at(bytes, pos + 6) == u16_at(f, 6));
    assert(u16_at(bytes, pos + 8) == u16_at(f, 8));
    assert(u16_at(bytes, pos + 10) == u16_at(f, 10));
    assert(u32_at(bytes, pos + 12) == u32_at(f, 12));
    assert(u32_at(bytes, pos + 16) == u32_at(f, 16));
    assert(u16_at(bytes, pos + 20) == u16_at(f, 20));
    assert(bytes.subrange(pos + 22, pos + 22 + c) == f.subrange(22, 22 + c));
}

impl CentralDirectoryEnd {
    /// The bytes of the footer, or nothing where the comment is longer than
    /// 65535 bytes.
    pub fn encode(&self) -> (bytes: Option<Vec<u8>>)
        ensures
            self@.zip_file_comment.len() <= 0xffff ==> (bytes matches Some(b) && b@
                == footer_bytes(self@)),
            self@.zip_file_comment.len() > 0xffff ==> bytes.is_none(),
    {
        if self.zip_file_comment.len() as u64 > MAX_U16 {
            return None;
        }
        let mut out: Vec<u8> = Vec::new();
        put_u32(&mut out, CENTRAL_DIRECTORY_END_SIGNATURE);
        put_u16(&mut out, self.disk_number);
        put_u16(&mut out, self.disk_with_central_directory);
        put_u16(&mut out, self.number_of_files_on_this_disk);
        put_u16(&mut out, self.number_of_files);
        put_u32(&mut out, self.central_directory_size);
        put_u32(&mut out, self.central_directory_offset);
        put_u16(&mut out, self.zip_file_comment.len() as u16);
        put_bytes(&mut out, self.zip_file_comment.as_slice());
        assert(out@ =~= footer_bytes(self@));
        Some(out)
    }

    /// Writes the footer at the cursor.
    ///
    /// A comment of more than 65535 bytes is refused as invalid input, and a
    /// footer that would move the cursor past the machine's address width as
    /// too large; both leave the stream as it was.
    pub fn write(&self, writer: &mut ByteStream) -> (r: Result<(), ZipError>)
        requires
            old(writer).wf(),
        ensures
            final(writer).wf(),
            self@.zip_file_comment.len() > 0xffff ==> r == Err::<(), ZipError>(
                ZipError::Io(IoErrorKind::InvalidInput),
            ) && final(writer)@ == old(writer)@,
            self@.zip_file_comment.len() <= 0xffff && old(writer)@.pos + footer_bytes(self@).len()
                > usize::MAX ==> r == Err::<(), ZipError>(ZipError::Io(IoErrorKind::FileTooLarge))
                && final(writer)@ == old(writer)@,
            self@.zip_file_comment.len() <= 0xffff && old(writer)@.pos + footer_bytes(self@).len()
                <= usize::MAX ==> r == Ok::<(), ZipError>(()) && final(writer)@ == old(writer)@.write(
                footer_bytes(self@),
            ),
    {
        match self.encode() {
            Some(bytes) => writer.write(bytes.as_slice()),
            None => Err(ZipError::Io(IoErrorKind::InvalidInput)),
        }
    }

    /// Reads a footer at the cursor and leaves the cursor behind it.
    ///
    /// Fails with a format mismatch where the four bytes at the cursor are not
    /// the footer's signature, and with an end-of-stream error where the stream
    /// ends inside the record. The bytes of the stream are never changed.
    pub fn load(reader: &mut ByteStream) -> (r: Result<CentralDirectoryEnd, ZipError>)
        requires
            old(reader).wf(),
        ensures
            final(reader).wf(),
            final(reader)@.bytes == old(reader)@.bytes,
            match parse_footer(old(reader)@.bytes, old(reader)@.pos) {
                Ok((footer, next)) => r matches Ok(f) && f@ == footer && final(reader)@.pos
                    == next,
                Err(e) => r matches Err(x) && x == e,
            },
    {
        let signature = reader.read_le_u32()?;
        if signature != CENTRAL_DIRECTORY_END_SIGNATURE {
            return Err(ZipError::FormatMismatch(RecordKind::CentralDirectoryEnd));
        }
        let disk_number = reader.read_le_u16()?;
        let disk_with_central_directory = reader.read_le_u16()?;
        let number_of_files_on_this_disk = reader.read_le_u16()?;
        let number_of_files = reader.read_le_u16()?;
        let central_directory_size = reader.read_le_u32()?;
        let central_directory_offset = reader.read_le_u32()?;
        let comment_length = reader.read_le_u16()? as usize;
        let zip_file_comment = reader.read_exact(comment_length)?;
        Ok(
            CentralDirectoryEnd {
                disk_number,
                disk_with_central_directory,
                number_of_files_on_this_disk,
                number_of_files,
                central_directory_size,
                central_directory_offset,
                zip_file_comment,
            },
        )
    }
}

} // verus!
