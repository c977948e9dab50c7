use std::io::Read;

use zip::compression::CompressionMethod;
use zip::datetime::DateTime;
use zip::error::{IoErrorKind, ZipError};
use zip::footer::CentralDirectoryEnd;
use zip::reader_spec::central_header_to_zip_file;
use zip::stream::ByteStream;
use zip::types::ZipFile;
use zip::writer::ZipWriter;

fn inflate_bytes(data: &[u8]) -> Vec<u8> {
    let mut decoder = flate2::read::DeflateDecoder::new(data);
    let mut out = Vec::new();
    decoder.read_to_end(&mut out).unwrap();
    out
}

fn noon() -> DateTime {
    DateTime { year: 2020, month: 6, day: 15, hour: 12, minute: 30, second: 40 }
}

/// Reads the footer at the end of the archive and then every descriptor.
fn scan(archive: &[u8]) -> (CentralDirectoryEnd, Vec<ZipFile>) {
    let mut reader = ByteStream::from_bytes(archive.to_vec());
    reader.seek(archive.len() as u64 - 28).unwrap();
    let footer = CentralDirectoryEnd::load(&mut reader).unwrap();
    assert_eq!(reader.tell(), archive.len() as u64);
    reader.seek(footer.central_directory_offset as u64).unwrap();
    let mut files = Vec::new();
    for _ in 0..footer.number_of_files {
        files.push(central_header_to_zip_file(&mut reader).unwrap());
    }
    assert_eq!(
        reader.tell(),
        footer.central_directory_offset as u64 + footer.central_directory_size as u64
    );
    (footer, files)
}

#[test]
fn write_before_any_entry_is_refused() {
    let mut writer = ZipWriter::new(ByteStream::new());
    assert_eq!(writer.write(b"data"), Err(ZipError::NoActiveEntry));
    // The writer is still usable.
    writer.start_file_at("a", CompressionMethod::Stored, noon()).unwrap();
    writer.write(b"data").unwrap();
    let (_, files) = scan(&writer.finish().unwrap().into_bytes());
    assert_eq!(files.len(), 1);
    assert_eq!(files[0].uncompressed_size, 4);
}

#[test]
fn unsupported_method_closes_the_writer() {
    let mut writer = ZipWriter::new(ByteStream::new());
    assert_eq!(
        writer.start_file_at("x", CompressionMethod::Unknown(99), noon()),
        Err(ZipError::UnsupportedCompressionMethod)
    );
    assert_eq!(writer.write(b"data"), Err(ZipError::WriterClosed));
    assert_eq!(
        writer.start_file_at("y", CompressionMethod::Stored, noon()),
        Err(ZipError::WriterClosed)
    );
    assert_eq!(writer.finish().err(), Some(ZipError::WriterClosed));
}

#[test]
fn unsupported_method_is_refused_by_start_file_too() {
    let mut writer = ZipWriter::new(ByteStream::new());
    assert_eq!(
        writer.start_file("x", CompressionMethod::Unknown(12)),
        Err(ZipError::UnsupportedCompressionMethod)
    );
    assert_eq!(writer.write(b""), Err(ZipError::WriterClosed));
}

#[test]
fn an_archive_without_entries_is_a_footer() {
    let archive = ZipWriter::new(ByteStream::new()).finish().unwrap().into_bytes();
    assert_eq!(
        archive,
        vec![
            0x50, 0x4b, 0x05, 0x06, 0, 0, 0, 0, 0, 0, 0, 0, 0, 0, 0, 0, 0, 0, 0, 0, 6, 0, b'z',
            b'i', b'p', b'-', b'r', b's',
        ]
    );
    let (footer, files) = scan(&archive);
    assert_eq!(footer.number_of_files, 0);
    assert_eq!(footer.central_directory_offset, 0);
    assert_eq!(footer.central_directory_size, 0);
    assert!(files.is_empty());
}

#[test]
fn a_stored_archive_has_these_exact_bytes() {
    let mut writer = ZipWriter::new(ByteStream::new());
    writer.start_file_at("a.txt", CompressionMethod::Stored, noon()).unwrap();
    writer.write(b"hi").unwrap();
    let archive = writer.finish().unwrap().into_bytes();

    // CRC-32 of "hi" is 0xd8932aac.
    let mut expected: Vec<u8> = Vec::new();
    // local file header
    expected.extend_from_slice(&[0x50, 0x4b, 0x03, 0x04]);
    expected.extend_from_slice(&[20, 0]);
    expected.extend_from_slice(&[0x00, 0x08]);
    expected.extend_from_slice(&[0, 0]);
    expected.extend_from_slice(&[0xd4, 0x63]);
    expected.extend_from_slice(&[0xcf, 0x50]);
    expected.extend_from_slice(&[0xac, 0x2a, 0x93, 0xd8]);
    expected.extend_from_slice(&[2, 0, 0, 0]);
    expected.extend_from_slice(&[2, 0, 0, 0]);
    expected.extend_from_slice(&[5, 0]);
    expected.extend_from_slice(&[0, 0]);
    expected.extend_from_slice(b"a.txt");
    // content
    expected.extend_from_slice(b"hi");
    // central directory entry
    expected.extend_from_slice(&[0x50, 0x4b, 0x01, 0x02]);
    expected.extend_from_slice(&[20, 0]);
    expected.extend_from_slice(&[20, 0]);
    expected.extend_from_slice(&[0x00, 0x08]);
    expected.extend_from_slice(&[0, 0]);
    expected.extend_from_slice(&[0xd4, 0x63]);
    expected.extend_from_slice(&[0xcf, 0x50]);
    expected.extend_from_slice(&[0xac, 0x2a, 0x93, 0xd8]);
    expected.extend_from_slice(&[2, 0, 0, 0]);
    expected.extend_from_slice(&[2, 0, 0, 0]);
    expected.extend_from_slice(&[5, 0]);
    expected.extend_from_slice(&[0, 0]);
    expected.extend_from_slice(&[0, 0]);
    expected.extend_from_slice(&[0, 0]);
    expected.extend_from_slice(&[0, 0]);
    expected.extend_from_slice(&[0, 0, 0, 0]);
    expected.extend_from_slice(&[0, 0, 0, 0]);
    expected.extend_from_slice(b"a.txt");
    // footer
    expected.extend_from_slice(&[0x50, 0x4b, 0x05, 0x06]);
    expected.extend_from_slice(&[0, 0, 0, 0]);
    expected.extend_from_slice(&[1, 0, 1, 0]);
    expected.extend_from_slice(&[51, 0, 0, 0]);
    expected.extend_from_slice(&[37, 0, 0, 0]);
    expected.extend_from_slice(&[6, 0]);
    expected.extend_from_slice(b"zip-rs");

    assert_eq!(archive, expected);
}

#[test]
fn stored_entries_have_equal_sizes() {
    let contents: Vec<Vec<u8>> = vec![
        Vec::new(),
        vec![0],
        b"some bytes".to_vec(),
        (0..=255u8).cycle().take(5000).collect(),
    ];
    let mut writer = ZipWriter::new(ByteStream::new());
    for (i, content) in contents.iter().enumerate() {
        writer.start_file_at(&format!("f{}", i), CompressionMethod::Stored, noon()).unwrap();
        writer.write(content).unwrap();
    }
    let archive = writer.finish().unwrap().into_bytes();
    let (footer, files) = scan(&archive);
    assert_eq!(footer.number_of_files as usize, contents.len());
    for (file, content) in files.iter().zip(contents.iter()) {
        assert_eq!(file.compression_method, CompressionMethod::Stored);
        assert_eq!(file.compressed_size, file.uncompressed_size);
        assert_eq!(file.uncompressed_size, content.len() as u64);
        let start = file.data_start as usize;
        assert_eq!(&archive[start..start + content.len()], &content[..]);
    }
}

#[test]
fn checksums_match_the_reference() {
    let mut writer = ZipWriter::new(ByteStream::new());
    writer.start_file_at("digits", CompressionMethod::Stored, noon()).unwrap();
    writer.write(b"1234").unwrap();
    writer.write(b"").unwrap();
    writer.write(b"56789").unwrap();
    writer.start_file_at("deflated", CompressionMethod::Deflated, noon()).unwrap();
    writer.write(b"The quick brown fox ").unwrap();
    writer.write(b"jumps over the lazy dog").unwrap();
    writer.start_file_at("empty", CompressionMethod::Deflated, noon()).unwrap();
    let archive = writer.finish().unwrap().into_bytes();
    let (_, files) = scan(&archive);
    // The CRC-32 of the digits one to nine is the usual test vector.
    assert_eq!(files[0].crc32, 0xcbf4_3926);
    assert_eq!(files[0].crc32, crc32fast::hash(b"123456789"));
    assert_eq!(files[1].crc32, 0x414f_a339);
    assert_eq!(
        files[1].crc32,
        crc32fast::hash(b"The quick brown fox jumps over the lazy dog")
    );
    assert_eq!(files[2].crc32, 0);
    assert_eq!(files[2].uncompressed_size, 0);
}

#[test]
fn entries_keep_the_order_of_their_starts() {
    let names = ["zeta", "alpha", "mid/dle", "alpha2", "0"];
    let mut writer = ZipWriter::new(ByteStream::new());
    for (i, name) in names.iter().enumerate() {
        let method = if i % 2 == 0 { CompressionMethod::Deflated } else { CompressionMethod::Stored };
        writer.start_file_at(name, method, noon()).unwrap();
        writer.write(name.as_bytes()).unwrap();
    }
    let archive = writer.finish().unwrap().into_bytes();
    let (footer, files) = scan(&archive);
    assert_eq!(footer.number_of_files, 5);
    let read: Vec<&str> = files.iter().map(|f| f.file_name.as_str()).collect();
    assert_eq!(read, names);
    for pair in files.windows(2) {
        assert!(pair[0].header_start < pair[1].header_start);
        assert_eq!(pair[0].data_start + pair[0].compressed_size, pair[1].header_start);
    }
}

#[test]
fn content_stands_at_data_start() {
    let plain: Vec<u8> = (0..2000u32).map(|i| (i * 7 % 251) as u8).collect();
    let text: Vec<u8> = b"abcabcabc".iter().cycle().take(3000).cloned().collect();
    let mut writer = ZipWriter::new(ByteStream::new());
    writer.start_file_at("plain.bin", CompressionMethod::Stored, noon()).unwrap();
    writer.write(&plain[..700]).unwrap();
    writer.write(&plain[700..]).unwrap();
    writer.start_file_at("text.txt", CompressionMethod::Deflated, noon()).unwrap();
    writer.write(&text[..1]).unwrap();
    writer.write(&text[1..]).unwrap();
    let archive = writer.finish().unwrap().into_bytes();
    let (_, files) = scan(&archive);

    assert_eq!(files[0].header_start, 0);
    assert_eq!(files[0].data_start, 30 + 9);
    let start = files[0].data_start as usize;
    assert_eq!(&archive[start..start + files[0].uncompressed_size as usize], &plain[..]);

    assert_eq!(files[1].header_start, 39 + 2000);
    assert_eq!(files[1].data_start, files[1].header_start + 30 + 8);
    let start = files[1].data_start as usize;
    let end = start + files[1].compressed_size as usize;
    assert!(files[1].compressed_size < 3000);
    assert_ne!(&archive[start..end], &text[..end - start]);
    assert_eq!(inflate_bytes(&archive[start..end]), text);
    assert_eq!(files[1].uncompressed_size, 3000);
}

#[test]
fn the_local_header_is_written_again_with_final_values() {
    let mut writer = ZipWriter::new(ByteStream::new());
    writer.start_file_at("a", CompressionMethod::Deflated, noon()).unwrap();
    writer.write(&[b'x'; 1000]).unwrap();
    let archive = writer.finish().unwrap().into_bytes();
    let (_, files) = scan(&archive);
    let crc = crc32fast::hash(&[b'x'; 1000]);
    assert_eq!(&archive[0..4], &[0x50, 0x4b, 0x03, 0x04]);
    assert_eq!(&archive[8..10], &[8, 0]);
    assert_eq!(&archive[14..18], &crc.to_le_bytes());
    assert_eq!(&archive[18..22], &(files[0].compressed_size as u32).to_le_bytes());
    assert_eq!(&archive[22..26], &1000u32.to_le_bytes());
    assert_eq!(&archive[26..28], &[1, 0]);
    assert_eq!(&archive[28..30], &[0, 0]);
    assert_eq!(archive[30], b'a');
}

#[test]
fn a_name_that_no_header_can_hold_is_refused() {
    let long = "n".repeat(65536);
    let mut writer = ZipWriter::new(ByteStream::new());
    assert_eq!(
        writer.start_file_at(&long, CompressionMethod::Stored, noon()),
        Err(ZipError::Io(IoErrorKind::InvalidInput))
    );
    assert_eq!(
        writer.start_file(&long, CompressionMethod::Stored),
        Err(ZipError::Io(IoErrorKind::InvalidInput))
    );
    // Nothing has happened to the writer.
    assert_eq!(writer.write(b"x"), Err(ZipError::NoActiveEntry));
    let longest = "n".repeat(65535);
    writer.start_file_at(&longest, CompressionMethod::Stored, noon()).unwrap();
    let (_, files) = scan(&writer.finish().unwrap().into_bytes());
    assert_eq!(files[0].file_name, longest);
    assert_eq!(files[0].data_start, 30 + 65535);
}

#[test]
fn a_timestamp_that_no_header_can_hold_is_refused() {
    let mut writer = ZipWriter::new(ByteStream::new());
    for bad in [
        DateTime { year: 1979, ..noon() },
        DateTime { year: 2108, ..noon() },
        DateTime { month: 16, ..noon() },
        DateTime { day: 32, ..noon() },
        DateTime { hour: 32, ..noon() },
        DateTime { minute: 64, ..noon() },
        DateTime { second: 64, ..noon() },
    ] {
        assert_eq!(
            writer.start_file_at("a", CompressionMethod::Stored, bad),
            Err(ZipError::Io(IoErrorKind::InvalidInput))
        );
    }
    assert_eq!(writer.write(b"x"), Err(ZipError::NoActiveEntry));
}

#[test]
fn timestamps_lose_their_odd_second() {
    let mut writer = ZipWriter::new(ByteStream::new());
    let odd = DateTime { year: 2107, month: 12, day: 31, hour: 23, minute: 59, second: 59 };
    writer.start_file_at("odd", CompressionMethod::Stored, odd).unwrap();
    writer.start_file_at("even", CompressionMethod::Stored, noon()).unwrap();
    let (_, files) = scan(&writer.finish().unwrap().into_bytes());
    assert_eq!(files[0].last_modified_time, DateTime { second: 58, ..odd });
    assert_eq!(files[1].last_modified_time, noon());
}

#[test]
fn start_file_stamps_the_entry_with_a_time_of_the_clock() {
    let mut writer = ZipWriter::new(ByteStream::new());
    writer.start_file("now", CompressionMethod::Stored).unwrap();
    let (_, files) = scan(&writer.finish().unwrap().into_bytes());
    let stamp = files[0].last_modified_time;
    assert!(1980 <= stamp.year && stamp.year <= 2107);
    assert!(1 <= stamp.month && stamp.month <= 12);
    assert!(1 <= stamp.day && stamp.day <= 31);
    assert!(stamp.hour < 24 && stamp.minute < 60 && stamp.second < 60);
}

#[test]
fn an_archive_can_follow_other_bytes() {
    let mut sink = ByteStream::from_bytes(b"#!/bin/sh\n".to_vec());
    sink.seek_to_end();
    let mut writer = ZipWriter::new(sink);
    writer.start_file_at("a", CompressionMethod::Stored, noon()).unwrap();
    writer.write(b"abc").unwrap();
    let archive = writer.finish().unwrap().into_bytes();
    assert_eq!(&archive[..10], b"#!/bin/sh\n");
    let (footer, files) = scan(&archive);
    assert_eq!(files[0].header_start, 10);
    assert_eq!(files[0].data_start, 41);
    assert_eq!(&archive[41..44], b"abc");
    assert_eq!(footer.central_directory_offset, 44);
}

#[test]
fn names_outside_ascii_are_read_back() {
    let name = "gr\u{fc}\u{df}e/\u{65e5}\u{672c}\u{8a9e}.txt";
    let mut writer = ZipWriter::new(ByteStream::new());
    writer.start_file_at(name, CompressionMethod::Stored, noon()).unwrap();
    let archive = writer.finish().unwrap().into_bytes();
    let (_, files) = scan(&archive);
    assert_eq!(files[0].file_name, name);
    assert_eq!(files[0].file_comment, "");
    assert!(!files[0].encrypted);
    assert_eq!(files[0].data_start, 30 + name.len() as u64);
}

#[test]
fn the_sink_is_returned_with_the_cursor_at_the_end() {
    let mut writer = ZipWriter::new(ByteStream::new());
    writer.start_file_at("a", CompressionMethod::Stored, noon()).unwrap();
    let sink = writer.finish().unwrap();
    assert_eq!(sink.tell(), sink.len());
    assert_eq!(sink.len(), 31 + 47 + 28);
}

#[test]
fn more_entries_than_the_footer_can_count_are_refused() {
    let mut writer = ZipWriter::new(ByteStream::new());
    for i in 0..65535u32 {
        let method = if i % 1000 == 0 { CompressionMethod::Deflated } else { CompressionMethod::Stored };
        writer.start_file_at("e", method, noon()).unwrap();
    }
    assert_eq!(
        writer.start_file_at("e", CompressionMethod::Stored, noon()),
        Err(ZipError::Io(IoErrorKind::FileTooLarge))
    );
    // The archive is given up.
    assert_eq!(writer.write(b"x"), Err(ZipError::WriterClosed));
    assert_eq!(writer.finish().err(), Some(ZipError::WriterClosed));
}

#[test]
fn the_footer_counts_up_to_65535_entries() {
    let mut writer = ZipWriter::new(ByteStream::new());
    for _ in 0..65535u32 {
        writer.start_file_at("e", CompressionMethod::Stored, noon()).unwrap();
    }
    writer.write(b"last").unwrap();
    let archive = writer.finish().unwrap().into_bytes();
    assert_eq!(archive.len(), 65535 * (31 + 47) + 4 + 28);
    let mut reader = ByteStream::from_bytes(archive);
    reader.seek(reader.len() - 28).unwrap();
    let footer = CentralDirectoryEnd::load(&mut reader).unwrap();
    assert_eq!(footer.number_of_files, 65535);
    assert_eq!(footer.central_directory_size, 65535 * 47);
    assert_eq!(footer.central_directory_offset, 65535 * 31 + 4);
    reader.seek(footer.central_directory_offset as u64 + 65534 * 47).unwrap();
    let last = central_header_to_zip_file(&mut reader).unwrap();
    assert_eq!(last.uncompressed_size, 4);
    assert_eq!(last.header_start, 65534 * 31);
}

#[test]
fn a_closed_writer_answers_every_call_with_writer_closed() {
    let mut writer = ZipWriter::new(ByteStream::new());
    assert_eq!(
        writer.start_file_at("x", CompressionMethod::Unknown(99), noon()),
        Err(ZipError::UnsupportedCompressionMethod)
    );
    // Arguments that an open writer would refuse as invalid make no difference.
    let long = "n".repeat(65536);
    assert_eq!(
        writer.start_file_at(&long, CompressionMethod::Stored, noon()),
        Err(ZipError::WriterClosed)
    );
    assert_eq!(writer.start_file(&long, CompressionMethod::Deflated), Err(ZipError::WriterClosed));
    assert_eq!(
        writer.start_file_at("a", CompressionMethod::Stored, DateTime { year: 1970, ..noon() }),
        Err(ZipError::WriterClosed)
    );
    assert_eq!(
        writer.start_file_at("a", CompressionMethod::Unknown(1), noon()),
        Err(ZipError::WriterClosed)
    );
    assert_eq!(writer.write(b""), Err(ZipError::WriterClosed));
    assert_eq!(writer.finish().err(), Some(ZipError::WriterClosed));
}

#[test]
fn content_written_in_many_chunks_is_one_content() {
    let whole: Vec<u8> = (0..10_000u32).map(|i| (i % 97) as u8).collect();
    let mut writer = ZipWriter::new(ByteStream::new());
    for method in [CompressionMethod::Deflated, CompressionMethod::Stored] {
        writer.start_file_at("chunks", method, noon()).unwrap();
        for chunk in whole.chunks(333) {
            writer.write(chunk).unwrap();
        }
    }
    let archive = writer.finish().unwrap().into_bytes();
    let (_, files) = scan(&archive);
    for file in &files {
        assert_eq!(file.uncompressed_size, 10_000);
        assert_eq!(file.crc32, crc32fast::hash(&whole));
    }
    let start = files[0].data_start as usize;
    let end = start + files[0].compressed_size as usize;
    assert_eq!(inflate_bytes(&archive[start..end]), whole);
    let start = files[1].data_start as usize;
    assert_eq!(&archive[start..start + 10_000], &whole[..]);
}
