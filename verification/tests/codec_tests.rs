use zip::clock;
use zip::compression::CompressionMethod;
use zip::datetime::DateTime;
use zip::endian::{get_u16, get_u32, put_bytes, put_u16, put_u32};
use zip::error::{IoErrorKind, RecordKind, ZipError};
use zip::footer::CentralDirectoryEnd;
use zip::stream::ByteStream;
use zip::types::ZipFile;
use zip::writer::GenericZipWriter;
use zip::writer_spec::{
    encode_central_directory_header, encode_local_file_header, is_encodable,
    update_local_file_header, write_central_directory_header, write_local_file_header,
};

fn sample() -> ZipFile {
    ZipFile {
        encrypted: false,
        compression_method: CompressionMethod::Deflated,
        last_modified_time: DateTime { year: 1999, month: 12, day: 31, hour: 23, minute: 59, second: 58 },
        crc32: 0xdead_beef,
        compressed_size: 0x0102_0304,
        uncompressed_size: 0x0a0b_0c0d,
        file_name: String::from("dir/f"),
        file_comment: String::from("c!"),
        header_start: 0x1122_3344,
        data_start: 0x1122_3344 + 35,
    }
}

#[test]
fn integers_are_little_endian() {
    let mut out = vec![0xff];
    put_u16(&mut out, 0x1234);
    put_u32(&mut out, 0x89ab_cdef);
    put_bytes(&mut out, &[1, 2]);
    put_u16(&mut out, 0);
    put_u32(&mut out, u32::MAX);
    assert_eq!(
        out,
        vec![0xff, 0x34, 0x12, 0xef, 0xcd, 0xab, 0x89, 1, 2, 0, 0, 0xff, 0xff, 0xff, 0xff]
    );
    assert_eq!(get_u16(&out, 1), 0x1234);
    assert_eq!(get_u32(&out, 3), 0x89ab_cdef);
    assert_eq!(get_u16(&out, 13), 0xffff);
    assert_eq!(get_u32(&out, 11), u32::MAX);
    assert_eq!(get_u32(&out, 0), 0xef12_34ff);
}

#[test]
fn method_codes() {
    assert_eq!(CompressionMethod::from_u16(0), CompressionMethod::Stored);
    assert_eq!(CompressionMethod::from_u16(8), CompressionMethod::Deflated);
    assert_eq!(CompressionMethod::from_u16(1), CompressionMethod::Unknown(1));
    assert_eq!(CompressionMethod::from_u16(0xffff), CompressionMethod::Unknown(0xffff));
    assert_eq!(CompressionMethod::Stored.to_u16(), 0);
    assert_eq!(CompressionMethod::Deflated.to_u16(), 8);
    assert_eq!(CompressionMethod::Unknown(14).to_u16(), 14);
    for code in [0u16, 1, 7, 8, 9, 99, 65535] {
        assert_eq!(CompressionMethod::from_u16(code).to_u16(), code);
    }
}

#[test]
fn timestamps_are_packed_as_ms_dos_words() {
    let stamp = DateTime { year: 2020, month: 6, day: 15, hour: 12, minute: 30, second: 40 };
    assert_eq!(stamp.to_msdos(), Some((0x63d4, 0x50cf)));
    assert_eq!(DateTime::from_msdos(0x63d4, 0x50cf), stamp);

    assert_eq!(DateTime::epoch().to_msdos(), Some((0, 0x0021)));
    assert_eq!(DateTime::from_msdos(0, 0x0021), DateTime::epoch());
    assert_eq!(DateTime::default(), DateTime::epoch());

    let last = DateTime { year: 2107, month: 12, day: 31, hour: 23, minute: 59, second: 59 };
    assert_eq!(last.to_msdos(), Some((0xbf7d, 0xff9f)));
    assert_eq!(DateTime::from_msdos(0xbf7d, 0xff9f), DateTime { second: 58, ..last });

    // Words that name no day of the calendar are unpacked as they are.
    assert_eq!(
        DateTime::from_msdos(0xffff, 0xffff),
        DateTime { year: 2107, month: 15, day: 31, hour: 31, minute: 63, second: 62 }
    );
    assert_eq!(
        DateTime::from_msdos(0, 0),
        DateTime { year: 1980, month: 0, day: 0, hour: 0, minute: 0, second: 0 }
    );
    assert_eq!(DateTime::from_msdos(0xffff, 0xffff).to_msdos(), Some((0xffff, 0xffff)));
    assert_eq!(DateTime::from_msdos(0, 0).to_msdos(), Some((0, 0)));
}

#[test]
fn timestamps_that_do_not_fit_have_no_packed_form() {
    let stamp = DateTime { year: 2020, month: 6, day: 15, hour: 12, minute: 30, second: 40 };
    assert!(stamp.is_representable());
    for bad in [
        DateTime { year: 1979, ..stamp },
        DateTime { year: 2108, ..stamp },
        DateTime { month: 16, ..stamp },
        DateTime { day: 32, ..stamp },
        DateTime { hour: 32, ..stamp },
        DateTime { minute: 64, ..stamp },
        DateTime { second: 64, ..stamp },
    ] {
        assert!(!bad.is_representable());
        assert_eq!(bad.to_msdos(), None);
    }
}

#[test]
fn calendar_fields_outside_the_format_give_the_epoch() {
    let stamp = DateTime { year: 2024, month: 2, day: 29, hour: 0, minute: 0, second: 1 };
    assert_eq!(DateTime::from_calendar(2024, 2, 29, 0, 0, 1), stamp);
    assert_eq!(DateTime::from_calendar(1980, 1, 1, 0, 0, 0), DateTime::epoch());
    assert_eq!(
        DateTime::from_calendar(2107, 12, 31, 23, 59, 59),
        DateTime { year: 2107, month: 12, day: 31, hour: 23, minute: 59, second: 59 }
    );
    for (year, month, day, hour, minute, second) in [
        (1979, 12, 31, 23, 59, 59),
        (2108, 1, 1, 0, 0, 0),
        (-2024, 1, 1, 0, 0, 0),
        (2024, 0, 1, 0, 0, 0),
        (2024, 13, 1, 0, 0, 0),
        (2024, 1, 0, 0, 0, 0),
        (2024, 1, 32, 0, 0, 0),
        (2024, 1, 1, 24, 0, 0),
        (2024, 1, 1, 0, 60, 0),
        (2024, 1, 1, 0, 0, 60),
    ] {
        assert_eq!(
            DateTime::from_calendar(year, month, day, hour, minute, second),
            DateTime::epoch()
        );
    }
}

#[test]
fn the_clock_gives_a_time_that_headers_can_hold() {
    let now = clock::now();
    assert!(now.is_representable());
    assert!(1 <= now.month && now.month <= 12);
    assert!(1 <= now.day && now.day <= 31);
    assert!(now.hour < 24 && now.minute < 60 && now.second < 60);
    assert!(now.to_msdos().is_some());
}

#[test]
fn a_stream_reads_at_its_cursor() {
    let mut stream = ByteStream::from_bytes(vec![1, 2, 3, 4, 5, 6, 7, 8, 9]);
    assert_eq!(stream.len(), 9);
    assert_eq!(stream.tell(), 0);
    assert_eq!(stream.read_le_u16(), Ok(0x0201));
    assert_eq!(stream.read_le_u32(), Ok(0x0605_0403));
    assert_eq!(stream.tell(), 6);
    assert_eq!(stream.read_exact(2), Ok(vec![7, 8]));
    assert_eq!(stream.read_exact(0), Ok(vec![]));
    assert_eq!(stream.tell(), 8);

    // Reads that reach past the end fail and move nothing.
    let eof = ZipError::Io(IoErrorKind::UnexpectedEof);
    assert_eq!(stream.read_le_u16(), Err(eof));
    assert_eq!(stream.read_le_u32(), Err(eof));
    assert_eq!(stream.read_exact(2), Err(eof));
    assert_eq!(stream.tell(), 8);
    assert_eq!(stream.read_exact(1), Ok(vec![9]));
    assert_eq!(stream.read_exact(1), Err(eof));
    assert_eq!(stream.as_slice(), &[1, 2, 3, 4, 5, 6, 7, 8, 9]);
}

#[test]
fn a_stream_seeks_inside_its_bytes() {
    let mut stream = ByteStream::from_bytes(vec![1, 2, 3, 4, 5]);
    let past = ZipError::Io(IoErrorKind::SeekPastEnd);
    assert_eq!(stream.seek(5), Ok(()));
    assert_eq!(stream.tell(), 5);
    assert_eq!(stream.seek(6), Err(past));
    assert_eq!(stream.seek(u64::MAX), Err(past));
    assert_eq!(stream.tell(), 5);
    assert_eq!(stream.seek(1), Ok(()));
    assert_eq!(stream.skip(3), Ok(()));
    assert_eq!(stream.tell(), 4);
    assert_eq!(stream.skip(2), Err(past));
    assert_eq!(stream.skip(u64::MAX), Err(past));
    assert_eq!(stream.tell(), 4);
    assert_eq!(stream.skip(1), Ok(()));
    assert_eq!(stream.skip(0), Ok(()));
    assert_eq!(stream.tell(), 5);
    stream.seek(2).unwrap();
    stream.seek_to_end();
    assert_eq!(stream.tell(), 5);
}

#[test]
fn a_stream_writes_over_and_past_its_bytes() {
    let mut stream = ByteStream::new();
    assert_eq!(stream.len(), 0);
    stream.write(b"hello").unwrap();
    assert_eq!(stream.tell(), 5);
    stream.write(b"").unwrap();
    assert_eq!(stream.as_slice(), b"hello");

    // Inside the bytes.
    stream.seek(1).unwrap();
    stream.write(b"ipp").unwrap();
    assert_eq!(stream.tell(), 4);
    assert_eq!(stream.as_slice(), b"hippo");

    // Over the end.
    stream.seek(3).unwrap();
    stream.write(b"ster").unwrap();
    assert_eq!(stream.tell(), 7);
    assert_eq!(stream.as_slice(), b"hipster");

    // At the end.
    stream.write(b"s").unwrap();
    assert_eq!(stream.len(), 8);
    assert_eq!(stream.into_bytes(), b"hipsters".to_vec());
}

#[test]
fn a_local_header_has_this_layout() {
    let header = encode_local_file_header(&sample()).unwrap();
    assert_eq!(
        header,
        vec![
            0x50, 0x4b, 0x03, 0x04, 20, 0, 0x00, 0x08, 8, 0, 0x7d, 0xbf, 0x9f, 0x27, 0xef, 0xbe,
            0xad, 0xde, 0x04, 0x03, 0x02, 0x01, 0x0d, 0x0c, 0x0b, 0x0a, 5, 0, 0, 0, b'd', b'i',
            b'r', b'/', b'f',
        ]
    );
}

#[test]
fn a_central_entry_has_this_layout() {
    let mut file = sample();
    file.encrypted = true;
    let header = encode_central_directory_header(&file).unwrap();
    assert_eq!(
        header,
        vec![
            0x50, 0x4b, 0x01, 0x02, 20, 0, 20, 0, 0x01, 0x08, 8, 0, 0x7d, 0xbf, 0x9f, 0x27, 0xef,
            0xbe, 0xad, 0xde, 0x04, 0x03, 0x02, 0x01, 0x0d, 0x0c, 0x0b, 0x0a, 5, 0, 0, 0, 2, 0, 0,
            0, 0, 0, 0, 0, 0, 0, 0x44, 0x33, 0x22, 0x11, b'd', b'i', b'r', b'/', b'f', b'c', b'!',
        ]
    );
}

#[test]
fn descriptors_that_do_not_fit_are_not_encoded() {
    assert!(is_encodable(&sample()));
    let mut too_long = sample();
    too_long.file_name = "x".repeat(65536);
    let mut long_comment = sample();
    long_comment.file_comment = "x".repeat(65536);
    let mut big = sample();
    big.compressed_size = 0x1_0000_0000;
    let mut large = sample();
    large.uncompressed_size = u64::MAX;
    let mut far = sample();
    far.header_start = 0x1_0000_0000;
    let mut early = sample();
    early.last_modified_time.year = 1970;
    for file in [too_long, long_comment, big, large, far, early] {
        assert!(!is_encodable(&file));
        assert_eq!(encode_local_file_header(&file), None);
        assert_eq!(encode_central_directory_header(&file), None);
        let mut stream = ByteStream::from_bytes(vec![1, 2, 3]);
        let invalid = Err(ZipError::Io(IoErrorKind::InvalidInput));
        assert_eq!(write_local_file_header(&mut stream, &file), invalid);
        assert_eq!(write_central_directory_header(&mut stream, &file), invalid);
        assert_eq!(update_local_file_header(&mut stream, &file), invalid);
        assert_eq!(stream.tell(), 0);
        assert_eq!(stream.as_slice(), &[1, 2, 3]);
    }
    let mut edge = sample();
    edge.file_name = "x".repeat(65535);
    edge.compressed_size = 0xffff_ffff;
    edge.uncompressed_size = 0xffff_ffff;
    edge.header_start = 0xffff_ffff;
    assert!(is_encodable(&edge));
    assert_eq!(encode_local_file_header(&edge).unwrap().len(), 30 + 65535);
}

#[test]
fn headers_are_written_at_the_cursor() {
    let file = sample();
    let mut stream = ByteStream::from_bytes(vec![0xaa; 4]);
    stream.seek(2).unwrap();
    write_local_file_header(&mut stream, &file).unwrap();
    assert_eq!(stream.tell(), 37);
    assert_eq!(&stream.as_slice()[..2], &[0xaa, 0xaa]);
    assert_eq!(&stream.as_slice()[2..], &encode_local_file_header(&file).unwrap()[..]);
    write_central_directory_header(&mut stream, &file).unwrap();
    assert_eq!(stream.tell(), 37 + 53);
    assert_eq!(&stream.as_slice()[37..], &encode_central_directory_header(&file).unwrap()[..]);
}

#[test]
fn a_header_is_written_again_at_its_place() {
    let mut file = sample();
    file.header_start = 3;
    file.crc32 = 0;
    file.compressed_size = 0;
    file.uncompressed_size = 0;
    let mut stream = ByteStream::from_bytes(vec![9, 9, 9]);
    stream.seek_to_end();
    write_local_file_header(&mut stream, &file).unwrap();
    stream.write(b"content").unwrap();
    assert_eq!(&stream.as_slice()[17..29], &[0; 12]);

    file.crc32 = 0x0403_0201;
    file.compressed_size = 7;
    file.uncompressed_size = 7;
    update_local_file_header(&mut stream, &file).unwrap();
    assert_eq!(stream.tell(), 38);
    let bytes = stream.as_slice();
    assert_eq!(&bytes[..3], &[9, 9, 9]);
    assert_eq!(&bytes[3..38], &encode_local_file_header(&file).unwrap()[..]);
    assert_eq!(&bytes[17..29], &[1, 2, 3, 4, 7, 0, 0, 0, 7, 0, 0, 0]);
    assert_eq!(&bytes[38..], b"content");

    file.header_start = 46;
    assert_eq!(
        update_local_file_header(&mut stream, &file),
        Err(ZipError::Io(IoErrorKind::SeekPastEnd))
    );
    assert_eq!(stream.tell(), 38);
}

#[test]
fn a_footer_is_written_and_read_back() {
    let footer = CentralDirectoryEnd {
        disk_number: 1,
        disk_with_central_directory: 2,
        number_of_files_on_this_disk: 3,
        number_of_files: 0x0405,
        central_directory_size: 0x0607_0809,
        central_directory_offset: 0x0a0b_0c0d,
        zip_file_comment: b"bye".to_vec(),
    };
    assert_eq!(
        footer.encode().unwrap(),
        vec![
            0x50, 0x4b, 0x05, 0x06, 1, 0, 2, 0, 3, 0, 5, 4, 9, 8, 7, 6, 0x0d, 0x0c, 0x0b, 0x0a, 3,
            0, b'b', b'y', b'e',
        ]
    );
    let mut stream = ByteStream::from_bytes(vec![0x77]);
    stream.seek_to_end();
    footer.write(&mut stream).unwrap();
    assert_eq!(stream.tell(), 26);
    stream.seek(1).unwrap();
    let read = CentralDirectoryEnd::load(&mut stream).unwrap();
    assert_eq!(stream.tell(), 26);
    assert_eq!(read.disk_number, 1);
    assert_eq!(read.disk_with_central_directory, 2);
    assert_eq!(read.number_of_files_on_this_disk, 3);
    assert_eq!(read.number_of_files, 0x0405);
    assert_eq!(read.central_directory_size, 0x0607_0809);
    assert_eq!(read.central_directory_offset, 0x0a0b_0c0d);
    assert_eq!(read.zip_file_comment, b"bye".to_vec());
}

#[test]
fn a_footer_that_cannot_be_read_or_written_is_refused() {
    let mut long = CentralDirectoryEnd {
        disk_number: 0,
        disk_with_central_directory: 0,
        number_of_files_on_this_disk: 0,
        number_of_files: 0,
        central_directory_size: 0,
        central_directory_offset: 0,
        zip_file_comment: vec![b'c'; 65536],
    };
    let mut stream = ByteStream::new();
    assert_eq!(long.encode(), None);
    assert_eq!(long.write(&mut stream), Err(ZipError::Io(IoErrorKind::InvalidInput)));
    assert_eq!(stream.len(), 0);
    long.zip_file_comment.pop();
    long.write(&mut stream).unwrap();
    assert_eq!(stream.len(), 22 + 65535);

    let eof = Some(ZipError::Io(IoErrorKind::UnexpectedEof));
    let bytes = stream.into_bytes();
    for cut in [0, 3, 4, 21, 22, 22 + 65534] {
        let mut reader = ByteStream::from_bytes(bytes[..cut].to_vec());
        assert_eq!(CentralDirectoryEnd::load(&mut reader).err(), eof);
        assert_eq!(reader.len(), cut as u64);
    }
    let mut wrong = bytes.clone();
    wrong[1] = b'k';
    let mut reader = ByteStream::from_bytes(wrong);
    assert_eq!(
        CentralDirectoryEnd::load(&mut reader).err(),
        Some(ZipError::FormatMismatch(RecordKind::CentralDirectoryEnd))
    );
}

#[test]
fn the_backend_switches_between_its_states() {
    let mut backend = GenericZipWriter::Storer(ByteStream::from_bytes(vec![1, 2]));
    assert!(!backend.is_closed());
    backend.get_plain().seek_to_end();
    backend.get_plain().write(b"34").unwrap();

    // Stored to Stored keeps the sink as it is.
    assert_eq!(backend.switch_to(CompressionMethod::Stored), Ok(()));
    assert_eq!(backend.get_plain().as_slice(), &[1, 2, b'3', b'4']);

    // A compressor that took nothing still writes the end of its stream.
    assert_eq!(backend.switch_to(CompressionMethod::Deflated), Ok(()));
    assert!(!backend.is_closed());
    assert_eq!(backend.switch_to(CompressionMethod::Deflated), Ok(()));
    assert_eq!(backend.switch_to(CompressionMethod::Stored), Ok(()));
    let sink = backend.unwrap();
    assert!(sink.len() > 4);
    assert_eq!(sink.tell(), sink.len());
    assert_eq!(&sink.as_slice()[..4], &[1, 2, b'3', b'4']);
}

#[test]
fn the_backend_closes_on_a_method_it_cannot_write() {
    let mut backend = GenericZipWriter::Storer(ByteStream::new());
    assert_eq!(
        backend.switch_to(CompressionMethod::Unknown(1)),
        Err(ZipError::UnsupportedCompressionMethod)
    );
    assert!(backend.is_closed());
    assert_eq!(backend.switch_to(CompressionMethod::Stored), Err(ZipError::WriterClosed));
    assert_eq!(backend.switch_to(CompressionMethod::Unknown(1)), Err(ZipError::WriterClosed));
    assert!(backend.is_closed());

    let mut closed = GenericZipWriter::Closed;
    assert!(closed.is_closed());
    assert_eq!(closed.switch_to(CompressionMethod::Deflated), Err(ZipError::WriterClosed));
}

#[test]
fn errors_describe_themselves() {
    assert_eq!(
        ZipError::FormatMismatch(RecordKind::CentralDirectoryHeader).description(),
        "Invalid central directory header"
    );
    assert_eq!(
        ZipError::FormatMismatch(RecordKind::LocalFileHeader).description(),
        "Invalid local file header"
    );
    assert_eq!(ZipError::WriterClosed.description(), "This writer has been closed");
    assert_eq!(ZipError::NoActiveEntry.description(), "No file has been started");
    assert_eq!(
        ZipError::UnsupportedCompressionMethod.description(),
        "Unsupported compression requested"
    );
    let all = [
        ZipError::FormatMismatch(RecordKind::CentralDirectoryHeader),
        ZipError::FormatMismatch(RecordKind::LocalFileHeader),
        ZipError::FormatMismatch(RecordKind::CentralDirectoryEnd),
        ZipError::MalformedExtraField,
        ZipError::UnsupportedCompressionMethod,
        ZipError::WriterClosed,
        ZipError::NoActiveEntry,
        ZipError::Io(IoErrorKind::UnexpectedEof),
        ZipError::Io(IoErrorKind::SeekPastEnd),
        ZipError::Io(IoErrorKind::FileTooLarge),
        ZipError::Io(IoErrorKind::InvalidInput),
        ZipError::Io(IoErrorKind::Backend),
    ];
    for (i, a) in all.iter().enumerate() {
        assert!(!a.description().is_empty());
        for b in all.iter().skip(i + 1) {
            assert_ne!(a.description(), b.description());
        }
    }
}
