use vfbreader::error::{TypeTag, VfbError};
use vfbreader::header::{magic, read_header, read_metadata_entry, MetadataEntry};
use vfbreader::stream::ByteStream;

/// A header of 71 bytes: the metadata entries take 2, 3 and 6 bytes.
fn sample_header() -> Vec<u8> {
    let mut h: Vec<u8> = Vec::new();
    h.push(0x1A);
    h.extend_from_slice(b"WLF10");
    h.extend_from_slice(&[0x03, 0x00]);
    h.extend_from_slice(&[0x2C, 0x01]);
    for i in 0..34u8 {
        h.push(i);
    }
    for i in 0..12u8 {
        h.push(0xA0 + i);
    }
    h.extend_from_slice(&[9, 0x8B]);
    h.extend_from_slice(&[10, 0xF7, 0x00]);
    h.extend_from_slice(&[11, 0xFF, 0x00, 0x00, 0x01, 0x00]);
    h.extend_from_slice(&[0xDE, 0xAD, 0xBE, 0xEF]);
    h
}

#[test]
fn magic_is_wlf10() {
    assert_eq!(magic(), TypeTag(b'W', b'L', b'F', b'1', b'0'));
}

#[test]
fn reads_a_whole_header() {
    let bytes = sample_header();
    assert_eq!(bytes.len(), 71);
    let mut stream = ByteStream::new(bytes);
    let h = read_header(&mut stream).unwrap();
    assert_eq!(stream.position(), 71);
    assert_eq!(h.sentinel, 0x1A);
    assert_eq!(h.magic(), magic());
    assert_eq!(h.version(), (3, 300));
    assert_eq!(h.reserved, (0..34u8).collect::<Vec<u8>>());
    assert_eq!(h.opaque, (0..12u8).map(|i| 0xA0 + i).collect::<Vec<u8>>());
    assert_eq!(
        h.metadata().clone(),
        vec![
            MetadataEntry { key: 9, value: 0 },
            MetadataEntry { key: 10, value: 108 },
            MetadataEntry { key: 11, value: 256 },
        ]
    );
    assert_eq!(h.trailer, vec![0xDE, 0xAD, 0xBE, 0xEF]);
}

#[test]
fn header_stops_where_it_ends() {
    let mut bytes = sample_header();
    bytes.extend_from_slice(&[1, 2, 3]);
    let mut stream = ByteStream::new(bytes);
    assert!(read_header(&mut stream).is_ok());
    assert_eq!(stream.position(), 71);
    assert_eq!(stream.remaining(), 3);
}

#[test]
fn header_is_read_from_the_cursor() {
    let mut bytes = vec![0u8; 5];
    bytes.extend_from_slice(&sample_header());
    let mut stream = ByteStream::new(bytes);
    stream.seek(5);
    let h = read_header(&mut stream).unwrap();
    assert_eq!(h.metadata().len(), 3);
    assert_eq!(stream.position(), 76);
}

fn expected_short_offset(len: usize) -> usize {
    match len {
        0 => 0,
        1..=5 => 1,
        6..=7 => 6,
        8..=9 => 8,
        10..=43 => 10,
        44..=55 => 44,
        56 => 56,
        57 => 57,
        58 => 58,
        59 => 59,
        60 => 60,
        61 => 61,
        62 => 62,
        63..=66 => 63,
        _ => 67,
    }
}

#[test]
fn every_truncation_is_reported_with_its_offset() {
    let full = sample_header();
    for len in 0..full.len() {
        let mut stream = ByteStream::new(full[..len].to_vec());
        let r = read_header(&mut stream);
        assert_eq!(
            r.err(),
            Some(VfbError::TruncatedHeader { offset: expected_short_offset(len) }),
            "length {}",
            len
        );
    }
}

#[test]
fn wrong_tag_is_invalid_magic() {
    let mut bytes = sample_header();
    bytes[5] = b'1';
    let mut stream = ByteStream::new(bytes);
    assert_eq!(
        read_header(&mut stream).err(),
        Some(VfbError::InvalidMagic {
            offset: 1,
            expected: TypeTag(b'W', b'L', b'F', b'1', b'0'),
            observed: TypeTag(b'W', b'L', b'F', b'1', b'1'),
        })
    );
}

#[test]
fn wrong_tag_is_found_before_anything_after_it() {
    let mut stream = ByteStream::new(vec![0x1A, b'O', b'T', b'T', b'O', 0]);
    assert_eq!(
        read_header(&mut stream).err(),
        Some(VfbError::InvalidMagic {
            offset: 1,
            expected: magic(),
            observed: TypeTag(b'O', b'T', b'T', b'O', 0),
        })
    );
    let mut short = ByteStream::new(vec![0x1A, b'O', b'T', b'T', b'O']);
    assert_eq!(read_header(&mut short).err(), Some(VfbError::TruncatedHeader { offset: 1 }));
}

#[test]
fn operator_byte_in_metadata_is_invalid_encoding() {
    let mut bytes = sample_header();
    bytes[60] = 0x05;
    bytes[59] = 0x1F;
    let mut stream = ByteStream::new(bytes);
    assert_eq!(
        read_header(&mut stream).err(),
        Some(VfbError::InvalidEncoding { offset: 59, byte: 0x1F })
    );
}

#[test]
fn reads_one_metadata_entry() {
    let mut stream = ByteStream::new(vec![7, 0xFB, 0x00, 8]);
    assert_eq!(read_metadata_entry(&mut stream), Ok(MetadataEntry { key: 7, value: -108 }));
    assert_eq!(stream.position(), 3);
    assert_eq!(read_metadata_entry(&mut stream), Err(VfbError::TruncatedHeader { offset: 4 }));
    let mut empty = ByteStream::new(vec![]);
    assert_eq!(read_metadata_entry(&mut empty), Err(VfbError::TruncatedHeader { offset: 0 }));
}
