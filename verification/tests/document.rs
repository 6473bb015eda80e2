use vfbreader::directory::{read_entry, scan_directory, FieldDescriptor};
use vfbreader::document::VfbDocument;
use vfbreader::error::{TypeTag, VfbError};
use vfbreader::stream::ByteStream;

const HEADER_LEN: usize = 71;

fn sample_header() -> Vec<u8> {
    let mut h: Vec<u8> = Vec::new();
    h.push(0x1A);
    h.extend_from_slice(b"WLF10");
    h.extend_from_slice(&[0x03, 0x00, 0x00, 0x00]);
    h.extend_from_slice(&[0u8; 34]);
    h.extend_from_slice(&[0u8; 12]);
    h.extend_from_slice(&[9, 0x8B]);
    h.extend_from_slice(&[10, 0xF7, 0x00]);
    h.extend_from_slice(&[11, 0xFF, 0x00, 0x00, 0x01, 0x00]);
    h.extend_from_slice(&[0u8; 4]);
    h
}

fn short_record(key: u16, payload: &[u8]) -> Vec<u8> {
    let mut r: Vec<u8> = Vec::new();
    r.extend_from_slice(&key.to_le_bytes());
    r.extend_from_slice(&(payload.len() as u16).to_le_bytes());
    r.extend_from_slice(payload);
    r
}

fn wide_record(key: u16, payload: &[u8]) -> Vec<u8> {
    let mut r: Vec<u8> = Vec::new();
    r.extend_from_slice(&(key | 0x8000).to_le_bytes());
    r.extend_from_slice(&(payload.len() as u32).to_le_bytes());
    r.extend_from_slice(payload);
    r
}

fn sample_container() -> Vec<u8> {
    let mut c = sample_header();
    c.extend_from_slice(&short_record(1500, b"hello"));
    c.extend_from_slice(&wide_record(2001, &[0xAB; 300]));
    c.extend_from_slice(&short_record(1500, b""));
    c.extend_from_slice(&short_record(0x7FFF, &[1, 2, 3]));
    c
}

fn sample_fields() -> Vec<FieldDescriptor> {
    vec![
        FieldDescriptor { key: 1500, offset: HEADER_LEN + 4, size: 5 },
        FieldDescriptor { key: 2001, offset: HEADER_LEN + 9 + 6, size: 300 },
        FieldDescriptor { key: 1500, offset: HEADER_LEN + 315 + 4, size: 0 },
        FieldDescriptor { key: 0x7FFF, offset: HEADER_LEN + 319 + 4, size: 3 },
    ]
}

#[test]
fn open_lists_the_records_in_order() {
    let doc = VfbDocument::open(sample_container()).unwrap();
    assert_eq!(doc.fields().clone(), sample_fields());
    assert_eq!(doc.header().metadata().len(), 3);
    assert_eq!(doc.header().metadata()[2].value, 256);
    assert_eq!(doc.header().version(), (3, 0));
}

#[test]
fn open_with_no_records() {
    let doc = VfbDocument::open(sample_header()).unwrap();
    assert!(doc.fields().is_empty());
    assert!(doc.fields_by_key(1500).is_empty());
}

#[test]
fn fields_by_key_keeps_order_and_repeats() {
    let doc = VfbDocument::open(sample_container()).unwrap();
    let all = sample_fields();
    assert_eq!(doc.fields_by_key(1500), vec![all[0], all[2]]);
    assert_eq!(doc.fields_by_key(2001), vec![all[1]]);
    assert_eq!(doc.fields_by_key(0x7FFF), vec![all[3]]);
    assert_eq!(doc.fields_by_key(7), vec![]);
    assert_eq!(doc.fields_by_key(2001 | 0x8000), vec![]);
}

#[test]
fn read_returns_the_payload() {
    let mut doc = VfbDocument::open(sample_container()).unwrap();
    let all = sample_fields();
    assert_eq!(doc.read(all[0]), Ok(b"hello".to_vec()));
    assert_eq!(doc.read(all[1]), Ok(vec![0xAB; 300]));
    assert_eq!(doc.read(all[2]), Ok(vec![]));
    assert_eq!(doc.read(all[3]), Ok(vec![1, 2, 3]));
}

#[test]
fn read_is_repeatable() {
    let mut doc = VfbDocument::open(sample_container()).unwrap();
    let all = sample_fields();
    let first = doc.read(all[1]);
    let between = doc.read(all[3]);
    let second = doc.read(all[1]);
    assert_eq!(first, second);
    assert_eq!(between, Ok(vec![1, 2, 3]));
    assert_eq!(doc.fields().clone(), all);
}

#[test]
fn read_beyond_the_source_fails() {
    let mut doc = VfbDocument::open(sample_container()).unwrap();
    let len = sample_container().len();
    let d = FieldDescriptor { key: 1, offset: len - 2, size: 3 };
    assert_eq!(doc.read(d), Err(VfbError::UnexpectedEndOfStream { offset: len - 2 }));
    let far = FieldDescriptor { key: 1, offset: len + 10, size: 0 };
    assert_eq!(doc.read(far), Err(VfbError::UnexpectedEndOfStream { offset: len + 10 }));
    assert_eq!(doc.read(sample_fields()[0]), Ok(b"hello".to_vec()));
}

#[test]
fn losing_the_last_byte_corrupts_the_directory() {
    let mut c = sample_container();
    c.pop();
    let last = sample_fields()[3];
    assert_eq!(
        VfbDocument::open(c).err(),
        Some(VfbError::CorruptDirectory { offset: last.offset })
    );
}

#[test]
fn stream_that_ends_inside_a_key_is_corrupt() {
    let mut c = sample_header();
    c.extend_from_slice(&short_record(5, b"ab"));
    let boundary = c.len();
    c.push(0x01);
    assert_eq!(
        VfbDocument::open(c).err(),
        Some(VfbError::CorruptDirectory { offset: boundary })
    );
}

#[test]
fn stream_that_ends_between_key_and_size_is_corrupt() {
    let mut c = sample_header();
    c.extend_from_slice(&[0x05, 0x00]);
    assert_eq!(
        VfbDocument::open(c.clone()).err(),
        Some(VfbError::CorruptDirectory { offset: HEADER_LEN + 2 })
    );
    c.push(0x00);
    assert_eq!(
        VfbDocument::open(c).err(),
        Some(VfbError::CorruptDirectory { offset: HEADER_LEN + 2 })
    );
}

#[test]
fn stream_that_ends_inside_a_wide_size_is_corrupt() {
    let mut c = sample_header();
    c.extend_from_slice(&[0x05, 0x80, 0x00, 0x00, 0x00]);
    assert_eq!(
        VfbDocument::open(c).err(),
        Some(VfbError::CorruptDirectory { offset: HEADER_LEN + 2 })
    );
}

#[test]
fn size_width_follows_the_flag() {
    let mut stream = ByteStream::new(vec![0x05, 0x80, 0x02, 0x00, 0x00, 0x00, 0xAA, 0xBB]);
    assert_eq!(read_entry(&mut stream), Ok(FieldDescriptor { key: 5, offset: 6, size: 2 }));
    assert_eq!(stream.position(), 8);
    let mut stream = ByteStream::new(vec![0x05, 0x00, 0x02, 0x00, 0xAA, 0xBB]);
    assert_eq!(read_entry(&mut stream), Ok(FieldDescriptor { key: 5, offset: 4, size: 2 }));
    assert_eq!(stream.position(), 6);
}

#[test]
fn wide_size_uses_all_four_bytes() {
    let mut bytes = vec![0x01, 0x80, 0x00, 0x00, 0x01, 0x00];
    bytes.extend_from_slice(&vec![0u8; 65536]);
    let mut stream = ByteStream::new(bytes);
    assert_eq!(
        scan_directory(&mut stream),
        Ok(vec![FieldDescriptor { key: 1, offset: 6, size: 65536 }])
    );
    assert_eq!(stream.position(), 65542);
}

#[test]
fn scan_fails_with_the_first_short_record() {
    let mut bytes = short_record(1, b"abc");
    bytes.extend_from_slice(&[0x02, 0x00, 0x05, 0x00, 1, 2]);
    let mut stream = ByteStream::new(bytes);
    assert_eq!(scan_directory(&mut stream), Err(VfbError::CorruptDirectory { offset: 11 }));
}

#[test]
fn scan_of_nothing_finds_nothing() {
    let mut stream = ByteStream::new(vec![]);
    assert_eq!(scan_directory(&mut stream), Ok(vec![]));
    let mut stream = ByteStream::new(vec![1, 2, 3]);
    stream.seek(3);
    assert_eq!(scan_directory(&mut stream), Ok(vec![]));
}

#[test]
fn scan_has_no_record_limit() {
    let mut c = sample_header();
    for i in 0..1000u16 {
        c.extend_from_slice(&short_record(i, &[0u8; 2]));
    }
    let doc = VfbDocument::open(c).unwrap();
    assert_eq!(doc.fields().len(), 1000);
    assert_eq!(doc.fields()[999], FieldDescriptor { key: 999, offset: HEADER_LEN + 999 * 6 + 4, size: 2 });
}

#[test]
fn open_fails_on_wrong_tag_before_the_directory() {
    let mut c = sample_container();
    c[1] = b'X';
    c.truncate(c.len() - 1);
    assert_eq!(
        VfbDocument::open(c).err(),
        Some(VfbError::InvalidMagic {
            offset: 1,
            expected: TypeTag(b'W', b'L', b'F', b'1', b'0'),
            observed: TypeTag(b'X', b'L', b'F', b'1', b'0'),
        })
    );
}

#[test]
fn open_fails_on_truncated_header() {
    let c = sample_header();
    assert_eq!(
        VfbDocument::open(c[..70].to_vec()).err(),
        Some(VfbError::TruncatedHeader { offset: 67 })
    );
    assert_eq!(VfbDocument::open(vec![]).err(), Some(VfbError::TruncatedHeader { offset: 0 }));
}
