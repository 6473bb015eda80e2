//! The record directory: the keys, offsets and sizes of the records that
//! follow the header, found without reading any payload.

use vstd::prelude::*;
use crate::error::VfbError;
use crate::stream::{le16, le32, ByteStream};

verus! {

/// The bit of a raw key that says how wide the record's size field is.
pub const SIZE_FLAG: u16 = 0x8000;

/// Where one record's payload lies, and under which key. It never holds the
/// payload itself.
#[derive(Clone, Copy, Debug, PartialEq, Eq, Structural)]
pub struct FieldDescriptor {
    pub key: u16,
    pub offset: usize,
    pub size: u32,
}

/// The error of a record cut short by the end of the stream, `at` being the
/// end of the last read that succeeded.
pub open spec fn corrupt(at: int) -> VfbError {
    VfbError::CorruptDirectory { offset: at as usize }
}

/// The key that a raw key stands for: the raw key without its flag bit.
pub open spec fn key_of(raw: int) -> int {
    if raw >= SIZE_FLAG {
        raw - SIZE_FLAG
    } else {
        raw
    }
}

/// The width of the size field that follows a raw key: two bytes, or four
/// where the flag bit is set.
pub open spec fn size_width(raw: int) -> int {
    if raw >= SIZE_FLAG {
        4
    } else {
        2
    }
}

/// The payload size that the record at `at` declares.
pub open spec fn declared_size(s: Seq<u8>, at: int) -> int {
    if le16(s, at) >= SIZE_FLAG {
        le32(s, at + 2)
    } else {
        le16(s, at + 2)
    }
}

/// Where the payload of the record at `at` begins.
pub open spec fn payload_start(s: Seq<u8>, at: int) -> int {
    at + 2 + size_width(le16(s, at))
}

/// Where the record at `at` ends, and the next one begins.
pub open spec fn record_end(s: Seq<u8>, at: int) -> int {
    payload_start(s, at) + declared_size(s, at)
}

/// What reading the record at `at` yields: its descriptor, or the failure
/// of a stream that ends inside the key, inside the size, or before the
/// payload is complete.
pub open spec fn record_spec(s: Seq<u8>, at: int) -> Result<FieldDescriptor, VfbError> {
    if at + 2 > s.len() {
        Err(corrupt(at))
    } else if payload_start(s, at) > s.len() {
        Err(corrupt(at + 2))
    } else if record_end(s, at) > s.len() {
        Err(corrupt(payload_start(s, at)))
    } else {
        Ok(
            FieldDescriptor {
                key: key_of(le16(s, at)) as u16,
                offset: payload_start(s, at) as usize,
                size: declared_size(s, at) as u32,
            },
        )
    }
}

/// What scanning from `at` to the end of the stream yields: the records'
/// descriptors in stream order, or the failure of the first record that
/// the stream cuts short. A scan that begins at or beyond the end finds
/// nothing.
pub open spec fn scan_spec(s: Seq<u8>, at: int) -> Result<Seq<FieldDescriptor>, VfbError>
    decreases s.len() - at,
{
    if at < 0 || at >= s.len() {
        Ok(Seq::empty())
    } else {
        match record_spec(s, at) {
            Err(e) => Err(e),
            Ok(d) => match scan_spec(s, record_end(s, at)) {
                Err(e) => Err(e),
                Ok(rest) => Ok(seq![d] + rest),
            },
        }
    }
}

/// What holds of the descriptors of every directory in a stream of `len`
/// bytes: keys carry no flag bit, payloads lie within the stream, and
/// offsets grow strictly from each record to the next.
pub open spec fn directory_wf(fields: Seq<FieldDescriptor>, len: int) -> bool {
    &&& forall|i: int|
        0 <= i < fields.len() ==> (#[trigger] fields[i]).key < SIZE_FLAG && fields[i].offset
            + fields[i].size <= len
    &&& forall|i: int, j: int|
        0 <= i < j < fields.len() ==> (#[trigger] fields[i]).offset < (#[trigger] fields[j]).offset
}

/// Reads one record's key and size at the cursor and moves past its
/// payload without reading it. On failure the cursor stands at the offset
/// that the error carries.
pub fn read_entry(stream: &mut ByteStream) -> (r: Result<FieldDescriptor, VfbError>)
    ensures
        r == record_spec(old(stream).bytes(), old(stream).cursor() as int),
        final(stream).bytes() == old(stream).bytes(),
        r is Ok ==> final(stream).cursor() == record_end(
            old(stream).bytes(),
            old(stream).cursor() as int,
        ),
        r is Err ==> final(stream).cursor() == r->Err_0.cursor_after(),
{
    let raw: u16 = match stream.read_u16_le() {
        Ok(v) => v,
        Err(_) => {
            return Err(VfbError::CorruptDirectory { offset: stream.position() });
        },
    };
    let size: u32 = if raw >= SIZE_FLAG {
        match stream.read_u32_le() {
            Ok(v) => v,
            Err(_) => {
                return Err(VfbError::CorruptDirectory { offset: stream.position() });
            },
        }
    } else {
        match stream.read_u16_le() {
            Ok(v) => v as u32,
            Err(_) => {
                return Err(VfbError::CorruptDirectory { offset: stream.position() });
            },
        }
    };
    let key: u16 = raw & 0x7FFF;
    assert(key == key_of(raw as int)) by (bit_vector)
        requires
            key == raw & 0x7FFF,
    ;
    let offset: usize = stream.position();
    match stream.skip(size as usize) {
        Ok(()) => Ok(FieldDescriptor { key, offset, size }),
        Err(_) => Err(VfbError::CorruptDirectory { offset }),
    }
}

/// Scans the records from the cursor to the end of the stream. Succeeds
/// where the stream ends exactly at a record boundary, and then leaves the
/// cursor at the end; fails with the first record that the stream cuts
/// short.
pub fn scan_directory(stream: &mut ByteStream) -> (r: Result<Vec<FieldDescriptor>, VfbError>)
    ensures
        final(stream).bytes() == old(stream).bytes(),
        match r {
            Ok(fields) => {
                &&& scan_spec(old(stream).bytes(), old(stream).cursor() as int) == Ok::<
                    Seq<FieldDescriptor>,
                    VfbError,
                >(fields@)
                &&& directory_wf(fields@, old(stream).bytes().len() as int)
                &&& final(stream).cursor() == if old(stream).cursor() <= old(stream).bytes().len() {
                    old(stream).bytes().len()
                } else {
                    old(stream).cursor() as nat
                }
            },
            Err(e) => {
                &&& scan_spec(old(stream).bytes(), old(stream).cursor() as int) == Err::<
                    Seq<FieldDescriptor>,
                    VfbError,
                >(e)
                &&& final(stream).cursor() == e.cursor_after()
            },
        },
{
    let ghost s = stream.bytes();
    let ghost at = stream.cursor() as int;
    let mut fields: Vec<FieldDescriptor> = Vec::new();
    while stream.position() < stream.len()
        invariant
            stream.bytes() == s,
            s == old(stream).bytes(),
            at == old(stream).cursor(),
            at <= s.len() ==> stream.cursor() <= s.len(),
            at > s.len() ==> stream.cursor() == at,
            match scan_spec(s, stream.cursor() as int) {
                Ok(rest) => scan_spec(s, at) == Ok::<Seq<FieldDescriptor>, VfbError>(
                    fields@ + rest,
                ),
                Err(e) => scan_spec(s, at) == Err::<Seq<FieldDescriptor>, VfbError>(e),
            },
        decreases s.len() - stream.cursor(),
    {
        let ghost here = stream.cursor() as int;
        match read_entry(stream) {
            Ok(d) => {
                proof {
                    let rest = scan_spec(s, record_end(s, here));
                    if rest is Ok {
                        assert((fields@ + (seq![d] + rest->Ok_0)) =~= (fields@.push(d)
                            + rest->Ok_0));
                    }
                }
                fields.push(d);
            },
            Err(e) => {
                return Err(e);
            },
        }
    }
    proof {
        assert(fields@ + Seq::<FieldDescriptor>::empty() =~= fields@);
        lemma_scan_ordered(s, at);
    }
    Ok(fields)
}

/// Every directory that a scan yields is well formed, and none of its
/// payloads begins before the fourth byte after the scan's start.
pub proof fn lemma_scan_ordered(s: Seq<u8>, at: int)
    requires
        s.len() <= usize::MAX,
        scan_spec(s, at) is Ok,
    ensures
        directory_wf(scan_spec(s, at)->Ok_0, s.len() as int),
        forall|i: int|
            0 <= i < scan_spec(s, at)->Ok_0.len() ==> at + 4 <= (#[trigger] scan_spec(
                s,
                at,
            )->Ok_0[i]).offset,
    decreases s.len() - at,
{
    if 0 <= at < s.len() {
        let d = record_spec(s, at)->Ok_0;
        let next = record_end(s, at);
        lemma_scan_ordered(s, next);
        let rest = scan_spec(s, next)->Ok_0;
        let all = scan_spec(s, at)->Ok_0;
        assert(all == seq![d] + rest);
        assert forall|i: int| 0 <= i < all.len() implies (#[trigger] all[i]).key < SIZE_FLAG
            && all[i].offset + all[i].size <= s.len() && at + 4 <= all[i].offset by {
            if i > 0 {
                assert(all[i] == rest[i - 1]);
            }
        }
        assert forall|i: int, j: int| 0 <= i < j < all.len() implies (#[trigger] all[i]).offset < (
        #[trigger] all[j]).offset by {
            assert(all[j] == rest[j - 1]);
            if i > 0 {
                assert(all[i] == rest[i - 1]);
            }
        }
    }
}

/// A directory whose last record has a payload is cut short by the loss of
/// the stream's last byte: the scan of the shortened stream fails at the
/// offset of that payload.
pub proof fn lemma_truncated_payload_fails(s: Seq<u8>, at: int)
    requires
        s.len() <= usize::MAX,
        scan_spec(s, at) is Ok,
        scan_spec(s, at)->Ok_0.len() > 0,
        scan_spec(s, at)->Ok_0.last().size > 0,
    ensures
        scan_spec(s.drop_last(), at) == Err::<Seq<FieldDescriptor>, VfbError>(
            VfbError::CorruptDirectory { offset: scan_spec(s, at)->Ok_0.last().offset },
        ),
    decreases s.len() - at,
{
    let t = s.drop_last();
    let d = record_spec(s, at)->Ok_0;
    let next = record_end(s, at);
    let rest = scan_spec(s, next)->Ok_0;
    let all = scan_spec(s, at)->Ok_0;
    assert(all == seq![d] + rest);
    if rest.len() == 0 {
        assert(all.last() == d);
        assert(record_spec(t, at) == Err::<FieldDescriptor, VfbError>(corrupt(d.offset as int)));
    } else {
        assert(all.last() == rest.last());
        assert(record_spec(t, at) == Ok::<FieldDescriptor, VfbError>(d));
        assert(record_end(t, at) == next);
        lemma_truncated_payload_fails(s, next);
    }
}

/// A record as a writer lays it out: its key, whether its size field is the
/// wide one, and its payload.
pub ghost struct Record {
    pub key: u16,
    pub extended: bool,
    pub payload: Seq<u8>,
}

/// The two bytes of `n` as a little-endian number.
pub open spec fn le16_bytes(n: int) -> Seq<u8> {
    seq![(n % 256) as u8, (n / 256) as u8]
}

/// The four bytes of `n` as a little-endian number.
pub open spec fn le32_bytes(n: int) -> Seq<u8> {
    seq![
        (n % 256) as u8,
        ((n / 256) % 256) as u8,
        ((n / 65536) % 256) as u8,
        (n / 16777216) as u8,
    ]
}

impl Record {
    /// The key has no flag bit, and the payload's length fits the size
    /// field.
    pub open spec fn valid(self) -> bool {
        &&& self.key < SIZE_FLAG
        &&& self.payload.len() <= if self.extended {
            u32::MAX as int
        } else {
            u16::MAX as int
        }
    }

    /// The raw key: the key, with the flag bit where the size field is wide.
    pub open spec fn raw_key(self) -> int {
        if self.extended {
            self.key + SIZE_FLAG
        } else {
            self.key as int
        }
    }

    /// The record's bytes: raw key, size, payload.
    pub open spec fn bytes(self) -> Seq<u8> {
        le16_bytes(self.raw_key()) + (if self.extended {
            le32_bytes(self.payload.len() as int)
        } else {
            le16_bytes(self.payload.len() as int)
        }) + self.payload
    }
}

/// The bytes of the records of `records`, one after the other.
pub open spec fn records_bytes(records: Seq<Record>) -> Seq<u8>
    decreases records.len(),
{
    if records.len() == 0 {
        Seq::empty()
    } else {
        records[0].bytes() + records_bytes(records.drop_first())
    }
}

/// Where the payload of the `i`-th of `records` begins when the first of
/// them is laid out at `base`.
pub open spec fn payload_offset(records: Seq<Record>, i: int, base: int) -> int
    decreases i,
{
    if i <= 0 {
        base + records[0].bytes().len() - records[0].payload.len()
    } else {
        payload_offset(records.drop_first(), i - 1, base + records[0].bytes().len())
    }
}

/// Whether `fields` are the descriptors of `records` laid out in `s` from
/// `base` on: one for one and in order, each with its record's key, its
/// payload's size and the offset at which that payload lies.
pub open spec fn describes_records(
    fields: Seq<FieldDescriptor>,
    records: Seq<Record>,
    s: Seq<u8>,
    base: int,
) -> bool {
    &&& fields.len() == records.len()
    &&& forall|i: int|
        0 <= i < records.len() ==> {
            &&& (#[trigger] fields[i]).key == records[i].key
            &&& fields[i].size == records[i].payload.len()
            &&& fields[i].offset == payload_offset(records, i, base)
            &&& s.subrange(fields[i].offset as int, fields[i].offset + fields[i].size)
                == records[i].payload
        }
}

/// Two bytes laid out for a number read back as that number.
pub proof fn lemma_le16_read_back(s: Seq<u8>, at: int, n: int)
    requires
        0 <= n <= u16::MAX,
        0 <= at,
        at + 2 <= s.len(),
        s.subrange(at, at + 2) == le16_bytes(n),
    ensures
        le16(s, at) == n,
{
    assert(s[at] == s.subrange(at, at + 2)[0]);
    assert(s[at + 1] == s.subrange(at, at + 2)[1]);
}

/// Four bytes laid out for a number read back as that number.
pub proof fn lemma_le32_read_back(s: Seq<u8>, at: int, n: int)
    requires
        0 <= n <= u32::MAX,
        0 <= at,
        at + 4 <= s.len(),
        s.subrange(at, at + 4) == le32_bytes(n),
    ensures
        le32(s, at) == n,
{
    assert(s[at] == s.subrange(at, at + 4)[0]);
    assert(s[at + 1] == s.subrange(at, at + 4)[1]);
    assert(s[at + 2] == s.subrange(at, at + 4)[2]);
    assert(s[at + 3] == s.subrange(at, at + 4)[3]);
}

/// A valid record laid out after `prefix` and before `suffix` is read back
/// as one descriptor with its key and its payload's size, which ends where
/// the record's bytes end and whose payload lies where it says.
pub proof fn lemma_record_read_back(prefix: Seq<u8>, record: Record, suffix: Seq<u8>)
    requires
        record.valid(),
        prefix.len() + record.bytes().len() + suffix.len() <= usize::MAX,
    ensures
        ({
            let s = prefix + record.bytes() + suffix;
            let at = prefix.len() as int;
            &&& record_spec(s, at) is Ok
            &&& record_spec(s, at)->Ok_0.key == record.key
            &&& record_spec(s, at)->Ok_0.size == record.payload.len()
            &&& record_spec(s, at)->Ok_0.offset == payload_start(s, at)
            &&& record_end(s, at) == at + record.bytes().len()
            &&& s.subrange(payload_start(s, at), record_end(s, at)) == record.payload
        }),
{
    let s = prefix + record.bytes() + suffix;
    let at = prefix.len() as int;
    let size = record.payload.len() as int;
    assert(s.subrange(at, at + 2) =~= le16_bytes(record.raw_key()));
    lemma_le16_read_back(s, at, record.raw_key());
    if record.extended {
        assert(s.subrange(at + 2, at + 6) =~= le32_bytes(size));
        lemma_le32_read_back(s, at + 2, size);
        assert(s.subrange(at + 6, at + 6 + size) =~= record.payload);
    } else {
        assert(s.subrange(at + 2, at + 4) =~= le16_bytes(size));
        lemma_le16_read_back(s, at + 2, size);
        assert(s.subrange(at + 4, at + 4 + size) =~= record.payload);
    }
}

/// Scanning what was laid out gives it back: after any prefix, the scan of
/// the bytes of valid records yields one descriptor for each, in order,
/// with the record's key and payload size, and an offset at which the
/// payload lies.
pub proof fn lemma_scan_round_trip(prefix: Seq<u8>, records: Seq<Record>)
    requires
        forall|i: int| 0 <= i < records.len() ==> (#[trigger] records[i]).valid(),
        prefix.len() + records_bytes(records).len() <= usize::MAX,
    ensures
        scan_spec(prefix + records_bytes(records), prefix.len() as int) is Ok,
        describes_records(
            scan_spec(prefix + records_bytes(records), prefix.len() as int)->Ok_0,
            records,
            prefix + records_bytes(records),
            prefix.len() as int,
        ),
    decreases records.len(),
{
    let s = prefix + records_bytes(records);
    let at = prefix.len() as int;
    if records.len() > 0 {
        let first = records[0];
        let tail = records.drop_first();
        let longer = prefix + first.bytes();
        assert forall|i: int| 0 <= i < tail.len() implies (#[trigger] tail[i]).valid() by {
            assert(tail[i] == records[i + 1]);
        }
        assert(s =~= longer + records_bytes(tail));
        assert(s =~= prefix + first.bytes() + records_bytes(tail));
        lemma_record_read_back(prefix, first, records_bytes(tail));
        lemma_scan_round_trip(longer, tail);
        let d = record_spec(s, at)->Ok_0;
        let rest = scan_spec(s, record_end(s, at))->Ok_0;
        let all = scan_spec(s, at)->Ok_0;
        assert(all == seq![d] + rest);
        assert forall|i: int| 0 <= i < records.len() implies {
            &&& (#[trigger] all[i]).key == records[i].key
            &&& all[i].size == records[i].payload.len()
            &&& all[i].offset == payload_offset(records, i, at)
            &&& s.subrange(all[i].offset as int, all[i].offset + all[i].size)
                == records[i].payload
        } by {
            if i > 0 {
                assert(all[i] == rest[i - 1]);
                assert(records[i] == tail[i - 1]);
            }
        }
    } else {
        assert(s =~= prefix);
    }
}

} // verus!
