//! The container's header: a fixed preamble, three metadata entries and a
//! trailer.

use vstd::prelude::*;
use crate::codec::{decode, decode_end, decode_spec};
use crate::error::{TypeTag, VfbError};
use crate::stream::{le16, ByteStream};

verus! {

/// The length of the reserved region.
pub const RESERVED_LEN: usize = 34;

/// The length of the six opaque two-byte fields that follow the reserved
/// region.
pub const OPAQUE_LEN: usize = 12;

/// The length of the two opaque two-byte fields that end the header.
pub const TRAILER_LEN: usize = 4;

/// The length of everything before the metadata entries.
pub const PREAMBLE_LEN: usize = 56;

/// The number of metadata entries in a header.
pub const METADATA_COUNT: usize = 3;

/// The type tag of the container format, the letters `WLF10`.
pub open spec fn magic_spec() -> TypeTag {
    TypeTag(0x57, 0x4C, 0x46, 0x31, 0x30)
}

/// The type tag of the container format, the letters `WLF10`.
pub fn magic() -> (t: TypeTag)
    ensures
        t == magic_spec(),
{
    TypeTag(0x57, 0x4C, 0x46, 0x31, 0x30)
}

/// The five bytes from `s[at]` on, as a tag.
pub open spec fn tag_at(s: Seq<u8>, at: int) -> TypeTag {
    TypeTag(s[at], s[at + 1], s[at + 2], s[at + 3], s[at + 4])
}

/// One metadata entry: a one-byte key and the number decoded after it.
#[derive(Clone, Copy, Debug, PartialEq, Eq, Structural)]
pub struct MetadataEntry {
    pub key: u8,
    pub value: i32,
}

/// A parsed header. The reserved region, the opaque fields and the trailer
/// are kept as the bytes that were read, and are never interpreted.
#[derive(Clone, Debug, PartialEq, Eq)]
pub struct Header {
    pub sentinel: u8,
    pub magic: TypeTag,
    pub version_major: u16,
    pub version_minor: u16,
    pub reserved: Vec<u8>,
    pub opaque: Vec<u8>,
    pub metadata: Vec<MetadataEntry>,
    pub trailer: Vec<u8>,
}

/// The error of a header read that began at `at` and came up short.
pub open spec fn truncated(at: int) -> VfbError {
    VfbError::TruncatedHeader { offset: at as usize }
}

/// The error that the header reader reports for a failure of the integer
/// decoder: a short read is a truncated header, anything else stays.
pub open spec fn header_error(e: VfbError) -> VfbError {
    match e {
        VfbError::UnexpectedEndOfStream { offset } => VfbError::TruncatedHeader { offset },
        _ => e,
    }
}

/// What reading the preamble of a header that begins at `at` yields: the
/// error of the first read that fails, the tag being checked as soon as it
/// is read, or nothing to report. The reads are, in order: the sentinel,
/// the tag, each of the two version fields, the reserved region, and the
/// six opaque fields together.
pub open spec fn preamble_spec(s: Seq<u8>, at: int) -> Result<(), VfbError> {
    let n = s.len();
    if at + 1 > n {
        Err(truncated(at))
    } else if at + 6 > n {
        Err(truncated(at + 1))
    } else if tag_at(s, at + 1) != magic_spec() {
        Err(
            VfbError::InvalidMagic {
                offset: (at + 1) as usize,
                expected: magic_spec(),
                observed: tag_at(s, at + 1),
            },
        )
    } else if at + 8 > n {
        Err(truncated(at + 6))
    } else if at + 10 > n {
        Err(truncated(at + 8))
    } else if at + 44 > n {
        Err(truncated(at + 10))
    } else if at + 56 > n {
        Err(truncated(at + 44))
    } else {
        Ok(())
    }
}

/// What reading one metadata entry at `at` yields.
pub open spec fn entry_spec(s: Seq<u8>, at: int) -> Result<MetadataEntry, VfbError> {
    if at + 1 > s.len() {
        Err(truncated(at))
    } else {
        match decode_spec(s, at + 1) {
            Ok(value) => Ok(MetadataEntry { key: s[at], value }),
            Err(e) => Err(header_error(e)),
        }
    }
}

/// Where the entry that begins at `at` ends.
pub open spec fn entry_end(s: Seq<u8>, at: int) -> int {
    decode_end(s, at + 1)
}

/// Where the `i`-th metadata entry of a header at `at` begins; for `i` the
/// number of entries, where the trailer begins.
pub open spec fn entry_start(s: Seq<u8>, at: int, i: nat) -> int
    decreases i,
{
    if i == 0 {
        at + PREAMBLE_LEN
    } else {
        entry_end(s, entry_start(s, at, (i - 1) as nat))
    }
}

/// Where a well-formed header that begins at `at` ends.
pub open spec fn header_end(s: Seq<u8>, at: int) -> int {
    entry_start(s, at, 3) + TRAILER_LEN
}

/// The first failure in reading the header at `at`, if there is one: of the
/// preamble, then of each entry in turn, then of the trailer, whose four
/// bytes are one read.
pub open spec fn header_failure(s: Seq<u8>, at: int) -> Option<VfbError> {
    if preamble_spec(s, at) is Err {
        Some(preamble_spec(s, at)->Err_0)
    } else if entry_spec(s, entry_start(s, at, 0)) is Err {
        Some(entry_spec(s, entry_start(s, at, 0))->Err_0)
    } else if entry_spec(s, entry_start(s, at, 1)) is Err {
        Some(entry_spec(s, entry_start(s, at, 1))->Err_0)
    } else if entry_spec(s, entry_start(s, at, 2)) is Err {
        Some(entry_spec(s, entry_start(s, at, 2))->Err_0)
    } else if header_end(s, at) > s.len() {
        Some(truncated(entry_start(s, at, 3)))
    } else {
        None
    }
}

impl Header {
    /// The lengths that every header has.
    pub open spec fn wf(&self) -> bool {
        &&& self.reserved@.len() == RESERVED_LEN
        &&& self.opaque@.len() == OPAQUE_LEN
        &&& self.metadata@.len() == METADATA_COUNT
        &&& self.trailer@.len() == TRAILER_LEN
    }

    /// Whether this header is what the bytes from `s[at]` on say.
    pub open spec fn describes(&self, s: Seq<u8>, at: int) -> bool {
        &&& self.sentinel == s[at]
        &&& self.magic == tag_at(s, at + 1)
        &&& self.version_major == le16(s, at + 6)
        &&& self.version_minor == le16(s, at + 8)
        &&& self.reserved@ == s.subrange(at + 10, at + 44)
        &&& self.opaque@ == s.subrange(at + 44, at + 56)
        &&& self.metadata@ == seq![
            entry_spec(s, entry_start(s, at, 0))->Ok_0,
            entry_spec(s, entry_start(s, at, 1))->Ok_0,
            entry_spec(s, entry_start(s, at, 2))->Ok_0,
        ]
        &&& self.trailer@ == s.subrange(entry_start(s, at, 3), header_end(s, at))
    }

    /// The type tag.
    pub fn magic(&self) -> (t: TypeTag)
        ensures
            t == self.magic,
    {
        self.magic
    }

    /// The two version fields, in stream order.
    pub fn version(&self) -> (v: (u16, u16))
        ensures
            v == (self.version_major, self.version_minor),
    {
        (self.version_major, self.version_minor)
    }

    /// The metadata entries, in stream order.
    pub fn metadata(&self) -> (m: &Vec<MetadataEntry>)
        ensures
            m@ == self.metadata@,
    {
        &self.metadata
    }
}

/// Reads one metadata entry at the cursor: its key byte, then its number.
pub fn read_metadata_entry(stream: &mut ByteStream) -> (r: Result<MetadataEntry, VfbError>)
    ensures
        r == entry_spec(old(stream).bytes(), old(stream).cursor() as int),
        final(stream).bytes() == old(stream).bytes(),
        r is Ok ==> final(stream).cursor() == entry_end(
            old(stream).bytes(),
            old(stream).cursor() as int,
        ),
        r is Err ==> final(stream).cursor() == r->Err_0.cursor_after(),
{
    let at: usize = stream.position();
    let key: u8 = match stream.read_u8() {
        Ok(b) => b,
        Err(_) => {
            return Err(VfbError::TruncatedHeader { offset: at });
        },
    };
    match decode(stream) {
        Ok(value) => Ok(MetadataEntry { key, value }),
        Err(VfbError::UnexpectedEndOfStream { offset }) => Err(
            VfbError::TruncatedHeader { offset },
        ),
        Err(e) => Err(e),
    }
}

/// Reads the header that begins at the cursor. On success the cursor stands
/// on the first byte after the header. The tag is checked as soon as it has
/// been read, before anything after it.
pub fn read_header(stream: &mut ByteStream) -> (r: Result<Header, VfbError>)
    ensures
        final(stream).bytes() == old(stream).bytes(),
        match r {
            Ok(h) => {
                &&& header_failure(old(stream).bytes(), old(stream).cursor() as int) is None
                &&& h.wf()
                &&& h.describes(old(stream).bytes(), old(stream).cursor() as int)
                &&& final(stream).cursor() == header_end(
                    old(stream).bytes(),
                    old(stream).cursor() as int,
                )
            },
            Err(e) => {
                &&& header_failure(old(stream).bytes(), old(stream).cursor() as int) == Some(e)
                &&& final(stream).cursor() == e.cursor_after()
            },
        },
{
    let ghost s = stream.bytes();
    let ghost at = stream.cursor() as int;
    let start: usize = stream.position();
    let sentinel: u8 = match stream.read_u8() {
        Ok(b) => b,
        Err(_) => {
            return Err(VfbError::TruncatedHeader { offset: start });
        },
    };
    let tag_offset: usize = stream.position();
    let tag: Vec<u8> = match stream.read_exact(5) {
        Ok(v) => v,
        Err(_) => {
            return Err(VfbError::TruncatedHeader { offset: tag_offset });
        },
    };
    let observed = TypeTag(tag[0], tag[1], tag[2], tag[3], tag[4]);
    let expected = magic();
    if observed != expected {
        return Err(VfbError::InvalidMagic { offset: tag_offset, expected, observed });
    }
    let offset: usize = stream.position();
    let version0: u16 = match stream.read_u16_le() {
        Ok(v) => v,
        Err(_) => {
            return Err(VfbError::TruncatedHeader { offset });
        },
    };
    let offset: usize = stream.position();
    let version1: u16 = match stream.read_u16_le() {
        Ok(v) => v,
        Err(_) => {
            return Err(VfbError::TruncatedHeader { offset });
        },
    };
    let offset: usize = stream.position();
    let reserved: Vec<u8> = match stream.read_exact(RESERVED_LEN) {
        Ok(v) => v,
        Err(_) => {
            return Err(VfbError::TruncatedHeader { offset });
        },
    };
    let offset: usize = stream.position();
    let opaque: Vec<u8> = match stream.read_exact(OPAQUE_LEN) {
        Ok(v) => v,
        Err(_) => {
            return Err(VfbError::TruncatedHeader { offset });
        },
    };
    let mut metadata: Vec<MetadataEntry> = Vec::new();
    let mut i: usize = 0;
    while i < METADATA_COUNT
        invariant
            i <= 3,
            stream.bytes() == s,
            s == old(stream).bytes(),
            at == old(stream).cursor(),
            preamble_spec(s, at) is Ok,
            stream.cursor() == entry_start(s, at, i as nat),
            metadata@.len() == i,
            forall|j: int|
                0 <= j < i ==> entry_spec(s, #[trigger] entry_start(s, at, j as nat)) == Ok::<
                    MetadataEntry,
                    VfbError,
                >(metadata@[j]),
        decreases 3 - i,
    {
        match read_metadata_entry(stream) {
            Ok(m) => {
                metadata.push(m);
            },
            Err(e) => {
                proof {
                    reveal_with_fuel(entry_start, 4);
                }
                return Err(e);
            },
        }
        proof {
            reveal_with_fuel(entry_start, 4);
        }
        i = i + 1;
    }
    proof {
        reveal_with_fuel(entry_start, 4);
    }
    let offset: usize = stream.position();
    let trailer: Vec<u8> = match stream.read_exact(TRAILER_LEN) {
        Ok(v) => v,
        Err(_) => {
            return Err(VfbError::TruncatedHeader { offset });
        },
    };
    let header = Header {
        sentinel,
        magic: observed,
        version_major: version0,
        version_minor: version1,
        reserved,
        opaque,
        metadata,
        trailer,
    };
    proof {
        assert(header.metadata@ =~= seq![
            entry_spec(s, entry_start(s, at, 0))->Ok_0,
            entry_spec(s, entry_start(s, at, 1))->Ok_0,
            entry_spec(s, entry_start(s, at, 2))->Ok_0,
        ]);
    }
    Ok(header)
}

/// A header reads the same whatever follows it: bytes appended to a whole
/// header change neither that it reads without failure, nor where it ends,
/// nor what it holds.
pub proof fn lemma_header_ignores_what_follows(header: Seq<u8>, rest: Seq<u8>)
    requires
        header_failure(header, 0) is None,
    ensures
        header_failure(header + rest, 0) is None,
        header_end(header + rest, 0) == header_end(header, 0),
        forall|h: Header| h.describes(header, 0) ==> h.describes(header + rest, 0),
{
    reveal_with_fuel(entry_start, 4);
    let s = header + rest;
    assert forall|h: Header| h.describes(header, 0) implies h.describes(s, 0) by {
        assert(s.subrange(10, 44) =~= header.subrange(10, 44));
        assert(s.subrange(44, 56) =~= header.subrange(44, 56));
        assert(s.subrange(entry_start(s, 0, 3), header_end(s, 0)) =~= header.subrange(
            entry_start(header, 0, 3),
            header_end(header, 0),
        ));
    }
}

} // verus!
