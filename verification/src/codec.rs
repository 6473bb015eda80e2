//! The variable-width signed-integer encoding of the header's metadata.

use vstd::prelude::*;
use crate::error::VfbError;
use crate::stream::ByteStream;

verus! {

/// How many bytes an encoding that begins with `lead` takes.
pub open spec fn encoded_len(lead: u8) -> int {
    if lead < 247 {
        1
    } else if lead < 255 {
        2
    } else {
        5
    }
}

/// The signed 32-bit big-endian two's complement number whose first byte is
/// `s[at]`.
pub open spec fn be32_signed(s: Seq<u8>, at: int) -> int {
    let u = 16777216 * (s[at] as int) + 65536 * (s[at + 1] as int) + 256 * (s[at + 2] as int) + (
    s[at + 3] as int);
    if u >= 0x8000_0000 {
        u - 0x1_0000_0000
    } else {
        u
    }
}

/// The number that the encoding beginning at `s[at]` stands for.
pub open spec fn encoded_value(s: Seq<u8>, at: int) -> int {
    let b = s[at] as int;
    if b < 247 {
        b - 139
    } else if b < 251 {
        (b - 247) * 256 + s[at + 1] as int + 108
    } else if b < 255 {
        -(b - 251) * 256 - s[at + 1] as int - 108
    } else {
        be32_signed(s, at + 1)
    }
}

/// What decoding at `at` yields: the number, or the reason there is none.
pub open spec fn decode_spec(s: Seq<u8>, at: int) -> Result<i32, VfbError> {
    if at >= s.len() {
        Err(VfbError::UnexpectedEndOfStream { offset: at as usize })
    } else if s[at] < 32 {
        Err(VfbError::InvalidEncoding { offset: at as usize, byte: s[at] })
    } else if at + encoded_len(s[at]) > s.len() {
        Err(VfbError::UnexpectedEndOfStream { offset: (at + 1) as usize })
    } else {
        Ok(encoded_value(s, at) as i32)
    }
}

/// Where the cursor stands after decoding at `at`: past the whole encoding
/// on success, past the leading byte alone where that byte was read and the
/// decoding failed, and at `at` where not even that byte was there.
pub open spec fn decode_end(s: Seq<u8>, at: int) -> int {
    if at >= s.len() {
        at
    } else if s[at] < 32 || at + encoded_len(s[at]) > s.len() {
        at + 1
    } else {
        at + encoded_len(s[at])
    }
}

/// Decodes one number at the cursor, consuming one, two or five bytes.
pub fn decode(stream: &mut ByteStream) -> (r: Result<i32, VfbError>)
    ensures
        r == decode_spec(old(stream).bytes(), old(stream).cursor() as int),
        final(stream).bytes() == old(stream).bytes(),
        final(stream).cursor() == decode_end(old(stream).bytes(), old(stream).cursor() as int),
        r is Err ==> final(stream).cursor() == r->Err_0.cursor_after(),
{
    let at: usize = stream.position();
    let lead: u8 = match stream.read_u8() {
        Ok(b) => b,
        Err(e) => {
            return Err(e);
        },
    };
    if lead < 32 {
        Err(VfbError::InvalidEncoding { offset: at, byte: lead })
    } else if lead < 247 {
        Ok(lead as i32 - 139)
    } else if lead < 255 {
        let second: i32 = match stream.read_u8() {
            Ok(b) => b as i32,
            Err(e) => {
                return Err(e);
            },
        };
        if lead < 251 {
            Ok((lead as i32 - 247) * 256 + second + 108)
        } else {
            Ok(-(lead as i32 - 251) * 256 - second - 108)
        }
    } else {
        let tail: Vec<u8> = match stream.read_exact(4) {
            Ok(v) => v,
            Err(e) => {
                return Err(e);
            },
        };
        let u: i64 = 16777216 * (tail[0] as i64) + 65536 * (tail[1] as i64) + 256 * (
        tail[2] as i64) + (tail[3] as i64);
        if u >= 0x8000_0000 {
            Ok((u - 0x1_0000_0000) as i32)
        } else {
            Ok(u as i32)
        }
    }
}

/// A two-byte or five-byte encoding that has lost its final byte does not
/// decode: the stream is reported to have ended after the leading byte.
pub proof fn lemma_truncated_encoding_fails(s: Seq<u8>, at: int)
    requires
        0 <= at < s.len(),
        s[at] >= 247,
        at + encoded_len(s[at]) <= s.len(),
    ensures
        decode_spec(s.subrange(0, at + encoded_len(s[at]) - 1), at) == Err::<i32, VfbError>(
            VfbError::UnexpectedEndOfStream { offset: (at + 1) as usize },
        ),
{
}

/// An operator byte where a number is due is refused, whatever follows it,
/// and the cursor moves past that byte alone.
pub proof fn lemma_operator_byte_refused(s: Seq<u8>, at: int)
    requires
        0 <= at < s.len(),
        s[at] < 32,
    ensures
        decode_spec(s, at) == Err::<i32, VfbError>(
            VfbError::InvalidEncoding { offset: at as usize, byte: s[at] },
        ),
        decode_end(s, at) == at + 1,
{
}

} // verus!
