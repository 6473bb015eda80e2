//! A byte source with a cursor: exact-length reads, seeks and skips.

use vstd::prelude::*;
use crate::error::VfbError;

verus! {

/// The unsigned 16-bit little-endian number whose first byte is `s[at]`.
pub open spec fn le16(s: Seq<u8>, at: int) -> int {
    s[at] as int + 256 * (s[at + 1] as int)
}

/// The unsigned 32-bit little-endian number whose first byte is `s[at]`.
pub open spec fn le32(s: Seq<u8>, at: int) -> int {
    s[at] as int + 256 * (s[at + 1] as int) + 65536 * (s[at + 2] as int) + 16777216 * (
    s[at + 3] as int)
}

/// The error of a read that began at `at` and met the end of the stream.
pub open spec fn end_of_stream(at: usize) -> VfbError {
    VfbError::UnexpectedEndOfStream { offset: at }
}

/// An in-memory byte source and the position of the next read. The cursor
/// may stand beyond the last byte; every read from there comes up short.
pub struct ByteStream {
    data: Vec<u8>,
    pos: usize,
}

impl ByteStream {
    /// The bytes of the source.
    pub closed spec fn bytes(&self) -> Seq<u8> {
        self.data@
    }

    /// The position of the next read.
    pub closed spec fn cursor(&self) -> usize {
        self.pos
    }

    /// Whether `n` more bytes can be read at the cursor.
    pub open spec fn available(&self, n: int) -> bool {
        self.cursor() + n <= self.bytes().len()
    }

    /// The same bytes, the cursor unmoved.
    pub open spec fn unmoved(&self, before: &ByteStream) -> bool {
        self.bytes() == before.bytes() && self.cursor() == before.cursor()
    }

    /// The same bytes, the cursor `n` further on.
    pub open spec fn advanced(&self, before: &ByteStream, n: int) -> bool {
        self.bytes() == before.bytes() && self.cursor() == before.cursor() + n
    }

    /// A stream over `data`, positioned at its first byte.
    pub fn new(data: Vec<u8>) -> (s: Self)
        ensures
            s.bytes() == data@,
            s.cursor() == 0,
    {
        ByteStream { data, pos: 0 }
    }

    /// The number of bytes in the source.
    pub fn len(&self) -> (n: usize)
        ensures
            n == self.bytes().len(),
    {
        self.data.len()
    }

    /// The position of the next read.
    pub fn position(&self) -> (p: usize)
        ensures
            p == self.cursor(),
    {
        self.pos
    }

    /// How many bytes lie between the cursor and the end of the source.
    pub fn remaining(&self) -> (n: usize)
        ensures
            n == if self.cursor() <= self.bytes().len() {
                self.bytes().len() - self.cursor()
            } else {
                0
            },
    {
        if self.pos <= self.data.len() {
            self.data.len() - self.pos
        } else {
            0
        }
    }

    /// Moves the cursor to `pos`, which may lie beyond the end.
    pub fn seek(&mut self, pos: usize)
        ensures
            final(self).bytes() == old(self).bytes(),
            final(self).cursor() == pos,
    {
        self.pos = pos;
    }

    /// Moves the cursor `n` bytes on without reading them, if that many
    /// bytes are left; otherwise reports the end of the stream and leaves
    /// the cursor where it was.
    pub fn skip(&mut self, n: usize) -> (r: Result<(), VfbError>)
        ensures
            old(self).available(n as int) ==> r is Ok && final(self).advanced(old(self), n as int),
            !old(self).available(n as int) ==> r == Err::<(), VfbError>(
                end_of_stream(old(self).cursor()),
            ) && final(self).unmoved(old(self)),
    {
        if n <= self.remaining() && self.pos <= self.data.len() {
            self.pos = self.pos + n;
            Ok(())
        } else {
            Err(VfbError::UnexpectedEndOfStream { offset: self.pos })
        }
    }

    /// Reads the byte at the cursor and moves past it; at the end of the
    /// stream the cursor stays.
    pub fn read_u8(&mut self) -> (r: Result<u8, VfbError>)
        ensures
            old(self).available(1) ==> r == Ok::<u8, VfbError>(
                old(self).bytes()[old(self).cursor() as int],
            ) && final(self).advanced(old(self), 1),
            !old(self).available(1) ==> r == Err::<u8, VfbError>(
                end_of_stream(old(self).cursor()),
            ) && final(self).unmoved(old(self)),
    {
        if self.pos < self.data.len() {
            let b: u8 = self.data[self.pos];
            self.pos = self.pos + 1;
            Ok(b)
        } else {
            Err(VfbError::UnexpectedEndOfStream { offset: self.pos })
        }
    }

    /// Reads exactly `n` bytes at the cursor and moves past them; where
    /// fewer are left, nothing is read and the cursor stays.
    pub fn read_exact(&mut self, n: usize) -> (r: Result<Vec<u8>, VfbError>)
        ensures
            old(self).available(n as int) ==> r is Ok && r->Ok_0@ == old(self).bytes().subrange(
                old(self).cursor() as int,
                old(self).cursor() + n,
            ) && final(self).advanced(old(self), n as int),
            !old(self).available(n as int) ==> r == Err::<Vec<u8>, VfbError>(
                end_of_stream(old(self).cursor()),
            ) && final(self).unmoved(old(self)),
    {
        if self.pos > self.data.len() || n > self.data.len() - self.pos {
            return Err(VfbError::UnexpectedEndOfStream { offset: self.pos });
        }
        let start: usize = self.pos;
        let mut out: Vec<u8> = Vec::new();
        let mut i: usize = 0;
        while i < n
            invariant
                i <= n,
                start + n <= self.data.len(),
                out@ == self.data@.subrange(start as int, start + i),
            decreases n - i,
        {
            out.push(self.data[start + i]);
            i = i + 1;
        }
        self.pos = start + n;
        Ok(out)
    }

    /// Reads a 16-bit little-endian number at the cursor.
    pub fn read_u16_le(&mut self) -> (r: Result<u16, VfbError>)
        ensures
            old(self).available(2) ==> r is Ok && r->Ok_0 == le16(
                old(self).bytes(),
                old(self).cursor() as int,
            ) && final(self).advanced(old(self), 2),
            !old(self).available(2) ==> r == Err::<u16, VfbError>(
                end_of_stream(old(self).cursor()),
            ) && final(self).unmoved(old(self)),
    {
        if self.pos > self.data.len() || 2 > self.data.len() - self.pos {
            return Err(VfbError::UnexpectedEndOfStream { offset: self.pos });
        }
        let lo: u16 = self.data[self.pos] as u16;
        let hi: u16 = self.data[self.pos + 1] as u16;
        self.pos = self.pos + 2;
        Ok(lo + 256 * hi)
    }

    /// Reads a 32-bit little-endian number at the cursor.
    pub fn read_u32_le(&mut self) -> (r: Result<u32, VfbError>)
        ensures
            old(self).available(4) ==> r is Ok && r->Ok_0 == le32(
                old(self).bytes(),
                old(self).cursor() as int,
            ) && final(self).advanced(old(self), 4),
            !old(self).available(4) ==> r == Err::<u32, VfbError>(
                end_of_stream(old(self).cursor()),
            ) && final(self).unmoved(old(self)),
    {
        if self.pos > self.data.len() || 4 > self.data.len() - self.pos {
            return Err(VfbError::UnexpectedEndOfStream { offset: self.pos });
        }
        let b0: u32 = self.data[self.pos] as u32;
        let b1: u32 = self.data[self.pos + 1] as u32;
        let b2: u32 = self.data[self.pos + 2] as u32;
        let b3: u32 = self.data[self.pos + 3] as u32;
        self.pos = self.pos + 4;
        Ok(b0 + 256 * b1 + 65536 * b2 + 16777216 * b3)
    }
}

} // verus!
