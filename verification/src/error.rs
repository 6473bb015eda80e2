//! The failures that decoding can report.

use vstd::prelude::*;

verus! {

/// The five bytes that name a container's type.
#[derive(Clone, Copy, Debug, PartialEq, Eq, Structural)]
pub struct TypeTag(pub u8, pub u8, pub u8, pub u8, pub u8);

/// Why a decoding step failed. Every variant carries the stream offset at
/// which the failure was detected: the cursor position at which the read
/// that could not be completed began, or, for a value that was read and
/// rejected, the offset of that value.
#[derive(Clone, Copy, Debug, PartialEq, Eq)]
pub enum VfbError {
    /// The source could not be read or positioned at `offset`.
    IoError { offset: usize },
    /// The stream ended inside the header; the read that began at `offset`
    /// came up short.
    TruncatedHeader { offset: usize },
    /// The type tag at `offset` is `observed`, not `expected`.
    InvalidMagic { offset: usize, expected: TypeTag, observed: TypeTag },
    /// The stream ended before the read that began at `offset` was complete.
    UnexpectedEndOfStream { offset: usize },
    /// A number was expected at `offset`, but `byte` is an operator byte.
    InvalidEncoding { offset: usize, byte: u8 },
    /// The stream ended in the middle of a record; `offset` is the end of
    /// the last read that succeeded.
    CorruptDirectory { offset: usize },
}

impl VfbError {
    /// The offset that the error carries.
    pub open spec fn spec_offset(self) -> usize {
        match self {
            VfbError::IoError { offset } => offset,
            VfbError::TruncatedHeader { offset } => offset,
            VfbError::InvalidMagic { offset, .. } => offset,
            VfbError::UnexpectedEndOfStream { offset } => offset,
            VfbError::InvalidEncoding { offset, .. } => offset,
            VfbError::CorruptDirectory { offset } => offset,
        }
    }

    /// Where the cursor stands after a read that failed with this error:
    /// at the offset that the error carries, where the stream ended, or
    /// just past the value that was read and rejected.
    pub open spec fn cursor_after(self) -> int {
        match self {
            VfbError::InvalidMagic { offset, .. } => offset + 5,
            VfbError::InvalidEncoding { offset, .. } => offset + 1,
            _ => self.spec_offset() as int,
        }
    }

    /// The stream offset at which the failure was detected.
    pub fn offset(&self) -> (o: usize)
        ensures
            o == self.spec_offset(),
    {
        match self {
            VfbError::IoError { offset } => *offset,
            VfbError::TruncatedHeader { offset } => *offset,
            VfbError::InvalidMagic { offset, .. } => *offset,
            VfbError::UnexpectedEndOfStream { offset } => *offset,
            VfbError::InvalidEncoding { offset, .. } => *offset,
            VfbError::CorruptDirectory { offset } => *offset,
        }
    }
}

} // verus!
