//! Decoding core for the VFB font-project container: a variable-width integer
//! codec, a header reader, a lazy record-directory scanner and an on-demand
//! payload accessor, all over an in-memory byte stream.

pub mod error;
pub mod stream;
pub mod codec;
pub mod header;
pub mod directory;
pub mod document;
