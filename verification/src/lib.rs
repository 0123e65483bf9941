//! Codec for the binary build-manifest format used by large-scale content
//! distribution: a magic-prefixed envelope (optionally zlib-compressed and
//! SHA-1 checked) around four column-oriented sections (meta, chunk list,
//! file list, custom fields).
use vstd::prelude::*;

pub mod helper;
pub mod manifest;
pub mod reader;
pub mod shared;
pub mod trusted;
pub mod wire;
pub mod writer;

verus! {

/// The closed set of failures a parse or serialize can report.  Every error is
/// fatal to the enclosing operation; nothing is retried or recovered locally.
#[derive(Debug, Clone, Copy, PartialEq, Eq, Structural)]
pub enum ParseError {
    InvalidMagic,
    InvalidData,
    InvalidDigest,
    InvalidStorageFlag,
    OffsetMismatch,
    DecompressionError,
    HashMismatch,
    SizeMismatch,
    Overflow,
}

pub type ParseResult<T> = Result<T, ParseError>;

impl ParseError {
    /// A short human-readable description of the error.
    pub fn describe(&self) -> &'static str {
        match self {
            ParseError::InvalidMagic => "Invalid magic",
            ParseError::InvalidData => "Invalid data",
            ParseError::InvalidDigest => "Invalid digest",
            ParseError::InvalidStorageFlag => "Invalid storage flag",
            ParseError::OffsetMismatch => "Offset mismatch",
            ParseError::DecompressionError => "Decompression failed",
            ParseError::HashMismatch => "Hash does not match",
            ParseError::SizeMismatch => "Sizes do not match",
            ParseError::Overflow => "Overflow",
        }
    }
}

} // verus!
