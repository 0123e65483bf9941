//! The few calls into outside crates that the codec relies on, each behind a
//! wrapper whose contract is stated over spec functions and believed without
//! proof.  Everything else in the library is verified against these contracts.
use vstd::prelude::*;

use vstd::utf8::{decode_utf8, valid_utf8};

use sha1::{Digest, Sha1};
use std::io::{Read, Write};

verus! {

/// The 20-byte SHA-1 digest of a byte sequence, named but not written out:
/// nothing here re-states the SHA-1 algorithm.
pub uninterp spec fn sha1_of(data: Seq<u8>) -> Seq<u8>;

/// Relies on `sha1::Sha1` (RustCrypto): the digest is 20 bytes and depends on
/// the input bytes alone.
#[verifier::external_body]
pub fn sha1_digest(data: &[u8]) -> (r: [u8; 20])
    ensures
        r@ == sha1_of(data@),
        r@.len() == 20,
{
    let mut hasher = Sha1::new();
    hasher.update(data);
    hasher.finalize().into()
}

/// What zlib inflation yields on a byte sequence: the inflated bytes, or
/// `None` for streams that do not inflate.  Inflation depends on the input
/// bytes alone.
pub uninterp spec fn inflate_of(data: Seq<u8>) -> Option<Seq<u8>>;

/// Relies on `flate2::read::ZlibDecoder`: reading the decoder to the end
/// yields the inflated stream, or fails on malformed input.
#[verifier::external_body]
pub fn zlib_inflate(data: &[u8]) -> (r: Option<Vec<u8>>)
    ensures
        match r {
            Some(v) => inflate_of(data@) == Some(v@),
            None => inflate_of(data@) is None,
        },
{
    let mut decoder = flate2::read::ZlibDecoder::new(data);
    let mut buffer: Vec<u8> = Vec::new();
    match decoder.read_to_end(&mut buffer) {
        Ok(_) => Some(buffer),
        Err(_) => None,
    }
}

/// Relies on `flate2::write::ZlibEncoder` together with `ZlibDecoder`: what
/// the encoder emits, the decoder inflates back to the input.
#[verifier::external_body]
pub fn zlib_deflate(data: &[u8]) -> (r: Option<Vec<u8>>)
    ensures
        r matches Some(c) ==> inflate_of(c@) == Some(data@),
{
    let mut encoder = flate2::write::ZlibEncoder::new(Vec::new(), flate2::Compression::default());
    if encoder.write_all(data).is_err() {
        return None;
    }
    match encoder.finish() {
        Ok(c) => Some(c),
        Err(_) => None,
    }
}

/// Relies on `String::from_utf8`: it succeeds exactly on valid UTF-8 and
/// decodes it; vstd's `valid_utf8` and `decode_utf8` define that notion.
#[verifier::external_body]
pub fn string_from_utf8(bytes: Vec<u8>) -> (r: Option<String>)
    ensures
        match r {
            Some(s) => valid_utf8(bytes@) && s@ == decode_utf8(bytes@),
            None => !valid_utf8(bytes@),
        },
{
    String::from_utf8(bytes).ok()
}

/// The lossy decode of UTF-16 code units, with replacement characters where
/// the units pair up wrongly: a function of the units alone.
pub uninterp spec fn utf16_lossy_of(units: Seq<u16>) -> Seq<char>;

/// Relies on `widestring::U16String::to_string_lossy` for the decode itself.
#[verifier::external_body]
pub fn utf16_to_string_lossy(units: Vec<u16>) -> (r: String)
    ensures
        r@ == utf16_lossy_of(units@),
{
    widestring::U16String::from_vec(units).to_string_lossy()
}

} // verus!
