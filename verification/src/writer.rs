//! A byte writer that emits the same wire format the reader accepts, refined
//! against the encoders in [`crate::wire`].
use vstd::prelude::*;

use vstd::bytes::{u16_to_le_bytes, u32_to_le_bytes, u64_to_le_bytes};
use vstd::string::StrSliceExecFns;

use crate::wire::{
    enc_i32, enc_i64, enc_string, enc_string_array, enc_u16, enc_u32, enc_u64, enc_u8, str_encoder,
    u32_of_i32, u64_of_i64, wf_str,
};
use crate::{ParseError, ParseResult};

verus! {

/// A writer collecting the bytes of a manifest.  Its view is the byte
/// sequence written so far.
pub struct ByteWriter {
    data: Vec<u8>,
}

impl View for ByteWriter {
    type V = Seq<u8>;

    closed spec fn view(&self) -> Seq<u8> {
        self.data@
    }
}

impl ByteWriter {
    /// Creates an empty writer.
    pub fn new() -> (w: ByteWriter)
        ensures
            w@ == Seq::<u8>::empty(),
    {
        ByteWriter { data: Vec::new() }
    }

    /// The number of bytes written so far.
    pub fn tell(&self) -> (r: usize)
        ensures
            r as int == self@.len(),
    {
        self.data.len()
    }

    /// Hands the written bytes out.
    pub fn into_bytes(self) -> (r: Vec<u8>)
        ensures
            r@ == self@,
    {
        self.data
    }

    /// A view of the written bytes.
    pub fn as_bytes(&self) -> (r: &[u8])
        ensures
            r@ == self@,
    {
        self.data.as_slice()
    }

    /// Appends any value that knows its wire image.
    pub fn write<T: ByteWritable>(&mut self, value: &T)
        ensures
            final(self)@ == old(self)@ + value.wire_bytes(),
    {
        value.write(self);
    }

    /// Appends raw bytes.
    pub fn write_bytes(&mut self, bytes: &[u8])
        ensures
            final(self)@ == old(self)@ + bytes@,
    {
        self.data.extend_from_slice(bytes);
        proof {
            assert(self@ =~= old(self)@ + bytes@);
        }
    }

    /// Appends the bytes of a vector.
    pub fn write_vec(&mut self, bytes: &Vec<u8>)
        ensures
            final(self)@ == old(self)@ + bytes@,
    {
        self.write_bytes(bytes.as_slice());
    }

    /// Writes one byte.
    pub fn write_u8(&mut self, v: u8)
        ensures
            final(self)@ == old(self)@ + enc_u8(v),
    {
        self.data.push(v);
        proof {
            assert(self@ =~= old(self)@ + enc_u8(v));
        }
    }

    /// Writes a `u16`, little-endian.
    pub fn write_u16(&mut self, v: u16)
        ensures
            final(self)@ == old(self)@ + enc_u16(v),
    {
        let bs = u16_to_le_bytes(v);
        self.write_vec(&bs);
    }

    /// Writes a `u32`, little-endian.
    pub fn write_u32(&mut self, v: u32)
        ensures
            final(self)@ == old(self)@ + enc_u32(v),
    {
        let bs = u32_to_le_bytes(v);
        self.write_vec(&bs);
    }

    /// Writes a `u64`, little-endian.
    pub fn write_u64(&mut self, v: u64)
        ensures
            final(self)@ == old(self)@ + enc_u64(v),
    {
        let bs = u64_to_le_bytes(v);
        self.write_vec(&bs);
    }

    /// Writes an `i32` in two's complement, little-endian.
    pub fn write_i32(&mut self, v: i32)
        ensures
            final(self)@ == old(self)@ + enc_i32(v),
    {
        self.write_u32(i32_to_u32(v));
    }

    /// Writes an `i64` in two's complement, little-endian.
    pub fn write_i64(&mut self, v: i64)
        ensures
            final(self)@ == old(self)@ + enc_i64(v),
    {
        self.write_u64(i64_to_u64(v));
    }

    /// Writes a string on the normative path: empty as a zero length,
    /// otherwise a positive byte count (text plus NUL), the UTF-8 text and a
    /// NUL.  Rejects strings the format cannot carry: interior NUL, or text
    /// too long for a positive `i32`.
    pub fn write_string(&mut self, s: &str) -> (r: ParseResult<()>)
        ensures
            r is Ok ==> wf_str(s@) && final(self)@ == old(self)@ + enc_string(s@),
            r matches Err(e) ==> !wf_str(s@) && e == ParseError::InvalidData && final(self)@ == old(
                self,
            )@,
    {
        proof {
            crate::wire::lemma_utf8_nul(s@);
        }
        if s.is_empty() {
            assert(s@.len() == 0);
            assert(!s@.contains('\0')) by {
                if s@.contains('\0') {
                    let i = choose|i: int| 0 <= i < s@.len() && s@[i] == '\0';
                }
            }
            self.write_u32(0);
            return Ok(());
        }
        let bytes = s.as_bytes_vec();
        if bytes.len() >= 0x7FFF_FFFF {
            return Err(ParseError::InvalidData);
        }
        if crate::reader::contains_zero_byte(&bytes) {
            return Err(ParseError::InvalidData);
        }
        let n: u32 = bytes.len() as u32 + 1;
        self.write_u32(n);
        self.write_vec(&bytes);
        self.write_u8(0);
        proof {
            assert(self@ =~= old(self)@ + enc_string(s@));
        }
        Ok(())
    }

    /// Writes a `u32` count, then each string in order.  Rejects a vector
    /// the count prefix cannot describe, or any string `write_string`
    /// rejects.
    pub fn write_array(&mut self, items: &Vec<String>) -> (r: ParseResult<()>)
        ensures
            r is Ok ==> final(self)@ == old(self)@ + enc_string_array(items.deep_view())
                && items@.len() <= u32::MAX && (forall|i: int|
                0 <= i < items@.len() ==> wf_str(#[trigger] items@[i]@)),
            r matches Err(e) ==> e == ParseError::InvalidData && !(items@.len() <= u32::MAX
                && (forall|i: int| 0 <= i < items@.len() ==> wf_str(#[trigger] items@[i]@))),
    {
        let ghost start = self@;
        if items.len() > 0xFFFF_FFFFusize {
            return Err(ParseError::InvalidData);
        }
        self.write_u32(items.len() as u32);
        let ghost g = str_encoder();
        let mut i: usize = 0;
        proof {
            assert(items.deep_view().take(0) =~= Seq::<Seq<char>>::empty());
            assert(crate::wire::cat(g, items.deep_view().take(0)) =~= Seq::<u8>::empty());
            assert(self@ =~= start + enc_u32(items@.len() as u32) + crate::wire::cat(
                g,
                items.deep_view().take(0),
            ));
        }
        while i < items.len()
            invariant
                i <= items@.len(),
                items@.len() <= u32::MAX,
                g == str_encoder(),
                self@ == start + enc_u32(items@.len() as u32) + crate::wire::cat(
                    g,
                    items.deep_view().take(i as int),
                ),
                forall|j: int| 0 <= j < i ==> wf_str(#[trigger] items@[j]@),
            decreases items@.len() - i,
        {
            let ghost before = items.deep_view().take(i as int);
            match self.write_string(items[i].as_str()) {
                Ok(()) => {},
                Err(e) => {
                    return Err(e);
                },
            }
            proof {
                assert(g(items@[i as int]@) == enc_string(items@[i as int]@));
                crate::wire::lemma_cat_push(g, before, items@[i as int]@);
                assert(before.push(items@[i as int]@) =~= items.deep_view().take(i + 1));
                assert(self@ =~= start + enc_u32(items@.len() as u32) + crate::wire::cat(
                    g,
                    items.deep_view().take(i + 1),
                ));
            }
            i = i + 1;
        }
        proof {
            assert(items.deep_view().take(items@.len() as int) =~= items.deep_view());
            assert(self@ =~= start + enc_string_array(items.deep_view()));
        }
        Ok(())
    }
}

/// Converts a signed 32-bit value to its two's-complement wire word.
pub fn i32_to_u32(v: i32) -> (r: u32)
    ensures
        r == u32_of_i32(v),
{
    if v >= 0 {
        v as u32
    } else {
        ((v as i64) + 0x1_0000_0000i64) as u32
    }
}

/// Converts a signed 64-bit value to its two's-complement wire word.
pub fn i64_to_u64(v: i64) -> (r: u64)
    ensures
        r == u64_of_i64(v),
{
    if v >= 0 {
        v as u64
    } else {
        ((v as i128) + 0x1_0000_0000_0000_0000i128) as u64
    }
}

/// A value that writes itself to a [`ByteWriter`] as a fixed byte image.
pub trait ByteWritable {
    /// The bytes the value occupies on the wire.
    spec fn wire_bytes(&self) -> Seq<u8>;

    /// Appends the value's wire image to the writer.
    fn write(&self, writer: &mut ByteWriter)
        ensures
            final(writer)@ == old(writer)@ + self.wire_bytes(),
    ;
}

impl ByteWritable for u8 {
    open spec fn wire_bytes(&self) -> Seq<u8> {
        enc_u8(*self)
    }

    fn write(&self, writer: &mut ByteWriter) {
        writer.write_u8(*self);
    }
}

impl ByteWritable for u16 {
    open spec fn wire_bytes(&self) -> Seq<u8> {
        enc_u16(*self)
    }

    fn write(&self, writer: &mut ByteWriter) {
        writer.write_u16(*self);
    }
}

impl ByteWritable for u32 {
    open spec fn wire_bytes(&self) -> Seq<u8> {
        enc_u32(*self)
    }

    fn write(&self, writer: &mut ByteWriter) {
        writer.write_u32(*self);
    }
}

impl ByteWritable for u64 {
    open spec fn wire_bytes(&self) -> Seq<u8> {
        enc_u64(*self)
    }

    fn write(&self, writer: &mut ByteWriter) {
        writer.write_u64(*self);
    }
}

impl ByteWritable for i32 {
    open spec fn wire_bytes(&self) -> Seq<u8> {
        enc_i32(*self)
    }

    fn write(&self, writer: &mut ByteWriter) {
        writer.write_i32(*self);
    }
}

impl ByteWritable for i64 {
    open spec fn wire_bytes(&self) -> Seq<u8> {
        enc_i64(*self)
    }

    fn write(&self, writer: &mut ByteWriter) {
        writer.write_i64(*self);
    }
}

} // verus!
