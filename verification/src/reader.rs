//! A cursor over an immutable byte vector, refined against the spec readers
//! in [`crate::wire`].
use vstd::prelude::*;

use vstd::bytes::{u16_from_le_bytes, u32_from_le_bytes, u64_from_le_bytes};
use vstd::slice::{slice_subrange, slice_to_vec};

use crate::trusted::{string_from_utf8, utf16_to_string_lossy};
use crate::wire::{
    i32_of_u32, i64_of_u64, i64_reader, sp_bytes, sp_i16, sp_i32, sp_i64, sp_i8, sp_many,
    sp_string, sp_string_array, sp_u16, sp_u32, sp_u64, sp_u8, str_reader, u32_reader, u64_reader,
    u8_reader, units_of,
};
use crate::{ParseError, ParseResult};

verus! {

/// Ghost image of a reader: the whole input and the cursor position.
pub ghost struct ReaderModel {
    pub data: Seq<u8>,
    pub pos: int,
}

/// A byte reader over binary manifest data.
pub struct ByteReader {
    data: Vec<u8>,
    position: usize,
}

impl View for ByteReader {
    type V = ReaderModel;

    closed spec fn view(&self) -> ReaderModel {
        ReaderModel { data: self.data@, pos: self.position as int }
    }
}

impl ByteReader {
    /// The cursor never stands past the end of the data.
    pub open spec fn wf(&self) -> bool {
        self@.pos <= self@.data.len()
    }

    /// Creates a reader positioned at the start of `data`.
    pub fn new(data: Vec<u8>) -> (r: ByteReader)
        ensures
            r.wf(),
            r@.data == data@,
            r@.pos == 0,
    {
        ByteReader { data, position: 0 }
    }

    /// The current cursor position.
    pub fn tell(&self) -> (r: usize)
        ensures
            r as int == self@.pos,
    {
        self.position
    }

    /// The length of the underlying data.
    pub fn length(&self) -> (r: usize)
        ensures
            r as int == self@.data.len(),
    {
        self.data.len()
    }

    /// Moves the cursor to an absolute position inside the data.
    pub fn seek(&mut self, position: usize)
        requires
            position as int <= old(self)@.data.len(),
        ensures
            final(self).wf(),
            final(self)@.data == old(self)@.data,
            final(self)@.pos == position as int,
    {
        self.position = position;
    }

    /// Reads exactly `size` bytes, or fails with `Overflow` when fewer
    /// remain; the cursor moves only on success.
    pub fn read_bytes(&mut self, size: usize) -> (r: ParseResult<Vec<u8>>)
        requires
            old(self).wf(),
        ensures
            final(self).wf(),
            final(self)@.data == old(self)@.data,
            match sp_bytes(old(self)@.data, old(self)@.pos, size as int) {
                Ok((bs, p)) => r matches Ok(v) && v@ == bs && final(self)@.pos == p,
                Err(e) => r matches Err(e2) && e2 == e && final(self)@.pos == old(self)@.pos,
            },
    {
        if size > self.data.len() - self.position {
            return Err(ParseError::Overflow);
        }
        let out = slice_to_vec(slice_subrange(self.data.as_slice(), self.position, self.position + size));
        self.position = self.position + size;
        Ok(out)
    }

    /// Drains the bytes from the cursor to the end; never fails.
    pub fn read_remaining(&mut self) -> (r: Vec<u8>)
        requires
            old(self).wf(),
        ensures
            final(self).wf(),
            final(self)@.data == old(self)@.data,
            final(self)@.pos == old(self)@.data.len(),
            r@ == old(self)@.data.subrange(old(self)@.pos, old(self)@.data.len() as int),
    {
        let out = slice_to_vec(slice_subrange(self.data.as_slice(), self.position, self.data.len()));
        self.position = self.data.len();
        out
    }

    /// Reads a little-endian `u8`.
    pub fn read_u8(&mut self) -> (r: ParseResult<u8>)
        requires
            old(self).wf(),
        ensures
            final(self).wf(),
            final(self)@.data == old(self)@.data,
            match sp_u8(old(self)@.data, old(self)@.pos) {
                Ok((v, p)) => r matches Ok(rv) && rv == v && final(self)@.pos == p,
                Err(e) => r matches Err(e2) && e2 == e && final(self)@.pos == old(self)@.pos,
            },
    {
        match self.read_bytes(1) {
            Ok(bs) => Ok(bs[0]),
            Err(e) => Err(e),
        }
    }

    /// Reads a little-endian `u16`.
    pub fn read_u16(&mut self) -> (r: ParseResult<u16>)
        requires
            old(self).wf(),
        ensures
            final(self).wf(),
            final(self)@.data == old(self)@.data,
            match sp_u16(old(self)@.data, old(self)@.pos) {
                Ok((v, p)) => r matches Ok(rv) && rv == v && final(self)@.pos == p,
                Err(e) => r matches Err(e2) && e2 == e && final(self)@.pos == old(self)@.pos,
            },
    {
        match self.read_bytes(2) {
            Ok(bs) => Ok(u16_from_le_bytes(bs.as_slice())),
            Err(e) => Err(e),
        }
    }

    /// Reads a little-endian `u32`.
    pub fn read_u32(&mut self) -> (r: ParseResult<u32>)
        requires
            old(self).wf(),
        ensures
            final(self).wf(),
            final(self)@.data == old(self)@.data,
            match sp_u32(old(self)@.data, old(self)@.pos) {
                Ok((v, p)) => r matches Ok(rv) && rv == v && final(self)@.pos == p,
                Err(e) => r matches Err(e2) && e2 == e && final(self)@.pos == old(self)@.pos,
            },
    {
        match self.read_bytes(4) {
            Ok(bs) => Ok(u32_from_le_bytes(bs.as_slice())),
            Err(e) => Err(e),
        }
    }

    /// Reads a little-endian `u64`.
    pub fn read_u64(&mut self) -> (r: ParseResult<u64>)
        requires
            old(self).wf(),
        ensures
            final(self).wf(),
            final(self)@.data == old(self)@.data,
            match sp_u64(old(self)@.data, old(self)@.pos) {
                Ok((v, p)) => r matches Ok(rv) && rv == v && final(self)@.pos == p,
                Err(e) => r matches Err(e2) && e2 == e && final(self)@.pos == old(self)@.pos,
            },
    {
        match self.read_bytes(8) {
            Ok(bs) => Ok(u64_from_le_bytes(bs.as_slice())),
            Err(e) => Err(e),
        }
    }

    /// Reads a little-endian `i8` (two's complement).
    pub fn read_i8(&mut self) -> (r: ParseResult<i8>)
        requires
            old(self).wf(),
        ensures
            final(self).wf(),
            final(self)@.data == old(self)@.data,
            match sp_i8(old(self)@.data, old(self)@.pos) {
                Ok((v, p)) => r matches Ok(rv) && rv == v && final(self)@.pos == p,
                Err(e) => r matches Err(e2) && e2 == e && final(self)@.pos == old(self)@.pos,
            },
    {
        match self.read_u8() {
            Ok(w) => Ok(if w < 0x80 { w as i8 } else { ((w as i16) - 0x100) as i8 }),
            Err(e) => Err(e),
        }
    }

    /// Reads a little-endian `i16` (two's complement).
    pub fn read_i16(&mut self) -> (r: ParseResult<i16>)
        requires
            old(self).wf(),
        ensures
            final(self).wf(),
            final(self)@.data == old(self)@.data,
            match sp_i16(old(self)@.data, old(self)@.pos) {
                Ok((v, p)) => r matches Ok(rv) && rv == v && final(self)@.pos == p,
                Err(e) => r matches Err(e2) && e2 == e && final(self)@.pos == old(self)@.pos,
            },
    {
        match self.read_u16() {
            Ok(w) => Ok(if w < 0x8000 { w as i16 } else { ((w as i32) - 0x1_0000) as i16 }),
            Err(e) => Err(e),
        }
    }

    /// Reads a little-endian `i32` (two's complement).
    pub fn read_i32(&mut self) -> (r: ParseResult<i32>)
        requires
            old(self).wf(),
        ensures
            final(self).wf(),
            final(self)@.data == old(self)@.data,
            match sp_i32(old(self)@.data, old(self)@.pos) {
                Ok((v, p)) => r matches Ok(rv) && rv == v && final(self)@.pos == p,
                Err(e) => r matches Err(e2) && e2 == e && final(self)@.pos == old(self)@.pos,
            },
    {
        match self.read_u32() {
            Ok(w) => Ok(u32_to_i32(w)),
            Err(e) => Err(e),
        }
    }

    /// Reads a little-endian `i64` (two's complement).
    pub fn read_i64(&mut self) -> (r: ParseResult<i64>)
        requires
            old(self).wf(),
        ensures
            final(self).wf(),
            final(self)@.data == old(self)@.data,
            match sp_i64(old(self)@.data, old(self)@.pos) {
                Ok((v, p)) => r matches Ok(rv) && rv == v && final(self)@.pos == p,
                Err(e) => r matches Err(e2) && e2 == e && final(self)@.pos == old(self)@.pos,
            },
    {
        match self.read_u64() {
            Ok(w) => Ok(u64_to_i64(w)),
            Err(e) => Err(e),
        }
    }

    /// Reads a signed-length-prefixed string: positive lengths count UTF-8
    /// bytes, negative lengths count UTF-16LE code units, a trailing NUL is
    /// part of the count and is stripped.
    pub fn read_string(&mut self) -> (r: ParseResult<String>)
        requires
            old(self).wf(),
        ensures
            final(self).wf(),
            final(self)@.data == old(self)@.data,
            match sp_string(old(self)@.data, old(self)@.pos) {
                Ok((s, p)) => r matches Ok(rs) && rs@ == s && final(self)@.pos == p,
                Err(e) => r matches Err(e2) && e2 == e,
            },
    {
        let ghost b = self@.data;
        let ghost pos0 = self@.pos;
        let w: u32 = match self.read_u32() {
            Ok(w) => w,
            Err(e) => {
                return Err(e);
            },
        };
        if w == 0 {
            return Ok(String::new());
        }
        if w < 0x8000_0000 {
            let n: usize = w as usize;
            let bs = match self.read_bytes(n) {
                Ok(bs) => bs,
                Err(e) => {
                    return Err(e);
                },
            };
            if bs[n - 1] != 0 {
                return Err(ParseError::InvalidData);
            }
            let text = slice_to_vec(slice_subrange(bs.as_slice(), 0, n - 1));
            assert(text@ =~= bs@.take(n - 1));
            if contains_zero_byte(&text) {
                return Err(ParseError::InvalidData);
            }
            match string_from_utf8(text) {
                Some(s) => Ok(s),
                None => Err(ParseError::InvalidData),
            }
        } else {
            let count: u64 = 0x1_0000_0000u64 - w as u64;
            let remaining: usize = self.data.len() - self.position;
            if 2 * count > remaining as u64 {
                return Err(ParseError::Overflow);
            }
            let count: usize = count as usize;
            let bs = match self.read_bytes(2 * count) {
                Ok(bs) => bs,
                Err(e) => {
                    return Err(e);
                },
            };
            let units = bytes_to_units(&bs);
            if units[count - 1] != 0 {
                return Err(ParseError::InvalidData);
            }
            let mut text = units;
            text.truncate(count - 1);
            assert(text@ =~= units_of(bs@).take(count - 1));
            if contains_zero_unit(&text) {
                return Err(ParseError::InvalidData);
            }
            let s = utf16_to_string_lossy(text);
            if contains_nul_char(&s) {
                return Err(ParseError::InvalidData);
            }
            Ok(s)
        }
    }

    /// Reads a `u32` count followed by that many strings.
    pub fn read_string_array(&mut self) -> (r: ParseResult<Vec<String>>)
        requires
            old(self).wf(),
        ensures
            final(self).wf(),
            final(self)@.data == old(self)@.data,
            match sp_string_array(old(self)@.data, old(self)@.pos) {
                Ok((ss, p)) => r matches Ok(v) && v.deep_view() == ss && final(self)@.pos == p,
                Err(e) => r matches Err(e2) && e2 == e,
            },
    {
        let ghost b = self@.data;
        let ghost pos0 = self@.pos;
        let ghost f = str_reader();
        let count: u32 = match self.read_u32() {
            Ok(c) => c,
            Err(e) => {
                return Err(e);
            },
        };
        let ghost n = count as nat;
        let mut out: Vec<String> = Vec::new();
        let mut i: usize = 0;
        proof {
            crate::wire::lemma_sp_many_inv_init(f, b, pos0 + 4, n);
            assert(out.deep_view() =~= Seq::<Seq<char>>::empty());
        }
        while i < count as usize
            invariant
                self.wf(),
                self@.data == b,
                b == old(self)@.data,
                pos0 == old(self)@.pos,
                i == out.len(),
                i <= count,
                n == count as nat,
                f == str_reader(),
                crate::wire::sp_many_inv(f, b, pos0 + 4, n, out.deep_view(), self@.pos),
                sp_string_array(b, pos0) == sp_many(f, b, pos0 + 4, n),
            decreases count - i,
        {
            let ghost p_before = self@.pos;
            let ghost prev = out.deep_view();
            match self.read_string() {
                Ok(s) => {
                    proof {
                        assert(f(b, p_before) == sp_string(b, p_before));
                        crate::wire::lemma_sp_many_inv_step(
                            f,
                            b,
                            pos0 + 4,
                            n,
                            prev,
                            p_before,
                            s@,
                            self@.pos,
                        );
                    }
                    out.push(s);
                    proof {
                        assert(out.deep_view() =~= prev.push(s@));
                    }
                },
                Err(e) => {
                    proof {
                        assert(f(b, p_before) == sp_string(b, p_before));
                        crate::wire::lemma_sp_many_inv_err(f, b, pos0 + 4, n, prev, p_before, e);
                    }
                    return Err(e);
                },
            }
            i = i + 1;
        }
        proof {
            crate::wire::lemma_sp_many_inv_finish(f, b, pos0 + 4, n, out.deep_view(), self@.pos);
        }
        Ok(out)
    }

    /// Reads `count` consecutive little-endian `u8` values.
    pub fn read_u8_column(&mut self, count: u32) -> (r: ParseResult<Vec<u8>>)
        requires
            old(self).wf(),
        ensures
            final(self).wf(),
            final(self)@.data == old(self)@.data,
            match sp_many(u8_reader(), old(self)@.data, old(self)@.pos, count as nat) {
                Ok((vs, p)) => r matches Ok(v) && v@ == vs && final(self)@.pos == p,
                Err(e) => r matches Err(e2) && e2 == e,
            },
    {
        let ghost b = self@.data;
        let ghost pos0 = self@.pos;
        let ghost f = u8_reader();
        let ghost n = count as nat;
        let mut out: Vec<u8> = Vec::new();
        let mut i: usize = 0;
        proof {
            crate::wire::lemma_sp_many_inv_init(f, b, pos0, n);
        }
        while i < count as usize
            invariant
                self.wf(),
                self@.data == b,
                b == old(self)@.data,
                pos0 == old(self)@.pos,
                i == out.len(),
                i <= count,
                n == count as nat,
                f == u8_reader(),
                crate::wire::sp_many_inv(f, b, pos0, n, out@, self@.pos),
            decreases count - i,
        {
            let ghost p_before = self@.pos;
            let ghost prev = out@;
            match self.read_u8() {
                Ok(v) => {
                    proof {
                        assert(f(b, p_before) == sp_u8(b, p_before));
                        crate::wire::lemma_sp_many_inv_step(f, b, pos0, n, prev, p_before, v, self@.pos);
                    }
                    out.push(v);
                },
                Err(e) => {
                    proof {
                        assert(f(b, p_before) == sp_u8(b, p_before));
                        crate::wire::lemma_sp_many_inv_err(f, b, pos0, n, prev, p_before, e);
                    }
                    return Err(e);
                },
            }
            i = i + 1;
        }
        proof {
            crate::wire::lemma_sp_many_inv_finish(f, b, pos0, n, out@, self@.pos);
        }
        Ok(out)
    }

    /// Reads `count` consecutive little-endian `u32` values.
    pub fn read_u32_column(&mut self, count: u32) -> (r: ParseResult<Vec<u32>>)
        requires
            old(self).wf(),
        ensures
            final(self).wf(),
            final(self)@.data == old(self)@.data,
            match sp_many(u32_reader(), old(self)@.data, old(self)@.pos, count as nat) {
                Ok((vs, p)) => r matches Ok(v) && v@ == vs && final(self)@.pos == p,
                Err(e) => r matches Err(e2) && e2 == e,
            },
    {
        let ghost b = self@.data;
        let ghost pos0 = self@.pos;
        let ghost f = u32_reader();
        let ghost n = count as nat;
        let mut out: Vec<u32> = Vec::new();
        let mut i: usize = 0;
        proof {
            crate::wire::lemma_sp_many_inv_init(f, b, pos0, n);
        }
        while i < count as usize
            invariant
                self.wf(),
                self@.data == b,
                b == old(self)@.data,
                pos0 == old(self)@.pos,
                i == out.len(),
                i <= count,
                n == count as nat,
                f == u32_reader(),
                crate::wire::sp_many_inv(f, b, pos0, n, out@, self@.pos),
            decreases count - i,
        {
            let ghost p_before = self@.pos;
            let ghost prev = out@;
            match self.read_u32() {
                Ok(v) => {
                    proof {
                        assert(f(b, p_before) == sp_u32(b, p_before));
                        crate::wire::lemma_sp_many_inv_step(f, b, pos0, n, prev, p_before, v, self@.pos);
                    }
                    out.push(v);
                },
                Err(e) => {
                    proof {
                        assert(f(b, p_before) == sp_u32(b, p_before));
                        crate::wire::lemma_sp_many_inv_err(f, b, pos0, n, prev, p_before, e);
                    }
                    return Err(e);
                },
            }
            i = i + 1;
        }
        proof {
            crate::wire::lemma_sp_many_inv_finish(f, b, pos0, n, out@, self@.pos);
        }
        Ok(out)
    }

    /// Reads `count` consecutive little-endian `u64` values.
    pub fn read_u64_column(&mut self, count: u32) -> (r: ParseResult<Vec<u64>>)
        requires
            old(self).wf(),
        ensures
            final(self).wf(),
            final(self)@.data == old(self)@.data,
            match sp_many(u64_reader(), old(self)@.data, old(self)@.pos, count as nat) {
                Ok((vs, p)) => r matches Ok(v) && v@ == vs && final(self)@.pos == p,
                Err(e) => r matches Err(e2) && e2 == e,
            },
    {
        let ghost b = self@.data;
        let ghost pos0 = self@.pos;
        let ghost f = u64_reader();
        let ghost n = count as nat;
        let mut out: Vec<u64> = Vec::new();
        let mut i: usize = 0;
        proof {
            crate::wire::lemma_sp_many_inv_init(f, b, pos0, n);
        }
        while i < count as usize
            invariant
                self.wf(),
                self@.data == b,
                b == old(self)@.data,
                pos0 == old(self)@.pos,
                i == out.len(),
                i <= count,
                n == count as nat,
                f == u64_reader(),
                crate::wire::sp_many_inv(f, b, pos0, n, out@, self@.pos),
            decreases count - i,
        {
            let ghost p_before = self@.pos;
            let ghost prev = out@;
            match self.read_u64() {
                Ok(v) => {
                    proof {
                        assert(f(b, p_before) == sp_u64(b, p_before));
                        crate::wire::lemma_sp_many_inv_step(f, b, pos0, n, prev, p_before, v, self@.pos);
                    }
                    out.push(v);
                },
                Err(e) => {
                    proof {
                        assert(f(b, p_before) == sp_u64(b, p_before));
                        crate::wire::lemma_sp_many_inv_err(f, b, pos0, n, prev, p_before, e);
                    }
                    return Err(e);
                },
            }
            i = i + 1;
        }
        proof {
            crate::wire::lemma_sp_many_inv_finish(f, b, pos0, n, out@, self@.pos);
        }
        Ok(out)
    }

    /// Reads `count` consecutive little-endian `i64` values.
    pub fn read_i64_column(&mut self, count: u32) -> (r: ParseResult<Vec<i64>>)
        requires
            old(self).wf(),
        ensures
            final(self).wf(),
            final(self)@.data == old(self)@.data,
            match sp_many(i64_reader(), old(self)@.data, old(self)@.pos, count as nat) {
                Ok((vs, p)) => r matches Ok(v) && v@ == vs && final(self)@.pos == p,
                Err(e) => r matches Err(e2) && e2 == e,
            },
    {
        let ghost b = self@.data;
        let ghost pos0 = self@.pos;
        let ghost f = i64_reader();
        let ghost n = count as nat;
        let mut out: Vec<i64> = Vec::new();
        let mut i: usize = 0;
        proof {
            crate::wire::lemma_sp_many_inv_init(f, b, pos0, n);
        }
        while i < count as usize
            invariant
                self.wf(),
                self@.data == b,
                b == old(self)@.data,
                pos0 == old(self)@.pos,
                i == out.len(),
                i <= count,
                n == count as nat,
                f == i64_reader(),
                crate::wire::sp_many_inv(f, b, pos0, n, out@, self@.pos),
            decreases count - i,
        {
            let ghost p_before = self@.pos;
            let ghost prev = out@;
            match self.read_i64() {
                Ok(v) => {
                    proof {
                        assert(f(b, p_before) == sp_i64(b, p_before));
                        crate::wire::lemma_sp_many_inv_step(f, b, pos0, n, prev, p_before, v, self@.pos);
                    }
                    out.push(v);
                },
                Err(e) => {
                    proof {
                        assert(f(b, p_before) == sp_i64(b, p_before));
                        crate::wire::lemma_sp_many_inv_err(f, b, pos0, n, prev, p_before, e);
                    }
                    return Err(e);
                },
            }
            i = i + 1;
        }
        proof {
            crate::wire::lemma_sp_many_inv_finish(f, b, pos0, n, out@, self@.pos);
        }
        Ok(out)
    }

    /// Reads `count` consecutive strings (no count prefix of its own).
    pub fn read_string_column(&mut self, count: u32) -> (r: ParseResult<Vec<String>>)
        requires
            old(self).wf(),
        ensures
            final(self).wf(),
            final(self)@.data == old(self)@.data,
            match sp_many(str_reader(), old(self)@.data, old(self)@.pos, count as nat) {
                Ok((ss, p)) => r matches Ok(v) && v.deep_view() == ss && final(self)@.pos == p,
                Err(e) => r matches Err(e2) && e2 == e,
            },
    {
        let ghost b = self@.data;
        let ghost pos0 = self@.pos;
        let ghost f = str_reader();
        let ghost n = count as nat;
        let mut out: Vec<String> = Vec::new();
        let mut i: usize = 0;
        proof {
            crate::wire::lemma_sp_many_inv_init(f, b, pos0, n);
            assert(out.deep_view() =~= Seq::<Seq<char>>::empty());
        }
        while i < count as usize
            invariant
                self.wf(),
                self@.data == b,
                b == old(self)@.data,
                pos0 == old(self)@.pos,
                i == out.len(),
                i <= count,
                n == count as nat,
                f == str_reader(),
                crate::wire::sp_many_inv(f, b, pos0, n, out.deep_view(), self@.pos),
            decreases count - i,
        {
            let ghost p_before = self@.pos;
            let ghost prev = out.deep_view();
            match self.read_string() {
                Ok(s) => {
                    proof {
                        assert(f(b, p_before) == sp_string(b, p_before));
                        crate::wire::lemma_sp_many_inv_step(f, b, pos0, n, prev, p_before, s@, self@.pos);
                    }
                    out.push(s);
                    proof {
                        assert(out.deep_view() =~= prev.push(out@[i as int]@));
                    }
                },
                Err(e) => {
                    proof {
                        assert(f(b, p_before) == sp_string(b, p_before));
                        crate::wire::lemma_sp_many_inv_err(f, b, pos0, n, prev, p_before, e);
                    }
                    return Err(e);
                },
            }
            i = i + 1;
        }
        proof {
            crate::wire::lemma_sp_many_inv_finish(f, b, pos0, n, out.deep_view(), self@.pos);
        }
        Ok(out)
    }
}

/// Converts a two's-complement 32-bit wire word to its signed reading.
pub fn u32_to_i32(w: u32) -> (r: i32)
    ensures
        r == i32_of_u32(w),
{
    if w < 0x8000_0000 {
        w as i32
    } else {
        ((w as i64) - 0x1_0000_0000i64) as i32
    }
}

/// Converts a two's-complement 64-bit wire word to its signed reading.
pub fn u64_to_i64(w: u64) -> (r: i64)
    ensures
        r == i64_of_u64(w),
{
    if w < 0x8000_0000_0000_0000 {
        w as i64
    } else {
        ((w as i128) - 0x1_0000_0000_0000_0000i128) as i64
    }
}

/// True when the byte vector holds a zero byte.
pub fn contains_zero_byte(v: &Vec<u8>) -> (r: bool)
    ensures
        r == v@.contains(0u8),
{
    let mut i: usize = 0;
    while i < v.len()
        invariant
            i <= v@.len(),
            forall|j: int| 0 <= j < i ==> v@[j] != 0u8,
        decreases v@.len() - i,
    {
        if v[i] == 0 {
            return true;
        }
        i = i + 1;
    }
    false
}

/// True when the unit vector holds a zero code unit.
pub fn contains_zero_unit(v: &Vec<u16>) -> (r: bool)
    ensures
        r == v@.contains(0u16),
{
    let mut i: usize = 0;
    while i < v.len()
        invariant
            i <= v@.len(),
            forall|j: int| 0 <= j < i ==> v@[j] != 0u16,
        decreases v@.len() - i,
    {
        if v[i] == 0 {
            return true;
        }
        i = i + 1;
    }
    false
}

/// True when the string holds a NUL character.
pub fn contains_nul_char(s: &String) -> (r: bool)
    ensures
        r == s@.contains('\0'),
{
    let bytes = s.as_str().as_bytes();
    let mut i: usize = 0;
    let mut found = false;
    while i < bytes.len()
        invariant
            i <= bytes@.len(),
            bytes@ == vstd::utf8::encode_utf8(s@),
            found <==> exists|j: int| 0 <= j < i && bytes@[j] == 0u8,
        decreases bytes@.len() - i,
    {
        if *vstd::slice::slice_index_get(bytes, i) == 0 {
            found = true;
        }
        i = i + 1;
    }
    proof {
        crate::wire::lemma_utf8_nul(s@);
        assert(found <==> bytes@.contains(0u8));
    }
    found
}

/// The elements of a vector in reverse order, so that popping yields them
/// front to back.
pub fn reversed<T>(v: Vec<T>) -> (r: Vec<T>)
    ensures
        r@.len() == v@.len(),
        forall|i: int| 0 <= i < v@.len() ==> r@[i] == v@[v@.len() - 1 - i],
{
    let ghost orig = v@;
    let mut v = v;
    let mut r: Vec<T> = Vec::new();
    while v.len() > 0
        invariant
            v@ =~= orig.take(orig.len() - r@.len()),
            r@.len() <= orig.len(),
            forall|i: int| 0 <= i < r@.len() ==> r@[i] == orig[orig.len() - 1 - i],
        decreases v@.len(),
    {
        match v.pop() {
            Some(x) => {
                r.push(x);
            },
            None => {},
        }
        proof {
            assert(v@ =~= orig.take(orig.len() - r@.len()));
        }
    }
    r
}

/// Compares two strings by their UTF-8 bytes; equal bytes mean equal
/// character sequences because the encoding is injective.
pub fn str_eq(a: &str, b: &str) -> (r: bool)
    ensures
        r == (a@ == b@),
{
    let ab = a.as_bytes();
    let bb = b.as_bytes();
    proof {
        vstd::utf8::encode_utf8_decode_utf8(a@);
        vstd::utf8::encode_utf8_decode_utf8(b@);
    }
    if ab.len() != bb.len() {
        return false;
    }
    let mut i: usize = 0;
    let mut same = true;
    while i < ab.len()
        invariant
            i <= ab@.len(),
            ab@.len() == bb@.len(),
            same <==> (forall|j: int| 0 <= j < i ==> ab@[j] == bb@[j]),
        decreases ab@.len() - i,
    {
        if *vstd::slice::slice_index_get(ab, i) != *vstd::slice::slice_index_get(bb, i) {
            same = false;
        }
        i = i + 1;
    }
    proof {
        if same {
            assert(ab@ =~= bb@);
            vstd::utf8::encode_utf8_decode_utf8(a@);
            vstd::utf8::encode_utf8_decode_utf8(b@);
        } else {
            assert(ab@ != bb@);
        }
    }
    same
}

/// Reassembles little-endian byte pairs into 16-bit code units.
pub fn bytes_to_units(bytes: &Vec<u8>) -> (units: Vec<u16>)
    requires
        bytes@.len() % 2 == 0,
    ensures
        units@ == units_of(bytes@),
{
    let n: usize = bytes.len() / 2;
    let mut out: Vec<u16> = Vec::new();
    let mut i: usize = 0;
    while i < n
        invariant
            i <= n,
            n == bytes@.len() / 2,
            bytes@.len() % 2 == 0,
            bytes@.len() <= usize::MAX,
            out@.len() == i,
            forall|j: int| 0 <= j < i ==> out@[j] == units_of(bytes@)[j],
        decreases n - i,
    {
        assert(2 * (i as int) + 2 <= bytes@.len());
        let lo = slice_subrange(bytes.as_slice(), 2 * i, 2 * i + 2);
        let u: u16 = u16_from_le_bytes(lo);
        out.push(u);
        i = i + 1;
    }
    proof {
        assert(out@ =~= units_of(bytes@));
    }
    out
}

} // verus!
