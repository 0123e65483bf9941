//! Specification of the wire format: mathematical readers over a byte
//! sequence and the byte sequences that the writer emits.
//!
//! A spec reader takes the whole input and a cursor position and returns
//! either the decoded value together with the position just past it, or the
//! error the executable reader reports on that input.  The executable
//! `ByteReader` and `ByteWriter` refine these functions exactly.
use vstd::prelude::*;

use vstd::bytes::{
    spec_u16_from_le_bytes, spec_u16_to_le_bytes, spec_u32_from_le_bytes, spec_u32_to_le_bytes,
    spec_u64_from_le_bytes, spec_u64_to_le_bytes,
};
use vstd::utf8::{
    char_is_scalar, char_u32_cast, decode_utf8, encode_scalar, encode_utf8, has_width_1_encoding,
    valid_utf8,
};

use crate::trusted::utf16_lossy_of;
use crate::ParseError;

verus! {

/// Two's-complement wire image of a signed 32-bit value.
pub open spec fn u32_of_i32(x: i32) -> u32 {
    if x >= 0 {
        x as u32
    } else {
        (x + 0x1_0000_0000) as u32
    }
}

/// Signed reading of a 32-bit wire word.
pub open spec fn i32_of_u32(w: u32) -> i32 {
    if w < 0x8000_0000 {
        w as i32
    } else {
        (w - 0x1_0000_0000) as i32
    }
}

/// Two's-complement wire image of a signed 64-bit value.
pub open spec fn u64_of_i64(x: i64) -> u64 {
    if x >= 0 {
        x as u64
    } else {
        (x + 0x1_0000_0000_0000_0000) as u64
    }
}

/// Signed reading of a 64-bit wire word.
pub open spec fn i64_of_u64(w: u64) -> i64 {
    if w < 0x8000_0000_0000_0000 {
        w as i64
    } else {
        (w - 0x1_0000_0000_0000_0000) as i64
    }
}

pub proof fn lemma_i32_wire_round_trip(x: i32)
    ensures
        i32_of_u32(u32_of_i32(x)) == x,
{
}

pub proof fn lemma_i64_wire_round_trip(x: i64)
    ensures
        i64_of_u64(u64_of_i64(x)) == x,
{
}

/// Raw read of `n` bytes: the bytes themselves, or `Overflow` when fewer than
/// `n` bytes remain.
pub open spec fn sp_bytes(b: Seq<u8>, pos: int, n: int) -> Result<(Seq<u8>, int), ParseError> {
    if 0 <= pos && 0 <= n && pos + n <= b.len() {
        Ok((b.subrange(pos, pos + n), pos + n))
    } else {
        Err(ParseError::Overflow)
    }
}

pub open spec fn sp_u8(b: Seq<u8>, pos: int) -> Result<(u8, int), ParseError> {
    match sp_bytes(b, pos, 1) {
        Ok((s, p)) => Ok((s[0], p)),
        Err(e) => Err(e),
    }
}

pub open spec fn sp_u16(b: Seq<u8>, pos: int) -> Result<(u16, int), ParseError> {
    match sp_bytes(b, pos, 2) {
        Ok((s, p)) => Ok((spec_u16_from_le_bytes(s), p)),
        Err(e) => Err(e),
    }
}

pub open spec fn sp_u32(b: Seq<u8>, pos: int) -> Result<(u32, int), ParseError> {
    match sp_bytes(b, pos, 4) {
        Ok((s, p)) => Ok((spec_u32_from_le_bytes(s), p)),
        Err(e) => Err(e),
    }
}

pub open spec fn sp_u64(b: Seq<u8>, pos: int) -> Result<(u64, int), ParseError> {
    match sp_bytes(b, pos, 8) {
        Ok((s, p)) => Ok((spec_u64_from_le_bytes(s), p)),
        Err(e) => Err(e),
    }
}

pub open spec fn sp_i8(b: Seq<u8>, pos: int) -> Result<(i8, int), ParseError> {
    match sp_u8(b, pos) {
        Ok((w, p)) => Ok((if w < 0x80 { w as i8 } else { (w - 0x100) as i8 }, p)),
        Err(e) => Err(e),
    }
}

pub open spec fn sp_i16(b: Seq<u8>, pos: int) -> Result<(i16, int), ParseError> {
    match sp_u16(b, pos) {
        Ok((w, p)) => Ok((if w < 0x8000 { w as i16 } else { (w - 0x1_0000) as i16 }, p)),
        Err(e) => Err(e),
    }
}

pub open spec fn sp_i32(b: Seq<u8>, pos: int) -> Result<(i32, int), ParseError> {
    match sp_u32(b, pos) {
        Ok((w, p)) => Ok((i32_of_u32(w), p)),
        Err(e) => Err(e),
    }
}

pub open spec fn sp_i64(b: Seq<u8>, pos: int) -> Result<(i64, int), ParseError> {
    match sp_u64(b, pos) {
        Ok((w, p)) => Ok((i64_of_u64(w), p)),
        Err(e) => Err(e),
    }
}

/// Little-endian encodings used by the writer.
pub open spec fn enc_u8(v: u8) -> Seq<u8> {
    seq![v]
}

pub open spec fn enc_u16(v: u16) -> Seq<u8> {
    spec_u16_to_le_bytes(v)
}

pub open spec fn enc_u32(v: u32) -> Seq<u8> {
    spec_u32_to_le_bytes(v)
}

pub open spec fn enc_u64(v: u64) -> Seq<u8> {
    spec_u64_to_le_bytes(v)
}

pub open spec fn enc_i32(v: i32) -> Seq<u8> {
    enc_u32(u32_of_i32(v))
}

pub open spec fn enc_i64(v: i64) -> Seq<u8> {
    enc_u64(u64_of_i64(v))
}

/// The `u32` standing little-endian at a byte offset inside a sequence.
pub open spec fn spec_u32_at(bs: Seq<u8>, off: int) -> u32 {
    spec_u32_from_le_bytes(bs.subrange(off, off + 4))
}

/// The 16-bit little-endian code units held by a byte sequence (pairs of
/// bytes, low byte first).
pub open spec fn units_of(s: Seq<u8>) -> Seq<u16> {
    Seq::new((s.len() / 2) as nat, |i: int| spec_u16_from_le_bytes(s.subrange(2 * i, 2 * i + 2)))
}

/// A string the writer can emit: no interior NUL character, and short enough
/// for its byte count (text plus terminator) to fit a positive `i32`.
pub open spec fn wf_str(s: Seq<char>) -> bool {
    &&& !s.contains('\0')
    &&& encode_utf8(s).len() + 1 < 0x8000_0000
}

/// The bytes the writer emits for a string: a signed length prefix counting a
/// trailing NUL, then UTF-8 text, then the NUL.  The empty string is a zero
/// prefix alone.
pub open spec fn enc_string(s: Seq<char>) -> Seq<u8> {
    if s.len() == 0 {
        enc_u32(0)
    } else {
        enc_u32((encode_utf8(s).len() + 1) as u32) + encode_utf8(s) + seq![0u8]
    }
}

/// Reading a string: a signed 32-bit length whose sign discriminates UTF-8
/// (positive, count in bytes) from UTF-16LE (negative, count in code units),
/// the trailing NUL included in the count either way.
pub open spec fn sp_string(b: Seq<u8>, pos: int) -> Result<(Seq<char>, int), ParseError> {
    match sp_u32(b, pos) {
        Ok((w, p)) => {
            if w == 0 {
                Ok((Seq::empty(), p))
            } else if w < 0x8000_0000 {
                let n = w as int;
                match sp_bytes(b, p, n) {
                    Ok((bs, p2)) => {
                        let text = bs.take(n - 1);
                        if bs[n - 1] == 0u8 && !text.contains(0u8) && valid_utf8(text) {
                            Ok((decode_utf8(text), p2))
                        } else {
                            Err(ParseError::InvalidData)
                        }
                    },
                    Err(e) => Err(e),
                }
            } else {
                let count = 0x1_0000_0000 - w as int;
                match sp_bytes(b, p, 2 * count) {
                    Ok((bs, p2)) => {
                        let units = units_of(bs);
                        let text = units.take(count - 1);
                        if units[count - 1] == 0u16 && !text.contains(0u16) {
                            let s = utf16_lossy_of(text);
                            if !s.contains('\0') {
                                Ok((s, p2))
                            } else {
                                Err(ParseError::InvalidData)
                            }
                        } else {
                            Err(ParseError::InvalidData)
                        }
                    },
                    Err(e) => Err(e),
                }
            }
        },
        Err(e) => Err(e),
    }
}

/// The string reader as a named closure, so that executable loops and
/// contracts speak of one and the same function value.
pub open spec fn str_reader() -> spec_fn(Seq<u8>, int) -> Result<(Seq<char>, int), ParseError> {
    |b: Seq<u8>, pos: int| sp_string(b, pos)
}

/// The string encoder as a named closure.
pub open spec fn str_encoder() -> spec_fn(Seq<char>) -> Seq<u8> {
    |s: Seq<char>| enc_string(s)
}

/// Reading a `u32` count followed by that many strings.
pub open spec fn sp_string_array(b: Seq<u8>, pos: int) -> Result<(Seq<Seq<char>>, int), ParseError> {
    match sp_u32(b, pos) {
        Ok((c, p)) => sp_many(str_reader(), b, p, c as nat),
        Err(e) => Err(e),
    }
}

/// The bytes the writer emits for a string array: the count, then each
/// string's encoding.
pub open spec fn enc_string_array(ss: Seq<Seq<char>>) -> Seq<u8>
    recommends
        ss.len() <= u32::MAX,
{
    enc_u32(ss.len() as u32) + cat(str_encoder(), ss)
}

/// A single character's UTF-8 encoding holds a zero byte exactly for NUL.
pub proof fn lemma_scalar_nul(c: char)
    ensures
        encode_scalar(c as u32).contains(0u8) <==> c == '\0',
{
    char_is_scalar(c);
    let v = c as u32;
    assert(('\0' as u32) == 0);
    if c == '\0' {
        assert(v == 0);
    }
    if v == 0 {
        char_u32_cast(c, v);
        char_u32_cast('\0', 0);
    }
    if has_width_1_encoding(v) {
        assert(((v & 0x7F) as u8 == 0) <==> v == 0) by (bit_vector)
            requires
                v < 0x80,
        ;
        let s = encode_scalar(v);
        if v == 0 {
            assert(s[0] == 0u8);
        }
        if s.contains(0u8) {
            let i = choose|i: int| 0 <= i < s.len() && s[i] == 0u8;
            assert(i == 0);
        }
    } else {
        assert(v != 0);
        let s = encode_scalar(v);
        assert(forall|i: int| 0 <= i < s.len() ==> s[i] != 0u8) by {
            assert(forall|x: u32| (0xC0u8 | ((x >> 6) & 0x1F) as u8) != 0) by (bit_vector);
            assert(forall|x: u32| (0xE0u8 | ((x >> 12) & 0x0F) as u8) != 0) by (bit_vector);
            assert(forall|x: u32| (0xF0u8 | ((x >> 18) & 0x7) as u8) != 0) by (bit_vector);
            assert(forall|x: u32| (0x80u8 | (x & 0x3F) as u8) != 0) by (bit_vector);
            assert(forall|x: u32| (0x80u8 | ((x >> 6) & 0x3F) as u8) != 0) by (bit_vector);
            assert(forall|x: u32| (0x80u8 | ((x >> 12) & 0x3F) as u8) != 0) by (bit_vector);
        }
        if s.contains(0u8) {
            let i = choose|i: int| 0 <= i < s.len() && s[i] == 0u8;
        }
    }
}

/// The UTF-8 encoding of a character sequence holds a zero byte exactly when
/// the sequence holds the NUL character.
pub proof fn lemma_utf8_nul(s: Seq<char>)
    ensures
        encode_utf8(s).contains(0u8) <==> s.contains('\0'),
    decreases s.len(),
{
    if s.len() == 0 {
        if s.contains('\0') {
            let i = choose|i: int| 0 <= i < s.len() && s[i] == '\0';
        }
        if encode_utf8(s).contains(0u8) {
            let i = choose|i: int| 0 <= i < encode_utf8(s).len() && encode_utf8(s)[i] == 0u8;
        }
    } else {
        let head = encode_scalar(s[0] as u32);
        let tail = encode_utf8(s.drop_first());
        let whole = encode_utf8(s);
        assert(whole == head + tail);
        lemma_scalar_nul(s[0]);
        lemma_utf8_nul(s.drop_first());
        assert(whole.contains(0u8) <==> head.contains(0u8) || tail.contains(0u8)) by {
            if whole.contains(0u8) {
                let i = choose|i: int| 0 <= i < whole.len() && whole[i] == 0u8;
                if i < head.len() {
                    assert(head[i] == 0u8);
                } else {
                    assert(tail[i - head.len()] == 0u8);
                }
            }
            if head.contains(0u8) {
                let i = choose|i: int| 0 <= i < head.len() && head[i] == 0u8;
                assert(whole[i] == 0u8);
            }
            if tail.contains(0u8) {
                let i = choose|i: int| 0 <= i < tail.len() && tail[i] == 0u8;
                assert(whole[head.len() + i] == 0u8);
            }
        }
        assert(s.contains('\0') <==> s[0] == '\0' || s.drop_first().contains('\0')) by {
            if s.contains('\0') {
                let i = choose|i: int| 0 <= i < s.len() && s[i] == '\0';
                if i > 0 {
                    assert(s.drop_first()[i - 1] == '\0');
                }
            }
            if s.drop_first().contains('\0') {
                let i = choose|i: int| 0 <= i < s.drop_first().len() && s.drop_first()[i] == '\0';
                assert(s[i + 1] == '\0');
            }
        }
    }
}

/// Reading an integer succeeds exactly when all its bytes are present, and
/// fails with `Overflow` otherwise.
pub proof fn lemma_integer_reads(b: Seq<u8>, pos: int)
    ensures
        sp_u8(b, pos) is Ok <==> 0 <= pos && pos + 1 <= b.len(),
        sp_u16(b, pos) is Ok <==> 0 <= pos && pos + 2 <= b.len(),
        sp_u32(b, pos) is Ok <==> 0 <= pos && pos + 4 <= b.len(),
        sp_u64(b, pos) is Ok <==> 0 <= pos && pos + 8 <= b.len(),
        sp_i8(b, pos) is Ok <==> 0 <= pos && pos + 1 <= b.len(),
        sp_i16(b, pos) is Ok <==> 0 <= pos && pos + 2 <= b.len(),
        sp_i32(b, pos) is Ok <==> 0 <= pos && pos + 4 <= b.len(),
        sp_i64(b, pos) is Ok <==> 0 <= pos && pos + 8 <= b.len(),
        sp_u8(b, pos) is Err ==> sp_u8(b, pos)->Err_0 == ParseError::Overflow,
        sp_u16(b, pos) is Err ==> sp_u16(b, pos)->Err_0 == ParseError::Overflow,
        sp_u32(b, pos) is Err ==> sp_u32(b, pos)->Err_0 == ParseError::Overflow,
        sp_u64(b, pos) is Err ==> sp_u64(b, pos)->Err_0 == ParseError::Overflow,
        sp_i8(b, pos) is Err ==> sp_i8(b, pos)->Err_0 == ParseError::Overflow,
        sp_i16(b, pos) is Err ==> sp_i16(b, pos)->Err_0 == ParseError::Overflow,
        sp_i32(b, pos) is Err ==> sp_i32(b, pos)->Err_0 == ParseError::Overflow,
        sp_i64(b, pos) is Err ==> sp_i64(b, pos)->Err_0 == ParseError::Overflow,
{
}

/// A zero length prefix decodes to the empty string, and the empty string
/// re-encodes to exactly the four bytes of a zero length prefix.
pub proof fn lemma_empty_string_codec(b: Seq<u8>, pos: int)
    requires
        has_at(b, pos, enc_u32(0)),
    ensures
        sp_string(b, pos) == Ok::<(Seq<char>, int), ParseError>((Seq::empty(), pos + 4)),
        enc_string(Seq::<char>::empty()) == enc_u32(0),
        enc_u32(0).len() == 4,
{
    vstd::bytes::lemma_auto_spec_u32_to_from_le_bytes();
    lemma_sp_u32_of_enc(b, pos, 0);
}

/// Named closures over the primitive readers and encoders, so that loops and
/// contracts speak of one and the same function value.
pub open spec fn u8_reader() -> spec_fn(Seq<u8>, int) -> Result<(u8, int), ParseError> {
    |b: Seq<u8>, pos: int| sp_u8(b, pos)
}

pub open spec fn u8_encoder() -> spec_fn(u8) -> Seq<u8> {
    |v: u8| enc_u8(v)
}

pub open spec fn u32_reader() -> spec_fn(Seq<u8>, int) -> Result<(u32, int), ParseError> {
    |b: Seq<u8>, pos: int| sp_u32(b, pos)
}

pub open spec fn u32_encoder() -> spec_fn(u32) -> Seq<u8> {
    |v: u32| enc_u32(v)
}

pub open spec fn u64_reader() -> spec_fn(Seq<u8>, int) -> Result<(u64, int), ParseError> {
    |b: Seq<u8>, pos: int| sp_u64(b, pos)
}

pub open spec fn u64_encoder() -> spec_fn(u64) -> Seq<u8> {
    |v: u64| enc_u64(v)
}

pub open spec fn i64_reader() -> spec_fn(Seq<u8>, int) -> Result<(i64, int), ParseError> {
    |b: Seq<u8>, pos: int| sp_i64(b, pos)
}

pub open spec fn i64_encoder() -> spec_fn(i64) -> Seq<u8> {
    |v: i64| enc_i64(v)
}

/// The byte sequence `x` stands in `b` at position `pos`.
pub open spec fn has_at(b: Seq<u8>, pos: int, x: Seq<u8>) -> bool {
    &&& 0 <= pos
    &&& pos + x.len() <= b.len()
    &&& b.subrange(pos, pos + x.len() as int) == x
}

/// Splitting a placed concatenation: each half stands at its own position.
pub proof fn lemma_has_at_split(b: Seq<u8>, pos: int, x: Seq<u8>, y: Seq<u8>)
    requires
        has_at(b, pos, x + y),
    ensures
        has_at(b, pos, x),
        has_at(b, pos + x.len(), y),
{
    let whole = x + y;
    assert forall|i: int| 0 <= i < x.len() implies b.subrange(pos, pos + x.len() as int)[i]
        == x[i] by {
        assert(b.subrange(pos, pos + whole.len() as int)[i] == whole[i]);
        assert(b.subrange(pos, pos + x.len() as int)[i] == b[pos + i]);
        assert(b.subrange(pos, pos + whole.len() as int)[i] == b[pos + i]);
    }
    assert(b.subrange(pos, pos + x.len() as int) =~= x);
    assert forall|i: int| 0 <= i < y.len() implies b.subrange(
        pos + x.len(),
        pos + whole.len() as int,
    )[i] == y[i] by {
        let j = x.len() + i;
        assert(b.subrange(pos, pos + whole.len() as int)[j] == whole[j]);
        assert(b.subrange(pos, pos + whole.len() as int)[j] == b[pos + j]);
        assert(b.subrange(pos + x.len(), pos + whole.len() as int)[i] == b[pos + x.len() + i]);
        assert(whole[j] == y[i]);
    }
    assert(b.subrange(pos + x.len(), pos + whole.len() as int) =~= y);
}

pub proof fn lemma_sp_u8_of_enc(b: Seq<u8>, pos: int, v: u8)
    requires
        has_at(b, pos, enc_u8(v)),
    ensures
        sp_u8(b, pos) == Ok::<(u8, int), ParseError>((v, pos + 1)),
{
    assert(b.subrange(pos, pos + 1)[0] == v);
}

pub proof fn lemma_sp_u32_of_enc(b: Seq<u8>, pos: int, v: u32)
    requires
        has_at(b, pos, enc_u32(v)),
    ensures
        sp_u32(b, pos) == Ok::<(u32, int), ParseError>((v, pos + 4)),
{
    vstd::bytes::lemma_auto_spec_u32_to_from_le_bytes();
}

pub proof fn lemma_sp_u64_of_enc(b: Seq<u8>, pos: int, v: u64)
    requires
        has_at(b, pos, enc_u64(v)),
    ensures
        sp_u64(b, pos) == Ok::<(u64, int), ParseError>((v, pos + 8)),
{
    vstd::bytes::lemma_auto_spec_u64_to_from_le_bytes();
}

pub proof fn lemma_sp_i32_of_enc(b: Seq<u8>, pos: int, v: i32)
    requires
        has_at(b, pos, enc_i32(v)),
    ensures
        sp_i32(b, pos) == Ok::<(i32, int), ParseError>((v, pos + 4)),
{
    lemma_sp_u32_of_enc(b, pos, u32_of_i32(v));
    lemma_i32_wire_round_trip(v);
}

pub proof fn lemma_sp_i64_of_enc(b: Seq<u8>, pos: int, v: i64)
    requires
        has_at(b, pos, enc_i64(v)),
    ensures
        sp_i64(b, pos) == Ok::<(i64, int), ParseError>((v, pos + 8)),
{
    lemma_sp_u64_of_enc(b, pos, u64_of_i64(v));
    lemma_i64_wire_round_trip(v);
}

/// Raw bytes read back exactly.
pub proof fn lemma_sp_bytes_of_enc(b: Seq<u8>, pos: int, x: Seq<u8>)
    requires
        has_at(b, pos, x),
    ensures
        sp_bytes(b, pos, x.len() as int) == Ok::<(Seq<u8>, int), ParseError>((
            x,
            pos + x.len() as int,
        )),
{
}

/// A string written on the normative path reads back as itself: the length
/// prefix is positive (or zero), the text is UTF-8 and NUL-free, and the
/// terminator is stripped.
pub proof fn lemma_sp_string_of_enc(b: Seq<u8>, pos: int, s: Seq<char>)
    requires
        wf_str(s),
        has_at(b, pos, enc_string(s)),
    ensures
        sp_string(b, pos) == Ok::<(Seq<char>, int), ParseError>((
            s,
            pos + enc_string(s).len() as int,
        )),
{
    vstd::bytes::lemma_auto_spec_u32_to_from_le_bytes();
    if s.len() == 0 {
        lemma_sp_u32_of_enc(b, pos, 0);
        assert(decode_utf8(Seq::<u8>::empty()) =~= Seq::<char>::empty());
        assert(s =~= Seq::<char>::empty());
    } else {
        let text = encode_utf8(s);
        let w = (text.len() + 1) as u32;
        let body = text + seq![0u8];
        assert(enc_string(s) == enc_u32(w) + (text + seq![0u8]));
        lemma_has_at_split(b, pos, enc_u32(w), body);
        lemma_sp_u32_of_enc(b, pos, w);
        assert(w >= 1);
        assert(w < 0x8000_0000);
        let p = pos + 4;
        lemma_sp_bytes_of_enc(b, p, body);
        assert(sp_bytes(b, p, w as int) == Ok::<(Seq<u8>, int), ParseError>((
            body,
            p + w as int,
        )));
        assert(body[w as int - 1] == 0u8);
        assert(body.take(w as int - 1) =~= text);
        vstd::utf8::encode_utf8_valid_utf8(s);
        vstd::utf8::encode_utf8_decode_utf8(s);
        lemma_utf8_nul(s);
        assert(!text.contains(0u8));
        assert(decode_utf8(text) == s);
    }
}

/// A string array written on the normative path reads back as itself.
pub proof fn lemma_sp_string_array_of_enc(b: Seq<u8>, pos: int, ss: Seq<Seq<char>>)
    requires
        ss.len() <= u32::MAX,
        forall|i: int| 0 <= i < ss.len() ==> wf_str(#[trigger] ss[i]),
        has_at(b, pos, enc_string_array(ss)),
    ensures
        sp_string_array(b, pos) == Ok::<(Seq<Seq<char>>, int), ParseError>((
            ss,
            pos + enc_string_array(ss).len() as int,
        )),
{
    vstd::bytes::lemma_auto_spec_u32_to_from_le_bytes();
    let pay = cat(str_encoder(), ss);
    assert(enc_string_array(ss) == enc_u32(ss.len() as u32) + pay);
    lemma_has_at_split(b, pos, enc_u32(ss.len() as u32), pay);
    lemma_sp_u32_of_enc(b, pos, ss.len() as u32);
    assert forall|x: Seq<char>, q: int|
        #![trigger str_reader()(b, q), str_encoder()(x)]
        wf_str(x) && 0 <= q && q + str_encoder()(x).len() <= b.len() && b.subrange(
            q,
            q + str_encoder()(x).len() as int,
        ) == str_encoder()(x) implies str_reader()(b, q) == Ok::<(Seq<char>, int), ParseError>((
        x,
        q + str_encoder()(x).len() as int,
    )) by {
        lemma_sp_string_of_enc(b, q, x);
    }
    lemma_sp_many_of_cat(str_reader(), str_encoder(), |x: Seq<char>| wf_str(x), b, pos + 4, ss);
}

/// Reading `n` items in a row with the element reader `f`.
pub open spec fn sp_many<T>(
    f: spec_fn(Seq<u8>, int) -> Result<(T, int), ParseError>,
    b: Seq<u8>,
    pos: int,
    n: nat,
) -> Result<(Seq<T>, int), ParseError>
    decreases n,
{
    if n == 0 {
        Ok((Seq::empty(), pos))
    } else {
        match f(b, pos) {
            Ok((v, p)) => match sp_many(f, b, p, (n - 1) as nat) {
                Ok((vs, p2)) => Ok((seq![v] + vs, p2)),
                Err(e) => Err(e),
            },
            Err(e) => Err(e),
        }
    }
}

/// Loop invariant for an executable loop that reads `n` items: `done` items
/// were read, the cursor stands at `p`, and finishing the remaining reads
/// settles `sp_many` over the whole run.
pub open spec fn sp_many_inv<T>(
    f: spec_fn(Seq<u8>, int) -> Result<(T, int), ParseError>,
    b: Seq<u8>,
    pos0: int,
    n: nat,
    done: Seq<T>,
    p: int,
) -> bool {
    &&& done.len() <= n
    &&& match sp_many(f, b, p, (n - done.len()) as nat) {
        Ok((vs, pe)) => sp_many(f, b, pos0, n) == Ok::<(Seq<T>, int), ParseError>((done + vs, pe)),
        Err(e) => sp_many(f, b, pos0, n) == Err::<(Seq<T>, int), ParseError>(e),
    }
}

pub proof fn lemma_sp_many_inv_init<T>(
    f: spec_fn(Seq<u8>, int) -> Result<(T, int), ParseError>,
    b: Seq<u8>,
    pos0: int,
    n: nat,
)
    ensures
        sp_many_inv(f, b, pos0, n, Seq::empty(), pos0),
{
    match sp_many(f, b, pos0, n) {
        Ok((vs, pe)) => {
            assert(Seq::<T>::empty() + vs =~= vs);
        },
        Err(e) => {},
    }
}

pub proof fn lemma_sp_many_inv_step<T>(
    f: spec_fn(Seq<u8>, int) -> Result<(T, int), ParseError>,
    b: Seq<u8>,
    pos0: int,
    n: nat,
    done: Seq<T>,
    p: int,
    v: T,
    p2: int,
)
    requires
        sp_many_inv(f, b, pos0, n, done, p),
        done.len() < n,
        f(b, p) == Ok::<(T, int), ParseError>((v, p2)),
    ensures
        sp_many_inv(f, b, pos0, n, done.push(v), p2),
{
    let rem = (n - done.len()) as nat;
    assert(rem > 0);
    match sp_many(f, b, p2, (rem - 1) as nat) {
        Ok((vs, pe)) => {
            assert(sp_many(f, b, p, rem) == Ok::<(Seq<T>, int), ParseError>((seq![v] + vs, pe)));
            assert(done + (seq![v] + vs) =~= done.push(v) + vs);
        },
        Err(e) => {
            assert(sp_many(f, b, p, rem) == Err::<(Seq<T>, int), ParseError>(e));
        },
    }
}

pub proof fn lemma_sp_many_inv_err<T>(
    f: spec_fn(Seq<u8>, int) -> Result<(T, int), ParseError>,
    b: Seq<u8>,
    pos0: int,
    n: nat,
    done: Seq<T>,
    p: int,
    e: ParseError,
)
    requires
        sp_many_inv(f, b, pos0, n, done, p),
        done.len() < n,
        f(b, p) == Err::<(T, int), ParseError>(e),
    ensures
        sp_many(f, b, pos0, n) == Err::<(Seq<T>, int), ParseError>(e),
{
    let rem = (n - done.len()) as nat;
    assert(rem > 0);
    assert(sp_many(f, b, p, rem) == Err::<(Seq<T>, int), ParseError>(e));
}

pub proof fn lemma_sp_many_inv_finish<T>(
    f: spec_fn(Seq<u8>, int) -> Result<(T, int), ParseError>,
    b: Seq<u8>,
    pos0: int,
    n: nat,
    done: Seq<T>,
    p: int,
)
    requires
        sp_many_inv(f, b, pos0, n, done, p),
        done.len() == n,
    ensures
        sp_many(f, b, pos0, n) == Ok::<(Seq<T>, int), ParseError>((done, p)),
{
    assert(sp_many(f, b, p, 0) == Ok::<(Seq<T>, int), ParseError>((Seq::empty(), p)));
    assert(done + Seq::<T>::empty() =~= done);
}

/// Concatenated encodings of a sequence of items under the element encoder
/// `g`.
pub open spec fn cat<T>(g: spec_fn(T) -> Seq<u8>, s: Seq<T>) -> Seq<u8>
    decreases s.len(),
{
    if s.len() == 0 {
        Seq::empty()
    } else {
        g(s[0]) + cat(g, s.drop_first())
    }
}

pub proof fn lemma_cat_push<T>(g: spec_fn(T) -> Seq<u8>, s: Seq<T>, x: T)
    ensures
        cat(g, s.push(x)) == cat(g, s) + g(x),
    decreases s.len(),
{
    if s.len() == 0 {
        assert(s.push(x).drop_first() =~= Seq::<T>::empty());
        assert(cat(g, Seq::<T>::empty()) =~= Seq::<u8>::empty());
        assert(cat(g, s.push(x)) == g(x) + cat(g, s.push(x).drop_first()));
        assert(cat(g, s.push(x)) =~= g(x));
        assert(cat(g, s) + g(x) =~= g(x));
    } else {
        assert(s.push(x).drop_first() =~= s.drop_first().push(x));
        lemma_cat_push(g, s.drop_first(), x);
        assert(cat(g, s.push(x)) =~= cat(g, s) + g(x));
    }
}

/// Two sequences with pointwise-equal encodings concatenate to the same
/// bytes.
pub proof fn lemma_cat_congruent<T>(g: spec_fn(T) -> Seq<u8>, s1: Seq<T>, s2: Seq<T>)
    requires
        s1.len() == s2.len(),
        forall|i: int| 0 <= i < s1.len() ==> g(#[trigger] s1[i]) == g(#[trigger] s2[i]),
    ensures
        cat(g, s1) == cat(g, s2),
    decreases s1.len(),
{
    if s1.len() > 0 {
        assert(g(s1[0]) == g(s2[0]));
        assert(forall|i: int|
            0 <= i < s1.drop_first().len() ==> g(#[trigger] s1.drop_first()[i]) == g(
                #[trigger] s2.drop_first()[i],
            ));
        lemma_cat_congruent(g, s1.drop_first(), s2.drop_first());
    }
}

/// Concatenating composed encodings equals concatenating over the mapped
/// sequence.
pub proof fn lemma_cat_map<T, U>(
    g: spec_fn(U) -> Seq<u8>,
    h: spec_fn(T) -> U,
    gt: spec_fn(T) -> Seq<u8>,
    s: Seq<T>,
)
    requires
        forall|x: T| #[trigger] gt(x) == g(h(x)),
    ensures
        cat(gt, s) == cat(g, s.map_values(h)),
    decreases s.len(),
{
    if s.len() > 0 {
        lemma_cat_map(g, h, gt, s.drop_first());
        assert(s.map_values(h).drop_first() =~= s.drop_first().map_values(h));
        assert(cat(g, s.map_values(h)) == g(h(s[0])) + cat(g, s.map_values(h).drop_first()));
    }
}

/// Reading back what `cat` wrote: if every element's encoding reads back as
/// that element, the whole run reads back item by item.
pub proof fn lemma_sp_many_of_cat<T>(
    f: spec_fn(Seq<u8>, int) -> Result<(T, int), ParseError>,
    g: spec_fn(T) -> Seq<u8>,
    wf: spec_fn(T) -> bool,
    b: Seq<u8>,
    pos: int,
    s: Seq<T>,
)
    requires
        forall|x: T, q: int|
            #![trigger f(b, q), g(x)]
            wf(x) && 0 <= q && q + g(x).len() <= b.len() && b.subrange(q, q + g(x).len() as int)
                == g(x) ==> f(b, q) == Ok::<(T, int), ParseError>((x, q + g(x).len() as int)),
        forall|i: int| 0 <= i < s.len() ==> wf(#[trigger] s[i]),
        0 <= pos,
        pos + cat(g, s).len() <= b.len(),
        b.subrange(pos, pos + cat(g, s).len() as int) == cat(g, s),
    ensures
        sp_many(f, b, pos, s.len() as nat) == Ok::<(Seq<T>, int), ParseError>((
            s,
            pos + cat(g, s).len() as int,
        )),
    decreases s.len(),
{
    if s.len() == 0 {
        assert(s =~= Seq::<T>::empty());
        assert(cat(g, s) =~= Seq::<u8>::empty());
        assert(sp_many(f, b, pos, 0) == Ok::<(Seq<T>, int), ParseError>((Seq::<T>::empty(), pos)));
    } else {
        let head = g(s[0]);
        let rest = s.drop_first();
        let whole = cat(g, s);
        assert(whole == head + cat(g, rest));
        assert(head.len() <= whole.len());
        assert(b.subrange(pos, pos + head.len() as int) =~= whole.subrange(0, head.len() as int));
        assert(whole.subrange(0, head.len() as int) =~= head);
        assert(f(b, pos) == Ok::<(T, int), ParseError>((s[0], pos + head.len() as int)));
        let p1 = pos + head.len() as int;
        assert(b.subrange(p1, p1 + cat(g, rest).len() as int) =~= whole.subrange(
            head.len() as int,
            whole.len() as int,
        ));
        assert(whole.subrange(head.len() as int, whole.len() as int) =~= cat(g, rest));
        assert(forall|i: int| 0 <= i < rest.len() ==> wf(#[trigger] rest[i]));
        lemma_sp_many_of_cat(f, g, wf, b, p1, rest);
        assert(seq![s[0]] + rest =~= s);
    }
}

/// An `sp_many` success yields exactly `n` items and never moves the cursor
/// backwards past the start.
pub proof fn lemma_sp_many_len<T>(
    f: spec_fn(Seq<u8>, int) -> Result<(T, int), ParseError>,
    b: Seq<u8>,
    pos: int,
    n: nat,
    vs: Seq<T>,
    pe: int,
)
    requires
        sp_many(f, b, pos, n) == Ok::<(Seq<T>, int), ParseError>((vs, pe)),
    ensures
        vs.len() == n,
    decreases n,
{
    if n == 0 {
    } else {
        match f(b, pos) {
            Ok((v, p)) => {
                match sp_many(f, b, p, (n - 1) as nat) {
                    Ok((vs2, p2)) => {
                        lemma_sp_many_len(f, b, p, (n - 1) as nat, vs2, p2);
                    },
                    Err(e) => {},
                }
            },
            Err(e) => {},
        }
    }
}

} // verus!
