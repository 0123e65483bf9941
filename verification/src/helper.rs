//! Small string helpers: hexadecimal rendering of integers and byte
//! strings, as the engine prints them.
use vstd::prelude::*;

use vstd::string::{StrSliceExecFns, StringExecFns};

verus! {

/// The uppercase hexadecimal digit for a value below 16.
pub open spec fn hex_upper(d: int) -> char {
    if d == 0 {
        '0'
    } else if d == 1 {
        '1'
    } else if d == 2 {
        '2'
    } else if d == 3 {
        '3'
    } else if d == 4 {
        '4'
    } else if d == 5 {
        '5'
    } else if d == 6 {
        '6'
    } else if d == 7 {
        '7'
    } else if d == 8 {
        '8'
    } else if d == 9 {
        '9'
    } else if d == 10 {
        'A'
    } else if d == 11 {
        'B'
    } else if d == 12 {
        'C'
    } else if d == 13 {
        'D'
    } else if d == 14 {
        'E'
    } else {
        'F'
    }
}

/// The lowercase hexadecimal digit for a value below 16.
pub open spec fn hex_lower(d: int) -> char {
    if d == 0 {
        '0'
    } else if d == 1 {
        '1'
    } else if d == 2 {
        '2'
    } else if d == 3 {
        '3'
    } else if d == 4 {
        '4'
    } else if d == 5 {
        '5'
    } else if d == 6 {
        '6'
    } else if d == 7 {
        '7'
    } else if d == 8 {
        '8'
    } else if d == 9 {
        '9'
    } else if d == 10 {
        'a'
    } else if d == 11 {
        'b'
    } else if d == 12 {
        'c'
    } else if d == 13 {
        'd'
    } else if d == 14 {
        'e'
    } else {
        'f'
    }
}

/// The minimal uppercase hexadecimal digits of a value; empty for zero.
pub open spec fn hex_digits(v: u64) -> Seq<char>
    decreases v,
{
    if v == 0 {
        Seq::empty()
    } else {
        hex_digits(v / 16).push(hex_upper((v % 16) as int))
    }
}

/// What `to_hex` renders: minimal uppercase digits, zero-padded on the
/// left to an even count, and a single zero for the value zero.
pub open spec fn to_hex_spec(v: u64) -> Seq<char> {
    let s = hex_digits(v);
    if v == 0 {
        seq!['0']
    } else if s.len() % 2 == 1 {
        seq!['0'] + s
    } else {
        s
    }
}

/// Sixteen to the given power.
pub open spec fn pow16(k: nat) -> int
    decreases k,
{
    if k == 0 {
        1
    } else {
        16 * pow16((k - 1) as nat)
    }
}

/// A value below 16^k has at most k hexadecimal digits.
pub proof fn lemma_hex_digits_len(v: u64, k: nat)
    requires
        v < pow16(k),
    ensures
        hex_digits(v).len() <= k,
    decreases k,
{
    if v > 0 {
        assert(k > 0);
        lemma_hex_digits_len(v / 16, (k - 1) as nat);
    }
}

/// The single-character string for an uppercase hexadecimal digit.
fn upper_digit(d: u64) -> (r: &'static str)
    requires
        d < 16,
    ensures
        r@ == seq![hex_upper(d as int)],
{
    if d == 0 {
        proof {
            reveal_strlit("0");
        }
        return "0";
    }
    if d == 1 {
        proof {
            reveal_strlit("1");
        }
        return "1";
    }
    if d == 2 {
        proof {
            reveal_strlit("2");
        }
        return "2";
    }
    if d == 3 {
        proof {
            reveal_strlit("3");
        }
        return "3";
    }
    if d == 4 {
        proof {
            reveal_strlit("4");
        }
        return "4";
    }
    if d == 5 {
        proof {
            reveal_strlit("5");
        }
        return "5";
    }
    if d == 6 {
        proof {
            reveal_strlit("6");
        }
        return "6";
    }
    if d == 7 {
        proof {
            reveal_strlit("7");
        }
        return "7";
    }
    if d == 8 {
        proof {
            reveal_strlit("8");
        }
        return "8";
    }
    if d == 9 {
        proof {
            reveal_strlit("9");
        }
        return "9";
    }
    if d == 10 {
        proof {
            reveal_strlit("A");
        }
        return "A";
    }
    if d == 11 {
        proof {
            reveal_strlit("B");
        }
        return "B";
    }
    if d == 12 {
        proof {
            reveal_strlit("C");
        }
        return "C";
    }
    if d == 13 {
        proof {
            reveal_strlit("D");
        }
        return "D";
    }
    if d == 14 {
        proof {
            reveal_strlit("E");
        }
        return "E";
    }
    if d == 15 {
        proof {
            reveal_strlit("F");
        }
        return "F";
    }
    proof {
        reveal_strlit("F");
    }
    "F"
}

/// The single-character string for a lowercase hexadecimal digit.
fn lower_digit(d: u64) -> (r: &'static str)
    requires
        d < 16,
    ensures
        r@ == seq![hex_lower(d as int)],
{
    if d == 0 {
        proof {
            reveal_strlit("0");
        }
        return "0";
    }
    if d == 1 {
        proof {
            reveal_strlit("1");
        }
        return "1";
    }
    if d == 2 {
        proof {
            reveal_strlit("2");
        }
        return "2";
    }
    if d == 3 {
        proof {
            reveal_strlit("3");
        }
        return "3";
    }
    if d == 4 {
        proof {
            reveal_strlit("4");
        }
        return "4";
    }
    if d == 5 {
        proof {
            reveal_strlit("5");
        }
        return "5";
    }
    if d == 6 {
        proof {
            reveal_strlit("6");
        }
        return "6";
    }
    if d == 7 {
        proof {
            reveal_strlit("7");
        }
        return "7";
    }
    if d == 8 {
        proof {
            reveal_strlit("8");
        }
        return "8";
    }
    if d == 9 {
        proof {
            reveal_strlit("9");
        }
        return "9";
    }
    if d == 10 {
        proof {
            reveal_strlit("a");
        }
        return "a";
    }
    if d == 11 {
        proof {
            reveal_strlit("b");
        }
        return "b";
    }
    if d == 12 {
        proof {
            reveal_strlit("c");
        }
        return "c";
    }
    if d == 13 {
        proof {
            reveal_strlit("d");
        }
        return "d";
    }
    if d == 14 {
        proof {
            reveal_strlit("e");
        }
        return "e";
    }
    if d == 15 {
        proof {
            reveal_strlit("f");
        }
        return "f";
    }
    proof {
        reveal_strlit("f");
    }
    "f"
}

/// The minimal uppercase hexadecimal digits of a value.
fn hex_digits_exec(v: u64) -> (r: String)
    ensures
        r@ == hex_digits(v),
    decreases v,
{
    if v == 0 {
        String::new()
    } else {
        let mut s = hex_digits_exec(v / 16);
        s.append(upper_digit(v % 16));
        proof {
            assert(s@ =~= hex_digits(v));
        }
        s
    }
}

/// Renders a value as uppercase hexadecimal, zero-padded on the left to an
/// even number of digits, with zero rendered as a single zero.
pub fn to_hex(num: u64) -> (r: String)
    ensures
        r@ == to_hex_spec(num),
{
    if num == 0 {
        let mut s = String::new();
        s.append("0");
        proof {
            reveal_strlit("0");
            assert(s@ =~= seq!['0']);
        }
        return s;
    }
    let d = hex_digits_exec(num);
    let l: usize = d.as_str().unicode_len();
    if l % 2 == 1 {
        let mut s = String::new();
        s.append("0");
        s.append(d.as_str());
        proof {
            reveal_strlit("0");
            assert(s@ =~= seq!['0'] + hex_digits(num));
        }
        s
    } else {
        d
    }
}

/// The lowercase two-digit hexadecimal rendering of a byte string.
pub open spec fn bytes_hex(s: Seq<u8>) -> Seq<char>
    decreases s.len(),
{
    if s.len() == 0 {
        Seq::empty()
    } else {
        bytes_hex(s.drop_last()) + seq![
            hex_lower((s.last() / 16) as int),
            hex_lower((s.last() % 16) as int),
        ]
    }
}

/// Renders a byte string as lowercase hexadecimal, two digits per byte.
pub fn bytes_to_hex(bytes: &[u8]) -> (r: String)
    ensures
        r@ == bytes_hex(bytes@),
{
    let mut s = String::new();
    let mut i: usize = 0;
    proof {
        assert(bytes@.take(0) =~= Seq::<u8>::empty());
        assert(s@ =~= bytes_hex(bytes@.take(0)));
    }
    while i < bytes.len()
        invariant
            i <= bytes@.len(),
            s@ == bytes_hex(bytes@.take(i as int)),
        decreases bytes@.len() - i,
    {
        let b = *vstd::slice::slice_index_get(bytes, i);
        s.append(lower_digit(b as u64 / 16));
        s.append(lower_digit(b as u64 % 16));
        proof {
            assert(bytes@.take(i + 1).drop_last() =~= bytes@.take(i as int));
            assert(bytes@.take(i + 1).last() == bytes@[i as int]);
            assert(s@ =~= bytes_hex(bytes@.take(i + 1)));
        }
        i = i + 1;
    }
    proof {
        assert(bytes@.take(bytes@.len() as int) =~= bytes@);
    }
    s
}

/// A run of zero characters.
pub open spec fn zero_chars(n: nat) -> Seq<char>
    decreases n,
{
    if n == 0 {
        Seq::empty()
    } else {
        zero_chars((n - 1) as nat).push('0')
    }
}

/// The given digits zero-padded on the left to the given width.
pub open spec fn pad_left(s: Seq<char>, width: nat) -> Seq<char> {
    if s.len() >= width {
        s
    } else {
        zero_chars((width - s.len()) as nat) + s
    }
}

/// Zero-pads a string of digits on the left to the given width.
pub fn pad_left_exec(s: String, width: usize) -> (r: String)
    requires
        s@.len() <= width,
    ensures
        r@ == pad_left(s@, width as nat),
{
    let l: usize = s.as_str().unicode_len();
    let mut r = String::new();
    let mut k: usize = 0;
    proof {
        assert(r@ =~= zero_chars(0));
    }
    while k < width - l
        invariant
            l == s@.len(),
            l <= width,
            k <= width - l,
            r@ == zero_chars(k as nat),
        decreases width - l - k,
    {
        r.append("0");
        proof {
            reveal_strlit("0");
            assert(r@ =~= zero_chars((k + 1) as nat));
        }
        k = k + 1;
    }
    r.append(s.as_str());
    proof {
        if s@.len() < width {
            assert(r@ =~= pad_left(s@, width as nat));
        } else {
            assert(zero_chars(0) =~= Seq::<char>::empty());
            assert(r@ =~= s@);
        }
    }
    r
}

/// The decimal digit for a value below 10.
pub open spec fn dec_digit(d: int) -> char {
    if d == 0 {
        '0'
    } else if d == 1 {
        '1'
    } else if d == 2 {
        '2'
    } else if d == 3 {
        '3'
    } else if d == 4 {
        '4'
    } else if d == 5 {
        '5'
    } else if d == 6 {
        '6'
    } else if d == 7 {
        '7'
    } else if d == 8 {
        '8'
    } else {
        '9'
    }
}

/// The single-character string for a decimal digit.
pub fn decimal_digit(d: u64) -> (r: &'static str)
    requires
        d < 10,
    ensures
        r@ == seq![dec_digit(d as int)],
{
    if d == 0 {
        proof {
            reveal_strlit("0");
        }
        return "0";
    }
    if d == 1 {
        proof {
            reveal_strlit("1");
        }
        return "1";
    }
    if d == 2 {
        proof {
            reveal_strlit("2");
        }
        return "2";
    }
    if d == 3 {
        proof {
            reveal_strlit("3");
        }
        return "3";
    }
    if d == 4 {
        proof {
            reveal_strlit("4");
        }
        return "4";
    }
    if d == 5 {
        proof {
            reveal_strlit("5");
        }
        return "5";
    }
    if d == 6 {
        proof {
            reveal_strlit("6");
        }
        return "6";
    }
    if d == 7 {
        proof {
            reveal_strlit("7");
        }
        return "7";
    }
    if d == 8 {
        proof {
            reveal_strlit("8");
        }
        return "8";
    }
    if d == 9 {
        proof {
            reveal_strlit("9");
        }
        return "9";
    }
    proof {
        reveal_strlit("9");
    }
    "9"
}

} // verus!
