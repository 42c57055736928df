//! Hex-string parsing and printing for the fixed-size byte-array types:
//! exactly two hexadecimal characters per byte, a mismatched length or a
//! stray character is rejected.

use vstd::prelude::*;
use vstd::string::StringExecFns;
use vstd::string::StringSliceAdditionalSpecFns;
use vstd::utf8::encode_utf8;
use vstd::utf8::is_ascii_chars;
use vstd::utf8::is_ascii_chars_encode_utf8;

use crate::codec::CodecError;

verus! {

/// True of the byte value of a hexadecimal digit character
/// (`0`-`9`, `A`-`F`, `a`-`f`).
pub open spec fn is_hex_digit(b: u8) -> bool {
    (0x30 <= b <= 0x39) || (0x41 <= b <= 0x46) || (0x61 <= b <= 0x66)
}

/// The numeric value of a hexadecimal digit character's byte.
pub open spec fn hex_val(b: u8) -> int {
    if 0x30 <= b <= 0x39 {
        b - 0x30
    } else if 0x41 <= b <= 0x46 {
        b - 0x41 + 10
    } else {
        b - 0x61 + 10
    }
}

/// Every byte of the sequence is a hexadecimal digit character.
pub open spec fn hex_bytes_ok(s: Seq<u8>) -> bool {
    forall|i: int| 0 <= i < s.len() ==> is_hex_digit(#[trigger] s[i])
}

/// The bytes denoted by a sequence of hexadecimal digit characters,
/// two characters per byte, high nibble first.
pub open spec fn spec_hex_decode(s: Seq<u8>) -> Seq<u8> {
    Seq::new((s.len() / 2) as nat, |i: int| (hex_val(s[2 * i]) * 16 + hex_val(s[2 * i + 1])) as u8)
}

/// The lowercase hexadecimal digit character for a nibble value.
pub open spec fn spec_hex_char(v: int) -> char {
    if v == 0 { '0' }
    else if v == 1 { '1' }
    else if v == 2 { '2' }
    else if v == 3 { '3' }
    else if v == 4 { '4' }
    else if v == 5 { '5' }
    else if v == 6 { '6' }
    else if v == 7 { '7' }
    else if v == 8 { '8' }
    else if v == 9 { '9' }
    else if v == 10 { 'a' }
    else if v == 11 { 'b' }
    else if v == 12 { 'c' }
    else if v == 13 { 'd' }
    else if v == 14 { 'e' }
    else { 'f' }
}

/// The lowercase hex spelling of a byte sequence, two characters per byte.
pub open spec fn spec_hex_encode(data: Seq<u8>) -> Seq<char> {
    Seq::new(
        2 * data.len(),
        |i: int|
            if i % 2 == 0 {
                spec_hex_char(data[i / 2] as int / 16)
            } else {
                spec_hex_char(data[i / 2] as int % 16)
            },
    )
}

/// The numeric value of one hexadecimal digit byte, or `None` when the
/// byte is no hexadecimal digit.
fn hex_digit_val(b: u8) -> (r: Option<u8>)
    ensures
        match r {
            Some(v) => is_hex_digit(b) && v == hex_val(b) && v < 16,
            None => !is_hex_digit(b),
        },
{
    if 0x30 <= b && b <= 0x39 {
        Some(b - 0x30)
    } else if 0x41 <= b && b <= 0x46 {
        Some(b - 0x41 + 10)
    } else if 0x61 <= b && b <= 0x66 {
        Some(b - 0x61 + 10)
    } else {
        None
    }
}

/// Decode a hexadecimal character region into the bytes it denotes:
/// two characters per byte, or the reason the region is no hex spelling.
pub fn decode_hex(s: &[u8]) -> (r: Result<Vec<u8>, CodecError>)
    ensures
        match r {
            Ok(v) => s@.len() % 2 == 0 && hex_bytes_ok(s@) && v@ == spec_hex_decode(s@),
            Err(e) => (e == CodecError::BadHexLength && s@.len() % 2 != 0) || (e
                == CodecError::BadHexChar && s@.len() % 2 == 0 && !hex_bytes_ok(s@)),
        },
{
    if s.len() % 2 != 0 {
        return Err(CodecError::BadHexLength);
    }
    let pairs = s.len() / 2;
    let mut v: Vec<u8> = Vec::new();
    let mut i: usize = 0;
    while i < pairs
        invariant
            s@.len() % 2 == 0,
            s@.len() <= usize::MAX,
            pairs == s@.len() / 2,
            2 * pairs == s@.len(),
            i <= pairs,
            forall|j: int| 0 <= j < 2 * i ==> is_hex_digit(#[trigger] s@[j]),
            v@.len() == i,
            forall|j: int| 0 <= j < i ==> v@[j] == #[trigger] spec_hex_decode(s@)[j],
        decreases pairs - i,
    {
        let hi = match hex_digit_val(s[2 * i]) {
            Some(x) => x,
            None => {
                return Err(CodecError::BadHexChar);
            },
        };
        let lo = match hex_digit_val(s[2 * i + 1]) {
            Some(x) => x,
            None => {
                return Err(CodecError::BadHexChar);
            },
        };
        v.push(hi * 16 + lo);
        i = i + 1;
    }
    proof {
        assert(v@ =~= spec_hex_decode(s@));
    }
    Ok(v)
}

/// The one-character string slice of a nibble's lowercase hex digit.
fn hex_char_str(v: u8) -> (r: &'static str)
    requires
        v < 16,
    ensures
        r@ =~= seq![spec_hex_char(v as int)],
        r@.len() == 1,
{
    proof {
        reveal_strlit("0");
        reveal_strlit("1");
        reveal_strlit("2");
        reveal_strlit("3");
        reveal_strlit("4");
        reveal_strlit("5");
        reveal_strlit("6");
        reveal_strlit("7");
        reveal_strlit("8");
        reveal_strlit("9");
        reveal_strlit("a");
        reveal_strlit("b");
        reveal_strlit("c");
        reveal_strlit("d");
        reveal_strlit("e");
        reveal_strlit("f");
    }
    if v == 0 { "0" }
    else if v == 1 { "1" }
    else if v == 2 { "2" }
    else if v == 3 { "3" }
    else if v == 4 { "4" }
    else if v == 5 { "5" }
    else if v == 6 { "6" }
    else if v == 7 { "7" }
    else if v == 8 { "8" }
    else if v == 9 { "9" }
    else if v == 10 { "a" }
    else if v == 11 { "b" }
    else if v == 12 { "c" }
    else if v == 13 { "d" }
    else if v == 14 { "e" }
    else { "f" }
}

/// The lowercase hex spelling of a byte region, two characters per byte.
pub fn encode_hex(data: &[u8]) -> (r: String)
    ensures
        r@ == spec_hex_encode(data@),
{
    let mut r = String::new();
    let mut i: usize = 0;
    while i < data.len()
        invariant
            i <= data@.len(),
            r@ =~= spec_hex_encode(data@).take(2 * i as int),
        decreases data@.len() - i,
    {
        let b = data[i];
        r.append(hex_char_str(b / 16));
        r.append(hex_char_str(b % 16));
        i = i + 1;
        proof {
            assert(r@ =~= spec_hex_encode(data@).take(2 * i as int));
        }
    }
    proof {
        assert(spec_hex_encode(data@).take(2 * data@.len() as int) =~= spec_hex_encode(data@));
    }
    r
}

/// Every nibble's hex character is an ASCII hexadecimal digit whose
/// value is the nibble again.
proof fn lemma_hex_char_val(v: int)
    requires
        0 <= v < 16,
    ensures
        spec_hex_char(v) <= '\u{7f}',
        is_hex_digit(spec_hex_char(v) as u8),
        hex_val(spec_hex_char(v) as u8) == v,
{
}

/// Hex round-trip law at the string boundary: a string spelling a byte
/// sequence in hex (as `to_hex` produces it) is a valid hex spelling of
/// exactly twice the byte count, and parses back to the same bytes (as
/// `from_hex` consumes it).
pub proof fn lemma_hex_string_round_trip(data: Seq<u8>, s: &str)
    requires
        s@ == spec_hex_encode(data),
    ensures
        s.spec_bytes().len() == 2 * data.len(),
        hex_bytes_ok(s.spec_bytes()),
        spec_hex_decode(s.spec_bytes()) == data,
{
    lemma_hex_round_trip(data);
}

/// Hex round-trip law: the hex spelling of any byte sequence is ASCII,
/// two valid hexadecimal digit characters per byte, and decoding its
/// UTF-8 bytes yields the byte sequence again.
pub proof fn lemma_hex_round_trip(data: Seq<u8>)
    ensures
        is_ascii_chars(spec_hex_encode(data)),
        encode_utf8(spec_hex_encode(data)).len() == 2 * data.len(),
        encode_utf8(spec_hex_encode(data)).len() % 2 == 0,
        hex_bytes_ok(encode_utf8(spec_hex_encode(data))),
        spec_hex_decode(encode_utf8(spec_hex_encode(data))) == data,
{
    let chars = spec_hex_encode(data);
    assert forall|i: int| 0 <= i < chars.len() implies '\0' <= #[trigger] chars[i] <= '\u{7f}' by {
        if i % 2 == 0 {
            lemma_hex_char_val(data[i / 2] as int / 16);
        } else {
            lemma_hex_char_val(data[i / 2] as int % 16);
        }
    }
    is_ascii_chars_encode_utf8(chars);
    let bytes = encode_utf8(chars);
    assert forall|i: int| 0 <= i < bytes.len() implies is_hex_digit(#[trigger] bytes[i]) by {
        assert(bytes[i] == chars[i] as u8);
        if i % 2 == 0 {
            lemma_hex_char_val(data[i / 2] as int / 16);
        } else {
            lemma_hex_char_val(data[i / 2] as int % 16);
        }
    }
    assert forall|i: int| 0 <= i < data.len() implies spec_hex_decode(bytes)[i] == data[i] by {
        assert(bytes[2 * i] == chars[2 * i] as u8);
        assert(bytes[2 * i + 1] == chars[2 * i + 1] as u8);
        lemma_hex_char_val(data[i] as int / 16);
        lemma_hex_char_val(data[i] as int % 16);
        assert(hex_val(bytes[2 * i]) == data[i] / 16);
        assert(hex_val(bytes[2 * i + 1]) == data[i] % 16);
        assert((data[i] / 16) * 16 + data[i] % 16 == data[i]) by {
            vstd::arithmetic::div_mod::lemma_fundamental_div_mod(data[i] as int, 16);
        }
    }
    assert(spec_hex_decode(bytes) =~= data);
}

} // verus!
