//! Account names: a 64-bit value that packs as 8 little-endian bytes and
//! prints as up to 13 base-32 characters (`.`, `1`-`5`, `a`-`z`), the low
//! nibble giving the 13th character and each 5-bit group above it one more,
//! with trailing dots trimmed.

use vstd::bytes::*;
use vstd::prelude::*;
use vstd::string::StringExecFns;

use crate::codec::CodecError;
use crate::codec::Encoder;
use crate::codec::Packer;

verus! {

/// An account name: a base-32 packed 64-bit value.
#[derive(Clone, Copy, PartialEq, Eq, Debug)]
pub struct Name {
    pub n: u64,
}

impl View for Name {
    type V = u64;

    open spec fn view(&self) -> u64 {
        self.n
    }
}

impl Name {
    /// Wrap a packed name value.
    pub fn new(n: u64) -> (r: Name)
        ensures
            r@ == n,
    {
        Name { n }
    }

    /// The packed name value.
    pub fn value(&self) -> (r: u64)
        ensures
            r == self@,
    {
        self.n
    }
}

impl Default for Name {
    fn default() -> (r: Name)
        ensures
            r@ == 0,
    {
        Name { n: 0 }
    }
}

impl Packer for Name {
    open spec fn spec_wf(v: u64) -> bool {
        true
    }

    open spec fn spec_enc(v: u64) -> Seq<u8> {
        spec_u64_to_le_bytes(v)
    }

    open spec fn spec_decode(data: Seq<u8>) -> Result<(u64, int), CodecError> {
        if data.len() < 8 {
            Err(CodecError::BufferOverflow)
        } else {
            Ok((spec_u64_from_le_bytes(data.subrange(0, 8)), 8))
        }
    }

    proof fn lemma_decode_encode(v: u64, rest: Seq<u8>) {
        lemma_auto_spec_u64_to_from_le_bytes();
        assert((spec_u64_to_le_bytes(v) + rest).subrange(0, 8) =~= spec_u64_to_le_bytes(v));
    }

    proof fn lemma_decode_ok(data: Seq<u8>) {
        lemma_auto_spec_u64_to_from_le_bytes();
    }

    fn size(&self) -> (n: usize) {
        proof {
            lemma_auto_spec_u64_to_from_le_bytes();
        }
        8
    }

    fn pack(&self, enc: &mut Encoder) -> (n: usize) {
        self.n.pack(enc)
    }

    fn unpack(&mut self, data: &[u8]) -> (r: Result<usize, CodecError>) {
        let mut x: u64 = 0;
        match x.unpack(data) {
            Ok(k) => {
                self.n = x;
                Ok(k)
            },
            Err(e) => Err(e),
        }
    }
}

/// The base-32 digit (0-31) at display position `p` (0-12) of a name value:
/// the low 4 bits give position 12, each 5-bit group above them one
/// position further left.
pub open spec fn spec_name_digit(value: u64, p: int) -> u64 {
    if p == 12 {
        value & 0x0f
    } else {
        (value >> (4 + 5 * (11 - p)) as u64) & 0x1f
    }
}

/// The display character of a base-32 digit: dot, `1`-`5`, then `a`-`z`.
pub open spec fn spec_name_char(d: u64) -> char {
    if d == 0 { '.' }
    else if d == 1 { '1' }
    else if d == 2 { '2' }
    else if d == 3 { '3' }
    else if d == 4 { '4' }
    else if d == 5 { '5' }
    else if d == 6 { 'a' }
    else if d == 7 { 'b' }
    else if d == 8 { 'c' }
    else if d == 9 { 'd' }
    else if d == 10 { 'e' }
    else if d == 11 { 'f' }
    else if d == 12 { 'g' }
    else if d == 13 { 'h' }
    else if d == 14 { 'i' }
    else if d == 15 { 'j' }
    else if d == 16 { 'k' }
    else if d == 17 { 'l' }
    else if d == 18 { 'm' }
    else if d == 19 { 'n' }
    else if d == 20 { 'o' }
    else if d == 21 { 'p' }
    else if d == 22 { 'q' }
    else if d == 23 { 'r' }
    else if d == 24 { 's' }
    else if d == 25 { 't' }
    else if d == 26 { 'u' }
    else if d == 27 { 'v' }
    else if d == 28 { 'w' }
    else if d == 29 { 'x' }
    else if d == 30 { 'y' }
    else { 'z' }
}

/// The largest display position at or below `p` holding a non-dot digit,
/// or 0 when every position at or below `p` is a dot.
pub open spec fn spec_name_last(value: u64, p: int) -> int
    decreases p,
{
    if p <= 0 {
        0
    } else if spec_name_digit(value, p) != 0 {
        p
    } else {
        spec_name_last(value, p - 1)
    }
}

/// The display string of a name value: the 13 base-32 characters with
/// trailing dots trimmed; the first character always stays.
pub open spec fn spec_n2s(value: u64) -> Seq<char> {
    Seq::new(
        (spec_name_last(value, 12) + 1) as nat,
        |p: int| spec_name_char(spec_name_digit(value, p)),
    )
}

/// The one-character string slice displaying a base-32 digit.
fn name_char_str(d: u64) -> (r: &'static str)
    requires
        d < 32,
    ensures
        r@ =~= seq![spec_name_char(d)],
        r@.len() == 1,
{
    proof {
        reveal_strlit(".");
        reveal_strlit("1");
        reveal_strlit("2");
        reveal_strlit("3");
        reveal_strlit("4");
        reveal_strlit("5");
        reveal_strlit("a");
        reveal_strlit("b");
        reveal_strlit("c");
        reveal_strlit("d");
        reveal_strlit("e");
        reveal_strlit("f");
        reveal_strlit("g");
        reveal_strlit("h");
        reveal_strlit("i");
        reveal_strlit("j");
        reveal_strlit("k");
        reveal_strlit("l");
        reveal_strlit("m");
        reveal_strlit("n");
        reveal_strlit("o");
        reveal_strlit("p");
        reveal_strlit("q");
        reveal_strlit("r");
        reveal_strlit("s");
        reveal_strlit("t");
        reveal_strlit("u");
        reveal_strlit("v");
        reveal_strlit("w");
        reveal_strlit("x");
        reveal_strlit("y");
        reveal_strlit("z");
    }
    if d == 0 { "." }
    else if d == 1 { "1" }
    else if d == 2 { "2" }
    else if d == 3 { "3" }
    else if d == 4 { "4" }
    else if d == 5 { "5" }
    else if d == 6 { "a" }
    else if d == 7 { "b" }
    else if d == 8 { "c" }
    else if d == 9 { "d" }
    else if d == 10 { "e" }
    else if d == 11 { "f" }
    else if d == 12 { "g" }
    else if d == 13 { "h" }
    else if d == 14 { "i" }
    else if d == 15 { "j" }
    else if d == 16 { "k" }
    else if d == 17 { "l" }
    else if d == 18 { "m" }
    else if d == 19 { "n" }
    else if d == 20 { "o" }
    else if d == 21 { "p" }
    else if d == 22 { "q" }
    else if d == 23 { "r" }
    else if d == 24 { "s" }
    else if d == 25 { "t" }
    else if d == 26 { "u" }
    else if d == 27 { "v" }
    else if d == 28 { "w" }
    else if d == 29 { "x" }
    else if d == 30 { "y" }
    else { "z" }
}

/// The base-32 digit at display position `p` of a name value.
fn name_digit(value: u64, p: usize) -> (d: u64)
    requires
        p < 13,
    ensures
        d == spec_name_digit(value, p as int),
        d < 32,
{
    if p == 12 {
        let d = value & 0x0f;
        proof {
            assert(value & 0x0f < 32) by (bit_vector);
        }
        d
    } else {
        let shift: u64 = 4 + 5 * (11 - p as u64);
        let d = (value >> shift) & 0x1f;
        proof {
            let s = shift;
            assert((value >> s) & 0x1f < 32) by (bit_vector);
        }
        d
    }
}

/// The human-readable spelling of a packed name value.
pub fn n2s(value: u64) -> (r: String)
    ensures
        r@ == spec_n2s(value),
{
    let mut last: usize = 12;
    while last != 0 && name_digit(value, last) == 0
        invariant
            last < 13,
            spec_name_last(value, 12) == spec_name_last(value, last as int),
        decreases last,
    {
        last = last - 1;
    }
    proof {
        assert(spec_name_last(value, last as int) == last as int);
    }
    let mut r = String::new();
    let mut p: usize = 0;
    while p <= last
        invariant
            last < 13,
            p <= last + 1,
            spec_name_last(value, 12) == last as int,
            r@ =~= spec_n2s(value).take(p as int),
        decreases last + 1 - p,
    {
        let d = name_digit(value, p);
        r.append(name_char_str(d));
        p = p + 1;
        proof {
            assert(r@ =~= spec_n2s(value).take(p as int));
        }
    }
    proof {
        assert(spec_n2s(value).take(spec_n2s(value).len() as int) =~= spec_n2s(value));
    }
    r
}

} // verus!
