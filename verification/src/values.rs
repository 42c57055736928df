//! Fixed-size domain value types: the opaque 128-bit float payload, the
//! 160/256/512-bit checksums, and the 128/256-bit integer records. The
//! byte-array types copy their bytes verbatim on the wire and can be
//! built from a hex string of exactly two characters per byte.

use vstd::prelude::*;
use vstd::string::StringSliceAdditionalSpecFns;

use crate::codec::copy_bytes_n;
use crate::codec::CodecError;
use crate::codec::Encoder;
use crate::codec::Packer;
use crate::hexstr::decode_hex;
use crate::hexstr::encode_hex;
use crate::hexstr::hex_bytes_ok;
use crate::hexstr::spec_hex_decode;
use crate::hexstr::spec_hex_encode;

verus! {

broadcast use vstd::array::group_array_axioms;

/// A 128-bit floating-point value carried as 16 raw bytes; the payload is
/// opaque and never interpreted numerically here.
#[derive(Clone, Copy, PartialEq, Eq, Debug)]
pub struct Float128 {
    pub data: [u8; 16],
}

impl View for Float128 {
    type V = Seq<u8>;

    open spec fn view(&self) -> Seq<u8> {
        self.data@
    }
}

impl Float128 {
    /// Wrap 16 raw payload bytes.
    pub fn new(data: [u8; 16]) -> (r: Float128)
        ensures
            r@ == data@,
    {
        Float128 { data }
    }

    /// The 16 raw payload bytes.
    pub fn data(&self) -> (r: &[u8; 16])
        ensures
            r@ == self@,
    {
        &self.data
    }
}

impl Default for Float128 {
    fn default() -> (r: Float128)
        ensures
            r@ == Seq::new(16, |i: int| 0u8),
    {
        let r = Float128 { data: [0u8; 16] };
        proof {
            assert(r@ =~= Seq::new(16, |i: int| 0u8));
        }
        r
    }
}

impl Packer for Float128 {
    open spec fn spec_wf(v: Seq<u8>) -> bool {
        v.len() == 16
    }

    open spec fn spec_enc(v: Seq<u8>) -> Seq<u8> {
        v
    }

    open spec fn spec_decode(data: Seq<u8>) -> Result<(Seq<u8>, int), CodecError> {
        if data.len() < 16 {
            Err(CodecError::BufferOverflow)
        } else {
            Ok((data.subrange(0, 16), 16))
        }
    }

    proof fn lemma_decode_encode(v: Seq<u8>, rest: Seq<u8>) {
        assert((v + rest).subrange(0, 16) =~= v);
    }

    proof fn lemma_decode_ok(data: Seq<u8>) {
    }

    fn size(&self) -> (n: usize) {
        16
    }

    fn pack(&self, enc: &mut Encoder) -> (n: usize) {
        enc.append_slice(self.data.as_slice());
        16
    }

    fn unpack(&mut self, data: &[u8]) -> (r: Result<usize, CodecError>) {
        if data.len() < 16 {
            Err(CodecError::BufferOverflow)
        } else {
            self.data = copy_bytes_n(data);
            Ok(16)
        }
    }
}

/// A 160-bit checksum: 20 bytes copied verbatim on the wire.
#[derive(Clone, Copy, PartialEq, Eq, Debug)]
pub struct Checksum160 {
    pub data: [u8; 20],
}

impl View for Checksum160 {
    type V = Seq<u8>;

    open spec fn view(&self) -> Seq<u8> {
        self.data@
    }
}

impl Checksum160 {
    /// Build from exactly 40 hexadecimal characters, two per byte.
    pub fn from_hex(s: &str) -> (r: Result<Checksum160, CodecError>)
        ensures
            match r {
                Ok(c) => s.spec_bytes().len() == 40 && hex_bytes_ok(s.spec_bytes()) && c@
                    == spec_hex_decode(s.spec_bytes()),
                Err(e) => (e == CodecError::BadHexLength && s.spec_bytes().len() != 40) || (e
                    == CodecError::BadHexChar && s.spec_bytes().len() == 40 && !hex_bytes_ok(
                    s.spec_bytes(),
                )),
            },
    {
        let bytes = s.as_bytes();
        if bytes.len() != 40 {
            return Err(CodecError::BadHexLength);
        }
        match decode_hex(bytes) {
            Ok(v) => {
                let c = Checksum160 { data: copy_bytes_n(v.as_slice()) };
                proof {
                    assert(c@ =~= spec_hex_decode(s.spec_bytes()));
                }
                Ok(c)
            },
            Err(e) => Err(e),
        }
    }

    /// The lowercase hex spelling of the checksum, two characters per byte.
    pub fn to_hex(&self) -> (r: String)
        ensures
            r@ == spec_hex_encode(self@),
    {
        encode_hex(self.data.as_slice())
    }
}

impl Default for Checksum160 {
    fn default() -> (r: Checksum160)
        ensures
            r@ == Seq::new(20, |i: int| 0u8),
    {
        let r = Checksum160 { data: [0u8; 20] };
        proof {
            assert(r@ =~= Seq::new(20, |i: int| 0u8));
        }
        r
    }
}

impl Packer for Checksum160 {
    open spec fn spec_wf(v: Seq<u8>) -> bool {
        v.len() == 20
    }

    open spec fn spec_enc(v: Seq<u8>) -> Seq<u8> {
        v
    }

    open spec fn spec_decode(data: Seq<u8>) -> Result<(Seq<u8>, int), CodecError> {
        if data.len() < 20 {
            Err(CodecError::BufferOverflow)
        } else {
            Ok((data.subrange(0, 20), 20))
        }
    }

    proof fn lemma_decode_encode(v: Seq<u8>, rest: Seq<u8>) {
        assert((v + rest).subrange(0, 20) =~= v);
    }

    proof fn lemma_decode_ok(data: Seq<u8>) {
    }

    fn size(&self) -> (n: usize) {
        20
    }

    fn pack(&self, enc: &mut Encoder) -> (n: usize) {
        enc.append_slice(self.data.as_slice());
        20
    }

    fn unpack(&mut self, data: &[u8]) -> (r: Result<usize, CodecError>) {
        if data.len() < 20 {
            Err(CodecError::BufferOverflow)
        } else {
            self.data = copy_bytes_n(data);
            Ok(20)
        }
    }
}

/// A 256-bit checksum: 32 bytes copied verbatim on the wire.
#[derive(Clone, Copy, PartialEq, Eq, Debug)]
pub struct Checksum256 {
    pub data: [u8; 32],
}

impl View for Checksum256 {
    type V = Seq<u8>;

    open spec fn view(&self) -> Seq<u8> {
        self.data@
    }
}

impl Checksum256 {
    /// Build from exactly 64 hexadecimal characters, two per byte.
    pub fn from_hex(s: &str) -> (r: Result<Checksum256, CodecError>)
        ensures
            match r {
                Ok(c) => s.spec_bytes().len() == 64 && hex_bytes_ok(s.spec_bytes()) && c@
                    == spec_hex_decode(s.spec_bytes()),
                Err(e) => (e == CodecError::BadHexLength && s.spec_bytes().len() != 64) || (e
                    == CodecError::BadHexChar && s.spec_bytes().len() == 64 && !hex_bytes_ok(
                    s.spec_bytes(),
                )),
            },
    {
        let bytes = s.as_bytes();
        if bytes.len() != 64 {
            return Err(CodecError::BadHexLength);
        }
        match decode_hex(bytes) {
            Ok(v) => {
                let c = Checksum256 { data: copy_bytes_n(v.as_slice()) };
                proof {
                    assert(c@ =~= spec_hex_decode(s.spec_bytes()));
                }
                Ok(c)
            },
            Err(e) => Err(e),
        }
    }

    /// The lowercase hex spelling of the checksum, two characters per byte.
    pub fn to_hex(&self) -> (r: String)
        ensures
            r@ == spec_hex_encode(self@),
    {
        encode_hex(self.data.as_slice())
    }
}

impl Default for Checksum256 {
    fn default() -> (r: Checksum256)
        ensures
            r@ == Seq::new(32, |i: int| 0u8),
    {
        let r = Checksum256 { data: [0u8; 32] };
        proof {
            assert(r@ =~= Seq::new(32, |i: int| 0u8));
        }
        r
    }
}

impl Packer for Checksum256 {
    open spec fn spec_wf(v: Seq<u8>) -> bool {
        v.len() == 32
    }

    open spec fn spec_enc(v: Seq<u8>) -> Seq<u8> {
        v
    }

    open spec fn spec_decode(data: Seq<u8>) -> Result<(Seq<u8>, int), CodecError> {
        if data.len() < 32 {
            Err(CodecError::BufferOverflow)
        } else {
            Ok((data.subrange(0, 32), 32))
        }
    }

    proof fn lemma_decode_encode(v: Seq<u8>, rest: Seq<u8>) {
        assert((v + rest).subrange(0, 32) =~= v);
    }

    proof fn lemma_decode_ok(data: Seq<u8>) {
    }

    fn size(&self) -> (n: usize) {
        32
    }

    fn pack(&self, enc: &mut Encoder) -> (n: usize) {
        enc.append_slice(self.data.as_slice());
        32
    }

    fn unpack(&mut self, data: &[u8]) -> (r: Result<usize, CodecError>) {
        if data.len() < 32 {
            Err(CodecError::BufferOverflow)
        } else {
            self.data = copy_bytes_n(data);
            Ok(32)
        }
    }
}

/// A 512-bit checksum: 64 bytes copied verbatim on the wire.
#[derive(Clone, Copy, PartialEq, Eq, Debug)]
pub struct Checksum512 {
    pub data: [u8; 64],
}

impl View for Checksum512 {
    type V = Seq<u8>;

    open spec fn view(&self) -> Seq<u8> {
        self.data@
    }
}

impl Checksum512 {
    /// Build from exactly 128 hexadecimal characters, two per byte.
    pub fn from_hex(s: &str) -> (r: Result<Checksum512, CodecError>)
        ensures
            match r {
                Ok(c) => s.spec_bytes().len() == 128 && hex_bytes_ok(s.spec_bytes()) && c@
                    == spec_hex_decode(s.spec_bytes()),
                Err(e) => (e == CodecError::BadHexLength && s.spec_bytes().len() != 128) || (e
                    == CodecError::BadHexChar && s.spec_bytes().len() == 128 && !hex_bytes_ok(
                    s.spec_bytes(),
                )),
            },
    {
        let bytes = s.as_bytes();
        if bytes.len() != 128 {
            return Err(CodecError::BadHexLength);
        }
        match decode_hex(bytes) {
            Ok(v) => {
                let c = Checksum512 { data: copy_bytes_n(v.as_slice()) };
                proof {
                    assert(c@ =~= spec_hex_decode(s.spec_bytes()));
                }
                Ok(c)
            },
            Err(e) => Err(e),
        }
    }

    /// The lowercase hex spelling of the checksum, two characters per byte.
    pub fn to_hex(&self) -> (r: String)
        ensures
            r@ == spec_hex_encode(self@),
    {
        encode_hex(self.data.as_slice())
    }
}

impl Default for Checksum512 {
    fn default() -> (r: Checksum512)
        ensures
            r@ == Seq::new(64, |i: int| 0u8),
    {
        let r = Checksum512 { data: [0u8; 64] };
        proof {
            assert(r@ =~= Seq::new(64, |i: int| 0u8));
        }
        r
    }
}

impl Packer for Checksum512 {
    open spec fn spec_wf(v: Seq<u8>) -> bool {
        v.len() == 64
    }

    open spec fn spec_enc(v: Seq<u8>) -> Seq<u8> {
        v
    }

    open spec fn spec_decode(data: Seq<u8>) -> Result<(Seq<u8>, int), CodecError> {
        if data.len() < 64 {
            Err(CodecError::BufferOverflow)
        } else {
            Ok((data.subrange(0, 64), 64))
        }
    }

    proof fn lemma_decode_encode(v: Seq<u8>, rest: Seq<u8>) {
        assert((v + rest).subrange(0, 64) =~= v);
    }

    proof fn lemma_decode_ok(data: Seq<u8>) {
    }

    fn size(&self) -> (n: usize) {
        64
    }

    fn pack(&self, enc: &mut Encoder) -> (n: usize) {
        enc.append_slice(self.data.as_slice());
        64
    }

    fn unpack(&mut self, data: &[u8]) -> (r: Result<usize, CodecError>) {
        if data.len() < 64 {
            Err(CodecError::BufferOverflow)
        } else {
            self.data = copy_bytes_n(data);
            Ok(64)
        }
    }
}

/// A 128-bit unsigned integer held as two 64-bit limbs, low limb first.
/// Storage only: no arithmetic is defined here.
#[derive(Clone, Copy, PartialEq, Eq, Debug)]
pub struct Uint128 {
    pub lo: u64,
    pub hi: u64,
}

impl Default for Uint128 {
    fn default() -> (r: Uint128)
        ensures
            r.lo == 0 && r.hi == 0,
    {
        Uint128 { lo: 0, hi: 0 }
    }
}

/// A 128-bit signed integer held as two 64-bit limbs, low limb first.
/// Storage only: no arithmetic is defined here.
#[derive(Clone, Copy, Debug)]
pub struct Int128 {
    pub lo: u64,
    pub hi: u64,
}

impl Default for Int128 {
    fn default() -> (r: Int128)
        ensures
            r.lo == 0 && r.hi == 0,
    {
        Int128 { lo: 0, hi: 0 }
    }
}

/// A 256-bit unsigned integer held as two 128-bit limbs, low limb first;
/// on the wire the limbs follow each other little-endian, 32 bytes in all.
#[derive(Clone, Copy, PartialEq, Eq, Debug)]
pub struct Uint256 {
    pub data: [u128; 2],
}

impl View for Uint256 {
    type V = (u128, u128);

    open spec fn view(&self) -> (u128, u128) {
        (self.data@[0], self.data@[1])
    }
}

impl Uint256 {
    /// Build from the low and high 128-bit limbs.
    pub fn new(lo: u128, hi: u128) -> (r: Uint256)
        ensures
            r@ == (lo, hi),
    {
        Uint256 { data: [lo, hi] }
    }

    /// Exchange the limb order without re-encoding either limb.
    pub fn swap(&self) -> (r: Uint256)
        ensures
            r@ == (self@.1, self@.0),
    {
        Uint256 { data: [self.data[1], self.data[0]] }
    }
}

impl Default for Uint256 {
    fn default() -> (r: Uint256)
        ensures
            r@ == (0u128, 0u128),
    {
        Uint256 { data: [0u128, 0u128] }
    }
}

impl Packer for Uint256 {
    open spec fn spec_wf(v: (u128, u128)) -> bool {
        true
    }

    open spec fn spec_enc(v: (u128, u128)) -> Seq<u8> {
        vstd::bytes::spec_u128_to_le_bytes(v.0) + vstd::bytes::spec_u128_to_le_bytes(v.1)
    }

    open spec fn spec_decode(data: Seq<u8>) -> Result<((u128, u128), int), CodecError> {
        if data.len() < 32 {
            Err(CodecError::BufferOverflow)
        } else {
            Ok(
                (
                    (
                        vstd::bytes::spec_u128_from_le_bytes(data.subrange(0, 16)),
                        vstd::bytes::spec_u128_from_le_bytes(data.subrange(16, 32)),
                    ),
                    32,
                ),
            )
        }
    }

    proof fn lemma_decode_encode(v: (u128, u128), rest: Seq<u8>) {
        vstd::bytes::lemma_auto_spec_u128_to_from_le_bytes();
        let enc = Self::spec_enc(v);
        assert((enc + rest).subrange(0, 16) =~= vstd::bytes::spec_u128_to_le_bytes(v.0));
        assert((enc + rest).subrange(16, 32) =~= vstd::bytes::spec_u128_to_le_bytes(v.1));
    }

    proof fn lemma_decode_ok(data: Seq<u8>) {
        vstd::bytes::lemma_auto_spec_u128_to_from_le_bytes();
    }

    fn size(&self) -> (n: usize) {
        proof {
            vstd::bytes::lemma_auto_spec_u128_to_from_le_bytes();
        }
        32
    }

    fn pack(&self, enc: &mut Encoder) -> (n: usize) {
        proof {
            vstd::bytes::lemma_auto_spec_u128_to_from_le_bytes();
        }
        let lo = self.data[0];
        let hi = self.data[1];
        lo.pack(enc);
        hi.pack(enc);
        proof {
            assert(enc@ == old(enc)@ + Self::spec_enc(self@));
        }
        32
    }

    fn unpack(&mut self, data: &[u8]) -> (r: Result<usize, CodecError>) {
        if data.len() < 32 {
            Err(CodecError::BufferOverflow)
        } else {
            let lo_part = vstd::slice::slice_subrange(data, 0, 16);
            let hi_part = vstd::slice::slice_subrange(data, 16, 32);
            let lo = vstd::bytes::u128_from_le_bytes(lo_part);
            let hi = vstd::bytes::u128_from_le_bytes(hi_part);
            self.data = [lo, hi];
            Ok(32)
        }
    }
}

} // verus!
