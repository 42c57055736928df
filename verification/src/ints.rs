//! Base-case `Packer` implementations: fixed-width unsigned integers
//! pack as their natural little-endian byte width, unpadded.

use vstd::bytes::*;
use vstd::prelude::*;

use crate::codec::CodecError;
use crate::codec::Encoder;
use crate::codec::Packer;

verus! {

impl Packer for u8 {
    open spec fn spec_wf(v: u8) -> bool {
        true
    }

    open spec fn spec_enc(v: u8) -> Seq<u8> {
        seq![v]
    }

    open spec fn spec_decode(data: Seq<u8>) -> Result<(u8, int), CodecError> {
        if data.len() < 1 {
            Err(CodecError::BufferOverflow)
        } else {
            Ok((data[0], 1))
        }
    }

    proof fn lemma_decode_encode(v: u8, rest: Seq<u8>) {
        assert((seq![v] + rest)[0] == v);
    }

    proof fn lemma_decode_ok(data: Seq<u8>) {
    }

    fn size(&self) -> (n: usize) {
        1
    }

    fn pack(&self, enc: &mut Encoder) -> (n: usize) {
        enc.append_byte(*self);
        proof {
            assert(old(enc)@.push(*self) == old(enc)@ + seq![*self]);
        }
        1
    }

    fn unpack(&mut self, data: &[u8]) -> (r: Result<usize, CodecError>) {
        if data.len() < 1 {
            Err(CodecError::BufferOverflow)
        } else {
            *self = data[0];
            Ok(1)
        }
    }
}

impl Packer for u16 {
    open spec fn spec_wf(v: u16) -> bool {
        true
    }

    open spec fn spec_enc(v: u16) -> Seq<u8> {
        spec_u16_to_le_bytes(v)
    }

    open spec fn spec_decode(data: Seq<u8>) -> Result<(u16, int), CodecError> {
        if data.len() < 2 {
            Err(CodecError::BufferOverflow)
        } else {
            Ok((spec_u16_from_le_bytes(data.subrange(0, 2)), 2))
        }
    }

    proof fn lemma_decode_encode(v: u16, rest: Seq<u8>) {
        lemma_auto_spec_u16_to_from_le_bytes();
        assert((spec_u16_to_le_bytes(v) + rest).subrange(0, 2) =~= spec_u16_to_le_bytes(v));
    }

    proof fn lemma_decode_ok(data: Seq<u8>) {
        lemma_auto_spec_u16_to_from_le_bytes();
    }

    fn size(&self) -> (n: usize) {
        proof {
            lemma_auto_spec_u16_to_from_le_bytes();
        }
        2
    }

    fn pack(&self, enc: &mut Encoder) -> (n: usize) {
        proof {
            lemma_auto_spec_u16_to_from_le_bytes();
        }
        let bytes = u16_to_le_bytes(*self);
        enc.append_slice(bytes.as_slice());
        2
    }

    fn unpack(&mut self, data: &[u8]) -> (r: Result<usize, CodecError>) {
        if data.len() < 2 {
            Err(CodecError::BufferOverflow)
        } else {
            let sub = vstd::slice::slice_subrange(data, 0, 2);
            *self = u16_from_le_bytes(sub);
            Ok(2)
        }
    }
}

impl Packer for u32 {
    open spec fn spec_wf(v: u32) -> bool {
        true
    }

    open spec fn spec_enc(v: u32) -> Seq<u8> {
        spec_u32_to_le_bytes(v)
    }

    open spec fn spec_decode(data: Seq<u8>) -> Result<(u32, int), CodecError> {
        if data.len() < 4 {
            Err(CodecError::BufferOverflow)
        } else {
            Ok((spec_u32_from_le_bytes(data.subrange(0, 4)), 4))
        }
    }

    proof fn lemma_decode_encode(v: u32, rest: Seq<u8>) {
        lemma_auto_spec_u32_to_from_le_bytes();
        assert((spec_u32_to_le_bytes(v) + rest).subrange(0, 4) =~= spec_u32_to_le_bytes(v));
    }

    proof fn lemma_decode_ok(data: Seq<u8>) {
        lemma_auto_spec_u32_to_from_le_bytes();
    }

    fn size(&self) -> (n: usize) {
        proof {
            lemma_auto_spec_u32_to_from_le_bytes();
        }
        4
    }

    fn pack(&self, enc: &mut Encoder) -> (n: usize) {
        proof {
            lemma_auto_spec_u32_to_from_le_bytes();
        }
        let bytes = u32_to_le_bytes(*self);
        enc.append_slice(bytes.as_slice());
        4
    }

    fn unpack(&mut self, data: &[u8]) -> (r: Result<usize, CodecError>) {
        if data.len() < 4 {
            Err(CodecError::BufferOverflow)
        } else {
            let sub = vstd::slice::slice_subrange(data, 0, 4);
            *self = u32_from_le_bytes(sub);
            Ok(4)
        }
    }
}

impl Packer for u64 {
    open spec fn spec_wf(v: u64) -> bool {
        true
    }

    open spec fn spec_enc(v: u64) -> Seq<u8> {
        spec_u64_to_le_bytes(v)
    }

    open spec fn spec_decode(data: Seq<u8>) -> Result<(u64, int), CodecError> {
        if data.len() < 8 {
            Err(CodecError::BufferOverflow)
        } else {
            Ok((spec_u64_from_le_bytes(data.subrange(0, 8)), 8))
        }
    }

    proof fn lemma_decode_encode(v: u64, rest: Seq<u8>) {
        lemma_auto_spec_u64_to_from_le_bytes();
        assert((spec_u64_to_le_bytes(v) + rest).subrange(0, 8) =~= spec_u64_to_le_bytes(v));
    }

    proof fn lemma_decode_ok(data: Seq<u8>) {
        lemma_auto_spec_u64_to_from_le_bytes();
    }

    fn size(&self) -> (n: usize) {
        proof {
            lemma_auto_spec_u64_to_from_le_bytes();
        }
        8
    }

    fn pack(&self, enc: &mut Encoder) -> (n: usize) {
        let bytes = u64_to_le_bytes(*self);
        enc.append_slice(bytes.as_slice());
        proof {
            lemma_auto_spec_u64_to_from_le_bytes();
            assert(enc@ == old(enc)@ + <u64 as Packer>::spec_enc(*self));
            assert(<u64 as Packer>::spec_enc(*self).len() == 8);
        }
        8
    }

    fn unpack(&mut self, data: &[u8]) -> (r: Result<usize, CodecError>) {
        if data.len() < 8 {
            Err(CodecError::BufferOverflow)
        } else {
            let sub = vstd::slice::slice_subrange(data, 0, 8);
            *self = u64_from_le_bytes(sub);
            Ok(8)
        }
    }
}

impl Packer for u128 {
    open spec fn spec_wf(v: u128) -> bool {
        true
    }

    open spec fn spec_enc(v: u128) -> Seq<u8> {
        spec_u128_to_le_bytes(v)
    }

    open spec fn spec_decode(data: Seq<u8>) -> Result<(u128, int), CodecError> {
        if data.len() < 16 {
            Err(CodecError::BufferOverflow)
        } else {
            Ok((spec_u128_from_le_bytes(data.subrange(0, 16)), 16))
        }
    }

    proof fn lemma_decode_encode(v: u128, rest: Seq<u8>) {
        lemma_auto_spec_u128_to_from_le_bytes();
        assert((spec_u128_to_le_bytes(v) + rest).subrange(0, 16) =~= spec_u128_to_le_bytes(v));
    }

    proof fn lemma_decode_ok(data: Seq<u8>) {
        lemma_auto_spec_u128_to_from_le_bytes();
    }

    fn size(&self) -> (n: usize) {
        proof {
            lemma_auto_spec_u128_to_from_le_bytes();
        }
        16
    }

    fn pack(&self, enc: &mut Encoder) -> (n: usize) {
        proof {
            lemma_auto_spec_u128_to_from_le_bytes();
        }
        let bytes = u128_to_le_bytes(*self);
        enc.append_slice(bytes.as_slice());
        16
    }

    fn unpack(&mut self, data: &[u8]) -> (r: Result<usize, CodecError>) {
        if data.len() < 16 {
            Err(CodecError::BufferOverflow)
        } else {
            let sub = vstd::slice::slice_subrange(data, 0, 16);
            *self = u128_from_le_bytes(sub);
            Ok(16)
        }
    }
}

} // verus!
