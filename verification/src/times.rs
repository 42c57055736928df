//! Time values: a microsecond count, a second count, and a block slot
//! count, each packing as its natural little-endian width.

use vstd::bytes::*;
use vstd::prelude::*;

use crate::codec::CodecError;
use crate::codec::Encoder;
use crate::codec::Packer;

verus! {

/// A point in time as a 64-bit count of elapsed microseconds; 8 bytes on
/// the wire.
#[derive(Clone, Copy, PartialEq, Eq, Debug)]
pub struct TimePoint {
    /// elapsed in microseconds
    pub elapsed: u64,
}

impl View for TimePoint {
    type V = u64;

    open spec fn view(&self) -> u64 {
        self.elapsed
    }
}

impl Default for TimePoint {
    fn default() -> (r: TimePoint)
        ensures
            r@ == 0,
    {
        TimePoint { elapsed: 0 }
    }
}

impl Packer for TimePoint {
    open spec fn spec_wf(v: u64) -> bool {
        true
    }

    open spec fn spec_enc(v: u64) -> Seq<u8> {
        spec_u64_to_le_bytes(v)
    }

    open spec fn spec_decode(data: Seq<u8>) -> Result<(u64, int), CodecError> {
        if data.len() < 8 {
            Err(CodecError::BufferOverflow)
        } else {
            Ok((spec_u64_from_le_bytes(data.subrange(0, 8)), 8))
        }
    }

    proof fn lemma_decode_encode(v: u64, rest: Seq<u8>) {
        lemma_auto_spec_u64_to_from_le_bytes();
        assert((spec_u64_to_le_bytes(v) + rest).subrange(0, 8) =~= spec_u64_to_le_bytes(v));
    }

    proof fn lemma_decode_ok(data: Seq<u8>) {
        lemma_auto_spec_u64_to_from_le_bytes();
    }

    fn size(&self) -> (n: usize) {
        proof {
            lemma_auto_spec_u64_to_from_le_bytes();
        }
        8
    }

    fn pack(&self, enc: &mut Encoder) -> (n: usize) {
        self.elapsed.pack(enc)
    }

    fn unpack(&mut self, data: &[u8]) -> (r: Result<usize, CodecError>) {
        let mut x: u64 = 0;
        match x.unpack(data) {
            Ok(k) => {
                self.elapsed = x;
                Ok(k)
            },
            Err(e) => Err(e),
        }
    }
}

/// A point in time as a 32-bit count of seconds; 4 bytes on the wire.
#[derive(Clone, Copy, PartialEq, Eq, Debug)]
pub struct TimePointSec {
    pub seconds: u32,
}

impl View for TimePointSec {
    type V = u32;

    open spec fn view(&self) -> u32 {
        self.seconds
    }
}

impl TimePointSec {
    /// Wrap a second count.
    pub fn new(seconds: u32) -> (r: TimePointSec)
        ensures
            r@ == seconds,
    {
        TimePointSec { seconds }
    }

    /// The wrapped second count.
    pub fn seconds(&self) -> (r: u32)
        ensures
            r == self@,
    {
        self.seconds
    }
}

impl Default for TimePointSec {
    fn default() -> (r: TimePointSec)
        ensures
            r@ == 0,
    {
        TimePointSec { seconds: 0 }
    }
}

impl Packer for TimePointSec {
    open spec fn spec_wf(v: u32) -> bool {
        true
    }

    open spec fn spec_enc(v: u32) -> Seq<u8> {
        spec_u32_to_le_bytes(v)
    }

    open spec fn spec_decode(data: Seq<u8>) -> Result<(u32, int), CodecError> {
        if data.len() < 4 {
            Err(CodecError::BufferOverflow)
        } else {
            Ok((spec_u32_from_le_bytes(data.subrange(0, 4)), 4))
        }
    }

    proof fn lemma_decode_encode(v: u32, rest: Seq<u8>) {
        lemma_auto_spec_u32_to_from_le_bytes();
        assert((spec_u32_to_le_bytes(v) + rest).subrange(0, 4) =~= spec_u32_to_le_bytes(v));
    }

    proof fn lemma_decode_ok(data: Seq<u8>) {
        lemma_auto_spec_u32_to_from_le_bytes();
    }

    fn size(&self) -> (n: usize) {
        proof {
            lemma_auto_spec_u32_to_from_le_bytes();
        }
        4
    }

    fn pack(&self, enc: &mut Encoder) -> (n: usize) {
        self.seconds.pack(enc)
    }

    fn unpack(&mut self, data: &[u8]) -> (r: Result<usize, CodecError>) {
        let mut x: u32 = 0;
        match x.unpack(data) {
            Ok(k) => {
                self.seconds = x;
                Ok(k)
            },
            Err(e) => Err(e),
        }
    }
}

/// A block timestamp as a 32-bit slot count; 4 bytes on the wire.
#[derive(Clone, Copy, PartialEq, Eq, Debug)]
pub struct BlockTimeStampType {
    pub slot: u32,
}

impl View for BlockTimeStampType {
    type V = u32;

    open spec fn view(&self) -> u32 {
        self.slot
    }
}

impl Default for BlockTimeStampType {
    fn default() -> (r: BlockTimeStampType)
        ensures
            r@ == 0,
    {
        BlockTimeStampType { slot: 0 }
    }
}

impl Packer for BlockTimeStampType {
    open spec fn spec_wf(v: u32) -> bool {
        true
    }

    open spec fn spec_enc(v: u32) -> Seq<u8> {
        spec_u32_to_le_bytes(v)
    }

    open spec fn spec_decode(data: Seq<u8>) -> Result<(u32, int), CodecError> {
        if data.len() < 4 {
            Err(CodecError::BufferOverflow)
        } else {
            Ok((spec_u32_from_le_bytes(data.subrange(0, 4)), 4))
        }
    }

    proof fn lemma_decode_encode(v: u32, rest: Seq<u8>) {
        lemma_auto_spec_u32_to_from_le_bytes();
        assert((spec_u32_to_le_bytes(v) + rest).subrange(0, 4) =~= spec_u32_to_le_bytes(v));
    }

    proof fn lemma_decode_ok(data: Seq<u8>) {
        lemma_auto_spec_u32_to_from_le_bytes();
    }

    fn size(&self) -> (n: usize) {
        proof {
            lemma_auto_spec_u32_to_from_le_bytes();
        }
        4
    }

    fn pack(&self, enc: &mut Encoder) -> (n: usize) {
        self.slot.pack(enc)
    }

    fn unpack(&mut self, data: &[u8]) -> (r: Result<usize, CodecError>) {
        let mut x: u32 = 0;
        match x.unpack(data) {
            Ok(k) => {
                self.slot = x;
                Ok(k)
            },
            Err(e) => Err(e),
        }
    }
}

} // verus!
