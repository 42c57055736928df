//! Variable-length unsigned 32-bit integers: the count prefix of every
//! length-prefixed collection. Seven value bits per byte, low group first;
//! a set high bit announces another byte. Encoding is minimal (no trailing
//! zero groups); decoding also accepts padded forms but rejects anything
//! that does not fit in 32 bits.

use vstd::prelude::*;

use crate::codec::CodecError;
use crate::codec::Encoder;
use crate::codec::Packer;

verus! {

/// A 32-bit count in variable-length encoding, one to five bytes.
#[derive(Clone, Copy, PartialEq, Eq, Debug)]
pub struct VarUint32 {
    pub n: u32,
}

impl View for VarUint32 {
    type V = u32;

    open spec fn view(&self) -> u32 {
        self.n
    }
}

impl VarUint32 {
    /// Wrap a count.
    pub fn new(n: u32) -> (r: VarUint32)
        ensures
            r@ == n,
    {
        VarUint32 { n }
    }

    /// The wrapped count.
    pub fn value(&self) -> (r: u32)
        ensures
            r == self@,
    {
        self.n
    }
}

impl Default for VarUint32 {
    fn default() -> (r: VarUint32)
        ensures
            r@ == 0,
    {
        VarUint32 { n: 0 }
    }
}

/// The value the first `k` variable-length groups of `data` denote.
pub open spec fn vu32_val(data: Seq<u8>, k: int) -> u32 {
    if k == 1 {
        (data[0] & 0x7f) as u32
    } else if k == 2 {
        ((data[0] & 0x7f) as u32) | (((data[1] & 0x7f) as u32) << 7)
    } else if k == 3 {
        ((data[0] & 0x7f) as u32) | (((data[1] & 0x7f) as u32) << 7) | (((data[2] & 0x7f) as u32)
            << 14)
    } else if k == 4 {
        ((data[0] & 0x7f) as u32) | (((data[1] & 0x7f) as u32) << 7) | (((data[2] & 0x7f) as u32)
            << 14) | (((data[3] & 0x7f) as u32) << 21)
    } else {
        ((data[0] & 0x7f) as u32) | (((data[1] & 0x7f) as u32) << 7) | (((data[2] & 0x7f) as u32)
            << 14) | (((data[3] & 0x7f) as u32) << 21) | ((data[4] as u32) << 28)
    }
}

/// The variable-length encoding of a 32-bit value is one to five bytes.
pub proof fn lemma_varuint32_enc_len(v: u32)
    ensures
        1 <= VarUint32::spec_enc(v).len() <= 5,
{
}

impl Packer for VarUint32 {
    open spec fn spec_wf(v: u32) -> bool {
        true
    }

    open spec fn spec_enc(v: u32) -> Seq<u8> {
        if v < 0x80 {
            seq![v as u8]
        } else if v < 0x4000 {
            seq![((v & 0x7f) | 0x80) as u8, (v >> 7) as u8]
        } else if v < 0x200000 {
            seq![((v & 0x7f) | 0x80) as u8, (((v >> 7) & 0x7f) | 0x80) as u8, (v >> 14) as u8]
        } else if v < 0x10000000 {
            seq![
                ((v & 0x7f) | 0x80) as u8,
                (((v >> 7) & 0x7f) | 0x80) as u8,
                (((v >> 14) & 0x7f) | 0x80) as u8,
                (v >> 21) as u8,
            ]
        } else {
            seq![
                ((v & 0x7f) | 0x80) as u8,
                (((v >> 7) & 0x7f) | 0x80) as u8,
                (((v >> 14) & 0x7f) | 0x80) as u8,
                (((v >> 21) & 0x7f) | 0x80) as u8,
                (v >> 28) as u8,
            ]
        }
    }

    open spec fn spec_decode(data: Seq<u8>) -> Result<(u32, int), CodecError> {
        if data.len() < 1 {
            Err(CodecError::BufferOverflow)
        } else if data[0] < 0x80 {
            Ok((vu32_val(data, 1), 1))
        } else if data.len() < 2 {
            Err(CodecError::BufferOverflow)
        } else if data[1] < 0x80 {
            Ok((vu32_val(data, 2), 2))
        } else if data.len() < 3 {
            Err(CodecError::BufferOverflow)
        } else if data[2] < 0x80 {
            Ok((vu32_val(data, 3), 3))
        } else if data.len() < 4 {
            Err(CodecError::BufferOverflow)
        } else if data[3] < 0x80 {
            Ok((vu32_val(data, 4), 4))
        } else if data.len() < 5 {
            Err(CodecError::BufferOverflow)
        } else if data[4] < 0x10 {
            Ok((vu32_val(data, 5), 5))
        } else {
            Err(CodecError::BadVarUint)
        }
    }

    proof fn lemma_decode_encode(v: u32, rest: Seq<u8>) {
        let enc = Self::spec_enc(v);
        let data = enc + rest;
        if v < 0x80 {
            assert((v as u8) < 0x80 && ((v as u8) & 0x7f) as u32 == v) by (bit_vector)
                requires
                    v < 0x80,
            ;
        } else if v < 0x4000 {
            let b0 = ((v & 0x7f) | 0x80) as u8;
            let b1 = (v >> 7) as u8;
            assert(b0 >= 0x80 && b1 < 0x80 && (((b0 & 0x7f) as u32) | (((b1 & 0x7f) as u32) << 7))
                == v) by (bit_vector)
                requires
                    0x80 <= v < 0x4000 && b0 == ((v & 0x7f) | 0x80) as u8 && b1 == (v >> 7) as u8,
            ;
        } else if v < 0x200000 {
            let b0 = ((v & 0x7f) | 0x80) as u8;
            let b1 = (((v >> 7) & 0x7f) | 0x80) as u8;
            let b2 = (v >> 14) as u8;
            assert(b0 >= 0x80 && b1 >= 0x80 && b2 < 0x80 && (((b0 & 0x7f) as u32) | (((b1
                & 0x7f) as u32) << 7) | (((b2 & 0x7f) as u32) << 14)) == v) by (bit_vector)
                requires
                    0x4000 <= v < 0x200000 && b0 == ((v & 0x7f) | 0x80) as u8 && b1 == (((v >> 7)
                        & 0x7f) | 0x80) as u8 && b2 == (v >> 14) as u8,
            ;
        } else if v < 0x10000000 {
            let b0 = ((v & 0x7f) | 0x80) as u8;
            let b1 = (((v >> 7) & 0x7f) | 0x80) as u8;
            let b2 = (((v >> 14) & 0x7f) | 0x80) as u8;
            let b3 = (v >> 21) as u8;
            assert(b0 >= 0x80 && b1 >= 0x80 && b2 >= 0x80 && b3 < 0x80 && (((b0 & 0x7f) as u32) | (
            ((b1 & 0x7f) as u32) << 7) | (((b2 & 0x7f) as u32) << 14) | (((b3 & 0x7f) as u32) << 21))
                == v) by (bit_vector)
                requires
                    0x200000 <= v < 0x10000000 && b0 == ((v & 0x7f) | 0x80) as u8 && b1 == (((v
                        >> 7) & 0x7f) | 0x80) as u8 && b2 == (((v >> 14) & 0x7f) | 0x80) as u8 && b3
                        == (v >> 21) as u8,
            ;
        } else {
            let b0 = ((v & 0x7f) | 0x80) as u8;
            let b1 = (((v >> 7) & 0x7f) | 0x80) as u8;
            let b2 = (((v >> 14) & 0x7f) | 0x80) as u8;
            let b3 = (((v >> 21) & 0x7f) | 0x80) as u8;
            let b4 = (v >> 28) as u8;
            assert(b0 >= 0x80 && b1 >= 0x80 && b2 >= 0x80 && b3 >= 0x80 && b4 < 0x10 && (((b0
                & 0x7f) as u32) | (((b1 & 0x7f) as u32) << 7) | (((b2 & 0x7f) as u32) << 14) | (((b3
                & 0x7f) as u32) << 21) | ((b4 as u32) << 28)) == v) by (bit_vector)
                requires
                    0x10000000 <= v && b0 == ((v & 0x7f) | 0x80) as u8 && b1 == (((v >> 7) & 0x7f)
                        | 0x80) as u8 && b2 == (((v >> 14) & 0x7f) | 0x80) as u8 && b3 == (((v >> 21)
                        & 0x7f) | 0x80) as u8 && b4 == (v >> 28) as u8,
            ;
        }
    }

    proof fn lemma_decode_ok(data: Seq<u8>) {
    }

    fn size(&self) -> (n: usize) {
        if self.n < 0x80 {
            1
        } else if self.n < 0x4000 {
            2
        } else if self.n < 0x200000 {
            3
        } else if self.n < 0x10000000 {
            4
        } else {
            5
        }
    }

    fn pack(&self, enc: &mut Encoder) -> (n: usize) {
        let v = self.n;
        if v < 0x80 {
            enc.append_byte(v as u8);
            proof {
                assert(old(enc)@.push(v as u8) =~= old(enc)@ + Self::spec_enc(self@));
            }
            1
        } else if v < 0x4000 {
            enc.append_byte(((v & 0x7f) | 0x80) as u8);
            enc.append_byte((v >> 7) as u8);
            proof {
                assert((v >> 7) < 0x100) by (bit_vector)
                    requires
                        v < 0x4000,
                ;
                assert(enc@ =~= old(enc)@ + Self::spec_enc(self@));
            }
            2
        } else if v < 0x200000 {
            enc.append_byte(((v & 0x7f) | 0x80) as u8);
            enc.append_byte((((v >> 7) & 0x7f) | 0x80) as u8);
            enc.append_byte((v >> 14) as u8);
            proof {
                assert((v >> 14) < 0x100) by (bit_vector)
                    requires
                        v < 0x200000,
                ;
                assert(enc@ =~= old(enc)@ + Self::spec_enc(self@));
            }
            3
        } else if v < 0x10000000 {
            enc.append_byte(((v & 0x7f) | 0x80) as u8);
            enc.append_byte((((v >> 7) & 0x7f) | 0x80) as u8);
            enc.append_byte((((v >> 14) & 0x7f) | 0x80) as u8);
            enc.append_byte((v >> 21) as u8);
            proof {
                assert((v >> 21) < 0x100) by (bit_vector)
                    requires
                        v < 0x10000000,
                ;
                assert(enc@ =~= old(enc)@ + Self::spec_enc(self@));
            }
            4
        } else {
            enc.append_byte(((v & 0x7f) | 0x80) as u8);
            enc.append_byte((((v >> 7) & 0x7f) | 0x80) as u8);
            enc.append_byte((((v >> 14) & 0x7f) | 0x80) as u8);
            enc.append_byte((((v >> 21) & 0x7f) | 0x80) as u8);
            enc.append_byte((v >> 28) as u8);
            proof {
                assert((v >> 28) < 0x100) by (bit_vector);
                assert(enc@ =~= old(enc)@ + Self::spec_enc(self@));
            }
            5
        }
    }

    fn unpack(&mut self, data: &[u8]) -> (r: Result<usize, CodecError>) {
        if data.len() < 1 {
            Err(CodecError::BufferOverflow)
        } else if data[0] < 0x80 {
            self.n = data[0] as u32;
            proof {
                let b = data@[0];
                assert(b < 0x80 ==> ((b & 0x7f) as u32) == b as u32) by (bit_vector);
            }
            Ok(1)
        } else if data.len() < 2 {
            Err(CodecError::BufferOverflow)
        } else if data[1] < 0x80 {
            self.n = ((data[0] & 0x7f) as u32) | (((data[1] & 0x7f) as u32) << 7);
            Ok(2)
        } else if data.len() < 3 {
            Err(CodecError::BufferOverflow)
        } else if data[2] < 0x80 {
            self.n = ((data[0] & 0x7f) as u32) | (((data[1] & 0x7f) as u32) << 7) | (((data[2]
                & 0x7f) as u32) << 14);
            Ok(3)
        } else if data.len() < 4 {
            Err(CodecError::BufferOverflow)
        } else if data[3] < 0x80 {
            self.n = ((data[0] & 0x7f) as u32) | (((data[1] & 0x7f) as u32) << 7) | (((data[2]
                & 0x7f) as u32) << 14) | (((data[3] & 0x7f) as u32) << 21);
            Ok(4)
        } else if data.len() < 5 {
            Err(CodecError::BufferOverflow)
        } else if data[4] < 0x10 {
            self.n = ((data[0] & 0x7f) as u32) | (((data[1] & 0x7f) as u32) << 7) | (((data[2]
                & 0x7f) as u32) << 14) | (((data[3] & 0x7f) as u32) << 21) | ((data[4] as u32)
                << 28);
            Ok(5)
        } else {
            Err(CodecError::BadVarUint)
        }
    }
}

} // verus!
