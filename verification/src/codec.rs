//! The encode/decode framework: error kind, growable-buffer encoder,
//! cursor-based decoder, and the `Packer` contract that every
//! serializable type implements.

use vstd::prelude::*;

verus! {

broadcast use vstd::array::group_array_axioms;

/// Why a decode (or a hex parse) was rejected. Corrupted consensus-relevant
/// data is never patched over: every `unpack` reports exactly one of these
/// instead of returning a partial value.
#[derive(Clone, Copy, PartialEq, Eq, Structural, Debug)]
pub enum CodecError {
    /// The input buffer is shorter than the bytes the type needs.
    BufferOverflow,
    /// A tagged union's leading discriminant byte is outside its defined set.
    BadVariant,
    /// A signature's type byte is not 0, the only valid signature type.
    BadSignatureType,
    /// A hex string's length is not exactly two characters per byte.
    BadHexLength,
    /// A hex string holds a character that is not a hexadecimal digit.
    BadHexChar,
    /// A variable-length unsigned integer does not fit in 32 bits.
    BadVarUint,
}

/// An append-only growable byte buffer; types write their serialized
/// bytes into it. Its view is the byte sequence written so far.
pub struct Encoder {
    buf: Vec<u8>,
}

impl View for Encoder {
    type V = Seq<u8>;

    closed spec fn view(&self) -> Seq<u8> {
        self.buf@
    }
}

impl Encoder {
    /// A fresh encoder holding no bytes.
    pub fn new() -> (e: Encoder)
        ensures
            e@ == Seq::<u8>::empty(),
    {
        Encoder { buf: Vec::new() }
    }

    /// Current total buffer length; composite types take the delta between
    /// two calls to report how many bytes a `pack` wrote.
    pub fn get_size(&self) -> (n: usize)
        ensures
            n == self@.len(),
    {
        self.buf.len()
    }

    /// Append one byte at the end of the buffer.
    pub fn append_byte(&mut self, b: u8)
        ensures
            final(self)@ == old(self)@.push(b),
    {
        self.buf.push(b);
    }

    /// Append a byte region verbatim at the end of the buffer.
    pub fn append_slice(&mut self, bytes: &[u8])
        ensures
            final(self)@ == old(self)@ + bytes@,
    {
        let mut i: usize = 0;
        while i < bytes.len()
            invariant
                i <= bytes@.len(),
                self@ == old(self)@ + bytes@.take(i as int),
            decreases bytes@.len() - i,
        {
            self.buf.push(bytes[i]);
            i = i + 1;
            proof {
                assert(bytes@.take(i as int) == bytes@.take(i - 1).push(bytes@[i - 1]));
            }
        }
        proof {
            assert(bytes@.take(bytes@.len() as int) == bytes@);
        }
    }

    /// Hand the accumulated bytes out, consuming the encoder.
    pub fn into_bytes(self) -> (v: Vec<u8>)
        ensures
            v@ == self@,
    {
        self.buf
    }
}

/// The uniform operation set every serializable type implements, stated
/// over each type's mathematical view:
/// - `spec_enc` is the one canonical byte layout of a well-formed value;
/// - `spec_decode` says, for every input, either which value the front of
///   the input denotes and how many bytes it occupies, or with which error
///   the input is rejected;
/// - the two laws tie them together: decoding an encoding yields the value
///   back, and decoding never consumes more than the input.
pub trait Packer: Sized + View {
    /// Which views are well-formed values of this type.
    spec fn spec_wf(v: Self::V) -> bool;

    /// The canonical wire bytes of a well-formed value.
    spec fn spec_enc(v: Self::V) -> Seq<u8>;

    /// The total decoding function: the value denoted by the front of
    /// `data` and the exact count of bytes it occupies, or the error.
    spec fn spec_decode(data: Seq<u8>) -> Result<(Self::V, int), CodecError>;

    /// Round-trip law: decoding an encoding, whatever follows it, yields
    /// the encoded value and consumes exactly the encoding's length.
    proof fn lemma_decode_encode(v: Self::V, rest: Seq<u8>)
        requires
            Self::spec_wf(v),
        ensures
            Self::spec_decode(Self::spec_enc(v) + rest) == Ok::<(Self::V, int), CodecError>(
                (v, Self::spec_enc(v).len() as int),
            ),
    ;

    /// A successful decode yields a well-formed value and consumes at most
    /// the whole input.
    proof fn lemma_decode_ok(data: Seq<u8>)
        ensures
            Self::spec_decode(data) matches Ok((v, n)) ==> Self::spec_wf(v) && 0 <= n
                <= data.len(),
    ;

    /// Exact wire length the current value would produce.
    fn size(&self) -> (n: usize)
        requires
            Self::spec_wf(self@),
            Self::spec_enc(self@).len() <= usize::MAX,
        ensures
            n == Self::spec_enc(self@).len(),
    ;

    /// Write the value's canonical bytes at the end of the encoder and
    /// return how many bytes were written.
    fn pack(&self, enc: &mut Encoder) -> (n: usize)
        requires
            Self::spec_wf(self@),
            old(enc)@.len() + Self::spec_enc(self@).len() <= usize::MAX,
        ensures
            final(enc)@ == old(enc)@ + Self::spec_enc(self@),
            n == Self::spec_enc(self@).len(),
    ;

    /// Read a value out of the front of `data`, mutate `self` in place,
    /// and return the count of bytes consumed; or report why the front of
    /// `data` denotes no value of this type. On an error `self` is not to
    /// be relied upon.
    fn unpack(&mut self, data: &[u8]) -> (r: Result<usize, CodecError>)
        ensures
            match Self::spec_decode(data@) {
                Ok((v, n)) => r == Ok::<usize, CodecError>(n as usize) && final(self)@ == v,
                Err(e) => r == Err::<usize, CodecError>(e),
            },
    ;
}

/// Round-trip law for every type: decoding exactly the bytes that a
/// well-formed value packs to yields that value back, and the byte count
/// consumed equals the byte count produced, which equals the value's size.
pub proof fn lemma_round_trip<T: Packer>(v: T::V)
    requires
        T::spec_wf(v),
    ensures
        T::spec_decode(T::spec_enc(v)) == Ok::<(T::V, int), CodecError>(
            (v, T::spec_enc(v).len() as int),
        ),
{
    T::lemma_decode_encode(v, Seq::<u8>::empty());
    assert(T::spec_enc(v) + Seq::<u8>::empty() == T::spec_enc(v));
}

/// Determinism law for every type: packing the same logical value twice
/// yields byte-identical output, because the canonical encoding is a
/// function of the value's view alone.
pub proof fn lemma_pack_deterministic<T: Packer>(a: T, b: T)
    requires
        a@ == b@,
    ensures
        T::spec_enc(a@) == T::spec_enc(b@),
{
}

/// Copy the first `N` bytes of a region verbatim into a fresh fixed-size
/// array; every fixed-size type's `unpack` fills its storage this way.
pub fn copy_bytes_n<const N: usize>(src: &[u8]) -> (a: [u8; N])
    requires
        N <= src@.len(),
    ensures
        a@ == src@.subrange(0, N as int),
{
    let mut a: [u8; N] = [0u8; N];
    let mut i: usize = 0;
    while i < N
        invariant
            i <= N,
            N <= src@.len(),
            a@.len() == N,
            forall|j: int| 0 <= j < i ==> a@[j] == src@[j],
        decreases N - i,
    {
        a[i] = src[i];
        i = i + 1;
    }
    proof {
        assert(a@ =~= src@.subrange(0, N as int));
    }
    a
}

/// A sequential cursor over a fixed byte region; types read their
/// serialized bytes from the front of what remains and advance the cursor.
pub struct Decoder<'a> {
    buf: &'a [u8],
    pos: usize,
}

impl<'a> Decoder<'a> {
    /// The whole wrapped byte region.
    pub closed spec fn spec_buf(&self) -> Seq<u8> {
        self.buf@
    }

    /// The cursor offset: how many bytes were consumed so far.
    pub closed spec fn spec_pos(&self) -> int {
        self.pos as int
    }

    /// The cursor never passes the end of the wrapped region.
    pub open spec fn wf(&self) -> bool {
        self.spec_pos() <= self.spec_buf().len()
    }

    /// The unread bytes, from the cursor to the end of the region.
    pub open spec fn remaining(&self) -> Seq<u8> {
        self.spec_buf().skip(self.spec_pos())
    }

    /// Wrap a read-only byte region; the cursor starts at 0.
    pub fn new(data: &'a [u8]) -> (d: Decoder<'a>)
        ensures
            d.wf(),
            d.spec_buf() == data@,
            d.spec_pos() == 0,
            d.remaining() == data@,
    {
        let d = Decoder { buf: data, pos: 0 };
        proof {
            assert(data@.skip(0) == data@);
        }
        d
    }

    /// Current cursor offset; composite types return this as their own
    /// total consumed length.
    pub fn get_pos(&self) -> (n: usize)
        ensures
            n == self.spec_pos(),
    {
        self.pos
    }

    /// Invoke the value's own `unpack` against the remaining unread bytes,
    /// then advance the cursor by the count of bytes that call consumed.
    pub fn unpack<T: Packer>(&mut self, v: &mut T) -> (r: Result<usize, CodecError>)
        requires
            old(self).wf(),
        ensures
            final(self).spec_buf() == old(self).spec_buf(),
            match T::spec_decode(old(self).remaining()) {
                Ok((x, n)) => {
                    &&& r == Ok::<usize, CodecError>(n as usize)
                    &&& final(v)@ == x
                    &&& final(self).wf()
                    &&& final(self).spec_pos() == old(self).spec_pos() + n
                },
                Err(e) => r == Err::<usize, CodecError>(e) && *final(self) == *old(self),
            },
    {
        let tail = vstd::slice::slice_subrange(self.buf, self.pos, self.buf.len());
        match v.unpack(tail) {
            Ok(n) => {
                proof {
                    T::lemma_decode_ok(tail@);
                }
                self.pos = self.pos + n;
                Ok(n)
            },
            Err(e) => Err(e),
        }
    }

    /// Read the next `n` raw bytes verbatim and advance the cursor, or
    /// reject an undersized remainder without moving.
    pub fn read_bytes(&mut self, n: usize) -> (r: Result<Vec<u8>, CodecError>)
        requires
            old(self).wf(),
        ensures
            final(self).spec_buf() == old(self).spec_buf(),
            if n <= old(self).remaining().len() {
                match r {
                    Ok(v) => {
                        &&& v@ == old(self).remaining().subrange(0, n as int)
                        &&& final(self).wf()
                        &&& final(self).spec_pos() == old(self).spec_pos() + n
                    },
                    Err(_) => false,
                }
            } else {
                r == Err::<Vec<u8>, CodecError>(CodecError::BufferOverflow) && *final(self) == *old(
                    self,
                )
            },
    {
        if n > self.buf.len() - self.pos {
            Err(CodecError::BufferOverflow)
        } else {
            let piece = vstd::slice::slice_subrange(self.buf, self.pos, self.pos + n);
            let v = vstd::slice::slice_to_vec(piece);
            self.pos = self.pos + n;
            proof {
                assert(v@ =~= old(self).remaining().subrange(0, n as int));
            }
            Ok(v)
        }
    }
}

} // verus!
