//! Public keys and signatures: the 33-byte compressed elliptic-curve
//! point, the WebAuthn key record, the tagged `PublicKey` union with one
//! leading discriminant byte, and the 66-byte signature record.

use vstd::prelude::*;
use vstd::string::StringSliceAdditionalSpecFns;

use crate::codec::copy_bytes_n;
use crate::codec::CodecError;
use crate::codec::Decoder;
use crate::codec::Encoder;
use crate::codec::Packer;
use crate::hexstr::decode_hex;
use crate::hexstr::encode_hex;
use crate::hexstr::hex_bytes_ok;
use crate::hexstr::spec_hex_decode;
use crate::hexstr::spec_hex_encode;
use crate::varint::VarUint32;

verus! {

broadcast use vstd::array::group_array_axioms;

/// A compressed elliptic-curve public key: 33 bytes copied verbatim on
/// the wire; the curve is identified by the enclosing `PublicKey` variant.
#[derive(Clone, Copy, PartialEq, Eq, Debug)]
pub struct ECCPublicKey {
    pub data: [u8; 33],
}

impl View for ECCPublicKey {
    type V = Seq<u8>;

    open spec fn view(&self) -> Seq<u8> {
        self.data@
    }
}

impl ECCPublicKey {
    /// Build from exactly 66 hexadecimal characters, two per byte.
    pub fn from_hex(s: &str) -> (r: Result<ECCPublicKey, CodecError>)
        ensures
            match r {
                Ok(c) => s.spec_bytes().len() == 66 && hex_bytes_ok(s.spec_bytes()) && c@
                    == spec_hex_decode(s.spec_bytes()),
                Err(e) => (e == CodecError::BadHexLength && s.spec_bytes().len() != 66) || (e
                    == CodecError::BadHexChar && s.spec_bytes().len() == 66 && !hex_bytes_ok(
                    s.spec_bytes(),
                )),
            },
    {
        let bytes = s.as_bytes();
        if bytes.len() != 66 {
            return Err(CodecError::BadHexLength);
        }
        match decode_hex(bytes) {
            Ok(v) => {
                let c = ECCPublicKey { data: copy_bytes_n(v.as_slice()) };
                proof {
                    assert(c@ =~= spec_hex_decode(s.spec_bytes()));
                }
                Ok(c)
            },
            Err(e) => Err(e),
        }
    }

    /// The lowercase hex spelling of the key bytes, two characters per byte.
    pub fn to_hex(&self) -> (r: String)
        ensures
            r@ == spec_hex_encode(self@),
    {
        encode_hex(self.data.as_slice())
    }
}

impl Default for ECCPublicKey {
    fn default() -> (r: ECCPublicKey)
        ensures
            r@ == Seq::new(33, |i: int| 0u8),
    {
        let r = ECCPublicKey { data: [0u8; 33] };
        proof {
            assert(r@ =~= Seq::new(33, |i: int| 0u8));
        }
        r
    }
}

impl Packer for ECCPublicKey {
    open spec fn spec_wf(v: Seq<u8>) -> bool {
        v.len() == 33
    }

    open spec fn spec_enc(v: Seq<u8>) -> Seq<u8> {
        v
    }

    open spec fn spec_decode(data: Seq<u8>) -> Result<(Seq<u8>, int), CodecError> {
        if data.len() < 33 {
            Err(CodecError::BufferOverflow)
        } else {
            Ok((data.subrange(0, 33), 33))
        }
    }

    proof fn lemma_decode_encode(v: Seq<u8>, rest: Seq<u8>) {
        assert((v + rest).subrange(0, 33) =~= v);
    }

    proof fn lemma_decode_ok(data: Seq<u8>) {
    }

    fn size(&self) -> (n: usize) {
        33
    }

    fn pack(&self, enc: &mut Encoder) -> (n: usize) {
        enc.append_slice(self.data.as_slice());
        33
    }

    fn unpack(&mut self, data: &[u8]) -> (r: Result<usize, CodecError>) {
        if data.len() < 33 {
            Err(CodecError::BufferOverflow)
        } else {
            self.data = copy_bytes_n(data);
            Ok(33)
        }
    }
}

/// The user-presence flag of a WebAuthn key: one byte on the wire,
/// 0 absent, 1 present, 2 verified.
#[derive(Clone, Copy, PartialEq, Eq, Structural, Debug)]
pub enum UserPresence {
    Absent,
    Present,
    Verified,
}

/// The wire byte of a user-presence flag.
pub open spec fn user_presence_tag(v: UserPresence) -> u8 {
    match v {
        UserPresence::Absent => 0,
        UserPresence::Present => 1,
        UserPresence::Verified => 2,
    }
}

impl View for UserPresence {
    type V = UserPresence;

    open spec fn view(&self) -> UserPresence {
        *self
    }
}

impl Default for UserPresence {
    fn default() -> (r: UserPresence)
        ensures
            r == UserPresence::Absent,
    {
        UserPresence::Absent
    }
}

impl Packer for UserPresence {
    open spec fn spec_wf(v: UserPresence) -> bool {
        true
    }

    open spec fn spec_enc(v: UserPresence) -> Seq<u8> {
        seq![user_presence_tag(v)]
    }

    open spec fn spec_decode(data: Seq<u8>) -> Result<(UserPresence, int), CodecError> {
        if data.len() < 1 {
            Err(CodecError::BufferOverflow)
        } else if data[0] == 0 {
            Ok((UserPresence::Absent, 1))
        } else if data[0] == 1 {
            Ok((UserPresence::Present, 1))
        } else if data[0] == 2 {
            Ok((UserPresence::Verified, 1))
        } else {
            Err(CodecError::BadVariant)
        }
    }

    proof fn lemma_decode_encode(v: UserPresence, rest: Seq<u8>) {
        assert((seq![user_presence_tag(v)] + rest)[0] == user_presence_tag(v));
    }

    proof fn lemma_decode_ok(data: Seq<u8>) {
    }

    fn size(&self) -> (n: usize) {
        1
    }

    fn pack(&self, enc: &mut Encoder) -> (n: usize) {
        let t: u8 = match self {
            UserPresence::Absent => 0,
            UserPresence::Present => 1,
            UserPresence::Verified => 2,
        };
        enc.append_byte(t);
        proof {
            assert(old(enc)@.push(t) =~= old(enc)@ + seq![user_presence_tag(*self)]);
        }
        1
    }

    fn unpack(&mut self, data: &[u8]) -> (r: Result<usize, CodecError>) {
        if data.len() < 1 {
            Err(CodecError::BufferOverflow)
        } else if data[0] == 0 {
            *self = UserPresence::Absent;
            Ok(1)
        } else if data[0] == 1 {
            *self = UserPresence::Present;
            Ok(1)
        } else if data[0] == 2 {
            *self = UserPresence::Verified;
            Ok(1)
        } else {
            Err(CodecError::BadVariant)
        }
    }
}

/// The mathematical view of a WebAuthn public key: the raw key bytes,
/// the presence flag, and the raw bytes of the relying-party id.
pub struct WebAuthNPublicKeyView {
    pub key: Seq<u8>,
    pub user_presence: UserPresence,
    pub rpid: Seq<u8>,
}

/// A WebAuthn public key: an EC key, a one-byte presence flag, and the
/// length-prefixed relying-party id, carried as its raw bytes.
#[derive(Clone, PartialEq, Eq, Debug)]
pub struct WebAuthNPublicKey {
    pub key: ECCPublicKey,
    pub user_presence: UserPresence,
    pub rpid: Vec<u8>,
}

impl View for WebAuthNPublicKey {
    type V = WebAuthNPublicKeyView;

    open spec fn view(&self) -> WebAuthNPublicKeyView {
        WebAuthNPublicKeyView {
            key: self.key@,
            user_presence: self.user_presence,
            rpid: self.rpid@,
        }
    }
}

impl WebAuthNPublicKey {
    /// Assemble a WebAuthn key from its three parts.
    pub fn new(key: ECCPublicKey, user_presence: UserPresence, rpid: Vec<u8>) -> (r:
        WebAuthNPublicKey)
        ensures
            r@.key == key@,
            r@.user_presence == user_presence,
            r@.rpid == rpid@,
    {
        WebAuthNPublicKey { key, user_presence, rpid }
    }
}

impl Default for WebAuthNPublicKey {
    fn default() -> (r: WebAuthNPublicKey)
        ensures
            r@.key == Seq::new(33, |i: int| 0u8),
            r@.user_presence == UserPresence::Absent,
            r@.rpid == Seq::<u8>::empty(),
    {
        let r = WebAuthNPublicKey {
            key: ECCPublicKey::default(),
            user_presence: UserPresence::Absent,
            rpid: Vec::new(),
        };
        r
    }
}

impl Packer for WebAuthNPublicKey {
    open spec fn spec_wf(v: WebAuthNPublicKeyView) -> bool {
        v.key.len() == 33 && v.rpid.len() <= u32::MAX
    }

    open spec fn spec_enc(v: WebAuthNPublicKeyView) -> Seq<u8> {
        v.key + seq![user_presence_tag(v.user_presence)] + VarUint32::spec_enc(
            v.rpid.len() as u32,
        ) + v.rpid
    }

    open spec fn spec_decode(data: Seq<u8>) -> Result<(WebAuthNPublicKeyView, int), CodecError> {
        match ECCPublicKey::spec_decode(data) {
            Ok((key, n1)) => match UserPresence::spec_decode(data.skip(n1)) {
                Ok((up, n2)) => match VarUint32::spec_decode(data.skip(n1 + n2)) {
                    Ok((len, n3)) => if data.len() - (n1 + n2 + n3) < len {
                        Err(CodecError::BufferOverflow)
                    } else {
                        Ok(
                            (
                                WebAuthNPublicKeyView {
                                    key,
                                    user_presence: up,
                                    rpid: data.subrange(n1 + n2 + n3, n1 + n2 + n3 + len),
                                },
                                n1 + n2 + n3 + len,
                            ),
                        )
                    },
                    Err(e) => Err(e),
                },
                Err(e) => Err(e),
            },
            Err(e) => Err(e),
        }
    }

    proof fn lemma_decode_encode(v: WebAuthNPublicKeyView, rest: Seq<u8>) {
        let up_enc = seq![user_presence_tag(v.user_presence)];
        let len_enc = VarUint32::spec_enc(v.rpid.len() as u32);
        let enc = Self::spec_enc(v);
        let data = enc + rest;
        assert(data.subrange(0, 33) =~= v.key);
        assert(data.len() >= 35);
        ECCPublicKey::lemma_decode_encode(v.key, up_enc + len_enc + v.rpid + rest);
        assert(v.key + (up_enc + len_enc + v.rpid + rest) =~= data);
        assert(data.skip(33) =~= up_enc + (len_enc + v.rpid + rest));
        UserPresence::lemma_decode_encode(v.user_presence, len_enc + v.rpid + rest);
        assert(data.skip(34) =~= len_enc + (v.rpid + rest));
        VarUint32::lemma_decode_encode(v.rpid.len() as u32, v.rpid + rest);
        let n3 = len_enc.len() as int;
        assert(data.len() - (34 + n3) == v.rpid.len() + rest.len());
        assert(data.subrange(34 + n3, 34 + n3 + v.rpid.len()) =~= v.rpid);
    }

    proof fn lemma_decode_ok(data: Seq<u8>) {
    }

    fn size(&self) -> (n: usize) {
        let len_pref = VarUint32::new(self.rpid.len() as u32);
        let pref_size = len_pref.size();
        33 + 1 + pref_size + self.rpid.len()
    }

    fn pack(&self, enc: &mut Encoder) -> (n: usize) {
        let pos = enc.get_size();
        self.key.pack(enc);
        self.user_presence.pack(enc);
        let len_pref = VarUint32::new(self.rpid.len() as u32);
        len_pref.pack(enc);
        enc.append_slice(self.rpid.as_slice());
        proof {
            assert(enc@ =~= old(enc)@ + Self::spec_enc(self@));
        }
        enc.get_size() - pos
    }

    fn unpack(&mut self, data: &[u8]) -> (r: Result<usize, CodecError>) {
        let mut dec = Decoder::new(data);
        match dec.unpack(&mut self.key) {
            Ok(_) => (),
            Err(e) => {
                return Err(e);
            },
        }
        match dec.unpack(&mut self.user_presence) {
            Ok(_) => (),
            Err(e) => {
                return Err(e);
            },
        }
        let mut len_pref = VarUint32::new(0);
        match dec.unpack(&mut len_pref) {
            Ok(_) => (),
            Err(e) => {
                return Err(e);
            },
        }
        let len = len_pref.value() as usize;
        match dec.read_bytes(len) {
            Ok(v) => {
                self.rpid = v;
                proof {
                    let d = data@;
                    match ECCPublicKey::spec_decode(d) {
                        Ok((key, n1)) => match UserPresence::spec_decode(d.skip(n1)) {
                            Ok((up, n2)) => match VarUint32::spec_decode(d.skip(n1 + n2)) {
                                Ok((l, n3)) => {
                                    assert(d.skip(n1 + n2 + n3).subrange(0, l as int) =~= d.subrange(
                                        n1 + n2 + n3,
                                        n1 + n2 + n3 + l,
                                    ));
                                },
                                Err(_) => {},
                            },
                            Err(_) => {},
                        },
                        Err(_) => {},
                    }
                }
                Ok(dec.get_pos())
            },
            Err(e) => Err(e),
        }
    }
}

/// The mathematical view of a public key: which curve or scheme, with the
/// variant's payload.
pub enum PublicKeyView {
    K1(Seq<u8>),
    R1(Seq<u8>),
    WebAuth(WebAuthNPublicKeyView),
}

/// A public key: a tagged union with one leading discriminant byte,
/// 0 for a K1 EC key, 1 for an R1 EC key, 2 for a WebAuthn key. An
/// unknown discriminant is rejected, never skipped.
#[derive(Clone, PartialEq, Eq, Debug)]
pub enum PublicKey {
    K1(ECCPublicKey),
    R1(ECCPublicKey),
    WebAuth(WebAuthNPublicKey),
}

impl View for PublicKey {
    type V = PublicKeyView;

    open spec fn view(&self) -> PublicKeyView {
        match self {
            PublicKey::K1(k) => PublicKeyView::K1(k@),
            PublicKey::R1(k) => PublicKeyView::R1(k@),
            PublicKey::WebAuth(k) => PublicKeyView::WebAuth(k@),
        }
    }
}

impl Default for PublicKey {
    fn default() -> (r: PublicKey)
        ensures
            r@ == PublicKeyView::K1(Seq::new(33, |i: int| 0u8)),
    {
        PublicKey::K1(ECCPublicKey::default())
    }
}

impl Packer for PublicKey {
    open spec fn spec_wf(v: PublicKeyView) -> bool {
        match v {
            PublicKeyView::K1(k) => ECCPublicKey::spec_wf(k),
            PublicKeyView::R1(k) => ECCPublicKey::spec_wf(k),
            PublicKeyView::WebAuth(k) => WebAuthNPublicKey::spec_wf(k),
        }
    }

    open spec fn spec_enc(v: PublicKeyView) -> Seq<u8> {
        match v {
            PublicKeyView::K1(k) => seq![0u8] + ECCPublicKey::spec_enc(k),
            PublicKeyView::R1(k) => seq![1u8] + ECCPublicKey::spec_enc(k),
            PublicKeyView::WebAuth(k) => seq![2u8] + WebAuthNPublicKey::spec_enc(k),
        }
    }

    open spec fn spec_decode(data: Seq<u8>) -> Result<(PublicKeyView, int), CodecError> {
        if data.len() < 34 {
            Err(CodecError::BufferOverflow)
        } else if data[0] == 0 {
            match ECCPublicKey::spec_decode(data.skip(1)) {
                Ok((k, n)) => Ok((PublicKeyView::K1(k), 1 + n)),
                Err(e) => Err(e),
            }
        } else if data[0] == 1 {
            match ECCPublicKey::spec_decode(data.skip(1)) {
                Ok((k, n)) => Ok((PublicKeyView::R1(k), 1 + n)),
                Err(e) => Err(e),
            }
        } else if data[0] == 2 {
            match WebAuthNPublicKey::spec_decode(data.skip(1)) {
                Ok((k, n)) => Ok((PublicKeyView::WebAuth(k), 1 + n)),
                Err(e) => Err(e),
            }
        } else {
            Err(CodecError::BadVariant)
        }
    }

    proof fn lemma_decode_encode(v: PublicKeyView, rest: Seq<u8>) {
        let enc = Self::spec_enc(v);
        let data = enc + rest;
        match v {
            PublicKeyView::K1(k) => {
                assert(data.len() >= 34);
                assert(data[0] == 0);
                ECCPublicKey::lemma_decode_encode(k, rest);
                assert(data.skip(1) =~= ECCPublicKey::spec_enc(k) + rest);
            },
            PublicKeyView::R1(k) => {
                assert(data.len() >= 34);
                assert(data[0] == 1);
                ECCPublicKey::lemma_decode_encode(k, rest);
                assert(data.skip(1) =~= ECCPublicKey::spec_enc(k) + rest);
            },
            PublicKeyView::WebAuth(k) => {
                assert(WebAuthNPublicKey::spec_enc(k).len() >= 35);
                assert(data.len() >= 34);
                assert(data[0] == 2);
                WebAuthNPublicKey::lemma_decode_encode(k, rest);
                assert(data.skip(1) =~= WebAuthNPublicKey::spec_enc(k) + rest);
            },
        }
    }

    proof fn lemma_decode_ok(data: Seq<u8>) {
        if data.len() >= 34 && data[0] == 2 {
            WebAuthNPublicKey::lemma_decode_ok(data.skip(1));
        }
    }

    fn size(&self) -> (n: usize) {
        match self {
            PublicKey::K1(k) => 1 + k.size(),
            PublicKey::R1(k) => 1 + k.size(),
            PublicKey::WebAuth(k) => 1 + k.size(),
        }
    }

    fn pack(&self, enc: &mut Encoder) -> (n: usize) {
        let pos = enc.get_size();
        match self {
            PublicKey::K1(k) => {
                enc.append_byte(0);
                k.pack(enc);
                proof {
                    assert(enc@ =~= old(enc)@ + Self::spec_enc(self@));
                }
            },
            PublicKey::R1(k) => {
                enc.append_byte(1);
                k.pack(enc);
                proof {
                    assert(enc@ =~= old(enc)@ + Self::spec_enc(self@));
                }
            },
            PublicKey::WebAuth(k) => {
                enc.append_byte(2);
                k.pack(enc);
                proof {
                    assert(enc@ =~= old(enc)@ + Self::spec_enc(self@));
                }
            },
        }
        enc.get_size() - pos
    }

    fn unpack(&mut self, data: &[u8]) -> (r: Result<usize, CodecError>) {
        if data.len() < 34 {
            return Err(CodecError::BufferOverflow);
        }
        let mut dec = Decoder::new(data);
        let mut t: u8 = 0;
        match dec.unpack(&mut t) {
            Ok(_) => (),
            Err(e) => {
                return Err(e);
            },
        }
        if t == 0 {
            let mut k = ECCPublicKey::default();
            match dec.unpack(&mut k) {
                Ok(_) => (),
                Err(e) => {
                    return Err(e);
                },
            }
            *self = PublicKey::K1(k);
            Ok(dec.get_pos())
        } else if t == 1 {
            let mut k = ECCPublicKey::default();
            match dec.unpack(&mut k) {
                Ok(_) => (),
                Err(e) => {
                    return Err(e);
                },
            }
            *self = PublicKey::R1(k);
            Ok(dec.get_pos())
        } else if t == 2 {
            let mut k = WebAuthNPublicKey::default();
            match dec.unpack(&mut k) {
                Ok(_) => (),
                Err(e) => {
                    return Err(e);
                },
            }
            *self = PublicKey::WebAuth(k);
            Ok(dec.get_pos())
        } else {
            Err(CodecError::BadVariant)
        }
    }
}

/// A signature: a one-byte signature type, which must be 0 (the only
/// valid type), followed by 65 raw signature bytes; 66 bytes in all.
#[derive(Clone, PartialEq, Eq, Debug)]
pub struct Signature {
    /// Signature type
    ty: u8,
    data: [u8; 65],
}

impl View for Signature {
    type V = Seq<u8>;

    closed spec fn view(&self) -> Seq<u8> {
        seq![self.ty] + self.data@
    }
}

impl Signature {
    /// Build from exactly 130 hexadecimal characters holding the 65
    /// signature bytes; the signature type is 0.
    pub fn from_hex(s: &str) -> (r: Result<Signature, CodecError>)
        ensures
            match r {
                Ok(c) => s.spec_bytes().len() == 130 && hex_bytes_ok(s.spec_bytes()) && c@
                    == seq![0u8] + spec_hex_decode(s.spec_bytes()),
                Err(e) => (e == CodecError::BadHexLength && s.spec_bytes().len() != 130) || (e
                    == CodecError::BadHexChar && s.spec_bytes().len() == 130 && !hex_bytes_ok(
                    s.spec_bytes(),
                )),
            },
    {
        let bytes = s.as_bytes();
        if bytes.len() != 130 {
            return Err(CodecError::BadHexLength);
        }
        match decode_hex(bytes) {
            Ok(v) => {
                let c = Signature { ty: 0, data: copy_bytes_n(v.as_slice()) };
                proof {
                    assert(c@ =~= seq![0u8] + spec_hex_decode(s.spec_bytes()));
                }
                Ok(c)
            },
            Err(e) => Err(e),
        }
    }

    /// The lowercase hex spelling of the 65 signature bytes.
    pub fn to_hex(&self) -> (r: String)
        ensures
            r@ == spec_hex_encode(self@.skip(1)),
    {
        let r = encode_hex(self.data.as_slice());
        proof {
            assert(self.data@ =~= self@.skip(1));
        }
        r
    }
}

impl Default for Signature {
    fn default() -> (r: Signature)
        ensures
            r@ == Seq::new(66, |i: int| 0u8),
    {
        let r = Signature { ty: 0, data: [0u8; 65] };
        proof {
            assert(r@ =~= Seq::new(66, |i: int| 0u8));
        }
        r
    }
}

impl Packer for Signature {
    open spec fn spec_wf(v: Seq<u8>) -> bool {
        v.len() == 66 && v[0] == 0
    }

    open spec fn spec_enc(v: Seq<u8>) -> Seq<u8> {
        v
    }

    open spec fn spec_decode(data: Seq<u8>) -> Result<(Seq<u8>, int), CodecError> {
        if data.len() < 66 {
            Err(CodecError::BufferOverflow)
        } else if data[0] != 0 {
            Err(CodecError::BadSignatureType)
        } else {
            Ok((data.subrange(0, 66), 66))
        }
    }

    proof fn lemma_decode_encode(v: Seq<u8>, rest: Seq<u8>) {
        assert((v + rest)[0] == 0);
        assert((v + rest).subrange(0, 66) =~= v);
    }

    proof fn lemma_decode_ok(data: Seq<u8>) {
    }

    fn size(&self) -> (n: usize) {
        66
    }

    fn pack(&self, enc: &mut Encoder) -> (n: usize) {
        enc.append_byte(self.ty);
        enc.append_slice(self.data.as_slice());
        proof {
            assert(enc@ =~= old(enc)@ + self@);
        }
        66
    }

    fn unpack(&mut self, data: &[u8]) -> (r: Result<usize, CodecError>) {
        if data.len() < 66 {
            Err(CodecError::BufferOverflow)
        } else if data[0] != 0 {
            Err(CodecError::BadSignatureType)
        } else {
            self.ty = data[0];
            self.data = copy_bytes_n(vstd::slice::slice_subrange(data, 1, 66));
            proof {
                assert(self@ =~= data@.subrange(0, 66));
            }
            Ok(66)
        }
    }
}

} // verus!
