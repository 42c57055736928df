//! Composite records and the versioned signing-authority union: producer
//! keys, weighted keys, the threshold/key-list authority record with its
//! length-prefixed collection, and the producer authority. Fields pack
//! in declared order with no padding between them.

use vstd::prelude::*;

use crate::codec::CodecError;
use crate::codec::Decoder;
use crate::codec::Encoder;
use crate::codec::Packer;
use crate::keys::PublicKey;
use crate::keys::PublicKeyView;
use crate::name::Name;
use crate::varint::VarUint32;

verus! {

/// The mathematical view of a producer key record.
pub struct ProducerKeyView {
    pub producer_name: u64,
    pub block_signing_key: PublicKeyView,
}

/// A block producer's account name and signing key: the 8-byte name
/// followed by the public-key union.
#[derive(Clone, PartialEq, Eq, Debug)]
pub struct ProducerKey {
    pub producer_name: Name,
    pub block_signing_key: PublicKey,
}

impl View for ProducerKey {
    type V = ProducerKeyView;

    open spec fn view(&self) -> ProducerKeyView {
        ProducerKeyView {
            producer_name: self.producer_name@,
            block_signing_key: self.block_signing_key@,
        }
    }
}

impl ProducerKey {
    /// Assemble a producer key from its parts.
    pub fn new(producer_name: Name, block_signing_key: PublicKey) -> (r: ProducerKey)
        ensures
            r@.producer_name == producer_name@,
            r@.block_signing_key == block_signing_key@,
    {
        ProducerKey { producer_name, block_signing_key }
    }
}

impl Default for ProducerKey {
    fn default() -> (r: ProducerKey)
        ensures
            r@.producer_name == 0,
            r@.block_signing_key == PublicKeyView::K1(Seq::new(33, |i: int| 0u8)),
    {
        ProducerKey { producer_name: Name::default(), block_signing_key: PublicKey::default() }
    }
}

impl Packer for ProducerKey {
    open spec fn spec_wf(v: ProducerKeyView) -> bool {
        PublicKey::spec_wf(v.block_signing_key)
    }

    open spec fn spec_enc(v: ProducerKeyView) -> Seq<u8> {
        Name::spec_enc(v.producer_name) + PublicKey::spec_enc(v.block_signing_key)
    }

    open spec fn spec_decode(data: Seq<u8>) -> Result<(ProducerKeyView, int), CodecError> {
        match Name::spec_decode(data) {
            Ok((nm, n1)) => match PublicKey::spec_decode(data.skip(n1)) {
                Ok((k, n2)) => Ok(
                    (ProducerKeyView { producer_name: nm, block_signing_key: k }, n1 + n2),
                ),
                Err(e) => Err(e),
            },
            Err(e) => Err(e),
        }
    }

    proof fn lemma_decode_encode(v: ProducerKeyView, rest: Seq<u8>) {
        let name_enc = Name::spec_enc(v.producer_name);
        let key_enc = PublicKey::spec_enc(v.block_signing_key);
        let data = Self::spec_enc(v) + rest;
        vstd::bytes::lemma_auto_spec_u64_to_from_le_bytes();
        Name::lemma_decode_encode(v.producer_name, key_enc + rest);
        assert(data =~= name_enc + (key_enc + rest));
        PublicKey::lemma_decode_encode(v.block_signing_key, rest);
        assert(data.skip(8) =~= key_enc + rest);
    }

    proof fn lemma_decode_ok(data: Seq<u8>) {
        if data.len() >= 8 {
            PublicKey::lemma_decode_ok(data.skip(8));
        }
    }

    fn size(&self) -> (n: usize) {
        proof {
            vstd::bytes::lemma_auto_spec_u64_to_from_le_bytes();
        }
        8 + self.block_signing_key.size()
    }

    fn pack(&self, enc: &mut Encoder) -> (n: usize) {
        let pos = enc.get_size();
        self.producer_name.pack(enc);
        self.block_signing_key.pack(enc);
        proof {
            assert(enc@ =~= old(enc)@ + Self::spec_enc(self@));
        }
        enc.get_size() - pos
    }

    fn unpack(&mut self, data: &[u8]) -> (r: Result<usize, CodecError>) {
        let mut dec = Decoder::new(data);
        match dec.unpack(&mut self.producer_name) {
            Ok(_) => (),
            Err(e) => {
                return Err(e);
            },
        }
        match dec.unpack(&mut self.block_signing_key) {
            Ok(_) => (),
            Err(e) => {
                return Err(e);
            },
        }
        Ok(dec.get_pos())
    }
}

/// The mathematical view of a weighted key.
pub struct KeyWeightView {
    pub key: PublicKeyView,
    pub weight: u16,
}

/// One component key of a signing authority with its 16-bit weight:
/// the public-key union followed by the weight.
#[derive(Clone, PartialEq, Eq, Debug)]
pub struct KeyWeight {
    pub key: PublicKey,
    pub weight: u16,
}

impl View for KeyWeight {
    type V = KeyWeightView;

    open spec fn view(&self) -> KeyWeightView {
        KeyWeightView { key: self.key@, weight: self.weight }
    }
}

impl Default for KeyWeight {
    fn default() -> (r: KeyWeight)
        ensures
            r@.key == PublicKeyView::K1(Seq::new(33, |i: int| 0u8)),
            r@.weight == 0,
    {
        KeyWeight { key: PublicKey::default(), weight: 0 }
    }
}

impl Packer for KeyWeight {
    open spec fn spec_wf(v: KeyWeightView) -> bool {
        PublicKey::spec_wf(v.key)
    }

    open spec fn spec_enc(v: KeyWeightView) -> Seq<u8> {
        PublicKey::spec_enc(v.key) + vstd::bytes::spec_u16_to_le_bytes(v.weight)
    }

    open spec fn spec_decode(data: Seq<u8>) -> Result<(KeyWeightView, int), CodecError> {
        match PublicKey::spec_decode(data) {
            Ok((k, n1)) => match u16::spec_decode(data.skip(n1)) {
                Ok((w, n2)) => Ok((KeyWeightView { key: k, weight: w }, n1 + n2)),
                Err(e) => Err(e),
            },
            Err(e) => Err(e),
        }
    }

    proof fn lemma_decode_encode(v: KeyWeightView, rest: Seq<u8>) {
        let key_enc = PublicKey::spec_enc(v.key);
        let w_enc = vstd::bytes::spec_u16_to_le_bytes(v.weight);
        let data = Self::spec_enc(v) + rest;
        vstd::bytes::lemma_auto_spec_u16_to_from_le_bytes();
        PublicKey::lemma_decode_encode(v.key, w_enc + rest);
        assert(data =~= key_enc + (w_enc + rest));
        u16::lemma_decode_encode(v.weight, rest);
        assert(data.skip(key_enc.len() as int) =~= w_enc + rest);
    }

    proof fn lemma_decode_ok(data: Seq<u8>) {
        PublicKey::lemma_decode_ok(data);
    }

    fn size(&self) -> (n: usize) {
        proof {
            vstd::bytes::lemma_auto_spec_u16_to_from_le_bytes();
        }
        2 + self.key.size()
    }

    fn pack(&self, enc: &mut Encoder) -> (n: usize) {
        let pos = enc.get_size();
        self.key.pack(enc);
        self.weight.pack(enc);
        proof {
            assert(enc@ =~= old(enc)@ + Self::spec_enc(self@));
        }
        enc.get_size() - pos
    }

    fn unpack(&mut self, data: &[u8]) -> (r: Result<usize, CodecError>) {
        let mut dec = Decoder::new(data);
        match dec.unpack(&mut self.key) {
            Ok(_) => (),
            Err(e) => {
                return Err(e);
            },
        }
        match dec.unpack(&mut self.weight) {
            Ok(_) => (),
            Err(e) => {
                return Err(e);
            },
        }
        Ok(dec.get_pos())
    }
}

/// The views of the weighted keys a collection holds, in order.
pub open spec fn key_weight_views(s: Seq<KeyWeight>) -> Seq<KeyWeightView> {
    s.map_values(|k: KeyWeight| k@)
}

/// Every weighted-key view in the sequence is well-formed.
pub open spec fn key_weights_wf(s: Seq<KeyWeightView>) -> bool {
    forall|i: int| 0 <= i < s.len() ==> KeyWeight::spec_wf(#[trigger] s[i])
}

/// The back-to-back encodings of a sequence of weighted keys, in order,
/// with no per-element padding.
pub open spec fn spec_enc_key_weights(s: Seq<KeyWeightView>) -> Seq<u8>
    decreases s.len(),
{
    if s.len() == 0 {
        Seq::<u8>::empty()
    } else {
        KeyWeight::spec_enc(s[0]) + spec_enc_key_weights(s.skip(1))
    }
}

/// Decoding `count` weighted keys off the front of `data`, one after the
/// other: the views read and the total bytes consumed, or the first error.
pub open spec fn spec_decode_key_weights(data: Seq<u8>, count: nat) -> Result<
    (Seq<KeyWeightView>, int),
    CodecError,
>
    decreases count,
{
    if count == 0 {
        Ok((Seq::<KeyWeightView>::empty(), 0))
    } else {
        match KeyWeight::spec_decode(data) {
            Ok((kw, n)) => match spec_decode_key_weights(data.skip(n), (count - 1) as nat) {
                Ok((rest, m)) => Ok((seq![kw] + rest, n + m)),
                Err(e) => Err(e),
            },
            Err(e) => Err(e),
        }
    }
}

/// The whole collection's encoding splits at any element boundary.
proof fn lemma_key_weights_enc_split(s: Seq<KeyWeightView>, i: int)
    requires
        0 <= i <= s.len(),
    ensures
        spec_enc_key_weights(s) == spec_enc_key_weights(s.take(i)) + spec_enc_key_weights(
            s.skip(i),
        ),
    decreases i,
{
    if i == 0 {
        assert(s.take(0) =~= Seq::<KeyWeightView>::empty());
        assert(s.skip(0) =~= s);
        assert(spec_enc_key_weights(s) =~= Seq::<u8>::empty() + spec_enc_key_weights(s));
    } else {
        lemma_key_weights_enc_split(s.skip(1), i - 1);
        assert(s.take(i).skip(1) =~= s.skip(1).take(i - 1));
        assert(s.skip(i) =~= s.skip(1).skip(i - 1));
        assert(s.take(i)[0] == s[0]);
        assert(spec_enc_key_weights(s) =~= spec_enc_key_weights(s.take(i)) + spec_enc_key_weights(
            s.skip(i),
        ));
    }
}

/// One more element extends the encoded prefix by that element's encoding.
proof fn lemma_key_weights_enc_step(s: Seq<KeyWeightView>, i: int)
    requires
        0 <= i < s.len(),
    ensures
        spec_enc_key_weights(s.take(i + 1)) == spec_enc_key_weights(s.take(i))
            + KeyWeight::spec_enc(s[i]),
{
    lemma_key_weights_enc_split(s.take(i + 1), i);
    assert(s.take(i + 1).take(i) =~= s.take(i));
    assert(s.take(i + 1).skip(i) =~= seq![s[i]]);
    assert(seq![s[i]].skip(1) =~= Seq::<KeyWeightView>::empty());
    assert(spec_enc_key_weights(seq![s[i]].skip(1)) == spec_enc_key_weights(
        Seq::<KeyWeightView>::empty(),
    ));
    assert(spec_enc_key_weights(Seq::<KeyWeightView>::empty()) == Seq::<u8>::empty());
    assert(spec_enc_key_weights(seq![s[i]]) =~= KeyWeight::spec_enc(s[i]));
}

/// Round-trip for the collection: decoding its own encoding, whatever
/// follows it, yields the same views and consumes exactly the encoding.
proof fn lemma_key_weights_decode_encode(s: Seq<KeyWeightView>, rest: Seq<u8>)
    requires
        key_weights_wf(s),
    ensures
        spec_decode_key_weights(spec_enc_key_weights(s) + rest, s.len()) == Ok::<
            (Seq<KeyWeightView>, int),
            CodecError,
        >((s, spec_enc_key_weights(s).len() as int)),
    decreases s.len(),
{
    if s.len() == 0 {
        assert(s =~= Seq::<KeyWeightView>::empty());
    } else {
        let e0 = KeyWeight::spec_enc(s[0]);
        let tail_enc = spec_enc_key_weights(s.skip(1));
        let data = spec_enc_key_weights(s) + rest;
        KeyWeight::lemma_decode_encode(s[0], tail_enc + rest);
        assert(data =~= e0 + (tail_enc + rest));
        assert(data.skip(e0.len() as int) =~= tail_enc + rest);
        lemma_key_weights_decode_encode(s.skip(1), rest);
        assert(seq![s[0]] + s.skip(1) =~= s);
    }
}

/// A successful collection decode yields exactly `count` well-formed
/// views and consumes at most the input.
proof fn lemma_key_weights_decode_ok(data: Seq<u8>, count: nat)
    ensures
        spec_decode_key_weights(data, count) matches Ok((s, n)) ==> key_weights_wf(s) && 0 <= n
            <= data.len() && s.len() == count,
    decreases count,
{
    if count > 0 {
        match KeyWeight::spec_decode(data) {
            Ok((kw, n)) => {
                KeyWeight::lemma_decode_ok(data);
                lemma_key_weights_decode_ok(data.skip(n), (count - 1) as nat);
            },
            Err(_) => {},
        }
    }
}

/// The mathematical view of a version-0 block signing authority.
pub struct BlockSigningAuthorityV0View {
    pub threshold: u32,
    pub keys: Seq<KeyWeightView>,
}

/// A version-0 block signing authority: the 32-bit weight threshold that
/// satisfies the authority, then the length-prefixed list of component
/// keys with their weights.
#[derive(Clone, PartialEq, Eq, Debug)]
pub struct BlockSigningAuthorityV0 {
    /// minimum threshold of accumulated weights from component keys that
    /// satisfies this authority
    pub threshold: u32,
    /// component keys and their associated weights
    pub keys: Vec<KeyWeight>,
}

impl View for BlockSigningAuthorityV0 {
    type V = BlockSigningAuthorityV0View;

    open spec fn view(&self) -> BlockSigningAuthorityV0View {
        BlockSigningAuthorityV0View { threshold: self.threshold, keys: key_weight_views(self.keys@) }
    }
}

impl Default for BlockSigningAuthorityV0 {
    fn default() -> (r: BlockSigningAuthorityV0)
        ensures
            r@.threshold == 0,
            r@.keys == Seq::<KeyWeightView>::empty(),
    {
        let r = BlockSigningAuthorityV0 { threshold: 0, keys: Vec::new() };
        proof {
            assert(r@.keys =~= Seq::<KeyWeightView>::empty());
        }
        r
    }
}

impl Packer for BlockSigningAuthorityV0 {
    open spec fn spec_wf(v: BlockSigningAuthorityV0View) -> bool {
        key_weights_wf(v.keys) && v.keys.len() <= u32::MAX
    }

    open spec fn spec_enc(v: BlockSigningAuthorityV0View) -> Seq<u8> {
        vstd::bytes::spec_u32_to_le_bytes(v.threshold) + VarUint32::spec_enc(v.keys.len() as u32)
            + spec_enc_key_weights(v.keys)
    }

    open spec fn spec_decode(data: Seq<u8>) -> Result<
        (BlockSigningAuthorityV0View, int),
        CodecError,
    > {
        match u32::spec_decode(data) {
            Ok((t, n1)) => match VarUint32::spec_decode(data.skip(n1)) {
                Ok((c, n2)) => match spec_decode_key_weights(data.skip(n1 + n2), c as nat) {
                    Ok((s, n3)) => Ok(
                        (BlockSigningAuthorityV0View { threshold: t, keys: s }, n1 + n2 + n3),
                    ),
                    Err(e) => Err(e),
                },
                Err(e) => Err(e),
            },
            Err(e) => Err(e),
        }
    }

    #[verifier::rlimit(100)]
    #[verifier::spinoff_prover]
    proof fn lemma_decode_encode(v: BlockSigningAuthorityV0View, rest: Seq<u8>) {
        let t_enc = vstd::bytes::spec_u32_to_le_bytes(v.threshold);
        let c_enc = VarUint32::spec_enc(v.keys.len() as u32);
        let l_enc = spec_enc_key_weights(v.keys);
        let data = Self::spec_enc(v) + rest;
        vstd::bytes::lemma_auto_spec_u32_to_from_le_bytes();
        u32::lemma_decode_encode(v.threshold, c_enc + l_enc + rest);
        assert(data =~= t_enc + (c_enc + l_enc + rest));
        VarUint32::lemma_decode_encode(v.keys.len() as u32, l_enc + rest);
        assert(data.skip(4) =~= c_enc + (l_enc + rest));
        lemma_key_weights_decode_encode(v.keys, rest);
        assert(data.skip(4 + c_enc.len() as int) =~= l_enc + rest);
    }

    proof fn lemma_decode_ok(data: Seq<u8>) {
        if data.len() >= 4 {
            match VarUint32::spec_decode(data.skip(4)) {
                Ok((c, n2)) => {
                    lemma_key_weights_decode_ok(data.skip(4 + n2), c as nat);
                },
                Err(_) => {},
            }
        }
    }

    fn size(&self) -> (n: usize) {
        proof {
            vstd::bytes::lemma_auto_spec_u32_to_from_le_bytes();
            crate::varint::lemma_varuint32_enc_len(self.keys@.len() as u32);
        }
        let len_pref = VarUint32::new(self.keys.len() as u32);
        let mut total: usize = 4 + len_pref.size();
        let ghost views = key_weight_views(self.keys@);
        let ghost base = total as int;
        proof {
            assert(views.take(0) =~= Seq::<KeyWeightView>::empty());
            assert(spec_enc_key_weights(Seq::<KeyWeightView>::empty()) == Seq::<u8>::empty());
        }
        let mut i: usize = 0;
        while i < self.keys.len()
            invariant
                Self::spec_wf(self@),
                Self::spec_enc(self@).len() <= usize::MAX,
                views == key_weight_views(self.keys@),
                base == 4 + VarUint32::spec_enc(views.len() as u32).len(),
                i <= self.keys@.len(),
                views.len() == self.keys@.len(),
                total == base + spec_enc_key_weights(views.take(i as int)).len(),
            decreases self.keys@.len() - i,
        {
            proof {
                vstd::bytes::lemma_auto_spec_u32_to_from_le_bytes();
                crate::varint::lemma_varuint32_enc_len(views.len() as u32);
                lemma_key_weights_enc_step(views, i as int);
                lemma_key_weights_enc_split(views, i + 1);
                lemma_key_weights_enc_split(views, i as int);
                assert(views.skip(i as int)[0] == views[i as int]);
                assert(views[i as int] == self.keys@[i as int]@);
            }
            let ks = self.keys[i].size();
            total = total + ks;
            i = i + 1;
        }
        proof {
            assert(views.take(views.len() as int) =~= views);
        }
        total
    }

    fn pack(&self, enc: &mut Encoder) -> (n: usize) {
        proof {
            vstd::bytes::lemma_auto_spec_u32_to_from_le_bytes();
            crate::varint::lemma_varuint32_enc_len(self.keys@.len() as u32);
        }
        let pos = enc.get_size();
        self.threshold.pack(enc);
        let len_pref = VarUint32::new(self.keys.len() as u32);
        len_pref.pack(enc);
        let ghost views = key_weight_views(self.keys@);
        let ghost base = enc@;
        proof {
            assert(views.take(0) =~= Seq::<KeyWeightView>::empty());
            assert(spec_enc_key_weights(Seq::<KeyWeightView>::empty()) == Seq::<u8>::empty());
            assert(enc@ =~= base + Seq::<u8>::empty());
        }
        let mut i: usize = 0;
        while i < self.keys.len()
            invariant
                Self::spec_wf(self@),
                old(enc)@.len() + Self::spec_enc(self@).len() <= usize::MAX,
                views == key_weight_views(self.keys@),
                base == old(enc)@ + vstd::bytes::spec_u32_to_le_bytes(self@.threshold)
                    + VarUint32::spec_enc(views.len() as u32),
                i <= self.keys@.len(),
                views.len() == self.keys@.len(),
                enc@ == base + spec_enc_key_weights(views.take(i as int)),
            decreases self.keys@.len() - i,
        {
            proof {
                vstd::bytes::lemma_auto_spec_u32_to_from_le_bytes();
                crate::varint::lemma_varuint32_enc_len(views.len() as u32);
                lemma_key_weights_enc_step(views, i as int);
                lemma_key_weights_enc_split(views, i + 1);
                lemma_key_weights_enc_split(views, i as int);
                assert(views.skip(i as int)[0] == views[i as int]);
                assert(views[i as int] == self.keys@[i as int]@);
            }
            let kw = &self.keys[i];
            kw.pack(enc);
            i = i + 1;
        }
        proof {
            assert(views.take(views.len() as int) =~= views);
            assert(enc@ =~= old(enc)@ + Self::spec_enc(self@));
        }
        enc.get_size() - pos
    }

    fn unpack(&mut self, data: &[u8]) -> (r: Result<usize, CodecError>) {
        let mut dec = Decoder::new(data);
        match dec.unpack(&mut self.threshold) {
            Ok(_) => (),
            Err(e) => {
                return Err(e);
            },
        }
        let mut len_pref = VarUint32::new(0);
        match dec.unpack(&mut len_pref) {
            Ok(_) => (),
            Err(e) => {
                return Err(e);
            },
        }
        let count = len_pref.value();
        let ghost pos0 = dec.spec_pos();
        let ghost whole = spec_decode_key_weights(data@.skip(pos0), count as nat);
        self.keys = Vec::new();
        proof {
            assert(key_weight_views(self.keys@) =~= Seq::<KeyWeightView>::empty());
        }
        let mut i: u32 = 0;
        while i < count
            invariant
                dec.wf(),
                dec.spec_buf() == data@,
                i <= count,
                4 <= pos0 <= dec.spec_pos(),
                u32::spec_decode(data@) == Ok::<(u32, int), CodecError>((self.threshold, 4)),
                VarUint32::spec_decode(data@.skip(4)) == Ok::<(u32, int), CodecError>(
                    (count, pos0 - 4),
                ),
                whole == spec_decode_key_weights(data@.skip(pos0), count as nat),
                key_weight_views(self.keys@).len() == i,
                match spec_decode_key_weights(dec.remaining(), (count - i) as nat) {
                    Ok((s2, m)) => whole == Ok::<(Seq<KeyWeightView>, int), CodecError>(
                        (key_weight_views(self.keys@) + s2, dec.spec_pos() - pos0 + m),
                    ),
                    Err(e) => whole == Err::<(Seq<KeyWeightView>, int), CodecError>(e),
                },
            decreases count - i,
        {
            let ghost pos_before = dec.spec_pos();
            let ghost rem_before = dec.remaining();
            let ghost views_before = key_weight_views(self.keys@);
            let mut kw = KeyWeight::default();
            match dec.unpack(&mut kw) {
                Ok(_) => (),
                Err(e) => {
                    proof {
                        assert(spec_decode_key_weights(rem_before, (count - i) as nat) == Err::<
                            (Seq<KeyWeightView>, int),
                            CodecError,
                        >(e));
                    }
                    return Err(e);
                },
            }
            self.keys.push(kw);
            i = i + 1;
            proof {
                KeyWeight::lemma_decode_ok(rem_before);
                match KeyWeight::spec_decode(rem_before) {
                    Ok((kwv, n)) => {
                        assert(data@.skip(pos_before).skip(n) =~= data@.skip(pos_before + n));
                        assert(rem_before.skip(n) =~= dec.remaining());
                        assert(key_weight_views(self.keys@) =~= views_before + seq![kwv]);
                        match spec_decode_key_weights(dec.remaining(), (count - i) as nat) {
                            Ok((s2, m)) => {
                                assert(views_before + (seq![kwv] + s2) =~= (views_before + seq![kwv])
                                    + s2);
                            },
                            Err(_) => {},
                        }
                    },
                    Err(_) => {},
                }
            }
        }
        proof {
            assert(key_weight_views(self.keys@) + Seq::<KeyWeightView>::empty() =~= key_weight_views(
                self.keys@,
            ));
        }
        Ok(dec.get_pos())
    }
}

/// The mathematical view of a block signing authority.
pub enum BlockSigningAuthorityView {
    V0(BlockSigningAuthorityV0View),
}

/// A block signing authority: a tagged union with one leading
/// discriminant byte of which only 0, the version-0 record, is defined.
/// An unknown discriminant is rejected, never skipped.
#[derive(Clone, PartialEq, Eq, Debug)]
pub enum BlockSigningAuthority {
    V0(BlockSigningAuthorityV0),
}

impl View for BlockSigningAuthority {
    type V = BlockSigningAuthorityView;

    open spec fn view(&self) -> BlockSigningAuthorityView {
        match self {
            BlockSigningAuthority::V0(v) => BlockSigningAuthorityView::V0(v@),
        }
    }
}

impl Default for BlockSigningAuthority {
    fn default() -> (r: BlockSigningAuthority)
        ensures
            r@ matches BlockSigningAuthorityView::V0(v) && v.threshold == 0 && v.keys
                == Seq::<KeyWeightView>::empty(),
    {
        BlockSigningAuthority::V0(BlockSigningAuthorityV0::default())
    }
}

impl Packer for BlockSigningAuthority {
    open spec fn spec_wf(v: BlockSigningAuthorityView) -> bool {
        match v {
            BlockSigningAuthorityView::V0(x) => BlockSigningAuthorityV0::spec_wf(x),
        }
    }

    open spec fn spec_enc(v: BlockSigningAuthorityView) -> Seq<u8> {
        match v {
            BlockSigningAuthorityView::V0(x) => seq![0u8] + BlockSigningAuthorityV0::spec_enc(x),
        }
    }

    open spec fn spec_decode(data: Seq<u8>) -> Result<(BlockSigningAuthorityView, int), CodecError> {
        if data.len() < 1 {
            Err(CodecError::BufferOverflow)
        } else if data[0] == 0 {
            match BlockSigningAuthorityV0::spec_decode(data.skip(1)) {
                Ok((x, n)) => Ok((BlockSigningAuthorityView::V0(x), 1 + n)),
                Err(e) => Err(e),
            }
        } else {
            Err(CodecError::BadVariant)
        }
    }

    proof fn lemma_decode_encode(v: BlockSigningAuthorityView, rest: Seq<u8>) {
        let data = Self::spec_enc(v) + rest;
        match v {
            BlockSigningAuthorityView::V0(x) => {
                assert(data[0] == 0);
                BlockSigningAuthorityV0::lemma_decode_encode(x, rest);
                assert(data.skip(1) =~= BlockSigningAuthorityV0::spec_enc(x) + rest);
            },
        }
    }

    proof fn lemma_decode_ok(data: Seq<u8>) {
        if data.len() >= 1 && data[0] == 0 {
            BlockSigningAuthorityV0::lemma_decode_ok(data.skip(1));
        }
    }

    fn size(&self) -> (n: usize) {
        match self {
            BlockSigningAuthority::V0(x) => 1 + x.size(),
        }
    }

    fn pack(&self, enc: &mut Encoder) -> (n: usize) {
        let pos = enc.get_size();
        enc.append_byte(0);
        match self {
            BlockSigningAuthority::V0(x) => {
                x.pack(enc);
                proof {
                    assert(enc@ =~= old(enc)@ + Self::spec_enc(self@));
                }
            },
        }
        enc.get_size() - pos
    }

    fn unpack(&mut self, data: &[u8]) -> (r: Result<usize, CodecError>) {
        let mut dec = Decoder::new(data);
        let mut t: u8 = 0;
        match dec.unpack(&mut t) {
            Ok(_) => (),
            Err(e) => {
                return Err(e);
            },
        }
        if t == 0 {
            let mut v0 = BlockSigningAuthorityV0::default();
            match dec.unpack(&mut v0) {
                Ok(_) => (),
                Err(e) => {
                    return Err(e);
                },
            }
            *self = BlockSigningAuthority::V0(v0);
            Ok(dec.get_pos())
        } else {
            Err(CodecError::BadVariant)
        }
    }
}

/// The mathematical view of a producer authority.
pub struct ProducerAuthorityView {
    pub producer_name: u64,
    pub authority: BlockSigningAuthorityView,
}

/// A producer's account name and block signing authority: the 8-byte
/// name followed by the authority union.
#[derive(Clone, PartialEq, Eq, Debug)]
pub struct ProducerAuthority {
    /// Name of the producer
    pub producer_name: Name,
    /// The block signing authority used by this producer
    pub authority: BlockSigningAuthority,
}

impl View for ProducerAuthority {
    type V = ProducerAuthorityView;

    open spec fn view(&self) -> ProducerAuthorityView {
        ProducerAuthorityView { producer_name: self.producer_name@, authority: self.authority@ }
    }
}

impl Default for ProducerAuthority {
    fn default() -> (r: ProducerAuthority)
        ensures
            r@.producer_name == 0,
            r@.authority matches BlockSigningAuthorityView::V0(v) && v.threshold == 0 && v.keys
                == Seq::<KeyWeightView>::empty(),
    {
        ProducerAuthority {
            producer_name: Name::default(),
            authority: BlockSigningAuthority::default(),
        }
    }
}

impl Packer for ProducerAuthority {
    open spec fn spec_wf(v: ProducerAuthorityView) -> bool {
        BlockSigningAuthority::spec_wf(v.authority)
    }

    open spec fn spec_enc(v: ProducerAuthorityView) -> Seq<u8> {
        Name::spec_enc(v.producer_name) + BlockSigningAuthority::spec_enc(v.authority)
    }

    open spec fn spec_decode(data: Seq<u8>) -> Result<(ProducerAuthorityView, int), CodecError> {
        match Name::spec_decode(data) {
            Ok((nm, n1)) => match BlockSigningAuthority::spec_decode(data.skip(n1)) {
                Ok((a, n2)) => Ok((ProducerAuthorityView { producer_name: nm, authority: a }, n1 + n2)),
                Err(e) => Err(e),
            },
            Err(e) => Err(e),
        }
    }

    proof fn lemma_decode_encode(v: ProducerAuthorityView, rest: Seq<u8>) {
        let name_enc = Name::spec_enc(v.producer_name);
        let auth_enc = BlockSigningAuthority::spec_enc(v.authority);
        let data = Self::spec_enc(v) + rest;
        vstd::bytes::lemma_auto_spec_u64_to_from_le_bytes();
        Name::lemma_decode_encode(v.producer_name, auth_enc + rest);
        assert(data =~= name_enc + (auth_enc + rest));
        BlockSigningAuthority::lemma_decode_encode(v.authority, rest);
        assert(data.skip(8) =~= auth_enc + rest);
    }

    proof fn lemma_decode_ok(data: Seq<u8>) {
        if data.len() >= 8 {
            BlockSigningAuthority::lemma_decode_ok(data.skip(8));
        }
    }

    fn size(&self) -> (n: usize) {
        let name_size = self.producer_name.size();
        name_size + self.authority.size()
    }

    fn pack(&self, enc: &mut Encoder) -> (n: usize) {
        let pos = enc.get_size();
        self.producer_name.pack(enc);
        self.authority.pack(enc);
        proof {
            assert(enc@ =~= old(enc)@ + Self::spec_enc(self@));
        }
        enc.get_size() - pos
    }

    fn unpack(&mut self, data: &[u8]) -> (r: Result<usize, CodecError>) {
        let mut dec = Decoder::new(data);
        match dec.unpack(&mut self.producer_name) {
            Ok(_) => (),
            Err(e) => {
                return Err(e);
            },
        }
        match dec.unpack(&mut self.authority) {
            Ok(_) => (),
            Err(e) => {
                return Err(e);
            },
        }
        Ok(dec.get_pos())
    }
}

} // verus!
