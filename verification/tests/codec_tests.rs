use chain_codec::authority::BlockSigningAuthority;
use chain_codec::authority::BlockSigningAuthorityV0;
use chain_codec::authority::KeyWeight;
use chain_codec::authority::ProducerAuthority;
use chain_codec::authority::ProducerKey;
use chain_codec::codec::CodecError;
use chain_codec::codec::Decoder;
use chain_codec::codec::Encoder;
use chain_codec::codec::Packer;
use chain_codec::keys::ECCPublicKey;
use chain_codec::keys::PublicKey;
use chain_codec::keys::Signature;
use chain_codec::keys::UserPresence;
use chain_codec::keys::WebAuthNPublicKey;
use chain_codec::name::Name;
use chain_codec::times::BlockTimeStampType;
use chain_codec::times::TimePoint;
use chain_codec::times::TimePointSec;
use chain_codec::values::Checksum256;
use chain_codec::values::Float128;
use chain_codec::values::Uint256;
use chain_codec::varint::VarUint32;

fn pack_to_bytes<T: Packer>(v: &T) -> Vec<u8> {
    let mut enc = Encoder::new();
    let n = v.pack(&mut enc);
    let bytes = enc.into_bytes();
    assert_eq!(n, bytes.len());
    assert_eq!(n, v.size());
    bytes
}

#[test]
fn checksum256_zero_hex_round_trip() {
    let hex64 = "0".repeat(64);
    let c = Checksum256::from_hex(&hex64).unwrap();
    let bytes = pack_to_bytes(&c);
    assert_eq!(bytes, vec![0u8; 32]);
    let mut back = Checksum256::default();
    assert_eq!(back.unpack(bytes.as_slice()), Ok(32));
    assert_eq!(back, c);
}

#[test]
fn public_key_k1_zero_packs_to_tag_and_payload() {
    let k = PublicKey::K1(ECCPublicKey::default());
    assert_eq!(k.size(), 34);
    let bytes = pack_to_bytes(&k);
    assert_eq!(bytes, vec![0u8; 34]);
}

#[test]
fn webauthn_key_packs_parts_in_order() {
    let k = WebAuthNPublicKey::new(ECCPublicKey::default(), UserPresence::Verified, vec![b'x']);
    let bytes = pack_to_bytes(&k);
    let mut expected = vec![0u8; 33];
    expected.push(2);
    expected.push(1);
    expected.push(b'x');
    assert_eq!(bytes, expected);
}

#[test]
fn webauthn_key_round_trips() {
    let k = WebAuthNPublicKey::new(
        ECCPublicKey::from_hex(&"ab".repeat(33)).unwrap(),
        UserPresence::Present,
        b"example.com".to_vec(),
    );
    let bytes = pack_to_bytes(&k);
    let mut back = WebAuthNPublicKey::default();
    assert_eq!(back.unpack(bytes.as_slice()), Ok(bytes.len()));
    assert_eq!(back, k);
}

#[test]
fn webauthn_truncated_rpid_is_rejected() {
    let k = WebAuthNPublicKey::new(ECCPublicKey::default(), UserPresence::Absent, b"abcdef".to_vec());
    let bytes = pack_to_bytes(&k);
    let mut back = WebAuthNPublicKey::default();
    assert_eq!(
        back.unpack(&bytes[..bytes.len() - 1]),
        Err(CodecError::BufferOverflow)
    );
}

#[test]
fn producer_authority_round_trips() {
    let key = PublicKey::R1(ECCPublicKey::from_hex(&"02".repeat(33)).unwrap());
    let auth = BlockSigningAuthority::V0(BlockSigningAuthorityV0 {
        threshold: 1,
        keys: vec![KeyWeight { key: key.clone(), weight: 10 }],
    });
    let pa = ProducerAuthority { producer_name: Name::new(0x5530EA0000000000), authority: auth };
    let bytes = pack_to_bytes(&pa);
    let mut back = ProducerAuthority::default();
    assert_eq!(back.unpack(bytes.as_slice()), Ok(bytes.len()));
    assert_eq!(back, pa);
    let BlockSigningAuthority::V0(v0) = back.authority;
    assert_eq!(v0.threshold, 1);
    assert_eq!(v0.keys.len(), 1);
    assert_eq!(v0.keys[0].weight, 10);
    assert_eq!(v0.keys[0].key, key);
}

#[test]
fn signature_short_buffer_is_rejected() {
    let mut s = Signature::default();
    assert_eq!(s.unpack(&[0u8; 65]), Err(CodecError::BufferOverflow));
}

#[test]
fn signature_bad_type_byte_is_rejected() {
    let mut s = Signature::default();
    let mut buf = vec![0u8; 66];
    buf[0] = 1;
    assert_eq!(s.unpack(buf.as_slice()), Err(CodecError::BadSignatureType));
}

#[test]
fn signature_round_trips_through_the_wire() {
    let s = Signature::from_hex(&"1f".repeat(65)).unwrap();
    let bytes = pack_to_bytes(&s);
    assert_eq!(bytes.len(), 66);
    assert_eq!(bytes[0], 0);
    let mut back = Signature::default();
    assert_eq!(back.unpack(bytes.as_slice()), Ok(66));
    assert_eq!(back, s);
}

#[test]
fn block_signing_authority_unknown_tag_is_rejected() {
    let mut a = BlockSigningAuthority::default();
    assert_eq!(a.unpack(&[1u8]), Err(CodecError::BadVariant));
}

#[test]
fn block_signing_authority_round_trips_with_several_keys() {
    let web = PublicKey::WebAuth(WebAuthNPublicKey::new(
        ECCPublicKey::from_hex(&"0c".repeat(33)).unwrap(),
        UserPresence::Verified,
        b"rp".to_vec(),
    ));
    let a = BlockSigningAuthority::V0(BlockSigningAuthorityV0 {
        threshold: 3,
        keys: vec![
            KeyWeight { key: PublicKey::K1(ECCPublicKey::default()), weight: 1 },
            KeyWeight { key: web, weight: 2 },
        ],
    });
    let bytes = pack_to_bytes(&a);
    assert_eq!(bytes[0], 0);
    let mut back = BlockSigningAuthority::default();
    assert_eq!(back.unpack(bytes.as_slice()), Ok(bytes.len()));
    assert_eq!(back, a);
}

#[test]
fn public_key_unknown_tag_is_rejected() {
    let mut k = PublicKey::default();
    assert_eq!(k.unpack(&[3u8; 34]), Err(CodecError::BadVariant));
}

#[test]
fn public_key_short_buffer_is_rejected_before_the_tag() {
    let mut k = PublicKey::default();
    assert_eq!(k.unpack(&[9u8; 33]), Err(CodecError::BufferOverflow));
}

#[test]
fn user_presence_packs_one_byte_and_rejects_unknown() {
    assert_eq!(pack_to_bytes(&UserPresence::Absent), vec![0u8]);
    assert_eq!(pack_to_bytes(&UserPresence::Present), vec![1u8]);
    assert_eq!(pack_to_bytes(&UserPresence::Verified), vec![2u8]);
    let mut p = UserPresence::default();
    assert_eq!(p.unpack(&[3u8]), Err(CodecError::BadVariant));
}

#[test]
fn varuint_encodings_are_minimal() {
    assert_eq!(pack_to_bytes(&VarUint32::new(0)), vec![0x00]);
    assert_eq!(pack_to_bytes(&VarUint32::new(127)), vec![0x7f]);
    assert_eq!(pack_to_bytes(&VarUint32::new(128)), vec![0x80, 0x01]);
    assert_eq!(pack_to_bytes(&VarUint32::new(16384)), vec![0x80, 0x80, 0x01]);
    assert_eq!(
        pack_to_bytes(&VarUint32::new(0xffffffff)),
        vec![0xff, 0xff, 0xff, 0xff, 0x0f]
    );
}

#[test]
fn varuint_decode_accepts_padding_and_rejects_excess() {
    let mut v = VarUint32::new(7);
    assert_eq!(v.unpack(&[0x80, 0x00]), Ok(2));
    assert_eq!(v.value(), 0);
    assert_eq!(v.unpack(&[0x80]), Err(CodecError::BufferOverflow));
    assert_eq!(
        v.unpack(&[0x80, 0x80, 0x80, 0x80, 0x80, 0x01]),
        Err(CodecError::BadVarUint)
    );
}

#[test]
fn varuint_round_trips() {
    for n in [0u32, 1, 127, 128, 300, 16383, 16384, 1 << 20, 1 << 27, 1 << 28, u32::MAX] {
        let v = VarUint32::new(n);
        let bytes = pack_to_bytes(&v);
        let mut back = VarUint32::default();
        assert_eq!(back.unpack(bytes.as_slice()), Ok(bytes.len()));
        assert_eq!(back.value(), n);
    }
}

#[test]
fn integers_pack_little_endian() {
    assert_eq!(pack_to_bytes(&0x0102u16), vec![0x02, 0x01]);
    assert_eq!(pack_to_bytes(&0x01020304u32), vec![0x04, 0x03, 0x02, 0x01]);
    assert_eq!(
        pack_to_bytes(&0x0102030405060708u64),
        vec![0x08, 0x07, 0x06, 0x05, 0x04, 0x03, 0x02, 0x01]
    );
    let mut back: u64 = 0;
    assert_eq!(back.unpack(&[0x08, 0x07, 0x06, 0x05, 0x04, 0x03, 0x02, 0x01]), Ok(8));
    assert_eq!(back, 0x0102030405060708);
}

#[test]
fn uint256_packs_low_limb_first_and_swaps() {
    let v = Uint256::new(1, 2);
    let bytes = pack_to_bytes(&v);
    let mut expected = vec![0u8; 32];
    expected[0] = 1;
    expected[16] = 2;
    assert_eq!(bytes, expected);
    let s = v.swap();
    assert_eq!(s, Uint256::new(2, 1));
    let mut back = Uint256::default();
    assert_eq!(back.unpack(bytes.as_slice()), Ok(32));
    assert_eq!(back, v);
}

#[test]
fn time_values_round_trip() {
    let tp = TimePoint { elapsed: 1234567890123 };
    let bytes = pack_to_bytes(&tp);
    let mut tp2 = TimePoint::default();
    assert_eq!(tp2.unpack(bytes.as_slice()), Ok(8));
    assert_eq!(tp2, tp);

    let ts = TimePointSec::new(1700000000);
    assert_eq!(ts.seconds(), 1700000000);
    let bytes = pack_to_bytes(&ts);
    let mut ts2 = TimePointSec::default();
    assert_eq!(ts2.unpack(bytes.as_slice()), Ok(4));
    assert_eq!(ts2, ts);

    let bt = BlockTimeStampType { slot: 42 };
    let bytes = pack_to_bytes(&bt);
    assert_eq!(bytes, vec![42, 0, 0, 0]);
    let mut tp3 = TimePoint::default();
    assert_eq!(tp3.unpack(&[1, 2, 3]), Err(CodecError::BufferOverflow));
}

#[test]
fn float128_carries_its_bytes_verbatim() {
    let f = Float128::new([7u8; 16]);
    assert_eq!(f.data(), &[7u8; 16]);
    let bytes = pack_to_bytes(&f);
    assert_eq!(bytes, vec![7u8; 16]);
    let mut back = Float128::default();
    assert_eq!(back.unpack(bytes.as_slice()), Ok(16));
    assert_eq!(back, f);
}

#[test]
fn producer_key_round_trips() {
    let pk = ProducerKey::new(
        Name::new(0x5530EA0000000000),
        PublicKey::K1(ECCPublicKey::from_hex(&"3d".repeat(33)).unwrap()),
    );
    let bytes = pack_to_bytes(&pk);
    assert_eq!(&bytes[..8], &0x5530EA0000000000u64.to_le_bytes());
    let mut back = ProducerKey::default();
    assert_eq!(back.unpack(bytes.as_slice()), Ok(bytes.len()));
    assert_eq!(back, pk);
}

#[test]
fn name_packs_eight_bytes() {
    let n = Name::new(0x0102030405060708);
    assert_eq!(n.value(), 0x0102030405060708);
    let bytes = pack_to_bytes(&n);
    assert_eq!(bytes, 0x0102030405060708u64.to_le_bytes().to_vec());
}

#[test]
fn decoder_advances_a_cursor_over_values() {
    let mut enc = Encoder::new();
    assert_eq!(enc.get_size(), 0);
    7u32.pack(&mut enc);
    assert_eq!(enc.get_size(), 4);
    9u16.pack(&mut enc);
    let bytes = enc.into_bytes();
    assert_eq!(bytes, vec![7, 0, 0, 0, 9, 0]);
    let mut dec = Decoder::new(bytes.as_slice());
    let mut a: u32 = 0;
    let mut b: u16 = 0;
    assert_eq!(dec.unpack(&mut a), Ok(4));
    assert_eq!(dec.unpack(&mut b), Ok(2));
    assert_eq!(dec.get_pos(), 6);
    assert_eq!((a, b), (7, 9));
}

#[test]
fn authority_with_bad_count_prefix_is_rejected() {
    let mut bytes = vec![0u8; 5];
    bytes.extend_from_slice(&[0x80, 0x80, 0x80, 0x80, 0x80]);
    let mut a = BlockSigningAuthority::default();
    assert_eq!(a.unpack(bytes.as_slice()), Err(CodecError::BadVarUint));
}

#[test]
fn authority_with_missing_keys_is_rejected() {
    let one_key = BlockSigningAuthority::V0(BlockSigningAuthorityV0 {
        threshold: 1,
        keys: vec![KeyWeight { key: PublicKey::K1(ECCPublicKey::default()), weight: 1 }],
    });
    let mut bytes = {
        let mut enc = Encoder::new();
        one_key.pack(&mut enc);
        enc.into_bytes()
    };
    bytes[5] = 2;
    let mut back = BlockSigningAuthority::default();
    assert_eq!(back.unpack(bytes.as_slice()), Err(CodecError::BufferOverflow));
}

#[test]
fn packing_is_deterministic() {
    let key = PublicKey::WebAuth(WebAuthNPublicKey::new(
        ECCPublicKey::from_hex(&"9e".repeat(33)).unwrap(),
        UserPresence::Verified,
        b"id".to_vec(),
    ));
    assert_eq!(pack_to_bytes(&key), pack_to_bytes(&key.clone()));
}
