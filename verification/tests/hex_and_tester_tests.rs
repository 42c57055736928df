use chain_codec::codec::CodecError;
use chain_codec::keys::ECCPublicKey;
use chain_codec::keys::Signature;
use chain_codec::name::n2s;
use chain_codec::tester::balance_from_hex;
use chain_codec::tester::GetTableRowsPrams;
use chain_codec::tester::GlobalVariables;
use chain_codec::tester::JsonKeyType;
use chain_codec::values::Checksum160;
use chain_codec::values::Checksum256;
use chain_codec::values::Checksum512;
use chain_codec::values::Int128;
use chain_codec::values::Uint128;

#[test]
fn checksum_hex_round_trips() {
    let s160 = "deadbeef".repeat(5);
    let c160 = Checksum160::from_hex(&s160).unwrap();
    assert_eq!(c160.to_hex(), s160);
    assert_eq!(Checksum160::from_hex(&c160.to_hex()).unwrap(), c160);

    let s256 = "0123456789abcdef".repeat(4);
    let c256 = Checksum256::from_hex(&s256).unwrap();
    assert_eq!(c256.to_hex(), s256);
    assert_eq!(Checksum256::from_hex(&c256.to_hex()).unwrap(), c256);

    let s512 = "f0e1d2c3b4a59687".repeat(8);
    let c512 = Checksum512::from_hex(&s512).unwrap();
    assert_eq!(c512.to_hex(), s512);
    assert_eq!(Checksum512::from_hex(&c512.to_hex()).unwrap(), c512);
}

#[test]
fn hex_accepts_uppercase_and_prints_lowercase() {
    let c = Checksum160::from_hex(&"DEADBEEF".repeat(5)).unwrap();
    assert_eq!(c.to_hex(), "deadbeef".repeat(5));
}

#[test]
fn key_and_signature_hex_round_trips() {
    let ks = "02a1b2c3d4e5f60718293a4b5c6d7e8f90a1b2c3d4e5f60718293a4b5c6d7e8f90";
    let k = ECCPublicKey::from_hex(ks).unwrap();
    assert_eq!(k.to_hex(), ks);
    assert_eq!(ECCPublicKey::from_hex(&k.to_hex()).unwrap(), k);

    let ss = "45".repeat(65);
    let s = Signature::from_hex(&ss).unwrap();
    assert_eq!(s.to_hex(), ss);
    assert_eq!(Signature::from_hex(&s.to_hex()).unwrap(), s);
}

#[test]
fn to_hex_matches_the_hex_crate() {
    let spelled = "00ff10a5".repeat(5);
    let c = Checksum160::from_hex(&spelled).unwrap();
    assert_eq!(c.to_hex(), hex::encode(c.data));
    assert_eq!(hex::decode(&spelled).unwrap(), c.data.to_vec());
}

#[test]
fn wrong_hex_length_is_rejected() {
    assert_eq!(Checksum160::from_hex("abcd"), Err(CodecError::BadHexLength));
    assert_eq!(
        Checksum256::from_hex(&"0".repeat(63)),
        Err(CodecError::BadHexLength)
    );
    assert_eq!(Checksum512::from_hex(""), Err(CodecError::BadHexLength));
    assert_eq!(
        ECCPublicKey::from_hex(&"0".repeat(68)),
        Err(CodecError::BadHexLength)
    );
    assert_eq!(Signature::from_hex(&"0".repeat(128)), Err(CodecError::BadHexLength));
}

#[test]
fn stray_hex_character_is_rejected() {
    let mut bad = "0".repeat(64);
    bad.replace_range(10..11, "g");
    assert_eq!(Checksum256::from_hex(&bad), Err(CodecError::BadHexChar));
}

#[test]
fn n2s_spells_names() {
    assert_eq!(n2s(0), ".");
    assert_eq!(n2s(0x5530EA0000000000), "eosio");
    assert_eq!(n2s(16), "...........1");
}

#[test]
fn global_variables_hold_test_state() {
    let mut g = GlobalVariables::new();
    assert_eq!(g.get_current_test_case(), "");
    assert!(!g.get_debug_mode());
    g.set_current_test_case("transfer_test");
    g.set_debug_mode(true);
    assert_eq!(g.get_current_test_case(), "transfer_test");
    assert!(g.get_debug_mode());
    g.set_debug_mode(false);
    assert!(!g.get_debug_mode());
}

#[test]
fn json_key_type_converts_from_index_and_key() {
    assert!(matches!(JsonKeyType::from(3usize), JsonKeyType::ArrayIndex(3)));
    let k = JsonKeyType::from(String::from("rows"));
    match k {
        JsonKeyType::MapKey(s) => assert_eq!(s, "rows"),
        JsonKeyType::ArrayIndex(_) => panic!("expected a map key"),
    }
}

#[test]
fn table_rows_params_default_values() {
    let p = GetTableRowsPrams::default();
    assert!(p.json);
    assert_eq!(p.code, "");
    assert_eq!(p.scope, "");
    assert_eq!(p.table, "");
    assert_eq!(p.lower_bound, "");
    assert_eq!(p.upper_bound, "");
    assert_eq!(p.limit, 10);
    assert_eq!(p.key_type, "");
    assert_eq!(p.index_position, "");
    assert_eq!(p.encode_type, "");
    assert!(!p.reverse);
    assert!(!p.show_payer);
}

#[test]
fn balance_parses_little_endian_amount() {
    assert_eq!(balance_from_hex("0a00000000000000"), Ok(10));
    assert_eq!(balance_from_hex("0a000000000000000000000000000000"), Ok(10));
    assert_eq!(balance_from_hex("0a"), Err(CodecError::BufferOverflow));
    assert_eq!(balance_from_hex("0a0"), Err(CodecError::BadHexLength));
    assert_eq!(balance_from_hex("zz00000000000000"), Err(CodecError::BadHexChar));
}

#[test]
fn int128_storage_defaults_to_zero() {
    let u = Uint128::default();
    assert_eq!((u.lo, u.hi), (0, 0));
    let i = Int128::default();
    assert_eq!((i.lo, i.hi), (0, 0));
}
