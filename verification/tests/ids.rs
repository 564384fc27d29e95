use torii::felt::Felt;
use torii::ids::{
    format_event_id, format_world_scoped_id, hex_felt, padded_felt, parse_event_id,
    parse_world_scoped_id, ScopedIdError,
};
use torii::schema::U256;
use torii::tokens::{parse_token_id, token_ids, TokenId};
use torii::version::{git_value, underware_version, version_spec};

fn felt(v: u128) -> Felt {
    Felt::from_u128(v)
}

fn max_felt() -> Felt {
    Felt { hi: 0x0800_0000_0000_0011_0000_0000_0000_0000, lo: 0 }
}

#[test]
fn hex_felt_formats_as_prefixed_lower_hex() {
    let felt = Felt::from_hex("0x123").unwrap();

    assert_eq!(hex_felt(&felt), "0x123");
}

#[test]
fn elements_are_read_from_hexadecimal_and_decimal() {
    assert_eq!(Felt::from_str("0xaB"), Some(felt(0xab)));
    assert_eq!(Felt::from_str("17"), Some(felt(17)));
    assert_eq!(Felt::from_str("0x"), None);
    assert_eq!(Felt::from_str(""), None);
    assert_eq!(Felt::from_str("-"), None);
    assert_eq!(Felt::from_str("12a"), None);
    assert_eq!(Felt::from_str("+1"), None);
    assert_eq!(Felt::from_str("-1"), Some(max_felt()));
    let two_251 = format!("0x08{}11{}1", "0".repeat(12), "0".repeat(47));
    assert_eq!(Felt::from_str(&two_251), Some(felt(0)));
    let above = format!("0x08{}11{}2", "0".repeat(12), "0".repeat(47));
    assert_eq!(Felt::from_str(&above), None);
    let long = format!("0x{}1", "0".repeat(64));
    assert_eq!(Felt::from_str(&long), None);
}

#[test]
fn decimal_elements_wrap_below_256_bits_and_stop_there() {
    // The order of the field.
    let order = "3618502788666131213697322783095070105623107215331596699973092056135872020481";
    assert_eq!(Felt::from_str(order), Some(felt(0)));
    let max = "115792089237316195423570985008687907853269984665640564039457584007913129639935";
    assert!(Felt::from_str(max).is_some());
    let over = "115792089237316195423570985008687907853269984665640564039457584007913129639936";
    assert_eq!(Felt::from_str(over), None);
    let far = "1157920892373161954235709850086879078532699846656405640394575840079131296399350";
    assert_eq!(Felt::from_str(far), None);
}

#[test]
fn hexadecimal_elements_need_no_prefix() {
    assert_eq!(Felt::from_hex("ff"), Some(felt(255)));
    assert_eq!(Felt::from_hex("0xff"), Some(felt(255)));
    assert_eq!(Felt::from_hex("0x"), None);
    assert_eq!(Felt::from_hex("zz"), None);
    assert_eq!(Felt::from_hex(""), None);
}

#[test]
fn padding_counts_digits() {
    assert_eq!(padded_felt(&felt(0xabc), 6), "0x000abc");
    assert_eq!(padded_felt(&max_felt(), 62).len(), 65);
}

#[test]
fn event_ids_round_trip() {
    let id = format_event_id(7, &felt(0xdead), &max_felt(), 300);
    assert_eq!(
        id,
        format!("{:#064x}:{:#064x}:0x8{}11{}:0x12c", 7u64, 0xdeadu64, "0".repeat(12), "0".repeat(48))
    );
    assert_eq!(parse_event_id(&id), (7, felt(0xdead), max_felt(), 300));
    let small = format_event_id(u64::MAX, &felt(0), &felt(1), 1);
    assert!(small.ends_with(":0x01"));
    assert_eq!(parse_event_id(&small), (u64::MAX, felt(0), felt(1), 1));
    assert_eq!(parse_event_id("0x0x5:1:2:+f:rest"), (5, felt(1), felt(2), 15));
}

#[test]
fn world_scoped_ids_round_trip_and_differ() {
    let a = format_world_scoped_id(&felt(0x1234), &felt(0x5678));
    assert_eq!(a, format!("{:#064x}:{:#064x}", 0x1234u64, 0x5678u64));
    assert_eq!(parse_world_scoped_id(&a), Ok((felt(0x1234), felt(0x5678))));
    let b = format_world_scoped_id(&felt(0x1235), &felt(0x5678));
    assert!(a != b);
    assert_eq!(parse_world_scoped_id("0x1"), Err(ScopedIdError::Format));
    assert_eq!(parse_world_scoped_id("0x1:0x2:0x3"), Err(ScopedIdError::Format));
    assert_eq!(parse_world_scoped_id("0x1:zz"), Err(ScopedIdError::Felt));
    assert_eq!(
        ScopedIdError::Format.message(),
        "Invalid world-scoped ID format: expected 'world_address:selector'"
    );
}

#[test]
fn token_ids_are_contracts_or_tokens() {
    let nft = format!("0x5:0x{}", format!("{:064x}", 9));
    assert_eq!(
        token_ids(&vec!["0x5".to_string(), nft]),
        vec![TokenId::Contract(felt(5)), TokenId::Nft(felt(5), U256 { hi: 0, lo: 9 })]
    );
    let big = format!("0x5:1{}", "0".repeat(63));
    assert_eq!(parse_token_id(&big), Some(TokenId::Nft(felt(5), U256 { hi: 1 << 124, lo: 0 })));
    assert_eq!(parse_token_id("0x5:0x9"), None);
    assert_eq!(parse_token_id("x"), None);
    assert_eq!(TokenId::Nft(felt(5), U256 { hi: 0, lo: 9 }).contract_address(), felt(5));
}

#[test]
fn version_uses_the_underware_build_specification() {
    let tag = git_value(" uw-v1.2.3\n");
    let commit = Some("abc1234".to_string());
    let version = version_spec(&None, &tag, "1.8.0", &commit);

    assert!(version.contains("-uw (base torii "));
    assert!(version.contains(&format!("base torii v{}", "1.8.0")));
    assert!(!version.contains("base torii unknown"));
    assert_eq!(version, "1.2.3-uw (base torii v1.8.0, abc1234)");
    assert_eq!(
        version_spec(&Some("0.4.0".to_string()), &tag, "1.8.16", &None),
        "0.4.0-uw (base torii v1.8.16, unknown)"
    );
    assert_eq!(git_value(" \n"), None);
    assert_eq!(underware_version(&None), "unreleased");
    assert_eq!(underware_version(&Some("v1.2.3".to_string())), "unreleased");
}
