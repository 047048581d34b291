use untron_solver::config::{
    parse_address, parse_csv, parse_hex_32, parse_hex_32_csv, parse_hub_tx_mode,
    parse_intent_types, parse_optional_address, parse_selectors_csv, parse_tron_mode,
};
use untron_solver::types::{
    parse_b256, parse_hex_bytes, parse_u256_dec, HubTxMode, IntentType, JobState, TronMode,
};

#[test]
fn parse_hex_32_accepts_0x_and_rejects_wrong_len() {
    let ok = format!("0x{}", "11".repeat(32));
    let out = parse_hex_32("K", &ok).unwrap();
    assert_eq!(out, [0x11u8; 32]);

    let err = parse_hex_32("K", "0x11").unwrap_err().message();
    assert!(err.contains("must be 32 bytes"));
}

#[test]
fn parse_csv_trims_and_requires_non_empty() {
    let urls = parse_csv("U", " a, ,b ,, c ").unwrap();
    assert_eq!(
        urls,
        vec!["a".to_string(), "b".to_string(), "c".to_string()]
    );

    let err = parse_csv("U", " , , ").unwrap_err().message();
    assert!(err.contains("must be non-empty"));
}

#[test]
fn parse_address_accepts_valid_and_rejects_invalid() {
    let a = parse_address("A", "0x0000000000000000000000000000000000000001").unwrap();
    let expected: alloy::primitives::Address = "0x0000000000000000000000000000000000000001"
        .parse()
        .unwrap();
    assert_eq!(a.bytes, expected.into_array());

    assert!(parse_address("A", "not an address").is_err());
}

#[test]
fn parse_intent_types_dedups_and_preserves_order() {
    let got = parse_intent_types("trx_transfer,delegate_resource,trx_transfer").unwrap();
    assert_eq!(
        got,
        vec![IntentType::TrxTransfer, IntentType::DelegateResource]
    );
}

#[test]
fn parse_intent_types_rejects_unknown() {
    let err = parse_intent_types("nope").unwrap_err().message();
    assert!(err.contains("unknown intent type"));
}

#[test]
fn job_state_roundtrip_db_strings() {
    let states = [
        JobState::Ready,
        JobState::Claimed,
        JobState::TronPrepared,
        JobState::TronSent,
        JobState::ProofBuilt,
        JobState::Proved,
        JobState::ProvedWaitingFunding,
        JobState::ProvedWaitingSettlement,
        JobState::Done,
        JobState::FailedFatal,
    ];

    for state in states {
        let db = state.as_db_str();
        let parsed = JobState::parse(db).expect("parse known state");
        assert_eq!(parsed, state, "roundtrip mismatch for state={db}");
    }
}

#[test]
fn job_state_parse_rejects_unknown() {
    assert!(JobState::parse("not_a_real_state").is_err());
}

#[test]
fn job_state_parse_error_names_the_value() {
    let err = JobState::parse("Ready").unwrap_err().message();
    assert_eq!(err, "unknown job state: Ready");
}

#[test]
fn intent_type_codes_roundtrip() {
    for code in 0i16..4 {
        let t = IntentType::from_i16(code).unwrap();
        assert_eq!(t.code(), code);
    }
    assert_eq!(
        IntentType::from_i16(7).unwrap_err().message(),
        "unknown intent_type=7"
    );
    assert_eq!(
        IntentType::from_i16(-1).unwrap_err().message(),
        "unknown intent_type=-1"
    );
}

#[test]
fn parse_intent_types_accepts_aliases_and_rejects_empty() {
    let got = parse_intent_types(" usdt_transfer , trigger_smart_contract ").unwrap();
    assert_eq!(
        got,
        vec![IntentType::UsdtTransfer, IntentType::TriggerSmartContract]
    );
    let err = parse_intent_types(" , ").unwrap_err().message();
    assert_eq!(err, "SOLVER_ENABLED_INTENT_TYPES must not be empty");
}

#[test]
fn hub_and_tron_modes_parse() {
    assert_eq!(parse_hub_tx_mode("eoa").unwrap(), HubTxMode::Eoa);
    assert_eq!(parse_hub_tx_mode(" Safe4337 ").unwrap(), HubTxMode::Safe4337);
    assert_eq!(
        parse_hub_tx_mode("x").unwrap_err().message(),
        "unsupported HUB_TX_MODE: x (expected: eoa|safe4337)"
    );
    assert_eq!(parse_tron_mode("grpc").unwrap(), TronMode::Grpc);
    assert_eq!(parse_tron_mode("MOCK").unwrap(), TronMode::Mock);
    assert_eq!(
        parse_tron_mode("rest").unwrap_err().message(),
        "unsupported TRON_MODE: rest (expected: grpc|mock)"
    );
}

#[test]
fn parse_hex_32_rejects_bad_hex_with_label() {
    let err = parse_hex_32("KEY", "0xzz").unwrap_err().message();
    assert_eq!(err, "invalid hex for KEY");
    let err = parse_hex_32("KEY", "0x11").unwrap_err().message();
    assert_eq!(err, "KEY must be 32 bytes (got 1)");
}

#[test]
fn parse_hex_32_csv_reads_each_item() {
    let a = format!("0x{}", "22".repeat(32));
    let b = "33".repeat(32);
    let out = parse_hex_32_csv("KEYS", &format!("{a}, {b}")).unwrap();
    assert_eq!(out, vec![[0x22u8; 32], [0x33u8; 32]]);
    assert!(parse_hex_32_csv("KEYS", " , ").is_err());
}

#[test]
fn parse_selectors_csv_reads_four_byte_selectors() {
    let out = parse_selectors_csv("SEL", "0x095ea7b3,a9059cbb").unwrap();
    assert_eq!(out, vec![[0x09, 0x5e, 0xa7, 0xb3], [0xa9, 0x05, 0x9c, 0xbb]]);
    let err = parse_selectors_csv("SEL", "0x0102").unwrap_err().message();
    assert_eq!(err, "SEL entries must be 4 bytes (got 2)");
    let err = parse_selectors_csv("SEL", "xyz").unwrap_err().message();
    assert_eq!(err, "invalid selector hex in SEL: xyz");
}

#[test]
fn parse_optional_address_treats_zero_as_unset() {
    let none = parse_optional_address("A", "0x0000000000000000000000000000000000000000").unwrap();
    assert!(none.is_none());
    let some = parse_optional_address("A", "0x00000000000000000000000000000000000000aa").unwrap();
    assert_eq!(some.unwrap().bytes[19], 0xaa);
}

#[test]
fn parse_hex_bytes_accepts_empty_and_prefix() {
    assert_eq!(parse_hex_bytes("  0x ").unwrap(), Vec::<u8>::new());
    assert_eq!(parse_hex_bytes("").unwrap(), Vec::<u8>::new());
    assert_eq!(parse_hex_bytes(" 0xA0ff ").unwrap(), vec![0xa0, 0xff]);
    assert_eq!(parse_hex_bytes("0102").unwrap(), vec![1, 2]);
    assert_eq!(parse_hex_bytes("0x123").unwrap_err().message(), "decode hex bytes");
}

#[test]
fn parse_b256_checks_length() {
    let ok = format!(" 0x{} ", "ab".repeat(32));
    assert_eq!(parse_b256(&ok).unwrap(), [0xabu8; 32]);
    assert_eq!(
        parse_b256("0xabcd").unwrap_err().message(),
        "expected 32-byte hex, got 2"
    );
    assert_eq!(parse_b256("0xgg").unwrap_err().message(), "decode hex b256");
}

#[test]
fn parse_u256_dec_reads_trimmed_decimal_words() {
    let w = parse_u256_dec("  1_000 ").unwrap();
    assert_eq!(alloy::primitives::U256::from_be_bytes(w), alloy::primitives::U256::from(1000u64));
    assert_eq!(parse_u256_dec("0").unwrap(), [0u8; 32]);
    assert_eq!(parse_u256_dec("").unwrap(), [0u8; 32]);
    let max = "115792089237316195423570985008687907853269984665640564039457584007913129639935";
    assert_eq!(parse_u256_dec(max).unwrap(), [0xffu8; 32]);
    let over = "115792089237316195423570985008687907853269984665640564039457584007913129639936";
    assert_eq!(parse_u256_dec(over).unwrap_err().message(), "parse u256 decimal");
    assert_eq!(parse_u256_dec("12a").unwrap_err().message(), "parse u256 decimal");
    assert_eq!(parse_u256_dec("0x10").unwrap_err().message(), "parse u256 decimal");
}
