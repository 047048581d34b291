use untron_solver::receipts::{extract_userop_receipt_fields, u64_from_hex, ReceiptError};

fn word(v: u128) -> [u8; 32] {
    let mut w = [0u8; 32];
    w[16..].copy_from_slice(&v.to_be_bytes());
    w
}

fn json(text: &str) -> serde_json::Value {
    serde_json::from_str(text).unwrap()
}

#[test]
fn receipt_fields_are_found_where_bundlers_put_them() {
    let hash = "ab".repeat(32);
    let raw = json(&format!(
        r#"{{"success":true,"actualGasCost":"0x10","reason":"AA21",
            "receipt":{{"transactionHash":"0x{hash}","blockNumber":"0x1f","actualGasUsed":"42"}}}}"#
    ));
    let f = extract_userop_receipt_fields(&raw).unwrap();
    assert_eq!(f.tx_hash, Some([0xabu8; 32]));
    assert_eq!(f.block_number, Some(31));
    assert_eq!(f.success, Some(true));
    assert_eq!(f.actual_gas_cost_wei, Some(word(16)));
    assert_eq!(f.actual_gas_used, Some(word(42)));
    assert_eq!(f.reason, Some(serde_json::Value::String("AA21".to_string())));
}

#[test]
fn receipt_fields_prefer_the_top_level_and_first_spelling() {
    let raw = json(
        r#"{"transactionHash":null,"actual_gas_cost":7,"actualGasCost":"bad",
            "receipt":{"blockNumber":12,"actualGasCost":"0x99","actual_gas_used":" 1_000 "}}"#,
    );
    let f = extract_userop_receipt_fields(&raw).unwrap();
    assert_eq!(f.tx_hash, None);
    assert_eq!(f.block_number, Some(12));
    assert_eq!(f.success, None);
    assert_eq!(f.actual_gas_cost_wei, Some(word(7)));
    assert_eq!(f.actual_gas_used, Some(word(1000)));
    assert_eq!(f.reason, None);
}

#[test]
fn receipt_amounts_take_prefixed_radixes() {
    let raw = json(r#"{"actualGasCost":"0b101","actualGasUsed":"0X1F"}"#);
    let f = extract_userop_receipt_fields(&raw).unwrap();
    assert_eq!(f.actual_gas_cost_wei, Some(word(5)));
    assert_eq!(f.actual_gas_used, Some(word(31)));
}

#[test]
fn bad_transaction_hash_is_refused() {
    let raw = json(r#"{"transactionHash":"0x12"}"#);
    let err = extract_userop_receipt_fields(&raw).unwrap_err();
    assert_eq!(err, ReceiptError::BadTransactionHash);
    assert_eq!(err.message(), "parse transactionHash");
}

#[test]
fn block_number_hex_reads_like_from_str_radix() {
    assert_eq!(u64_from_hex("ff"), Some(255));
    assert_eq!(u64_from_hex("+a"), Some(10));
    assert_eq!(u64_from_hex("FFFFFFFFFFFFFFFF"), Some(u64::MAX));
    assert_eq!(u64_from_hex("10000000000000000"), None);
    assert_eq!(u64_from_hex(""), None);
    assert_eq!(u64_from_hex("+"), None);
    assert_eq!(u64_from_hex("1_0"), None);
    assert_eq!(u64_from_hex("g"), None);
}
