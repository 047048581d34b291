use untron_solver::abi::{
    abi_word_bool, abi_word_u256, decode_userop_event_data, encode_address, encode_trc20_balance_of,
    encode_trc20_transfer, encode_u256, evm_to_tron_raw21, selector, word_from_u64,
};
use untron_solver::address::Address;
use untron_solver::intents::word_to_u64;

#[test]
fn encode_trc20_transfer_layout() {
    let to = Address::parse("0x00000000000000000000000000000000000000aa").unwrap();
    let amount = word_from_u64(1234);
    let data = encode_trc20_transfer(&to, &amount);

    assert_eq!(data.len(), 4 + 32 + 32);
    assert_eq!(&data[..4], &selector("transfer(address,uint256)"));

    // The address is right-aligned in the first arg word.
    assert_eq!(&data[4..4 + 12], &[0u8; 12]);
    assert_eq!(&data[4 + 12..4 + 32], &to.bytes[..]);

    // U256 is big-endian.
    assert_eq!(&data[4 + 32..4 + 32 + 30], &[0u8; 30]);
    assert_eq!(data[4 + 32 + 30], 0x04);
    assert_eq!(data[4 + 32 + 31], 0xD2);
}

#[test]
fn encode_trc20_balance_of_layout() {
    let owner = Address::parse("0x00000000000000000000000000000000000000bb").unwrap();
    let data = encode_trc20_balance_of(&owner);
    assert_eq!(data.len(), 4 + 32);
    assert_eq!(&data[..4], &selector("balanceOf(address)"));
    assert_eq!(&data[4..4 + 12], &[0u8; 12]);
    assert_eq!(&data[4 + 12..4 + 32], &owner.bytes[..]);
}

#[test]
fn selectors_match_known_values() {
    assert_eq!(selector("transfer(address,uint256)"), [0xa9, 0x05, 0x9c, 0xbb]);
    assert_eq!(selector("balanceOf(address)"), [0x70, 0xa0, 0x82, 0x31]);
}

#[test]
fn words_roundtrip_u64() {
    for v in [0u64, 1, 255, 256, 1234, u64::MAX] {
        let w = word_from_u64(v);
        assert_eq!(w, alloy::primitives::U256::from(v).to_be_bytes::<32>());
        assert_eq!(word_to_u64(&w), Some(v));
        assert_eq!(encode_u256(&w), w);
    }
    let mut big = [0u8; 32];
    big[23] = 1;
    assert_eq!(word_to_u64(&big), None);
}

#[test]
fn encode_address_right_aligns() {
    let a = Address { bytes: [0x11; 20] };
    let w = encode_address(&a);
    assert_eq!(&w[..12], &[0u8; 12]);
    assert_eq!(&w[12..], &[0x11u8; 20]);
    let t = evm_to_tron_raw21(&a);
    assert_eq!(t[0], 0x41);
    assert_eq!(&t[1..], &[0x11u8; 20]);
}

#[test]
fn abi_words_are_read_in_place() {
    let mut data = vec![0u8; 96];
    data[31] = 7;
    data[63] = 1;
    data[95] = 2;
    assert_eq!(abi_word_u256(&data, 0).unwrap()[31], 7);
    assert_eq!(abi_word_bool(&data, 1), Some(true));
    assert_eq!(abi_word_bool(&data, 2), Some(false));
    assert_eq!(abi_word_u256(&data, 3), None);
    assert_eq!(abi_word_bool(&data, usize::MAX), None);
    let f = decode_userop_event_data(&data);
    assert_eq!(f.nonce.unwrap()[31], 7);
    assert_eq!(f.success, Some(true));
    assert_eq!(f.actual_gas_cost_wei.unwrap()[31], 2);
    assert!(f.actual_gas_used.is_none());
}
