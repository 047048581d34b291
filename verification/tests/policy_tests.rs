use alloy::primitives::{Bytes, U256};
use alloy::sol_types::{sol_data, SolType, SolValue};
use untron_solver::address::Address;
use untron_solver::policy::{
    decode_trigger_contract_and_selector, selector4, PolicyError, PolicyPrecheck, PolicyRules,
};
use untron_solver::rows::PoolOpenIntentRow;
use untron_solver::types::IntentType;

fn cfg() -> PolicyRules {
    PolicyRules {
        enabled_intent_types: vec![IntentType::TriggerSmartContract],
        min_deadline_slack_secs: 0,
        trigger_contract_allowlist: vec![],
        trigger_contract_denylist: vec![],
        trigger_selector_denylist: vec![],
        trigger_allow_fallback_calls: false,
        max_trx_transfer_sun: None,
        max_usdt_transfer_amount: None,
        max_delegate_balance_sun: None,
        max_delegate_lock_period_secs: None,
        max_trigger_call_value_sun: None,
        max_trigger_calldata_len: None,
    }
}

fn addr(s: &str) -> Address {
    Address::parse(s).unwrap()
}

fn alloy_addr(a: &Address) -> alloy::primitives::Address {
    alloy::primitives::Address::from(a.bytes)
}

fn row_for(intent_type: IntentType, intent_specs: Vec<u8>, deadline: i64) -> PoolOpenIntentRow {
    PoolOpenIntentRow {
        id: format!("0x{}", "11".repeat(32)),
        intent_type: intent_type.code(),
        intent_specs: format!("0x{}", hex::encode(intent_specs)),
        escrow_token: alloy::primitives::Address::ZERO.to_string(),
        escrow_amount: "0".to_string(),
        solver: None,
        deadline,
        solved: false,
        funded: true,
        settled: false,
        closed: false,
    }
}

fn trigger_specs(to: &Address, call_value: U256, data: Vec<u8>) -> Vec<u8> {
    (alloy_addr(to), call_value, Bytes::from(data)).abi_encode()
}

fn delegate_specs(resource: u8, balance: u64, lock_blocks: u64) -> Vec<u8> {
    <(
        sol_data::Address,
        sol_data::Uint<8>,
        sol_data::Uint<256>,
        sol_data::Uint<256>,
    ) as SolType>::abi_encode(&(
        alloy::primitives::Address::ZERO,
        resource,
        U256::from(balance),
        U256::from(lock_blocks),
    ))
}

fn reason_of(p: PolicyPrecheck) -> Option<&'static str> {
    match p {
        PolicyPrecheck::Rejected { reason } => Some(reason),
        PolicyPrecheck::Passed { .. } => None,
    }
}

#[test]
fn selector4_extracts_first_4_bytes() {
    assert_eq!(selector4(&[]), None);
    assert_eq!(selector4(&[1, 2, 3]), None);
    assert_eq!(selector4(&[1, 2, 3, 4]), Some([1, 2, 3, 4]));
    assert_eq!(selector4(&[1, 2, 3, 4, 5]), Some([1, 2, 3, 4]));
}

#[test]
fn trigger_allowlist_blocks_unlisted_contracts() {
    let mut c = cfg();
    let allowed = addr("0x00000000000000000000000000000000000000aa");
    c.trigger_contract_allowlist = vec![allowed];
    let p = c;

    assert!(p.is_trigger_contract_allowed(&allowed));
    assert!(!p.is_trigger_contract_allowed(&Address::zero()));
}

#[test]
fn trigger_denylist_blocks_even_when_no_allowlist() {
    let mut c = cfg();
    let denied = addr("0x00000000000000000000000000000000000000bb");
    c.trigger_contract_denylist = vec![denied];
    let p = c;

    assert!(!p.is_trigger_contract_allowed(&denied));
    assert!(p.is_trigger_contract_allowed(&Address::zero()));
}

#[test]
fn delegate_lock_cap_treats_lock_period_as_blocks() {
    let mut c = cfg();
    c.enabled_intent_types = vec![IntentType::DelegateResource];
    c.max_delegate_lock_period_secs = Some(86_400); // 1 day in seconds

    // 1 day + 1 block
    let row = row_for(IntentType::DelegateResource, delegate_specs(1, 1_000_000, 28_801), 2_000_000);
    let eval = c.precheck_open_intent(&row, 1_000_000).unwrap();
    assert_eq!(reason_of(eval), Some("delegate_lock_cap"));

    // exactly 1 day passes
    let row = row_for(IntentType::DelegateResource, delegate_specs(1, 1_000_000, 28_800), 2_000_000);
    let eval = c.precheck_open_intent(&row, 1_000_000).unwrap();
    assert_eq!(reason_of(eval), None);
}

#[test]
fn trigger_selector_denylist_rejects() {
    let to = addr("0x00000000000000000000000000000000000000aa");
    let mut c = cfg();
    c.trigger_contract_allowlist = vec![to];
    c.trigger_selector_denylist = vec![[0x09, 0x5e, 0xa7, 0xb3]];

    let now = 1_000_000i64;
    let specs = trigger_specs(&to, U256::ZERO, vec![0x09, 0x5e, 0xa7, 0xb3, 0x00]);
    let row = row_for(IntentType::TriggerSmartContract, specs, now + 10_000);
    let eval = c.precheck_open_intent(&row, now).unwrap();
    assert_eq!(reason_of(eval), Some("trigger_selector_denied"));
}

#[test]
fn trigger_fallback_calls_rejected_by_default() {
    let to = addr("0x00000000000000000000000000000000000000aa");
    let mut c = cfg();
    c.trigger_contract_allowlist = vec![to];

    let now = 1_000_000i64;
    let specs = trigger_specs(&to, U256::ZERO, vec![]);
    let row = row_for(IntentType::TriggerSmartContract, specs, now + 10_000);
    let eval = c.precheck_open_intent(&row, now).unwrap();
    assert_eq!(reason_of(eval), Some("trigger_selector_missing"));
}

#[test]
fn trigger_passing_checks_yield_breaker_key() {
    let to = addr("0x00000000000000000000000000000000000000aa");
    let c = cfg();
    let now = 1_000_000i64;
    let specs = trigger_specs(&to, U256::from(5u64), vec![0xa9, 0x05, 0x9c, 0xbb, 1, 2]);
    let row = row_for(IntentType::TriggerSmartContract, specs.clone(), now + 10);
    match c.precheck_open_intent(&row, now).unwrap() {
        PolicyPrecheck::Passed { intent_type, breaker } => {
            assert_eq!(intent_type, IntentType::TriggerSmartContract);
            let b = breaker.unwrap();
            assert_eq!(b.contract, to);
            assert_eq!(b.selector, Some([0xa9, 0x05, 0x9c, 0xbb]));
        }
        PolicyPrecheck::Rejected { reason } => panic!("rejected: {reason}"),
    }
    let (contract, sel) = decode_trigger_contract_and_selector(&specs).unwrap();
    assert_eq!(contract, to);
    assert_eq!(sel, Some([0xa9, 0x05, 0x9c, 0xbb]));
    assert!(decode_trigger_contract_and_selector(&[1, 2, 3]).is_none());
}

#[test]
fn open_intent_gates_in_order() {
    let c = cfg();
    let now = 1_000i64;
    let to = addr("0x00000000000000000000000000000000000000aa");
    let specs = trigger_specs(&to, U256::ZERO, vec![1, 2, 3, 4]);
    let mut row = row_for(IntentType::TriggerSmartContract, specs, now + 5);
    row.closed = true;
    assert_eq!(reason_of(c.precheck_open_intent(&row, now).unwrap()), Some("closed_or_solved"));
    row.closed = false;
    row.funded = false;
    assert_eq!(reason_of(c.precheck_open_intent(&row, now).unwrap()), Some("not_funded"));
    row.funded = true;
    row.solver = Some("0xabc".to_string());
    assert_eq!(reason_of(c.precheck_open_intent(&row, now).unwrap()), Some("already_claimed"));
    row.solver = None;
    let mut slow = cfg();
    slow.min_deadline_slack_secs = 10;
    assert_eq!(reason_of(slow.precheck_open_intent(&row, now).unwrap()), Some("deadline_slack"));
    row.intent_type = 9;
    assert_eq!(c.precheck_open_intent(&row, now).unwrap_err(), PolicyError::UnknownIntentType { code: 9 });
    assert_eq!(
        PolicyError::UnknownIntentType { code: 9 }.message(),
        "unknown intent_type=9"
    );
    row.intent_type = IntentType::TrxTransfer.code();
    assert_eq!(reason_of(c.precheck_open_intent(&row, now).unwrap()), Some("intent_type_disabled"));
}

#[test]
fn static_checks_reject_bad_specs_and_caps() {
    let mut c = cfg();
    assert_eq!(
        c.static_intent_checks(IntentType::TrxTransfer, "0xzz").unwrap().reject_reason,
        Some("bad_intent_specs")
    );
    assert_eq!(
        c.static_intent_checks(IntentType::TrxTransfer, "0x01").unwrap().reject_reason,
        Some("trx_decode_failed")
    );
    assert_eq!(
        c.static_intent_checks(IntentType::TriggerSmartContract, "0x01").unwrap_err(),
        PolicyError::TriggerDecodeFailed
    );
    c.max_trx_transfer_sun = Some(100);
    let ok = (alloy::primitives::Address::ZERO, U256::from(100u64)).abi_encode();
    let hex_ok = format!("0x{}", hex::encode(&ok));
    assert_eq!(c.static_intent_checks(IntentType::TrxTransfer, &hex_ok).unwrap().reject_reason, None);
    let over = (alloy::primitives::Address::ZERO, U256::from(101u64)).abi_encode();
    let hex_over = format!("0x{}", hex::encode(&over));
    assert_eq!(
        c.static_intent_checks(IntentType::TrxTransfer, &hex_over).unwrap().reject_reason,
        Some("trx_amount_cap")
    );
    let huge = (alloy::primitives::Address::ZERO, U256::from(1u64) << 64usize).abi_encode();
    let hex_huge = format!("0x{}", hex::encode(&huge));
    assert_eq!(
        c.static_intent_checks(IntentType::TrxTransfer, &hex_huge).unwrap().reject_reason,
        Some("trx_amount_range")
    );
    c.max_usdt_transfer_amount = Some(5);
    assert_eq!(
        c.static_intent_checks(IntentType::UsdtTransfer, &hex_over).unwrap().reject_reason,
        Some("usdt_amount_cap")
    );
    c.max_delegate_balance_sun = Some(10);
    let d = format!("0x{}", hex::encode(delegate_specs(1, 11, 1)));
    assert_eq!(
        c.static_intent_checks(IntentType::DelegateResource, &d).unwrap().reject_reason,
        Some("delegate_balance_cap")
    );
}

#[test]
fn trigger_value_and_calldata_caps() {
    let to = addr("0x00000000000000000000000000000000000000aa");
    let mut c = cfg();
    c.max_trigger_call_value_sun = Some(10);
    c.max_trigger_calldata_len = Some(4);
    let too_much = format!("0x{}", hex::encode(trigger_specs(&to, U256::from(11u64), vec![1, 2, 3, 4])));
    assert_eq!(
        c.static_intent_checks(IntentType::TriggerSmartContract, &too_much).unwrap().reject_reason,
        Some("trigger_call_value_cap")
    );
    let too_long = format!("0x{}", hex::encode(trigger_specs(&to, U256::from(1u64), vec![1, 2, 3, 4, 5])));
    assert_eq!(
        c.static_intent_checks(IntentType::TriggerSmartContract, &too_long).unwrap().reject_reason,
        Some("trigger_calldata_len")
    );
    c.trigger_contract_denylist = vec![to];
    let fine = format!("0x{}", hex::encode(trigger_specs(&to, U256::from(1u64), vec![1, 2, 3, 4])));
    assert_eq!(
        c.static_intent_checks(IntentType::TriggerSmartContract, &fine).unwrap().reject_reason,
        Some("trigger_contract_not_allowed")
    );
}
