use untron_solver::address::Address;
use untron_solver::delegate::ResourceCode;
use untron_solver::intents::DelegateResourceIntent;
use untron_solver::rental::RentalAttempt;
use untron_solver::rows::InventoryCheck;
use untron_solver::runner::{
    attempt_gates, capacity_request, claimed_action, decode_rental_txid, emulation_lookup_applies,
    failure_hits_breaker, final_only_row, history_lookback, inclusion_wait_tick,
    indexer_lag_too_high, inventory_skip_reason, lease_batch_size, mock_txid, needs_broadcast,
    no_rental_message, onchain_failure_breaker, permit_count, proof_error_is_fatal,
    provider_failure, provider_order, quote_request, reason_or, releases_reservation,
    rental_succeeded, resell_amounts, rows_to_send, usdt_transfer_selector, ClaimedAction,
    RentalTxidError, ResellError,
};
use untron_solver::types::{IntentType, TronMode};

fn word(v: u128) -> [u8; 32] {
    let mut w = [0u8; 32];
    w[16..].copy_from_slice(&v.to_be_bytes());
    w
}

fn delegate_intent(resource: u8, balance: u128, lock: u128) -> DelegateResourceIntent {
    DelegateResourceIntent {
        receiver: Address::zero(),
        resource,
        balance_sun: word(balance),
        lock_period: word(lock),
    }
}

fn attempt(ok: bool, txid: Option<&str>) -> RentalAttempt {
    RentalAttempt {
        provider: "p".to_string(),
        ok,
        order_id: None,
        txid: txid.map(|s| s.to_string()),
        response_json: None,
        error: None,
    }
}

#[test]
fn inventory_gate_needs_several_keys_or_consolidation() {
    let g = attempt_gates(TronMode::Grpc, IntentType::TrxTransfer, 1, false, false, false, None);
    assert!(!g.check_inventory);
    let g = attempt_gates(TronMode::Grpc, IntentType::UsdtTransfer, 2, false, false, false, None);
    assert!(g.check_inventory);
    let g = attempt_gates(TronMode::Grpc, IntentType::TrxTransfer, 1, true, false, false, None);
    assert!(g.check_inventory);
    let g = attempt_gates(TronMode::Mock, IntentType::TrxTransfer, 5, true, false, false, None);
    assert!(!g.check_inventory);
}

#[test]
fn only_energy_is_resold_and_capacity_is_checked_otherwise() {
    let g = attempt_gates(TronMode::Grpc, IntentType::DelegateResource, 1, false, true, false, Some(1));
    assert!(g.resell);
    assert!(!g.check_capacity);
    let g = attempt_gates(TronMode::Grpc, IntentType::DelegateResource, 1, false, true, false, Some(0));
    assert!(!g.resell);
    assert!(g.check_capacity);
    let g = attempt_gates(TronMode::Grpc, IntentType::DelegateResource, 1, false, true, false, None);
    assert!(!g.resell);
    assert!(!g.check_capacity);
}

#[test]
fn emulation_gate_covers_calls_and_usdt() {
    let g = attempt_gates(TronMode::Grpc, IntentType::TriggerSmartContract, 1, false, false, true, None);
    assert!(g.emulate);
    let g = attempt_gates(TronMode::Grpc, IntentType::UsdtTransfer, 1, false, false, true, None);
    assert!(g.emulate);
    let g = attempt_gates(TronMode::Grpc, IntentType::TrxTransfer, 1, false, false, true, None);
    assert!(!g.emulate);
    let g = attempt_gates(TronMode::Mock, IntentType::UsdtTransfer, 1, false, false, true, None);
    assert!(!g.emulate);
}

#[test]
fn skip_reasons_fall_back() {
    let c = InventoryCheck { ok: false, reason: None, required_pre_txs: 0 };
    assert_eq!(inventory_skip_reason(&c), "inventory_insufficient");
    let c = InventoryCheck { ok: false, reason: Some("no_tron_keys"), required_pre_txs: 0 };
    assert_eq!(inventory_skip_reason(&c), "no_tron_keys");
    assert_eq!(reason_or(&None, "policy_reject"), "policy_reject");
    assert_eq!(reason_or(&Some("x".to_string()), "policy_reject"), "x");
}

#[test]
fn capacity_and_quote_requests_saturate() {
    let (rc, need) = capacity_request(&delegate_intent(7, 1_000, 0));
    assert_eq!(rc, ResourceCode::Energy);
    assert_eq!(need, 1_000);
    let (rc, need) = capacity_request(&delegate_intent(0, u128::MAX, 0));
    assert_eq!(rc, ResourceCode::Bandwidth);
    assert_eq!(need, i64::MAX);
    let (rc, _) = capacity_request(&delegate_intent(2, 1, 0));
    assert_eq!(rc, ResourceCode::TronPower);
    assert_eq!(quote_request(&delegate_intent(1, 5, 6)), (5, 6));
    assert_eq!(
        quote_request(&delegate_intent(1, u128::MAX, 6)),
        (u64::MAX, 6)
    );
}

#[test]
fn claimed_jobs_are_routed() {
    assert_eq!(
        claimed_action(TronMode::Mock, IntentType::TrxTransfer, true),
        ClaimedAction::ExecuteMock
    );
    assert_eq!(
        claimed_action(TronMode::Grpc, IntentType::UsdtTransfer, false),
        ClaimedAction::PreparePlan
    );
    assert_eq!(
        claimed_action(TronMode::Grpc, IntentType::DelegateResource, true),
        ClaimedAction::TryResell
    );
    assert_eq!(
        claimed_action(TronMode::Grpc, IntentType::DelegateResource, false),
        ClaimedAction::PrepareDelegate
    );
    assert_eq!(
        claimed_action(TronMode::Grpc, IntentType::TriggerSmartContract, true),
        ClaimedAction::PrepareTrigger
    );
}

#[test]
fn resell_amounts_must_fit_i64() {
    assert_eq!(resell_amounts(&delegate_intent(1, 10, 20)), Ok((10, 20)));
    assert_eq!(
        resell_amounts(&delegate_intent(1, 1u128 << 63, 20)),
        Err(ResellError::BalanceOutOfRange)
    );
    assert_eq!(
        resell_amounts(&delegate_intent(1, 1, 1u128 << 70)),
        Err(ResellError::LockPeriodOutOfRange)
    );
    assert_eq!(ResellError::BalanceOutOfRange.message(), "balanceSun out of i64 range");
}

#[test]
fn preferred_provider_is_tried_first() {
    let names: Vec<String> = ["a", "b", "c", "b"].iter().map(|s| s.to_string()).collect();
    assert_eq!(provider_order(&names, &Some("b".to_string())), vec![1, 3, 0, 2]);
    assert_eq!(provider_order(&names, &None), vec![0, 1, 2, 3]);
    assert_eq!(provider_order(&names, &Some("z".to_string())), vec![0, 1, 2, 3]);
}

#[test]
fn rental_outcomes_and_messages() {
    assert!(rental_succeeded(&attempt(true, Some("0xab"))));
    assert!(!rental_succeeded(&attempt(true, None)));
    assert!(!rental_succeeded(&attempt(false, Some("0xab"))));
    assert_eq!(provider_failure("p1", "timeout"), "p1: timeout");
    assert_eq!(no_rental_message(&None), "no energy rental providers succeeded");
    assert_eq!(no_rental_message(&Some("p1: timeout".to_string())), "p1: timeout");
}

#[test]
fn rental_txid_is_32_bytes_of_hex() {
    let hex = "ab".repeat(32);
    assert_eq!(decode_rental_txid(&format!("0x{hex}")).unwrap(), [0xabu8; 32]);
    assert_eq!(decode_rental_txid(&format!("0x0x{hex}")).unwrap(), [0xabu8; 32]);
    assert_eq!(decode_rental_txid(&hex).unwrap(), [0xabu8; 32]);
    assert!(matches!(decode_rental_txid("0xzz"), Err(RentalTxidError::BadHex)));
    let err = decode_rental_txid("0xabcd").unwrap_err();
    assert_eq!(err.message(), "rental txid is not 32 bytes: 0xabcd");
    assert_eq!(RentalTxidError::BadHex.message(), "decode rental txid hex");
}

#[test]
fn mock_txid_defaults_to_digest_of_intent_id() {
    let id = [0u8; 32];
    let expected =
        hex::decode("290decd9548b62a8d60345a988386fc84ba6bc95484008f6362f93160ef3e563").unwrap();
    assert_eq!(mock_txid(None, &id).to_vec(), expected);
    assert_eq!(mock_txid(Some([7u8; 32]), &id), [7u8; 32]);
}

#[test]
fn onchain_failures_feed_the_breaker() {
    assert!(proof_error_is_fatal("build proof: tron_tx_failed: REVERT"));
    assert!(!proof_error_is_fatal("node busy"));
    assert!(failure_hits_breaker(IntentType::TriggerSmartContract));
    assert!(failure_hits_breaker(IntentType::UsdtTransfer));
    assert!(!failure_hits_breaker(IntentType::TrxTransfer));
    assert_eq!(usdt_transfer_selector(), [0xa9, 0x05, 0x9c, 0xbb]);
    assert!(emulation_lookup_applies(true, TronMode::Grpc));
    assert!(!emulation_lookup_applies(true, TronMode::Mock));

    assert_eq!(onchain_failure_breaker(false, 5, "boom"), (1, "boom".to_string()));
    assert_eq!(
        onchain_failure_breaker(true, 5, "boom"),
        (5, "onchain_fail_after_emulation_ok: boom".to_string())
    );
    assert_eq!(onchain_failure_breaker(true, 0, "boom").0, 1);
    assert_eq!(onchain_failure_breaker(true, u64::MAX, "boom").0, 2);
}

#[test]
fn prepared_rows_and_broadcast_rules() {
    let fin = final_only_row([9u8; 32], vec![1, 2, 3]);
    assert_eq!(fin.step, "final");
    assert_eq!(fin.fee_limit_sun, None);
    let rows = rows_to_send(Vec::new(), fin.clone());
    assert_eq!(rows.len(), 1);
    assert_eq!(rows[0].txid, [9u8; 32]);
    let plan = vec![final_only_row([1u8; 32], vec![]), final_only_row([2u8; 32], vec![])];
    let rows = rows_to_send(plan, fin);
    assert_eq!(rows.len(), 2);
    assert_eq!(rows[1].txid, [2u8; 32]);

    assert!(needs_broadcast(false, false));
    assert!(!needs_broadcast(true, false));
    assert!(!needs_broadcast(false, true));
    assert!(releases_reservation(IntentType::DelegateResource));
    assert!(!releases_reservation(IntentType::TrxTransfer));
}

#[test]
fn inclusion_wait_renews_lease_and_times_out() {
    let t = inclusion_wait_tick(1_000, 11_000, 5_000);
    assert!(!t.renew_lease);
    assert_eq!(t.next_refresh_ms, 11_000);
    assert!(!t.timed_out);
    let t = inclusion_wait_tick(1_000, 11_000, 11_000);
    assert!(t.renew_lease);
    assert_eq!(t.next_refresh_ms, 21_000);
    let t = inclusion_wait_tick(1_000, 71_000, 61_000);
    assert!(!t.timed_out);
    let t = inclusion_wait_tick(1_000, 71_000, 61_001);
    assert!(t.timed_out);
}

#[test]
fn tick_limits() {
    assert!(indexer_lag_too_high(200, Some(100), 50));
    assert!(!indexer_lag_too_high(150, Some(100), 50));
    assert!(!indexer_lag_too_high(50, Some(100), 0));
    assert!(!indexer_lag_too_high(200, None, 0));
    assert_eq!(lease_batch_size(0), 1);
    assert_eq!(lease_batch_size(20), 20);
    assert_eq!(lease_batch_size(u64::MAX), 50);
    assert_eq!(permit_count(4), 4);
    assert_eq!(history_lookback(u64::MAX), 50);
    assert_eq!(history_lookback(7), 7);
}
