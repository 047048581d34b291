use untron_solver::inventory::{
    choose_trx_transfer_plan, choose_usdt_transfer_plan, emulation_outcome, emulation_verdict,
    EstimateAnswer, plan_rows, pre_step,
    preclaim_gate, trx_direct_executor, trx_inventory_check, usdt_direct_executor,
    usdt_inventory_check, TransferPlan, TransferPlanError, BALANCE_RESERVE_SUN,
};
use untron_solver::planner::ConsolidationCapError;
use untron_solver::rows::{JobConfig, TronPreparedPlan, TronPreparedTx};
use untron_solver::types::{IntentType, TronMode};

fn jobs(enabled: bool, max_pre: u64) -> JobConfig {
    JobConfig {
        tick_interval: std::time::Duration::from_secs(1),
        tron_finality_blocks: 19,
        tip_proof_resend_blocks: 20,
        process_controller_max_events: 100,
        fill_max_claims: 10,
        max_in_flight_jobs: 10,
        concurrency_trx_transfer: 1,
        concurrency_usdt_transfer: 1,
        concurrency_delegate_resource: 1,
        concurrency_trigger_smart_contract: 1,
        concurrency_tron_broadcast: 1,
        consolidation_enabled: enabled,
        consolidation_max_pre_txs: max_pre,
        consolidation_max_total_trx_pull_sun: 0,
        consolidation_max_per_tx_trx_pull_sun: 0,
        consolidation_max_total_usdt_pull_amount: 0,
        consolidation_max_per_tx_usdt_pull_amount: 0,
        rate_limit_claims_per_minute_global: 0,
        rate_limit_claims_per_minute_trx_transfer: 0,
        rate_limit_claims_per_minute_usdt_transfer: 0,
        rate_limit_claims_per_minute_delegate_resource: 0,
        rate_limit_claims_per_minute_trigger_smart_contract: 0,
        global_pause_fatal_threshold: 0,
        global_pause_window_secs: 300,
        global_pause_duration_secs: 300,
        breaker_mismatch_penalty: 1,
        delegate_reservation_ttl_secs: 600,
        controller_rebalance_threshold_usdt: "0".to_string(),
        controller_rebalance_keep_usdt: "0".to_string(),
        pull_liquidity_ppm: 0,
    }
}

#[test]
fn direct_executor_keeps_fee_reserve() {
    assert_eq!(BALANCE_RESERVE_SUN, 2_000_000);
    assert_eq!(trx_direct_executor(&[2_999_999, 3_000_000, 9_000_000], 1_000_000), Some(1));
    assert_eq!(trx_direct_executor(&[2_999_999], 1_000_000), None);
    assert_eq!(trx_direct_executor(&[i64::MAX], i64::MAX), Some(0));
    assert_eq!(usdt_direct_executor(&[10, 10], &[0, 2_000_000], 10), Some(1));
    assert_eq!(usdt_direct_executor(&[10, 10], &[2_000_000], 10), Some(0));
    assert_eq!(usdt_direct_executor(&[10, 10], &[2_000_000], 11), None);
    assert_eq!(usdt_direct_executor(&[10, 10], &[], 1), None);
}

#[test]
fn preclaim_gate_decides_early_cases() {
    let c = preclaim_gate(TronMode::Mock, 0, IntentType::TrxTransfer).unwrap();
    assert!(c.ok && c.reason.is_none() && c.required_pre_txs == 0);
    let c = preclaim_gate(TronMode::Grpc, 0, IntentType::TrxTransfer).unwrap();
    assert!(!c.ok);
    assert_eq!(c.reason, Some("no_tron_keys"));
    let c = preclaim_gate(TronMode::Grpc, 2, IntentType::DelegateResource).unwrap();
    assert!(c.ok);
    assert!(preclaim_gate(TronMode::Grpc, 2, IntentType::UsdtTransfer).is_none());
}

#[test]
fn trx_inventory_check_verdicts() {
    let c = trx_inventory_check(&[3_000_000], 1_000_000, &jobs(false, 0));
    assert!(c.ok && c.required_pre_txs == 0);
    let c = trx_inventory_check(&[1_000_000, 1_000_000], 1_000_000, &jobs(false, 2));
    assert_eq!((c.ok, c.reason), (false, Some("consolidation_disabled")));
    let c = trx_inventory_check(&[1_000_000, 1_000_000], 1_000_000, &jobs(true, 2));
    assert_eq!((c.ok, c.reason), (false, Some("cannot_consolidate")));
    let c = trx_inventory_check(&[2_000_000, 1_500_000], 1_000_000, &jobs(true, 2));
    assert_eq!((c.ok, c.reason, c.required_pre_txs), (true, None, 1));
    let mut capped = jobs(true, 2);
    capped.consolidation_max_per_tx_trx_pull_sun = 10;
    let c = trx_inventory_check(&[2_000_000, 1_500_000], 1_000_000, &capped);
    assert_eq!((c.ok, c.reason, c.required_pre_txs), (false, Some("consolidation_caps"), 1));
}

#[test]
fn usdt_inventory_check_verdicts() {
    let c = usdt_inventory_check(&[10, 5, 100], &[0, 0, 0], 115, &jobs(true, 2));
    assert_eq!((c.ok, c.reason, c.required_pre_txs), (true, None, 2));
    let c = usdt_inventory_check(&[10, 5, 100], &[0, 0, 0], 115, &jobs(true, 1));
    assert_eq!((c.ok, c.reason), (false, Some("cannot_consolidate")));
    let c = usdt_inventory_check(&[200], &[2_000_000], 115, &jobs(false, 0));
    assert!(c.ok);
}

#[test]
fn trx_transfer_plans() {
    match choose_trx_transfer_plan(&[3_000_000], 1_000_000, &jobs(false, 0)).unwrap() {
        TransferPlan::Direct { executor_index } => assert_eq!(executor_index, 0),
        other => panic!("{other:?}"),
    }
    let e = choose_trx_transfer_plan(&[1], 1_000_000, &jobs(false, 0)).unwrap_err();
    assert_eq!(e, TransferPlanError::TrxConsolidationDisabled);
    assert_eq!(e.message(), "insufficient TRX balance (and consolidation disabled)");
    let e = choose_trx_transfer_plan(&[1, 1], 1_000_000, &jobs(true, 2)).unwrap_err();
    assert_eq!(e.message(), "insufficient TRX balance (cannot consolidate within limits)");
    match choose_trx_transfer_plan(&[2_000_000, 1_500_000], 1_000_000, &jobs(true, 2)).unwrap() {
        TransferPlan::Consolidate(p) => {
            assert_eq!(p.executor_index, 0);
            assert_eq!(p.transfers, vec![(1, 1_000_000)]);
        }
        other => panic!("{other:?}"),
    }
    let mut capped = jobs(true, 2);
    capped.consolidation_max_total_trx_pull_sun = 5;
    let e = choose_trx_transfer_plan(&[2_000_000, 1_500_000], 1_000_000, &capped).unwrap_err();
    assert_eq!(e, TransferPlanError::Caps(ConsolidationCapError::TrxTotalExceeded));
    assert_eq!(e.message(), "consolidation max_total_trx_pull_sun exceeded");
}

#[test]
fn usdt_transfer_plans() {
    match choose_usdt_transfer_plan(&[10, 5, 100], &[], 115, &jobs(true, 2)).unwrap() {
        TransferPlan::Consolidate(p) => {
            assert_eq!(p.executor_index, 2);
            assert_eq!(p.transfers, vec![(0, 10), (1, 5)]);
        }
        other => panic!("{other:?}"),
    }
    let e = choose_usdt_transfer_plan(&[1], &[], 115, &jobs(false, 2)).unwrap_err();
    assert_eq!(e.message(), "insufficient USDT balance (and consolidation disabled)");
}

fn tx(b: u8) -> TronPreparedTx {
    TronPreparedTx {
        txid: [b; 32],
        tx_bytes: vec![b, b],
        fee_limit_sun: Some(b as i64),
        energy_required: None,
        tx_size_bytes: Some(2),
    }
}

#[test]
fn plan_rows_name_steps() {
    assert_eq!(pre_step(0), "pre:0000");
    assert_eq!(pre_step(42), "pre:0042");
    assert_eq!(pre_step(12345), "pre:12345");
    let plan = TronPreparedPlan { pre_txs: vec![tx(1), tx(2)], final_tx: tx(9) };
    let (pre, last) = plan_rows(&plan);
    assert_eq!(pre.len(), 2);
    assert_eq!(pre[0].step, "pre:0000");
    assert_eq!(pre[1].step, "pre:0001");
    assert_eq!(pre[1].txid, [2; 32]);
    assert_eq!(pre[1].tx_bytes, vec![2, 2]);
    assert_eq!(last.step, "final");
    assert_eq!(last.fee_limit_sun, Some(9));
}

#[test]
fn emulation_verdicts() {
    let off = emulation_verdict(false, &Some("emulation_revert: x".to_string()));
    assert!(off.ok);
    let other = emulation_verdict(true, &Some("deadline exceeded".to_string()));
    assert!(other.ok && other.reason.is_none());
    let passed = emulation_verdict(true, &None);
    assert!(passed.ok);
}

#[test]
fn emulation_outcome_marks_contract_reverts() {
    assert!(emulation_outcome(&None).unwrap_err() == "emulation_failed: missing result");
    let ok = EstimateAnswer { result: true, code: 0, contract_error: false, message: vec![], message_utf8: String::new() };
    assert!(emulation_outcome(&Some(ok)).is_ok());
    let revert = EstimateAnswer {
        result: false,
        code: 3,
        contract_error: true,
        message: vec![0x00, 0xab],
        message_utf8: "oops".to_string(),
    };
    let err = emulation_outcome(&Some(revert)).unwrap_err();
    assert_eq!(err, "emulation_revert: code=3 msg_hex=0x00ab msg_utf8=oops");
    assert!(emulation_verdict(true, &Some(err)).ok == false);
    let busy = EstimateAnswer { result: false, code: 9, contract_error: false, message: vec![1], message_utf8: "x".to_string() };
    assert_eq!(emulation_outcome(&Some(busy)).unwrap_err(), "emulation_failed: code=9 msg_hex=0x01 msg_utf8=x");
}
