use untron_solver::flow::{
    already_claimed_outcome, auto_pause_decision, claim_backpressure, claim_rate_limit,
    claim_window_expiry, global_pause_message, included_userop_failure_message,
    is_already_claimed_error, proved_state_action, reconcile_included_userop, route_job,
    settlement_state, userop_step, wait_secs_or, AlreadyClaimedOutcome, IncludedUserOpOutcome,
    IntentStatus, JobRoute, ProvedAction, UserOpStep,
};
use untron_solver::rows::{HubUserOpRow, JobConfig, SolverJob};
use untron_solver::types::{HubUserOpKind, IntentType, JobState};

fn row(state: &str, hash: Option<&str>, success: Option<bool>, tx: Option<[u8; 32]>, receipt: Option<&str>) -> HubUserOpRow {
    HubUserOpRow {
        userop_id: 1,
        state: state.to_string(),
        userop_json: "{}".to_string(),
        userop_hash: hash.map(|h| h.to_string()),
        tx_hash: tx,
        block_number: None,
        success,
        receipt_json: receipt.map(|r| r.to_string()),
        attempts: 0,
    }
}

fn jobs() -> JobConfig {
    JobConfig {
        tick_interval: std::time::Duration::from_secs(1),
        tron_finality_blocks: 19,
        tip_proof_resend_blocks: 20,
        process_controller_max_events: 100,
        fill_max_claims: 10,
        max_in_flight_jobs: 10,
        concurrency_trx_transfer: 1,
        concurrency_usdt_transfer: 1,
        concurrency_delegate_resource: 1,
        concurrency_trigger_smart_contract: 1,
        concurrency_tron_broadcast: 1,
        consolidation_enabled: true,
        consolidation_max_pre_txs: 2,
        consolidation_max_total_trx_pull_sun: 0,
        consolidation_max_per_tx_trx_pull_sun: 0,
        consolidation_max_total_usdt_pull_amount: 0,
        consolidation_max_per_tx_usdt_pull_amount: 0,
        rate_limit_claims_per_minute_global: 0,
        rate_limit_claims_per_minute_trx_transfer: 11,
        rate_limit_claims_per_minute_usdt_transfer: 12,
        rate_limit_claims_per_minute_delegate_resource: 13,
        rate_limit_claims_per_minute_trigger_smart_contract: 14,
        global_pause_fatal_threshold: 3,
        global_pause_window_secs: 600,
        global_pause_duration_secs: u64::MAX,
        breaker_mismatch_penalty: 1,
        delegate_reservation_ttl_secs: 600,
        controller_rebalance_threshold_usdt: "0".to_string(),
        controller_rebalance_keep_usdt: "0".to_string(),
        pull_liquidity_ppm: 0,
    }
}

fn st(solved: bool, funded: bool, settled: bool, closed: bool) -> IntentStatus {
    IntentStatus { solved, funded, settled, closed }
}

#[test]
fn settlement_follows_intent_status() {
    assert_eq!(settlement_state(st(true, true, true, false)), Some(JobState::Done));
    assert_eq!(settlement_state(st(false, false, false, true)), Some(JobState::Done));
    assert_eq!(settlement_state(st(true, false, false, false)), Some(JobState::ProvedWaitingFunding));
    assert_eq!(settlement_state(st(true, true, false, false)), Some(JobState::ProvedWaitingSettlement));
    assert_eq!(settlement_state(st(false, true, true, false)), None);
}

#[test]
fn proved_jobs_only_record_changes() {
    assert_eq!(proved_state_action(JobState::Proved, st(true, false, false, false)), ProvedAction::MoveTo(JobState::ProvedWaitingFunding));
    assert_eq!(proved_state_action(JobState::ProvedWaitingFunding, st(true, false, false, false)), ProvedAction::Keep);
    assert_eq!(proved_state_action(JobState::ProvedWaitingFunding, st(true, true, false, false)), ProvedAction::MoveTo(JobState::ProvedWaitingSettlement));
    assert_eq!(proved_state_action(JobState::ProvedWaitingSettlement, st(true, true, true, false)), ProvedAction::MarkDone);
    assert_eq!(proved_state_action(JobState::Proved, st(false, false, false, false)), ProvedAction::Keep);
}

#[test]
fn included_userop_reconciliation() {
    let failed = row("included", Some("0x1"), Some(false), Some([1; 32]), Some("{\"r\":1}"));
    assert_eq!(included_userop_failure_message("claim userop failed", &failed), "claim userop failed: {\"r\":1}");
    match reconcile_included_userop(HubUserOpKind::Prove, &failed) {
        IncludedUserOpOutcome::Fatal { message } => assert_eq!(message, "prove userop failed: {\"r\":1}"),
        other => panic!("{other:?}"),
    }
    let unknown = row("included", Some("0x1"), None, None, None);
    match reconcile_included_userop(HubUserOpKind::Claim, &unknown) {
        IncludedUserOpOutcome::Fatal { message } => assert_eq!(message, "claim userop failed"),
        other => panic!("{other:?}"),
    }
    let no_hash = row("included", Some("0x1"), Some(true), None, None);
    match reconcile_included_userop(HubUserOpKind::Claim, &no_hash) {
        IncludedUserOpOutcome::Retry { message } => assert_eq!(message, "claim userop included without tx_hash"),
        other => panic!("{other:?}"),
    }
    let ok = row("included", Some("0x1"), Some(true), Some([7; 32]), None);
    match reconcile_included_userop(HubUserOpKind::Prove, &ok) {
        IncludedUserOpOutcome::Record { tx_hash } => assert_eq!(tx_hash, [7; 32]),
        other => panic!("{other:?}"),
    }
}

#[test]
fn userop_steps() {
    assert_eq!(userop_step(&None), UserOpStep::Submit { reuse_prepared: false });
    assert_eq!(userop_step(&Some(row("included", Some("0x1"), Some(true), None, None))), UserOpStep::Reconcile);
    assert_eq!(userop_step(&Some(row("prepared", None, None, None, None))), UserOpStep::Submit { reuse_prepared: true });
    assert_eq!(userop_step(&Some(row("submitted", Some("0x1"), None, None, None))), UserOpStep::Poll);
    assert_eq!(userop_step(&Some(row("prepared", Some("0x1"), None, None, None))), UserOpStep::Poll);
}

#[test]
fn claim_window_uses_onchain_time_when_confirmed() {
    assert_eq!(claim_window_expiry(1_000, Some((true, 900))), 1_020);
    assert_eq!(claim_window_expiry(1_000, Some((true, 0))), 1_120);
    assert_eq!(claim_window_expiry(1_000, Some((false, 900))), 1_120);
    assert_eq!(claim_window_expiry(1_000, None), 1_120);
    assert_eq!(claim_window_expiry(i64::MAX - 1, None), i64::MAX);
    assert_eq!(claim_window_expiry(0, Some((true, u64::MAX))), i64::MAX);
}

fn job(state: &str, ty: i16) -> SolverJob {
    SolverJob {
        job_id: 1,
        intent_id: [0; 32],
        intent_type: ty,
        intent_specs: vec![],
        deadline: 0,
        claim_window_expires_at_unix: None,
        state: state.to_string(),
        attempts: 0,
        tron_txid: None,
    }
}

#[test]
fn jobs_route_by_state() {
    match route_job(&job("claimed", 2)).unwrap() {
        (IntentType::TrxTransfer, JobRoute::Claimed) => {}
        other => panic!("{other:?}"),
    }
    match route_job(&job("proved_waiting_funding", 0)).unwrap() {
        (IntentType::TriggerSmartContract, JobRoute::Proved(JobState::ProvedWaitingFunding)) => {}
        other => panic!("{other:?}"),
    }
    match route_job(&job("done", 3)).unwrap() {
        (_, JobRoute::Finished) => {}
        other => panic!("{other:?}"),
    }
    match route_job(&job("weird", 1)).unwrap() {
        (_, JobRoute::UnknownState { message }) => assert_eq!(message, "unknown job state: weird"),
        other => panic!("{other:?}"),
    }
    assert_eq!(route_job(&job("ready", 4)).unwrap_err().message(), "unknown intent_type=4");
}

#[test]
fn auto_pause_after_threshold() {
    let j = jobs();
    assert!(auto_pause_decision(&j, 2).is_none());
    let (secs, reason) = auto_pause_decision(&j, 3).unwrap();
    assert_eq!(secs, 300);
    assert_eq!(reason, "auto_pause_fatal_threshold_exceeded n=3");
    let mut off = jobs();
    off.global_pause_fatal_threshold = 0;
    assert!(auto_pause_decision(&off, 100).is_none());
    assert_eq!(untron_solver::flow::fatal_count_window_secs(&j), 600);
}

#[test]
fn claim_gates() {
    let j = jobs();
    let (k, limit) = claim_rate_limit(IntentType::DelegateResource, &j);
    assert_eq!((k, limit), ("claim:delegate_resource", 13));
    let (k, limit) = claim_rate_limit(IntentType::TriggerSmartContract, &j);
    assert_eq!((k, limit), ("claim:trigger_smart_contract", 14));
    assert!(claim_backpressure(0, 1));
    assert!(!claim_backpressure(0, 0));
    assert!(claim_backpressure(5, 5));
    assert!(!claim_backpressure(u64::MAX, 1_000));
    assert_eq!(wait_secs_or(-3, 60), 60);
    assert_eq!(wait_secs_or(12, 60), 12);
    assert_eq!(global_pause_message(&None), "global_pause: paused");
    assert_eq!(global_pause_message(&Some("maintenance".to_string())), "global_pause: maintenance");
}

#[test]
fn already_claimed_handling() {
    assert!(is_already_claimed_error("execution reverted: AlreadyClaimed()"));
    assert!(!is_already_claimed_error("nonce too low"));
    assert!(matches!(already_claimed_outcome("x", &Ok(true)), AlreadyClaimedOutcome::MarkClaimed));
    match already_claimed_outcome("boom", &Ok(false)) {
        AlreadyClaimedOutcome::Fatal { message } => assert_eq!(message, "boom"),
        other => panic!("{other:?}"),
    }
    match already_claimed_outcome("boom", &Err("rpc down".to_string())) {
        AlreadyClaimedOutcome::Retry { message } => assert_eq!(message, "already claimed; failed to reconcile solver: rpc down"),
        other => panic!("{other:?}"),
    }
}
