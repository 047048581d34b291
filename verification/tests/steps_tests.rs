use alloy::sol_types::{sol_data, SolType};
use untron_solver::candidate::{attempt_step, AttemptEvent, AttemptNext, AttemptSettings};
use untron_solver::policy::PolicyRules;
use untron_solver::rows::{HubUserOpRow, InventoryCheck, PoolOpenIntentRow};
use untron_solver::steps::{
    proof_built_step, ready_step, HubAction, HubEvent, HubJob, HubStepConfig, Record,
    UserOpReceipt,
};
use untron_solver::tron_steps::{
    claimed_step, resell_step, tron_prepared_step, ClaimedEvent, ClaimedNext, PreparedEvent,
    PreparedNext, RentOutcome, ResellEvent, ResellNext, ResellState, TronJob, TronStepConfig,
};
use untron_solver::intents::DelegateResourceIntent;
use untron_solver::address::Address;
use untron_solver::types::{HubTxMode, IntentType, JobState, TronMode};

fn hub_cfg(mode: HubTxMode) -> HubStepConfig {
    HubStepConfig {
        hub_tx_mode: mode,
        tron_mode: TronMode::Grpc,
        resell_enabled: false,
        max_claimed_unproved: 2,
    }
}

fn hub_job(ty: IntentType) -> HubJob {
    HubJob { intent_type: ty, attempts: 0, tron_txid: Some([7u8; 32]) }
}

fn retry_of(a: &HubAction) -> (String, u64) {
    match a {
        HubAction::Finish(Record::Retry { message, delay_secs }) => (message.clone(), *delay_secs),
        other => panic!("not a retry: {other:?}"),
    }
}

#[test]
fn ready_step_claims_through_a_transaction() {
    let cfg = hub_cfg(HubTxMode::Eoa);
    let job = hub_job(IntentType::DelegateResource);
    assert!(matches!(ready_step(&cfg, &job, HubEvent::Begin), HubAction::CheckPause));
    assert!(matches!(
        ready_step(&cfg, &job, HubEvent::Pause { paused: None }),
        HubAction::FetchPoolUsdt
    ));
    let paused = ready_step(&cfg, &job, HubEvent::Pause { paused: Some((30, None)) });
    assert_eq!(retry_of(&paused), ("global_pause: paused".to_string(), 30));
    let failed = ready_step(&cfg, &job, HubEvent::PoolUsdt { error: Some("rpc down".to_string()) });
    assert_eq!(retry_of(&failed), ("pool_usdt failed: rpc down".to_string(), 1));
    assert!(matches!(
        ready_step(&cfg, &job, HubEvent::Allowance { error: None }),
        HubAction::CheckRateLimit { reuse_prepared: false }
    ));
    let limited = ready_step(&cfg, &job, HubEvent::RateLimit { wait: Some(-5), reuse_prepared: false });
    assert_eq!(retry_of(&limited), ("claim_rate_limited".to_string(), 60));
    assert!(matches!(
        ready_step(&cfg, &job, HubEvent::RateLimit { wait: None, reuse_prepared: false }),
        HubAction::ReserveDelegation { .. }
    ));
    assert!(matches!(
        ready_step(&cfg, &job, HubEvent::Reservation { error: None, reuse_prepared: false }),
        HubAction::SubmitClaim
    ));
    match ready_step(&cfg, &job, HubEvent::Claim { result: Ok([9u8; 32]) }) {
        HubAction::Finish(Record::Advance { to, tx_hash }) => {
            assert_eq!(to, JobState::Claimed);
            assert_eq!(tx_hash, Some([9u8; 32]));
        }
        other => panic!("{other:?}"),
    }
    match ready_step(&cfg, &job, HubEvent::Claim { result: Err("revert AlreadyClaimed()".to_string()) }) {
        HubAction::LookUpHolder { claim_error } => assert_eq!(claim_error, "revert AlreadyClaimed()"),
        other => panic!("{other:?}"),
    }
    let holder = HubEvent::Holder {
        claim_error: "revert AlreadyClaimed()".to_string(),
        holder: Ok(false),
    };
    match ready_step(&cfg, &job, holder) {
        HubAction::Finish(Record::Fatal { message }) => assert_eq!(message, "revert AlreadyClaimed()"),
        other => panic!("{other:?}"),
    }
    let lookup = HubEvent::Holder { claim_error: "x".to_string(), holder: Err("timeout".to_string()) };
    assert_eq!(
        retry_of(&ready_step(&cfg, &job, lookup)).0,
        "already claimed; failed to reconcile solver: timeout"
    );
}

fn userop_row(state: &str, hash: Option<&str>, success: Option<bool>) -> HubUserOpRow {
    HubUserOpRow {
        userop_id: 1,
        state: state.to_string(),
        userop_json: "{}".to_string(),
        userop_hash: hash.map(|h| h.to_string()),
        tx_hash: Some([5u8; 32]),
        block_number: Some(10),
        success,
        receipt_json: Some("{\"reason\":\"x\"}".to_string()),
        attempts: 0,
    }
}

#[test]
fn ready_step_claims_through_a_user_operation() {
    let cfg = hub_cfg(HubTxMode::Safe4337);
    let job = hub_job(IntentType::TrxTransfer);
    assert!(matches!(
        ready_step(&cfg, &job, HubEvent::Allowance { error: None }),
        HubAction::LoadUserOp
    ));
    assert!(matches!(
        ready_step(&cfg, &job, HubEvent::StoredUserOp { row: None, stale: Ok(false) }),
        HubAction::CountClaimedUnproved { reuse_prepared: false, drop_stale: false }
    ));
    let prepared = Some(userop_row("prepared", None, None));
    assert!(matches!(
        ready_step(&cfg, &job, HubEvent::StoredUserOp { row: prepared, stale: Ok(true) }),
        HubAction::CountClaimedUnproved { reuse_prepared: false, drop_stale: true }
    ));
    let sent = Some(userop_row("submitted", Some("0xab"), None));
    assert!(matches!(
        ready_step(&cfg, &job, HubEvent::StoredUserOp { row: sent, stale: Ok(false) }),
        HubAction::PollReceipt
    ));
    let failed = Some(userop_row("included", Some("0xab"), Some(false)));
    match ready_step(&cfg, &job, HubEvent::StoredUserOp { row: failed, stale: Ok(false) }) {
        HubAction::Finish(Record::Fatal { message }) => {
            assert_eq!(message, "claim userop failed: {\"reason\":\"x\"}")
        }
        other => panic!("{other:?}"),
    }
    let busy = ready_step(&cfg, &job, HubEvent::ClaimedUnproved { count: 2, reuse_prepared: true });
    assert_eq!(retry_of(&busy), ("claim_window_backpressure".to_string(), 5));
    assert!(matches!(
        ready_step(&cfg, &job, HubEvent::ClaimedUnproved { count: 1, reuse_prepared: true }),
        HubAction::CheckRateLimit { reuse_prepared: true }
    ));
    assert!(matches!(
        ready_step(&cfg, &job, HubEvent::RateLimit { wait: None, reuse_prepared: true }),
        HubAction::SubmitUserOp { reuse_prepared: true, drop_stale: false }
    ));
    match ready_step(&cfg, &job, HubEvent::UserOpSubmitted { error: Some("AA25 invalid account nonce".to_string()) }) {
        HubAction::Finish(Record::UserOpRetry { drop_prepared, .. }) => assert!(drop_prepared),
        other => panic!("{other:?}"),
    }
    let receipt = UserOpReceipt { tx_hash: Some([3u8; 32]), success: false, reason: "Null".to_string() };
    match ready_step(&cfg, &job, HubEvent::Receipt { result: Ok(Some(receipt)) }) {
        HubAction::Finish(Record::UserOpFatal { message }) => {
            assert_eq!(message, "claim userop failed: Null")
        }
        other => panic!("{other:?}"),
    }
    let pending = UserOpReceipt { tx_hash: None, success: true, reason: String::new() };
    assert!(matches!(
        ready_step(&cfg, &job, HubEvent::Receipt { result: Ok(Some(pending)) }),
        HubAction::Finish(Record::Wait)
    ));
}

#[test]
fn proof_built_step_proves_or_asks_the_status() {
    let cfg = hub_cfg(HubTxMode::Eoa);
    let mut job = hub_job(IntentType::UsdtTransfer);
    assert!(matches!(proof_built_step(&cfg, &job, HubEvent::Begin), HubAction::LoadProof));
    match proof_built_step(&cfg, &job, HubEvent::Prove { result: Err("boom".to_string()) }) {
        HubAction::LookUpStatus { prove_error } => assert_eq!(prove_error, "boom"),
        other => panic!("{other:?}"),
    }
    let solved = HubEvent::ProveStatus { prove_error: "boom".to_string(), solved: Ok(true) };
    match proof_built_step(&cfg, &job, solved) {
        HubAction::Finish(Record::Advance { to, tx_hash }) => {
            assert_eq!(to, JobState::Proved);
            assert_eq!(tx_hash, None);
        }
        other => panic!("{other:?}"),
    }
    let unknown = HubEvent::ProveStatus { prove_error: "boom".to_string(), solved: Err("rpc".to_string()) };
    assert_eq!(
        retry_of(&proof_built_step(&cfg, &job, unknown)).0,
        "prove failed: boom; intent_status failed: rpc"
    );
    job.tron_txid = None;
    assert_eq!(retry_of(&proof_built_step(&cfg, &job, HubEvent::Begin)).0, "missing tron_txid");
}

fn tron_job(ty: IntentType) -> TronJob {
    TronJob { intent_type: ty, attempts: 2, intent_id: [1u8; 32], tron_txid: Some([4u8; 32]) }
}

#[test]
fn claimed_step_dispatches_and_records() {
    let grpc = TronStepConfig { tron_mode: TronMode::Grpc, resell_enabled: true };
    let mock = TronStepConfig { tron_mode: TronMode::Mock, resell_enabled: false };
    let delegate = tron_job(IntentType::DelegateResource);
    assert!(matches!(claimed_step(&grpc, &delegate, ClaimedEvent::Begin), ClaimedNext::Resell));
    assert!(matches!(claimed_step(&mock, &delegate, ClaimedEvent::Begin), ClaimedNext::ExecuteMock));
    assert!(matches!(
        claimed_step(&grpc, &tron_job(IntentType::TrxTransfer), ClaimedEvent::Begin),
        ClaimedNext::PreparePlan
    ));
    assert!(matches!(
        claimed_step(&grpc, &delegate, ClaimedEvent::Resold { result: Ok(false) }),
        ClaimedNext::LoadDelegateKey
    ));
    match claimed_step(&mock, &delegate, ClaimedEvent::MockExecuted { result: Ok(true) }) {
        ClaimedNext::Finish(Record::MockExecuted { txid }) => assert_eq!(txid, [4u8; 32]),
        other => panic!("{other:?}"),
    }
    let trigger = tron_job(IntentType::TriggerSmartContract);
    let failed = ClaimedEvent::Prepared { result: Err("REVERT opcode executed".to_string()) };
    match claimed_step(&grpc, &trigger, failed) {
        ClaimedNext::Finish(Record::PrepareRetry { delay_secs, trip_breaker, .. }) => {
            assert_eq!(delay_secs, 4);
            assert!(trip_breaker);
        }
        other => panic!("{other:?}"),
    }
    match claimed_step(&grpc, &trigger, ClaimedEvent::Prepared { result: Ok(true) }) {
        ClaimedNext::Finish(Record::Advance { to, .. }) => assert_eq!(to, JobState::TronPrepared),
        other => panic!("{other:?}"),
    }
}

#[test]
fn tron_prepared_step_sends_each_transaction_in_turn() {
    let job = tron_job(IntentType::DelegateResource);
    assert!(matches!(tron_prepared_step(&job, PreparedEvent::Rows { count: 2 }), PreparedNext::LookUp { index: 0 }));
    let known = PreparedEvent::Looked { index: 0, count: 2, included: false, known: true };
    assert!(matches!(tron_prepared_step(&job, known), PreparedNext::LookUp { index: 1 }));
    let fresh = PreparedEvent::Looked { index: 1, count: 2, included: false, known: false };
    assert!(matches!(tron_prepared_step(&job, fresh), PreparedNext::Broadcast { index: 1 }));
    let waiting = PreparedEvent::Waited {
        index: 1,
        count: 2,
        included: false,
        started_ms: 1_000,
        next_refresh_ms: 11_000,
        now_ms: 12_000,
    };
    match tron_prepared_step(&job, waiting) {
        PreparedNext::WaitInclusion { renew_lease, next_refresh_ms, .. } => {
            assert!(renew_lease);
            assert_eq!(next_refresh_ms, 22_000);
        }
        other => panic!("{other:?}"),
    }
    let late = PreparedEvent::Waited {
        index: 1,
        count: 2,
        included: false,
        started_ms: 1_000,
        next_refresh_ms: 100_000,
        now_ms: 61_001,
    };
    match tron_prepared_step(&job, late) {
        PreparedNext::Finish(Record::Retry { message, .. }) => assert_eq!(message, "tron tx inclusion timeout"),
        other => panic!("{other:?}"),
    }
    let done = PreparedEvent::Waited {
        index: 1,
        count: 2,
        included: true,
        started_ms: 0,
        next_refresh_ms: 0,
        now_ms: 0,
    };
    match tron_prepared_step(&job, done) {
        PreparedNext::Sent { release_reservation, txid } => {
            assert!(release_reservation);
            assert_eq!(txid, [4u8; 32]);
        }
        other => panic!("{other:?}"),
    }
}

fn energy_intent() -> DelegateResourceIntent {
    let mut balance = [0u8; 32];
    balance[31] = 100;
    let mut lock = [0u8; 32];
    lock[31] = 10;
    DelegateResourceIntent { receiver: Address::zero(), resource: 1, balance_sun: balance, lock_period: lock }
}

#[test]
fn resell_step_tries_providers_in_order() {
    let empty = ResellState { names: vec![], order: vec![], next: 0, last_error: None };
    let (s, a) = resell_step(empty, 0, ResellEvent::Begin { decoded: Some(energy_intent()) });
    assert!(matches!(a, ResellNext::LoadRental));
    let rental = ResellEvent::Rental {
        intent: energy_intent(),
        txid: None,
        preferred: Some("b".to_string()),
        names: vec!["a".to_string(), "b".to_string()],
    };
    let (s, a) = resell_step(s, 0, rental);
    assert!(matches!(a, ResellNext::FetchStakeTotals));
    assert_eq!(s.order, vec![1, 0]);
    let (s, a) = resell_step(s, 0, ResellEvent::StakeTotals { error: None });
    assert!(matches!(a, ResellNext::CheckFrozen { provider: 1 }));
    let (s, a) = resell_step(s, 0, ResellEvent::Frozen { frozen: Ok(false) });
    assert!(matches!(a, ResellNext::Rent { provider: 1 }));
    let (s, a) = resell_step(s, 0, ResellEvent::Rented { outcome: RentOutcome::TimedOut });
    match a {
        ResellNext::RecordFailure { provider, message } => {
            assert_eq!(provider, 1);
            assert_eq!(message, "timeout");
        }
        other => panic!("{other:?}"),
    }
    assert_eq!(s.last_error.as_deref(), Some("b: timeout"));
    let (s, a) = resell_step(s, 0, ResellEvent::Next);
    assert!(matches!(a, ResellNext::CheckFrozen { provider: 0 }));
    let answer = RentOutcome::Answered {
        ok: true,
        txid: Some(format!("0x{}", "ab".repeat(32))),
        summary: String::new(),
    };
    let (s, a) = resell_step(s, 0, ResellEvent::Rented { outcome: answer });
    match a {
        ResellNext::Delegated { txid } => assert_eq!(txid, [0xabu8; 32]),
        other => panic!("{other:?}"),
    }
    let s = ResellState { next: 2, ..s };
    let (_, a) = resell_step(s, 0, ResellEvent::Next);
    match a {
        ResellNext::Finish(Record::Retry { message, .. }) => assert_eq!(message, "b: timeout"),
        other => panic!("{other:?}"),
    }
    let not_energy = DelegateResourceIntent { resource: 0, ..energy_intent() };
    let fresh = ResellState { names: vec![], order: vec![], next: 0, last_error: None };
    let (_, a) = resell_step(fresh, 0, ResellEvent::Begin { decoded: Some(not_energy) });
    assert!(matches!(a, ResellNext::NotResold));
}

fn rules() -> PolicyRules {
    PolicyRules {
        enabled_intent_types: vec![IntentType::DelegateResource, IntentType::TrxTransfer],
        min_deadline_slack_secs: 0,
        trigger_contract_allowlist: vec![],
        trigger_contract_denylist: vec![],
        trigger_selector_denylist: vec![],
        trigger_allow_fallback_calls: false,
        max_trx_transfer_sun: None,
        max_usdt_transfer_amount: None,
        max_delegate_balance_sun: None,
        max_delegate_lock_period_secs: None,
        max_trigger_call_value_sun: None,
        max_trigger_calldata_len: None,
    }
}

fn delegate_row(resource: u8, balance: u64) -> PoolOpenIntentRow {
    let specs = <(
        sol_data::Address,
        sol_data::Uint<8>,
        sol_data::Uint<256>,
        sol_data::Uint<256>,
    ) as SolType>::abi_encode(&(
        alloy::primitives::Address::ZERO,
        resource,
        alloy::primitives::U256::from(balance),
        alloy::primitives::U256::from(10u64),
    ));
    PoolOpenIntentRow {
        id: format!("0x{}", "11".repeat(32)),
        intent_type: IntentType::DelegateResource.code(),
        intent_specs: format!("0x{}", hex::encode(specs)),
        escrow_token: String::new(),
        escrow_amount: "0".to_string(),
        solver: None,
        deadline: 1_000,
        solved: false,
        funded: true,
        settled: false,
        closed: false,
    }
}

fn settings() -> AttemptSettings {
    AttemptSettings {
        tron_mode: TronMode::Grpc,
        key_count: 1,
        consolidation_enabled: false,
        resell_enabled: false,
        emulation_enabled: false,
        need_profitability: false,
    }
}

#[test]
fn attempt_step_judges_a_delegate_intent() {
    let row = delegate_row(0, 500);
    let set = settings();
    assert!(matches!(
        attempt_step(&set, &rules(), &row, 0, AttemptEvent::Begin),
        AttemptNext::EstimateCosts { pre_txs: 0 }
    ));
    assert!(matches!(
        attempt_step(&set, &rules(), &row, 0, AttemptEvent::Costs { error: None }),
        AttemptNext::CheckProfit { resell: false }
    ));
    let profit = AttemptEvent::Profit { resell: false, result: Ok(None) };
    match attempt_step(&set, &rules(), &row, 0, profit) {
        AttemptNext::CheckCapacity { needed, .. } => assert_eq!(needed, 500),
        other => panic!("{other:?}"),
    }
    let short = AttemptEvent::Capacity { result: Ok((vec![100, 400], vec![0, 0])) };
    match attempt_step(&set, &rules(), &row, 0, short) {
        AttemptNext::Skip { reason } => assert_eq!(reason, "delegate_capacity_insufficient"),
        other => panic!("{other:?}"),
    }
    let enough = AttemptEvent::Capacity { result: Ok((vec![100, 600], vec![0, 50])) };
    assert!(matches!(attempt_step(&set, &rules(), &row, 0, enough), AttemptNext::Attempt));
    let late = attempt_step(&set, &rules(), &row, 2_000, AttemptEvent::Costs { error: None });
    match late {
        AttemptNext::Skip { reason } => assert_eq!(reason, "deadline_slack"),
        other => panic!("{other:?}"),
    }
    let resell = AttemptSettings { resell_enabled: true, need_profitability: true, ..settings() };
    let energy = delegate_row(1, 500);
    assert!(matches!(
        attempt_step(&resell, &rules(), &energy, 0, AttemptEvent::Costs { error: None }),
        AttemptNext::QuoteRental
    ));
    match attempt_step(&resell, &rules(), &energy, 0, AttemptEvent::Quote { error: Some("down".to_string()) }) {
        AttemptNext::Skip { reason } => assert_eq!(reason, "rental_quote_failed"),
        other => panic!("{other:?}"),
    }
}

#[test]
fn attempt_step_checks_multi_key_inventory_first() {
    let set = AttemptSettings { key_count: 2, ..settings() };
    let specs = <(sol_data::Address, sol_data::Uint<256>) as SolType>::abi_encode(&(
        alloy::primitives::Address::ZERO,
        alloy::primitives::U256::from(5u64),
    ));
    let row = PoolOpenIntentRow {
        intent_type: IntentType::TrxTransfer.code(),
        intent_specs: format!("0x{}", hex::encode(specs)),
        ..delegate_row(0, 1)
    };
    assert!(matches!(attempt_step(&set, &rules(), &row, 0, AttemptEvent::Begin), AttemptNext::CheckInventory));
    let short = InventoryCheck { ok: false, reason: Some("trx_insufficient"), required_pre_txs: 0 };
    match attempt_step(&set, &rules(), &row, 0, AttemptEvent::Inventory { result: Ok(short) }) {
        AttemptNext::Skip { reason } => assert_eq!(reason, "trx_insufficient"),
        other => panic!("{other:?}"),
    }
    let fine = InventoryCheck { ok: true, reason: None, required_pre_txs: 2 };
    assert!(matches!(
        attempt_step(&set, &rules(), &row, 0, AttemptEvent::Inventory { result: Ok(fine) }),
        AttemptNext::EstimateCosts { pre_txs: 2 }
    ));
    let bad = PoolOpenIntentRow { intent_specs: "zz".to_string(), ..row };
    match attempt_step(&set, &rules(), &bad, 0, AttemptEvent::Begin) {
        AttemptNext::Abort { message } => assert_eq!(message, "decode hex bytes"),
        other => panic!("{other:?}"),
    }
}
