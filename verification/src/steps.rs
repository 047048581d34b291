use vstd::prelude::*;

use crate::backoff::{retry_delay_secs, retry_secs};
use crate::diagnostics::{rebuild_needed, should_rebuild_prepared_userop_on_submit_error};
use crate::flow::{
    claim_backpressure, global_pause_message, is_already_claimed_error, is_prepared_unsent,
    prepared_unsent, reconcile_included_userop, u64_to_i64_or, userop_failure_prefix,
    userop_failure_text, userop_missing_hash_text, IncludedUserOpOutcome,
};
use crate::rows::HubUserOpRow;
use crate::runner::reservation_needed_before_claim;
use crate::text::{chars_eq_str, chars_of, concat_str, contains};
use crate::transitions::{allowed, prev_states};
use crate::types::{HubTxMode, HubUserOpKind, IntentType, JobState, TronMode};

verus! {

/// What a job handler records for its job when a step ends its turn.
#[derive(Debug)]
pub enum Record {
    /// Retry later with this message; the job stays where it is.
    Retry { message: String, delay_secs: u64 },
    /// Retry later, and record the error on the job's user operation too; drop the prepared
    /// user operation first when `drop_prepared`.
    UserOpRetry { message: String, delay_secs: u64, drop_prepared: bool },
    /// Retry later after a failed preparation; count it against the call's breaker when
    /// `trip_breaker`.
    PrepareRetry { message: String, delay_secs: u64, trip_breaker: bool },
    /// The job fails for good.
    Fatal { message: String },
    /// The job's user operation failed on chain: record that on the operation, then the job
    /// fails for good.
    UserOpFatal { message: String },
    /// The job moves to `to`, recording the transaction hash when there is one.
    Advance { to: JobState, tx_hash: Option<[u8; 32]> },
    /// The mock backend produced a proof under `txid`: the job records the transaction id
    /// (moving to `tron_sent`) and then the built proof (moving to `proof_built`).
    MockExecuted { txid: [u8; 32] },
    /// The turn ends with this error; the job is left as it is.
    Abort { message: String },
    /// Nothing is recorded this turn.
    Wait,
}

/// Every move a record makes from `from` is one the job table accepts. (A fatal failure is
/// recorded apart from the moves, from any state.)
pub open spec fn keeps_matrix(from: JobState, r: Record) -> bool {
    match r {
        Record::Advance { to, .. } => allowed(from, to),
        Record::MockExecuted { .. } => allowed(from, JobState::TronSent) && allowed(
            JobState::TronSent,
            JobState::ProofBuilt,
        ),
        _ => true,
    }
}

/// `r` retries with message `m` after `d` seconds.
pub open spec fn retry_is(r: Record, m: Seq<char>, d: int) -> bool {
    r matches Record::Retry { message, delay_secs } && message@ == m && delay_secs == d
}

/// `r` retries a user operation with message `m` after `d` seconds.
pub open spec fn userop_retry_is(r: Record, m: Seq<char>, d: int, drop: bool) -> bool {
    r matches Record::UserOpRetry { message, delay_secs, drop_prepared } && message@ == m
        && delay_secs == d && drop_prepared == drop
}

/// `r` fails the job with message `m`.
pub open spec fn fatal_is(r: Record, m: Seq<char>) -> bool {
    r matches Record::Fatal { message } && message@ == m
}

/// `r` ends the turn with error `m`.
pub open spec fn abort_is(r: Record, m: Seq<char>) -> bool {
    r matches Record::Abort { message } && message@ == m
}

/// A text, or `fallback` when there is none.
pub open spec fn text_or(t: Option<String>, fallback: Seq<char>) -> Seq<char> {
    match t {
        Some(s) => s@,
        None => fallback,
    }
}

/// The settings the hub-side handlers read.
#[derive(Debug, Clone, Copy)]
pub struct HubStepConfig {
    pub hub_tx_mode: HubTxMode,
    pub tron_mode: TronMode,
    pub resell_enabled: bool,
    pub max_claimed_unproved: u64,
}

/// The job a hub-side handler works on.
#[derive(Debug, Clone, Copy)]
pub struct HubJob {
    pub intent_type: IntentType,
    pub attempts: i32,
    pub tron_txid: Option<[u8; 32]>,
}

/// A bundler's receipt of a user operation: its transaction hash, whether it succeeded, and
/// the failure reason as printed.
#[derive(Debug)]
pub struct UserOpReceipt {
    pub tx_hash: Option<[u8; 32]>,
    pub success: bool,
    pub reason: String,
}

/// What the outside work of the last step gave back to a hub-side handler.
#[derive(Debug)]
pub enum HubEvent {
    /// The handler starts on the job.
    Begin,
    /// The global pause: seconds left and its reason, when claiming is paused.
    Pause { paused: Option<(i64, Option<String>)> },
    /// The pool's USDT token was read (or this error).
    PoolUsdt { error: Option<String> },
    /// The claim deposit allowance was ensured (or this error).
    Allowance { error: Option<String> },
    /// The number of claimed jobs not proved yet.
    ClaimedUnproved { count: i64, reuse_prepared: bool },
    /// The claim rate limit: the wait in seconds when it is hit.
    RateLimit { wait: Option<i64>, reuse_prepared: bool },
    /// The stake reservation of a delegate intent was made (or this error).
    Reservation { error: Option<String>, reuse_prepared: bool },
    /// The claim transaction: its hash, or the error.
    Claim { result: Result<[u8; 32], String> },
    /// Who holds a claim that failed with `claim_error`: this solver (`true`), another one,
    /// or the lookup's error.
    Holder { claim_error: String, holder: Result<bool, String> },
    /// The stored proof was loaded (or this error).
    ProofLoaded { error: Option<String> },
    /// The prove transaction: its hash, or the error.
    Prove { result: Result<[u8; 32], String> },
    /// The intent's status after a prove failed with `prove_error`: solved, or the lookup's
    /// error.
    ProveStatus { prove_error: String, solved: Result<bool, String> },
    /// The stored user operation, and for one built but not sent whether its nonce is already
    /// used on chain (or the error of that check).
    StoredUserOp { row: Option<HubUserOpRow>, stale: Result<bool, String> },
    /// The user operation was handed to the bundler (or this error).
    UserOpSubmitted { error: Option<String> },
    /// The receipt of the submitted user operation: none yet, or the error of the lookup.
    Receipt { result: Result<Option<UserOpReceipt>, String> },
}

/// The next outside work of a hub-side handler, or the end of its turn.
#[derive(Debug)]
pub enum HubAction {
    CheckPause,
    FetchPoolUsdt,
    EnsureAllowance,
    /// Count the claimed jobs not proved yet (dropping the stale prepared user operation
    /// first when `drop_stale`).
    CountClaimedUnproved { reuse_prepared: bool, drop_stale: bool },
    CheckRateLimit { reuse_prepared: bool },
    ReserveDelegation { reuse_prepared: bool },
    SubmitClaim,
    LookUpHolder { claim_error: String },
    LoadProof,
    SubmitProve,
    LookUpStatus { prove_error: String },
    LoadUserOp,
    /// Submit the user operation: the stored prepared one when `reuse_prepared`, else a new
    /// one (dropping the stale prepared one first when `drop_stale`).
    SubmitUserOp { reuse_prepared: bool, drop_stale: bool },
    PollReceipt,
    Finish(Record),
}

/// `a` ends the turn with a record satisfying `p`.
pub open spec fn finishes(a: HubAction) -> Option<Record> {
    match a {
        HubAction::Finish(r) => Some(r),
        _ => None,
    }
}

/// The job state a successful user operation of `kind` leads to.
pub open spec fn userop_target(kind: HubUserOpKind) -> JobState {
    match kind {
        HubUserOpKind::Claim => JobState::Claimed,
        HubUserOpKind::Prove => JobState::Proved,
    }
}

/// The first step of a submission: a claim goes through its preconditions first.
pub open spec fn submit_entry(claim: bool, reuse: bool, drop: bool) -> HubAction {
    if claim {
        HubAction::CountClaimedUnproved { reuse_prepared: reuse, drop_stale: drop }
    } else {
        HubAction::SubmitUserOp { reuse_prepared: reuse, drop_stale: drop }
    }
}

/// The step after a stored user operation of `kind` was read.
pub open spec fn stored_userop_is(
    kind: HubUserOpKind,
    attempts: i32,
    row: Option<HubUserOpRow>,
    stale: Result<bool, String>,
    a: HubAction,
) -> bool {
    let claim = kind == HubUserOpKind::Claim;
    match row {
        None => a == submit_entry(claim, false, false),
        Some(r) => if r.state@ == "included"@ {
            match finishes(a) {
                None => false,
                Some(rec) => if r.success != Some(true) {
                    fatal_is(rec, userop_failure_text(userop_failure_prefix(kind), r))
                } else {
                    match r.tx_hash {
                        None => retry_is(
                            rec,
                            userop_missing_hash_text(kind),
                            retry_secs(attempts as int) as int,
                        ),
                        Some(h) => rec == Record::Advance {
                            to: userop_target(kind),
                            tx_hash: Some(h),
                        },
                    }
                },
            }
        } else if prepared_unsent(r) {
            match stale {
                Err(e) => finishes(a) matches Some(rec) && abort_is(rec, e@),
                Ok(true) => a == submit_entry(claim, false, true),
                Ok(false) => a == submit_entry(claim, true, false),
            }
        } else {
            a == HubAction::PollReceipt
        },
    }
}

/// The step after a submission was tried.
pub open spec fn submitted_is(attempts: i32, error: Option<String>, a: HubAction) -> bool {
    match error {
        None => a == HubAction::PollReceipt,
        Some(m) => finishes(a) matches Some(rec) && userop_retry_is(
            rec,
            m@,
            retry_secs(attempts as int) as int,
            rebuild_needed(m@),
        ),
    }
}

/// The step after the receipt of a user operation of `kind` was looked up.
pub open spec fn receipt_is(
    kind: HubUserOpKind,
    attempts: i32,
    result: Result<Option<UserOpReceipt>, String>,
    a: HubAction,
) -> bool {
    match finishes(a) {
        None => false,
        Some(rec) => match result {
            Err(m) => userop_retry_is(rec, m@, retry_secs(attempts as int) as int, false),
            Ok(None) => rec == Record::Wait,
            Ok(Some(rc)) => match rc.tx_hash {
                None => rec == Record::Wait,
                Some(h) => if rc.success {
                    rec == Record::Advance { to: userop_target(kind), tx_hash: Some(h) }
                } else {
                    rec matches Record::UserOpFatal { message } && message@ == userop_failure_prefix(
                        kind,
                    ) + ": "@ + rc.reason@
                },
            },
        },
    }
}

/// Where a claim goes once its preconditions passed.
pub open spec fn claim_submit(cfg: HubStepConfig, reuse: bool) -> HubAction {
    if cfg.hub_tx_mode == HubTxMode::Eoa {
        HubAction::SubmitClaim
    } else {
        HubAction::SubmitUserOp { reuse_prepared: reuse, drop_stale: false }
    }
}

/// Where a claim goes once the rate limit passed: the stake reservation when a delegate
/// intent needs one, else the submission.
pub open spec fn after_rate_limit(cfg: HubStepConfig, ty: IntentType, reuse: bool) -> HubAction {
    if ty == IntentType::DelegateResource && cfg.tron_mode == TronMode::Grpc
        && !cfg.resell_enabled {
        HubAction::ReserveDelegation { reuse_prepared: reuse }
    } else {
        claim_submit(cfg, reuse)
    }
}

/// One step of claiming a job in `ready`: the global pause, the pool's token and the claim
/// deposit allowance come first; then, sending a transaction, the rate limit, the stake
/// reservation and the claim (an "AlreadyClaimed" failure asks who holds the claim); or,
/// through a user operation, the stored operation, the claimed-but-unproved backpressure,
/// the rate limit, the reservation, the submission and the receipt.
pub open spec fn ready_step_is(cfg: HubStepConfig, job: HubJob, ev: HubEvent, a: HubAction) -> bool {
    let rd = retry_secs(job.attempts as int) as int;
    match ev {
        HubEvent::Begin => a == HubAction::CheckPause,
        HubEvent::Pause { paused } => match paused {
            None => a == HubAction::FetchPoolUsdt,
            Some((secs, reason)) => finishes(a) matches Some(rec) && retry_is(
                rec,
                "global_pause: "@ + text_or(reason, "paused"@),
                if secs >= 0 {
                    secs as int
                } else {
                    1
                },
            ),
        },
        HubEvent::PoolUsdt { error } => match error {
            None => a == HubAction::EnsureAllowance,
            Some(e) => finishes(a) matches Some(rec) && retry_is(
                rec,
                "pool_usdt failed: "@ + e@,
                rd,
            ),
        },
        HubEvent::Allowance { error } => match error {
            None => if cfg.hub_tx_mode == HubTxMode::Eoa {
                a == HubAction::CheckRateLimit { reuse_prepared: false }
            } else {
                a == HubAction::LoadUserOp
            },
            Some(e) => finishes(a) matches Some(rec) && retry_is(
                rec,
                "ensure_erc20_allowance failed: "@ + e@,
                rd,
            ),
        },
        HubEvent::ClaimedUnproved { count, reuse_prepared } => {
            let limit = u64_to_i64_or(cfg.max_claimed_unproved, i64::MAX);
            if count >= (if limit < 1 {
                1
            } else {
                limit
            }) {
                finishes(a) matches Some(rec) && retry_is(rec, "claim_window_backpressure"@, 5)
            } else {
                a == HubAction::CheckRateLimit { reuse_prepared }
            }
        },
        HubEvent::RateLimit { wait, reuse_prepared } => match wait {
            Some(w) => finishes(a) matches Some(rec) && retry_is(
                rec,
                "claim_rate_limited"@,
                if w >= 0 {
                    w as int
                } else {
                    60
                },
            ),
            None => a == after_rate_limit(cfg, job.intent_type, reuse_prepared),
        },
        HubEvent::Reservation { error, reuse_prepared } => match error {
            None => a == claim_submit(cfg, reuse_prepared),
            Some(e) => finishes(a) matches Some(rec) && retry_is(
                rec,
                "delegate reservation failed: "@ + e@,
                rd,
            ),
        },
        HubEvent::Claim { result } => match result {
            Ok(h) => a == HubAction::Finish(
                Record::Advance { to: JobState::Claimed, tx_hash: Some(h) },
            ),
            Err(m) => if contains(m@, "AlreadyClaimed"@) {
                a matches HubAction::LookUpHolder { claim_error } && claim_error@ == m@
            } else {
                finishes(a) matches Some(rec) && retry_is(rec, m@, rd)
            },
        },
        HubEvent::Holder { claim_error, holder } => match holder {
            Ok(true) => a == HubAction::Finish(
                Record::Advance { to: JobState::Claimed, tx_hash: None },
            ),
            Ok(false) => finishes(a) matches Some(rec) && fatal_is(rec, claim_error@),
            Err(e) => finishes(a) matches Some(rec) && retry_is(
                rec,
                "already claimed; failed to reconcile solver: "@ + e@,
                rd,
            ),
        },
        HubEvent::StoredUserOp { row, stale } => stored_userop_is(
            HubUserOpKind::Claim,
            job.attempts,
            row,
            stale,
            a,
        ),
        HubEvent::UserOpSubmitted { error } => submitted_is(job.attempts, error, a),
        HubEvent::Receipt { result } => receipt_is(HubUserOpKind::Claim, job.attempts, result, a),
        _ => finishes(a) matches Some(rec) && abort_is(rec, "event does not belong to this state"@),
    }
}

/// One step of proving a job in `proof_built`: the job needs its Tron transaction id and
/// stored proof; then the prove transaction (a failure asks whether the intent is solved
/// anyway), or the user operation path as for a claim, without the claim's preconditions.
pub open spec fn proof_built_step_is(
    cfg: HubStepConfig,
    job: HubJob,
    ev: HubEvent,
    a: HubAction,
) -> bool {
    let rd = retry_secs(job.attempts as int) as int;
    match ev {
        HubEvent::Begin => match job.tron_txid {
            None => finishes(a) matches Some(rec) && retry_is(rec, "missing tron_txid"@, rd),
            Some(_) => a == HubAction::LoadProof,
        },
        HubEvent::ProofLoaded { error } => match error {
            Some(e) => finishes(a) matches Some(rec) && abort_is(rec, e@),
            None => if cfg.hub_tx_mode == HubTxMode::Eoa {
                a == HubAction::SubmitProve
            } else {
                a == HubAction::LoadUserOp
            },
        },
        HubEvent::Prove { result } => match result {
            Ok(h) => a == HubAction::Finish(
                Record::Advance { to: JobState::Proved, tx_hash: Some(h) },
            ),
            Err(m) => a matches HubAction::LookUpStatus { prove_error } && prove_error@ == m@,
        },
        HubEvent::ProveStatus { prove_error, solved } => match solved {
            Ok(true) => a == HubAction::Finish(
                Record::Advance { to: JobState::Proved, tx_hash: None },
            ),
            Ok(false) => finishes(a) matches Some(rec) && retry_is(rec, prove_error@, rd),
            Err(e) => finishes(a) matches Some(rec) && retry_is(
                rec,
                "prove failed: "@ + prove_error@ + "; intent_status failed: "@ + e@,
                rd,
            ),
        },
        HubEvent::StoredUserOp { row, stale } => stored_userop_is(
            HubUserOpKind::Prove,
            job.attempts,
            row,
            stale,
            a,
        ),
        HubEvent::UserOpSubmitted { error } => submitted_is(job.attempts, error, a),
        HubEvent::Receipt { result } => receipt_is(HubUserOpKind::Prove, job.attempts, result, a),
        _ => finishes(a) matches Some(rec) && abort_is(rec, "event does not belong to this state"@),
    }
}

/// Every move a hub-side action makes from `from` is accepted by the job table.
pub open spec fn hub_action_keeps_matrix(from: JobState, a: HubAction) -> bool {
    match a {
        HubAction::Finish(r) => keeps_matrix(from, r),
        _ => true,
    }
}

fn finish_retry(message: String, delay_secs: u64) -> (a: HubAction)
    ensures
        finishes(a) matches Some(rec) && retry_is(rec, message@, delay_secs as int),
{
    HubAction::Finish(Record::Retry { message, delay_secs })
}

fn finish_abort(message: String) -> (a: HubAction)
    ensures
        finishes(a) matches Some(rec) && abort_is(rec, message@),
{
    HubAction::Finish(Record::Abort { message })
}

fn not_this_state() -> (a: HubAction)
    ensures
        finishes(a) matches Some(rec) && abort_is(rec, "event does not belong to this state"@),
{
    finish_abort("event does not belong to this state".to_owned())
}

fn submit_entry_exec(claim: bool, reuse: bool, drop: bool) -> (e: HubAction)
    ensures
        e == submit_entry(claim, reuse, drop),
{
    if claim {
        HubAction::CountClaimedUnproved { reuse_prepared: reuse, drop_stale: drop }
    } else {
        HubAction::SubmitUserOp { reuse_prepared: reuse, drop_stale: drop }
    }
}

fn stored_userop_step(
    kind: HubUserOpKind,
    attempts: i32,
    row: Option<HubUserOpRow>,
    stale: Result<bool, String>,
) -> (a: HubAction)
    ensures
        stored_userop_is(kind, attempts, row, stale, a),
{
    let claim = match kind {
        HubUserOpKind::Claim => true,
        HubUserOpKind::Prove => false,
    };
    match row {
        None => submit_entry_exec(claim, false, false),
        Some(r) => {
            if chars_eq_str(&chars_of(r.state.as_str()), "included") {
                let target = match kind {
                    HubUserOpKind::Claim => JobState::Claimed,
                    HubUserOpKind::Prove => JobState::Proved,
                };
                match reconcile_included_userop(kind, &r) {
                    IncludedUserOpOutcome::Fatal { message } => HubAction::Finish(
                        Record::Fatal { message },
                    ),
                    IncludedUserOpOutcome::Retry { message } => finish_retry(
                        message.to_owned(),
                        retry_delay_secs(attempts),
                    ),
                    IncludedUserOpOutcome::Record { tx_hash } => HubAction::Finish(
                        Record::Advance { to: target, tx_hash: Some(tx_hash) },
                    ),
                }
            } else if is_prepared_unsent(&r) {
                match stale {
                    Err(e) => finish_abort(e),
                    Ok(true) => submit_entry_exec(claim, false, true),
                    Ok(false) => submit_entry_exec(claim, true, false),
                }
            } else {
                HubAction::PollReceipt
            }
        },
    }
}

fn submitted_step(attempts: i32, error: Option<String>) -> (a: HubAction)
    ensures
        submitted_is(attempts, error, a),
{
    match error {
        None => HubAction::PollReceipt,
        Some(m) => {
            let drop = should_rebuild_prepared_userop_on_submit_error(m.as_str());
            HubAction::Finish(
                Record::UserOpRetry {
                    message: m,
                    delay_secs: retry_delay_secs(attempts),
                    drop_prepared: drop,
                },
            )
        },
    }
}

fn receipt_step(
    kind: HubUserOpKind,
    attempts: i32,
    result: Result<Option<UserOpReceipt>, String>,
) -> (a: HubAction)
    ensures
        receipt_is(kind, attempts, result, a),
{
    match result {
        Err(m) => HubAction::Finish(
            Record::UserOpRetry {
                message: m,
                delay_secs: retry_delay_secs(attempts),
                drop_prepared: false,
            },
        ),
        Ok(None) => HubAction::Finish(Record::Wait),
        Ok(Some(rc)) => match rc.tx_hash {
            None => HubAction::Finish(Record::Wait),
            Some(h) => {
                if rc.success {
                    let to = match kind {
                        HubUserOpKind::Claim => JobState::Claimed,
                        HubUserOpKind::Prove => JobState::Proved,
                    };
                    HubAction::Finish(Record::Advance { to, tx_hash: Some(h) })
                } else {
                    let prefix = match kind {
                        HubUserOpKind::Claim => "claim userop failed: ",
                        HubUserOpKind::Prove => "prove userop failed: ",
                    };
                    proof {
                        reveal_strlit("claim userop failed: ");
                        reveal_strlit("prove userop failed: ");
                        reveal_strlit("claim userop failed");
                        reveal_strlit("prove userop failed");
                        reveal_strlit(": ");
                        assert(prefix@ == userop_failure_prefix(kind) + ": "@);
                    }
                    HubAction::Finish(
                        Record::UserOpFatal { message: concat_str(prefix, rc.reason.as_str()) },
                    )
                }
            },
        },
    }
}

/// Decides the next step of claiming a job in `ready`, from the outcome of the last one.
pub fn ready_step(cfg: &HubStepConfig, job: &HubJob, ev: HubEvent) -> (a: HubAction)
    ensures
        ready_step_is(*cfg, *job, ev, a),
        hub_action_keeps_matrix(JobState::Ready, a),
{
    proof {
        assert(prev_states(JobState::Claimed)[0] == JobState::Ready);
    }
    let rd = retry_delay_secs(job.attempts);
    match ev {
        HubEvent::Begin => HubAction::CheckPause,
        HubEvent::Pause { paused } => match paused {
            None => HubAction::FetchPoolUsdt,
            Some((secs, reason)) => {
                let delay: u64 = if secs >= 0 {
                    secs as u64
                } else {
                    1
                };
                finish_retry(global_pause_message(&reason), delay)
            },
        },
        HubEvent::PoolUsdt { error } => match error {
            None => HubAction::EnsureAllowance,
            Some(e) => finish_retry(concat_str("pool_usdt failed: ", e.as_str()), rd),
        },
        HubEvent::Allowance { error } => match error {
            None => match cfg.hub_tx_mode {
                HubTxMode::Eoa => HubAction::CheckRateLimit { reuse_prepared: false },
                HubTxMode::Safe4337 => HubAction::LoadUserOp,
            },
            Some(e) => finish_retry(concat_str("ensure_erc20_allowance failed: ", e.as_str()), rd),
        },
        HubEvent::ClaimedUnproved { count, reuse_prepared } => {
            if claim_backpressure(cfg.max_claimed_unproved, count) {
                finish_retry("claim_window_backpressure".to_owned(), 5)
            } else {
                HubAction::CheckRateLimit { reuse_prepared }
            }
        },
        HubEvent::RateLimit { wait, reuse_prepared } => match wait {
            Some(w) => {
                let delay: u64 = if w >= 0 {
                    w as u64
                } else {
                    60
                };
                finish_retry("claim_rate_limited".to_owned(), delay)
            },
            None => {
                if reservation_needed_before_claim(
                    job.intent_type,
                    cfg.tron_mode,
                    cfg.resell_enabled,
                ) {
                    HubAction::ReserveDelegation { reuse_prepared }
                } else {
                    match cfg.hub_tx_mode {
                        HubTxMode::Eoa => HubAction::SubmitClaim,
                        HubTxMode::Safe4337 => HubAction::SubmitUserOp {
                            reuse_prepared,
                            drop_stale: false,
                        },
                    }
                }
            },
        },
        HubEvent::Reservation { error, reuse_prepared } => match error {
            None => match cfg.hub_tx_mode {
                HubTxMode::Eoa => HubAction::SubmitClaim,
                HubTxMode::Safe4337 => HubAction::SubmitUserOp { reuse_prepared, drop_stale: false },
            },
            Some(e) => finish_retry(concat_str("delegate reservation failed: ", e.as_str()), rd),
        },
        HubEvent::Claim { result } => match result {
            Ok(h) => HubAction::Finish(Record::Advance { to: JobState::Claimed, tx_hash: Some(h) }),
            Err(m) => {
                if is_already_claimed_error(m.as_str()) {
                    HubAction::LookUpHolder { claim_error: m }
                } else {
                    finish_retry(m, rd)
                }
            },
        },
        HubEvent::Holder { claim_error, holder } => match holder {
            Ok(true) => HubAction::Finish(Record::Advance { to: JobState::Claimed, tx_hash: None }),
            Ok(false) => HubAction::Finish(Record::Fatal { message: claim_error }),
            Err(e) => finish_retry(
                concat_str("already claimed; failed to reconcile solver: ", e.as_str()),
                rd,
            ),
        },
        HubEvent::StoredUserOp { row, stale } => stored_userop_step(
            HubUserOpKind::Claim,
            job.attempts,
            row,
            stale,
        ),
        HubEvent::UserOpSubmitted { error } => submitted_step(job.attempts, error),
        HubEvent::Receipt { result } => receipt_step(HubUserOpKind::Claim, job.attempts, result),
        _ => not_this_state(),
    }
}

/// Decides the next step of proving a job in `proof_built`, from the outcome of the last one.
pub fn proof_built_step(cfg: &HubStepConfig, job: &HubJob, ev: HubEvent) -> (a: HubAction)
    ensures
        proof_built_step_is(*cfg, *job, ev, a),
        hub_action_keeps_matrix(JobState::ProofBuilt, a),
{
    proof {
        assert(prev_states(JobState::Proved)[0] == JobState::ProofBuilt);
    }
    let rd = retry_delay_secs(job.attempts);
    match ev {
        HubEvent::Begin => match job.tron_txid {
            None => finish_retry("missing tron_txid".to_owned(), rd),
            Some(_) => HubAction::LoadProof,
        },
        HubEvent::ProofLoaded { error } => match error {
            Some(e) => finish_abort(e),
            None => match cfg.hub_tx_mode {
                HubTxMode::Eoa => HubAction::SubmitProve,
                HubTxMode::Safe4337 => HubAction::LoadUserOp,
            },
        },
        HubEvent::Prove { result } => match result {
            Ok(h) => HubAction::Finish(Record::Advance { to: JobState::Proved, tx_hash: Some(h) }),
            Err(m) => HubAction::LookUpStatus { prove_error: m },
        },
        HubEvent::ProveStatus { prove_error, solved } => match solved {
            Ok(true) => HubAction::Finish(Record::Advance { to: JobState::Proved, tx_hash: None }),
            Ok(false) => finish_retry(prove_error, rd),
            Err(e) => {
                let head = concat_str("prove failed: ", prove_error.as_str());
                let mid = concat_str(head.as_str(), "; intent_status failed: ");
                finish_retry(concat_str(mid.as_str(), e.as_str()), rd)
            },
        },
        HubEvent::StoredUserOp { row, stale } => stored_userop_step(
            HubUserOpKind::Prove,
            job.attempts,
            row,
            stale,
        ),
        HubEvent::UserOpSubmitted { error } => submitted_step(job.attempts, error),
        HubEvent::Receipt { result } => receipt_step(HubUserOpKind::Prove, job.attempts, result),
        _ => not_this_state(),
    }
}

/// The hub-side handlers only make moves the job table accepts: whatever the outcome of
/// their outside work, claiming a `ready` job moves it only to `claimed`, and proving a
/// `proof_built` job moves it only to `proved` (a fatal failure is recorded apart).
pub proof fn lemma_hub_steps_keep_matrix(cfg: HubStepConfig, job: HubJob, ev: HubEvent, a: HubAction)
    ensures
        ready_step_is(cfg, job, ev, a) ==> hub_action_keeps_matrix(JobState::Ready, a),
        proof_built_step_is(cfg, job, ev, a) ==> hub_action_keeps_matrix(JobState::ProofBuilt, a),
{
    assert(prev_states(JobState::Claimed)[0] == JobState::Ready);
    assert(prev_states(JobState::Proved)[0] == JobState::ProofBuilt);
}


/// When a claim failed because the intent is already claimed, the holder decides: this
/// solver holding it makes the job claimed (with no transaction of its own); the job fails,
/// with the claim's error, exactly when another solver holds it; an unknown holder is retried.
pub proof fn lemma_already_claimed_holder(
    cfg: HubStepConfig,
    job: HubJob,
    claim_error: String,
    holder: Result<bool, String>,
    a: HubAction,
)
    requires
        ready_step_is(cfg, job, HubEvent::Holder { claim_error, holder }, a),
    ensures
        holder == Ok::<bool, String>(true) ==> (a matches HubAction::Finish(Record::Advance { to, tx_hash })
            && to == JobState::Claimed && tx_hash is None),
        (a matches HubAction::Finish(Record::Fatal { .. })) <==> holder == Ok::<bool, String>(false),
        a matches HubAction::Finish(Record::Fatal { message }) ==> message@ == claim_error@,
        holder is Err ==> (a matches HubAction::Finish(Record::Retry { .. })),
{
}

/// A job in `proof_built` is marked proved after a prove transaction only when the
/// transaction went through (with its hash) or, after it failed, when the hub reports the
/// intent solved; a failed prove of an unsolved intent is retried with the prove's error.
pub proof fn lemma_proved_only_when_proved(cfg: HubStepConfig, job: HubJob, ev: HubEvent, a: HubAction)
    requires
        proof_built_step_is(cfg, job, ev, a),
    ensures
        ev matches HubEvent::Prove { result } ==> ((a matches HubAction::Finish(Record::Advance { .. }))
            <==> result is Ok),
        ev matches HubEvent::Prove { result } ==> (result matches Ok(h) ==> (
        a matches HubAction::Finish(Record::Advance { to, tx_hash }) && to == JobState::Proved
            && tx_hash == Some(h))),
        ev matches HubEvent::ProveStatus { solved, .. } ==> ((
        a matches HubAction::Finish(Record::Advance { to, .. }) && to == JobState::Proved)
            <==> solved == Ok::<bool, String>(true)),
        ev matches HubEvent::ProveStatus { prove_error, solved } ==> (solved == Ok::<bool, String>(
            false,
        ) ==> (a matches HubAction::Finish(Record::Retry { message, delay_secs })
            && message@ == prove_error@ && delay_secs == retry_secs(job.attempts as int))),
        a matches HubAction::Finish(Record::Advance { to, .. }) ==> to == JobState::Proved,
{
}

/// A `ready` job becomes claimed only on evidence of the claim: its claim transaction went
/// through (and its hash is recorded), the hub names this solver as the holder, or its claim
/// user operation was included successfully. A claim is sent only once the rate limit (and
/// the stake reservation, where one is needed) passed; a pause, a failed token or allowance
/// call, a hit rate limit or too many unproved claims end the turn with a retry.
pub proof fn lemma_claimed_only_on_evidence(cfg: HubStepConfig, job: HubJob, ev: HubEvent, a: HubAction)
    requires
        ready_step_is(cfg, job, ev, a),
    ensures
        a matches HubAction::Finish(Record::Advance { to, tx_hash }) ==> (to == JobState::Claimed
            && (ev matches HubEvent::Claim { result } ==> result == Ok::<[u8; 32], String>(
            tx_hash.unwrap())) && (ev is Claim || ev is Holder || ev is StoredUserOp
            || ev is Receipt)),
        ev matches HubEvent::Holder { holder, .. } ==> ((a matches HubAction::Finish(
            Record::Advance { .. },
        )) ==> holder == Ok::<bool, String>(true)),
        ev matches HubEvent::Receipt { result } ==> (a matches HubAction::Finish(
            Record::Advance { tx_hash, .. },
        ) ==> (result matches Ok(Some(rc)) && rc.success && rc.tx_hash is Some && tx_hash
            == rc.tx_hash)),
        ev matches HubEvent::Receipt { result } ==> (result matches Ok(Some(rc)) ==> (
        rc.tx_hash is Some && !rc.success ==> a matches HubAction::Finish(
            Record::UserOpFatal { .. },
        ))),
        a is SubmitClaim ==> (cfg.hub_tx_mode == HubTxMode::Eoa && ((ev matches HubEvent::RateLimit {
            wait,
            ..
        } && wait is None) || (ev matches HubEvent::Reservation { error, .. } && error is None))),
        a is SubmitUserOp ==> ((ev matches HubEvent::RateLimit { wait, .. } && wait is None)
            || (ev matches HubEvent::Reservation { error, .. } && error is None)),
        ev matches HubEvent::Pause { paused } && paused is Some ==> (a matches HubAction::Finish(
            Record::Retry { .. },
        )),
        ev matches HubEvent::RateLimit { wait, .. } && wait is Some ==> (a matches HubAction::Finish(
            Record::Retry { message, .. },
        ) && message@ == "claim_rate_limited"@),
        ev matches HubEvent::PoolUsdt { error } && error is Some ==> (a matches HubAction::Finish(
            Record::Retry { .. },
        )),
        ev matches HubEvent::Allowance { error } && error is Some ==> (a matches HubAction::Finish(
            Record::Retry { .. },
        )),
        ev matches HubEvent::Reservation { error, .. } && error is Some ==> (
        a matches HubAction::Finish(Record::Retry { .. })),
        ev matches HubEvent::ClaimedUnproved { count, .. } && count >= 1 && count >= u64_to_i64_or(
            cfg.max_claimed_unproved,
            i64::MAX,
        ) ==> (a matches HubAction::Finish(Record::Retry { message, delay_secs }) && message@
            == "claim_window_backpressure"@ && delay_secs == 5),
        ev matches HubEvent::Claim { result } ==> (result matches Err(m) ==> (!contains(
            m@,
            "AlreadyClaimed"@,
        ) ==> (a matches HubAction::Finish(Record::Retry { message, .. }) && message@ == m@))),
{
}
} // verus!
