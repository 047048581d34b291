use vstd::prelude::*;

use crate::error::{ParseError, ParseErrorView};
use crate::rows::{HubUserOpRow, JobConfig, SolverJob};
use crate::text::{chars_eq_str, chars_of, concat_str, dec_int, i64_to_dec, str_contains, contains};
use crate::transitions::{allowed, lifecycle_rank, prev_states};
use crate::types::{intent_type_of_code, state_of_name, HubUserOpKind, IntentType, JobState};

verus! {

/// What the hub (or the indexer) reports of an intent.
#[derive(Debug, Clone, Copy, PartialEq, Eq, Structural)]
pub struct IntentStatus {
    pub solved: bool,
    pub funded: bool,
    pub settled: bool,
    pub closed: bool,
}

/// The state a proved job belongs in, given its intent's status; `None` while the intent is
/// neither closed nor solved.
pub open spec fn settlement_target(st: IntentStatus) -> Option<JobState> {
    if st.closed || (st.solved && st.funded && st.settled) {
        Some(JobState::Done)
    } else if st.solved && !st.funded {
        Some(JobState::ProvedWaitingFunding)
    } else if st.solved && st.funded && !st.settled {
        Some(JobState::ProvedWaitingSettlement)
    } else {
        None
    }
}

/// The state a job moves to once its intent reports `st` after the proof was accepted.
pub fn settlement_state(st: IntentStatus) -> (r: Option<JobState>)
    ensures
        r == settlement_target(st),
{
    if st.closed || (st.solved && st.funded && st.settled) {
        Some(JobState::Done)
    } else if st.solved && !st.funded {
        Some(JobState::ProvedWaitingFunding)
    } else if st.solved && st.funded && !st.settled {
        Some(JobState::ProvedWaitingSettlement)
    } else {
        None
    }
}

/// What to do with a job that is in one of the proved states.
#[derive(Debug, Clone, Copy, PartialEq, Eq, Structural)]
pub enum ProvedAction {
    /// The intent is settled or closed: the job is done.
    MarkDone,
    /// The job waits for something else now.
    MoveTo(JobState),
    /// Nothing changed.
    Keep,
}

/// The action for a job in `state` whose intent reports `st`.
pub open spec fn proved_action_of(state: JobState, st: IntentStatus) -> ProvedAction {
    match settlement_target(st) {
        Some(t) => if t == JobState::Done {
            ProvedAction::MarkDone
        } else if t == state {
            ProvedAction::Keep
        } else {
            ProvedAction::MoveTo(t)
        },
        None => ProvedAction::Keep,
    }
}

/// Decides what a job in a proved state does, given its intent's status.
pub fn proved_state_action(state: JobState, st: IntentStatus) -> (r: ProvedAction)
    ensures
        r == proved_action_of(state, st),
{
    match settlement_state(st) {
        Some(t) => {
            if t == JobState::Done {
                ProvedAction::MarkDone
            } else if t == state {
                ProvedAction::Keep
            } else {
                ProvedAction::MoveTo(t)
            }
        },
        None => ProvedAction::Keep,
    }
}

/// A job that was just proved moves only into states that accept a proved job; and a job in
/// a proved state moves only forward along the lifecycle, into a state that accepts it, except
/// from waiting-for-settlement back to waiting-for-funding, which the job table refuses.
pub proof fn lemma_proved_moves_are_accepted(state: JobState, st: IntentStatus)
    requires
        state == JobState::Proved || state == JobState::ProvedWaitingFunding || state
            == JobState::ProvedWaitingSettlement,
        !(state == JobState::ProvedWaitingSettlement && settlement_target(st) == Some(
            JobState::ProvedWaitingFunding,
        )),
    ensures
        settlement_target(st) matches Some(t) ==> allowed(JobState::Proved, t),
        proved_action_of(state, st) matches ProvedAction::MoveTo(t) ==> allowed(state, t)
            && lifecycle_rank(state) < lifecycle_rank(t),
        proved_action_of(state, st) is MarkDone ==> allowed(state, JobState::Done),
{
    assert(prev_states(JobState::Done)[0] == JobState::Proved);
    assert(prev_states(JobState::Done)[1] == JobState::ProvedWaitingFunding);
    assert(prev_states(JobState::Done)[2] == JobState::ProvedWaitingSettlement);
    assert(prev_states(JobState::ProvedWaitingFunding)[0] == JobState::Proved);
    assert(prev_states(JobState::ProvedWaitingSettlement)[0] == JobState::Proved);
    assert(prev_states(JobState::ProvedWaitingSettlement)[1] == JobState::ProvedWaitingFunding);
}

/// The text recorded when an included user operation failed: the prefix, then the receipt
/// when one was stored.
pub open spec fn userop_failure_text(prefix: Seq<char>, row: HubUserOpRow) -> Seq<char> {
    match row.receipt_json {
        Some(r) => prefix + ": "@ + r@,
        None => prefix,
    }
}

/// The message recorded for a failed user operation that was included on chain.
pub fn included_userop_failure_message(prefix: &str, row: &HubUserOpRow) -> (s: String)
    ensures
        s@ == userop_failure_text(prefix@, *row),
{
    match &row.receipt_json {
        Some(receipt) => {
            let head = concat_str(prefix, ": ");
            concat_str(head.as_str(), receipt.as_str())
        },
        None => prefix.to_owned(),
    }
}

/// The prefix of the failure message of a user operation of the given kind.
pub open spec fn userop_failure_prefix(kind: HubUserOpKind) -> Seq<char> {
    match kind {
        HubUserOpKind::Claim => "claim userop failed"@,
        HubUserOpKind::Prove => "prove userop failed"@,
    }
}

/// The retry message for an included user operation whose transaction hash is missing.
pub open spec fn userop_missing_hash_text(kind: HubUserOpKind) -> Seq<char> {
    match kind {
        HubUserOpKind::Claim => "claim userop included without tx_hash"@,
        HubUserOpKind::Prove => "prove userop included without tx_hash"@,
    }
}

/// What a stored, included user operation means for its job.
#[derive(Debug)]
pub enum IncludedUserOpOutcome {
    /// It failed on chain: the job fails with this message.
    Fatal { message: String },
    /// It succeeded but its transaction hash was not stored: retry later.
    Retry { message: &'static str },
    /// It succeeded in this transaction: record the claim or the proof.
    Record { tx_hash: [u8; 32] },
}

/// Reconciles a job with its included user operation (after a partial write).
pub fn reconcile_included_userop(kind: HubUserOpKind, row: &HubUserOpRow) -> (r:
    IncludedUserOpOutcome)
    ensures
        row.success != Some(true) ==> (r matches IncludedUserOpOutcome::Fatal { message }
            && message@ == userop_failure_text(userop_failure_prefix(kind), *row)),
        row.success == Some(true) && row.tx_hash is None ==> (
        r matches IncludedUserOpOutcome::Retry { message } && message@ == userop_missing_hash_text(
            kind,
        )),
        row.success == Some(true) && row.tx_hash is Some ==> (
        r matches IncludedUserOpOutcome::Record { tx_hash } && row.tx_hash == Some(tx_hash)),
{
    let ok = match row.success {
        Some(b) => b,
        None => false,
    };
    if !ok {
        let prefix = match kind {
            HubUserOpKind::Claim => "claim userop failed",
            HubUserOpKind::Prove => "prove userop failed",
        };
        return IncludedUserOpOutcome::Fatal {
            message: included_userop_failure_message(prefix, row),
        };
    }
    match row.tx_hash {
        None => IncludedUserOpOutcome::Retry {
            message: match kind {
                HubUserOpKind::Claim => "claim userop included without tx_hash",
                HubUserOpKind::Prove => "prove userop included without tx_hash",
            },
        },
        Some(h) => IncludedUserOpOutcome::Record { tx_hash: h },
    }
}

/// A stored user operation that was built but never handed to a bundler.
pub open spec fn prepared_unsent(row: HubUserOpRow) -> bool {
    row.userop_hash is None && row.state@ == "prepared"@
}

/// Whether a stored user operation was built but never handed to a bundler.
pub fn is_prepared_unsent(row: &HubUserOpRow) -> (b: bool)
    ensures
        b == prepared_unsent(*row),
{
    row.userop_hash.is_none() && chars_eq_str(&chars_of(row.state.as_str()), "prepared")
}

/// The next step for a job that goes through a user operation.
#[derive(Debug, Clone, Copy, PartialEq, Eq, Structural)]
pub enum UserOpStep {
    /// It is already included: reconcile the job with it.
    Reconcile,
    /// Submit it; reuse the stored one when it was built but not sent.
    Submit { reuse_prepared: bool },
    /// It was sent: poll for its receipt.
    Poll,
}

/// The step for a job whose stored user operation is `row` (after a stale one was dropped).
pub open spec fn userop_step_of(row: Option<HubUserOpRow>) -> UserOpStep {
    match row {
        None => UserOpStep::Submit { reuse_prepared: false },
        Some(r) => if r.state@ == "included"@ {
            UserOpStep::Reconcile
        } else if prepared_unsent(r) {
            UserOpStep::Submit { reuse_prepared: true }
        } else {
            UserOpStep::Poll
        },
    }
}

/// Decides the next step for a job from its stored user operation.
pub fn userop_step(row: &Option<HubUserOpRow>) -> (s: UserOpStep)
    ensures
        s == userop_step_of(*row),
{
    match row {
        None => UserOpStep::Submit { reuse_prepared: false },
        Some(r) => {
            if chars_eq_str(&chars_of(r.state.as_str()), "included") {
                UserOpStep::Reconcile
            } else if is_prepared_unsent(r) {
                UserOpStep::Submit { reuse_prepared: true }
            } else {
                UserOpStep::Poll
            }
        },
    }
}

/// How long a claim stays exclusive to its solver, in seconds.
pub const CLAIM_WINDOW_SECS: i64 = 120;

/// `x` clamped into the range of `i64`.
pub open spec fn clamp_i64(x: int) -> int {
    if x > i64::MAX {
        i64::MAX as int
    } else if x < i64::MIN {
        i64::MIN as int
    } else {
        x
    }
}

/// When the claim window of a job ends: the on-chain claim time plus the window when the chain
/// confirms that this solver claimed it at a positive time, else now plus the window.
/// `onchain` is `None` when the claim could not be read, else (claimed by this solver, time).
pub open spec fn claim_expiry(now: i64, onchain: Option<(bool, u64)>) -> int {
    match onchain {
        Some((mine, at)) => if mine && at > 0 {
            clamp_i64((if at > i64::MAX { i64::MAX as int } else { at as int }) + CLAIM_WINDOW_SECS)
        } else {
            clamp_i64(now + CLAIM_WINDOW_SECS)
        },
        None => clamp_i64(now + CLAIM_WINDOW_SECS),
    }
}

fn add_claim_window(x: i64) -> (r: i64)
    ensures
        r == clamp_i64(x + CLAIM_WINDOW_SECS),
{
    if x > i64::MAX - CLAIM_WINDOW_SECS {
        i64::MAX
    } else {
        x + CLAIM_WINDOW_SECS
    }
}

/// Computes the end of a job's claim window.
pub fn claim_window_expiry(now: i64, onchain: Option<(bool, u64)>) -> (t: i64)
    ensures
        t == claim_expiry(now, onchain),
{
    let fallback = add_claim_window(now);
    match onchain {
        Some((mine, at)) => {
            if mine && at > 0 {
                let at_i: i64 = if at > 9223372036854775807u64 {
                    i64::MAX
                } else {
                    at as i64
                };
                add_claim_window(at_i)
            } else {
                fallback
            }
        },
        None => fallback,
    }
}

/// Where a job is dispatched according to its stored state.
#[derive(Debug)]
pub enum JobRoute {
    Ready,
    Claimed,
    TronPrepared,
    TronSent,
    ProofBuilt,
    /// One of the three proved states.
    Proved(JobState),
    /// Done or failed: nothing to do.
    Finished,
    /// The stored state is not a known one: the job fails with this message.
    UnknownState { message: String },
}

/// The route a job with stored state `name` takes.
pub open spec fn routes_to(name: Seq<char>, r: JobRoute) -> bool {
    match state_of_name(name) {
        None => r matches JobRoute::UnknownState { message } && message@ == "unknown job state: "@
            + name,
        Some(s) => match s {
            JobState::Ready => r is Ready,
            JobState::Claimed => r is Claimed,
            JobState::TronPrepared => r is TronPrepared,
            JobState::TronSent => r is TronSent,
            JobState::ProofBuilt => r is ProofBuilt,
            JobState::Proved | JobState::ProvedWaitingFunding | JobState::ProvedWaitingSettlement =>
                r matches JobRoute::Proved(t) && t == s,
            JobState::Done | JobState::FailedFatal => r is Finished,
        },
    }
}

/// Reads a job's intent type, then dispatches it by its stored state; an unknown intent type
/// is an error, an unknown state makes the job fail.
pub fn route_job(job: &SolverJob) -> (r: Result<(IntentType, JobRoute), ParseError>)
    ensures
        r is Err <==> intent_type_of_code(job.intent_type) is None,
        r matches Err(e) ==> e@ == (ParseErrorView::UnknownIntentTypeCode { code: job.intent_type }),
        r matches Ok((t, route)) ==> intent_type_of_code(job.intent_type) == Some(t) && routes_to(
            job.state@,
            route,
        ),
{
    let ty = match IntentType::from_i16(job.intent_type) {
        Ok(t) => t,
        Err(e) => {
            return Err(e);
        },
    };
    let route = match JobState::parse(job.state.as_str()) {
        Err(_) => JobRoute::UnknownState {
            message: concat_str("unknown job state: ", job.state.as_str()),
        },
        Ok(s) => match s {
            JobState::Ready => JobRoute::Ready,
            JobState::Claimed => JobRoute::Claimed,
            JobState::TronPrepared => JobRoute::TronPrepared,
            JobState::TronSent => JobRoute::TronSent,
            JobState::ProofBuilt => JobRoute::ProofBuilt,
            JobState::Proved | JobState::ProvedWaitingFunding | JobState::ProvedWaitingSettlement =>
                JobRoute::Proved(s),
            JobState::Done | JobState::FailedFatal => JobRoute::Finished,
        },
    };
    Ok((ty, route))
}

/// `u64` into `i64`, or `fallback` when it does not fit.
pub open spec fn u64_to_i64_or(v: u64, fallback: i64) -> i64 {
    if v <= i64::MAX as u64 {
        v as i64
    } else {
        fallback
    }
}

fn u64_to_i64_or_exec(v: u64, fallback: i64) -> (r: i64)
    ensures
        r == u64_to_i64_or(v, fallback),
{
    if v <= 9223372036854775807u64 {
        v as i64
    } else {
        fallback
    }
}

/// The window (seconds) over which recent fatal errors are counted for the automatic pause.
pub fn fatal_count_window_secs(jobs: &JobConfig) -> (w: i64)
    ensures
        w == u64_to_i64_or(jobs.global_pause_window_secs, 300),
{
    u64_to_i64_or_exec(jobs.global_pause_window_secs, 300)
}

/// The reason recorded for an automatic pause after `n` recent fatal errors.
pub open spec fn auto_pause_reason(n: i64) -> Seq<char> {
    "auto_pause_fatal_threshold_exceeded n="@ + dec_int(n as int)
}

/// After a job failed fatally: whether to pause all claiming, for how many seconds and why,
/// given the number of fatal errors in the recent window. A threshold of 0 disables the pause.
pub fn auto_pause_decision(jobs: &JobConfig, recent_fatal: i64) -> (r: Option<(i64, String)>)
    ensures
        r is Some <==> jobs.global_pause_fatal_threshold > 0 && recent_fatal >= u64_to_i64_or(
            jobs.global_pause_fatal_threshold,
            i64::MAX,
        ),
        r matches Some((secs, reason)) ==> secs == u64_to_i64_or(
            jobs.global_pause_duration_secs,
            300,
        ) && reason@ == auto_pause_reason(recent_fatal),
{
    if jobs.global_pause_fatal_threshold == 0 {
        return None;
    }
    let limit = u64_to_i64_or_exec(jobs.global_pause_fatal_threshold, i64::MAX);
    if recent_fatal >= limit {
        let secs = u64_to_i64_or_exec(jobs.global_pause_duration_secs, 300);
        let n = i64_to_dec(recent_fatal);
        let reason = concat_str("auto_pause_fatal_threshold_exceeded n=", n.as_str());
        Some((secs, reason))
    } else {
        None
    }
}

/// The per-type claim rate limit: its key and its limit per minute.
pub open spec fn claim_rate_limit_of(ty: IntentType, jobs: JobConfig) -> (Seq<char>, u64) {
    match ty {
        IntentType::TrxTransfer => (
            "claim:trx_transfer"@,
            jobs.rate_limit_claims_per_minute_trx_transfer,
        ),
        IntentType::UsdtTransfer => (
            "claim:usdt_transfer"@,
            jobs.rate_limit_claims_per_minute_usdt_transfer,
        ),
        IntentType::DelegateResource => (
            "claim:delegate_resource"@,
            jobs.rate_limit_claims_per_minute_delegate_resource,
        ),
        IntentType::TriggerSmartContract => (
            "claim:trigger_smart_contract"@,
            jobs.rate_limit_claims_per_minute_trigger_smart_contract,
        ),
    }
}

/// The key and per-minute limit of the claim rate limit for an intent type.
pub fn claim_rate_limit(ty: IntentType, jobs: &JobConfig) -> (r: (&'static str, u64))
    ensures
        r.0@ == claim_rate_limit_of(ty, *jobs).0,
        r.1 == claim_rate_limit_of(ty, *jobs).1,
{
    match ty {
        IntentType::TrxTransfer => (
            "claim:trx_transfer",
            jobs.rate_limit_claims_per_minute_trx_transfer,
        ),
        IntentType::UsdtTransfer => (
            "claim:usdt_transfer",
            jobs.rate_limit_claims_per_minute_usdt_transfer,
        ),
        IntentType::DelegateResource => (
            "claim:delegate_resource",
            jobs.rate_limit_claims_per_minute_delegate_resource,
        ),
        IntentType::TriggerSmartContract => (
            "claim:trigger_smart_contract",
            jobs.rate_limit_claims_per_minute_trigger_smart_contract,
        ),
    }
}

/// Whether new claims must wait because too many claimed jobs are not proved yet; the limit
/// is at least 1.
pub fn claim_backpressure(max_claimed_unproved: u64, claimed_unproved: i64) -> (b: bool)
    ensures
        b == (claimed_unproved >= (if u64_to_i64_or(max_claimed_unproved, i64::MAX) < 1 {
            1
        } else {
            u64_to_i64_or(max_claimed_unproved, i64::MAX)
        })),
{
    let limit = u64_to_i64_or_exec(max_claimed_unproved, i64::MAX);
    let limit = if limit < 1 {
        1
    } else {
        limit
    };
    claimed_unproved >= limit
}

/// A wait reported in seconds, as a non-negative duration; `fallback` when it is negative.
pub fn wait_secs_or(wait: i64, fallback: u64) -> (s: u64)
    ensures
        s == (if wait >= 0 {
            wait as u64
        } else {
            fallback
        }),
{
    if wait >= 0 {
        wait as u64
    } else {
        fallback
    }
}

/// The retry message while claiming is paused.
pub fn global_pause_message(reason: &Option<String>) -> (s: String)
    ensures
        s@ == "global_pause: "@ + match reason {
            Some(r) => r@,
            None => "paused"@,
        },
{
    match reason {
        Some(r) => concat_str("global_pause: ", r.as_str()),
        None => concat_str("global_pause: ", "paused"),
    }
}

/// Whether a failed claim says that the intent is already claimed.
pub fn is_already_claimed_error(msg: &str) -> (b: bool)
    ensures
        b == contains(msg@, "AlreadyClaimed"@),
{
    str_contains(msg, "AlreadyClaimed")
}

/// What a failed claim leads to once the intent turned out to be claimed already.
#[derive(Debug)]
pub enum AlreadyClaimedOutcome {
    /// This solver holds the claim: the job is claimed.
    MarkClaimed,
    /// Another solver holds it: the job fails with the claim's error.
    Fatal { message: String },
    /// The holder could not be read: retry with this message.
    Retry { message: String },
}

/// Decides an already-claimed intent from the claim's error `msg` and the lookup of its
/// solver: `Ok(true)` when it is this solver, `Err(text)` when the lookup failed.
pub fn already_claimed_outcome(msg: &str, holder: &Result<bool, String>) -> (r:
    AlreadyClaimedOutcome)
    ensures
        holder matches Ok(true) ==> r is MarkClaimed,
        holder matches Ok(false) ==> (r matches AlreadyClaimedOutcome::Fatal { message }
            && message@ == msg@),
        holder matches Err(e) ==> (r matches AlreadyClaimedOutcome::Retry { message }
            && message@ == "already claimed; failed to reconcile solver: "@ + e@),
{
    match holder {
        Ok(true) => AlreadyClaimedOutcome::MarkClaimed,
        Ok(false) => AlreadyClaimedOutcome::Fatal { message: msg.to_owned() },
        Err(e) => AlreadyClaimedOutcome::Retry {
            message: concat_str("already claimed; failed to reconcile solver: ", e.as_str()),
        },
    }
}

} // verus!
