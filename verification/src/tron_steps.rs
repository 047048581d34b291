use vstd::prelude::*;

use crate::abi::keccak256_of;
use crate::backoff::{retry_delay_secs, retry_secs};
use crate::diagnostics::{contract_failure_like, prepare_error_trips_breaker};
use crate::hexcodec::hex_decoded;
use crate::intents::DelegateResourceIntent;
use crate::runner::{
    claimed_action, claimed_action_of, decode_rental_txid, mock_txid, needs_broadcast,
    no_rental_message, provider_failure, provider_order, provider_order_of, resell_amounts,
    strip_all_0x, inclusion_wait_tick, word_i64, ClaimedAction, RentalTxidError,
    INCLUSION_TIMEOUT_MS, LEASE_REFRESH_MS,
};
use crate::steps::{abort_is, keeps_matrix, retry_is, Record};
use crate::text::contains;
use crate::transitions::{allowed, prev_states};
use crate::types::{IntentType, JobState, TronMode};

verus! {

/// The settings the Tron-side handlers read.
#[derive(Debug, Clone, Copy)]
pub struct TronStepConfig {
    pub tron_mode: TronMode,
    pub resell_enabled: bool,
}

/// The job a Tron-side handler works on.
#[derive(Debug, Clone, Copy)]
pub struct TronJob {
    pub intent_type: IntentType,
    pub attempts: i32,
    pub intent_id: [u8; 32],
    pub tron_txid: Option<[u8; 32]>,
}

/// `r` is a retry after a failed preparation with message `m`.
pub open spec fn prepare_retry_is(r: Record, ty: IntentType, m: Seq<char>, d: int) -> bool {
    r matches Record::PrepareRetry { message, delay_secs, trip_breaker } && message@ == m
        && delay_secs == d && trip_breaker == (ty == IntentType::TriggerSmartContract
        && !contains(m, "SERVER_BUSY"@) && contract_failure_like(m))
}

/// What the outside work of the last step gave back to the handler of a claimed job.
#[derive(Debug)]
pub enum ClaimedEvent {
    Begin,
    /// The mock execution: `Ok(true)` when it produced a proof at once, `Ok(false)` when it
    /// prepared a transaction instead, or its error.
    MockExecuted { result: Result<bool, String> },
    /// The transfer plan was prepared and stored (or this error).
    PlanPrepared { error: Option<String> },
    /// The energy resale finished: `Ok(true)` when it handled the job, `Ok(false)` when it
    /// does not apply, or its error.
    Resold { result: Result<bool, String> },
    /// The key that delegates (from the job's stake reservation) is ready (or this error).
    DelegateKey { error: Option<String> },
    /// The call or delegation was prepared: `Ok(true)` for a prepared transaction,
    /// `Ok(false)` for a proof produced at once, or the error.
    Prepared { result: Result<bool, String> },
}

/// The next outside work for a claimed job, or the end of its turn.
#[derive(Debug)]
pub enum ClaimedNext {
    ExecuteMock,
    PreparePlan,
    Resell,
    LoadDelegateKey,
    PrepareTrigger,
    PrepareDelegate,
    Finish(Record),
}

/// The record that ends a claimed job's turn, if the step ends it.
pub open spec fn claimed_finish(a: ClaimedNext) -> Option<Record> {
    match a {
        ClaimedNext::Finish(r) => Some(r),
        _ => None,
    }
}

/// One step of the handler of a claimed job: the mock backend executes at once and stores a
/// proof under the recorded transaction id (else the Keccak-256 digest of the intent id);
/// TRX and USDT transfers store a transfer plan; a delegate intent tries the energy resale
/// when it is on, and otherwise delegates with the key of its stake reservation; a trigger
/// call is prepared. A failed preparation is retried (and counts against the call's breaker
/// when it looks like a contract failure); an outcome of the wrong kind ends the turn.
pub open spec fn claimed_step_is(cfg: TronStepConfig, job: TronJob, ev: ClaimedEvent, a: ClaimedNext) -> bool {
    let rd = retry_secs(job.attempts as int) as int;
    match ev {
        ClaimedEvent::Begin => a == match claimed_action_of(
            cfg.tron_mode,
            job.intent_type,
            cfg.resell_enabled,
        ) {
            ClaimedAction::ExecuteMock => ClaimedNext::ExecuteMock,
            ClaimedAction::PreparePlan => ClaimedNext::PreparePlan,
            ClaimedAction::TryResell => ClaimedNext::Resell,
            ClaimedAction::PrepareTrigger => ClaimedNext::PrepareTrigger,
            ClaimedAction::PrepareDelegate => ClaimedNext::LoadDelegateKey,
        },
        ClaimedEvent::MockExecuted { result } => claimed_finish(a) matches Some(rec) && match result {
            Ok(true) => rec matches Record::MockExecuted { txid } && match job.tron_txid {
                Some(t) => txid == t,
                None => txid@ == keccak256_of(job.intent_id@),
            },
            Ok(false) => abort_is(rec, "unexpected PreparedTx in TRON_MODE=mock"@),
            Err(m) => prepare_retry_is(rec, job.intent_type, m@, rd),
        },
        ClaimedEvent::PlanPrepared { error } => match error {
            None => a == ClaimedNext::Finish(
                Record::Advance { to: JobState::TronPrepared, tx_hash: None },
            ),
            Some(e) => claimed_finish(a) matches Some(rec) && abort_is(rec, e@),
        },
        ClaimedEvent::Resold { result } => match result {
            Ok(true) => a == ClaimedNext::Finish(Record::Wait),
            Ok(false) => a == ClaimedNext::LoadDelegateKey,
            Err(e) => claimed_finish(a) matches Some(rec) && abort_is(rec, e@),
        },
        ClaimedEvent::DelegateKey { error } => match error {
            None => a == ClaimedNext::PrepareDelegate,
            Some(e) => claimed_finish(a) matches Some(rec) && abort_is(rec, e@),
        },
        ClaimedEvent::Prepared { result } => match result {
            Ok(true) => a == ClaimedNext::Finish(
                Record::Advance { to: JobState::TronPrepared, tx_hash: None },
            ),
            Ok(false) => claimed_finish(a) matches Some(rec) && abort_is(
                rec,
                "unexpected ImmediateProof in TRON_MODE=grpc"@,
            ),
            Err(m) => claimed_finish(a) matches Some(rec) && prepare_retry_is(
                rec,
                job.intent_type,
                m@,
                rd,
            ),
        },
    }
}

fn prepare_retry(ty: IntentType, message: String, attempts: i32) -> (r: Record)
    ensures
        prepare_retry_is(r, ty, message@, retry_secs(attempts as int) as int),
{
    let trip = prepare_error_trips_breaker(ty, message.as_str());
    Record::PrepareRetry { message, delay_secs: retry_delay_secs(attempts), trip_breaker: trip }
}

fn abort_with(message: String) -> (r: Record)
    ensures
        abort_is(r, message@),
{
    Record::Abort { message }
}

/// Decides the next step for a claimed job, from the outcome of the last one.
pub fn claimed_step(cfg: &TronStepConfig, job: &TronJob, ev: ClaimedEvent) -> (a: ClaimedNext)
    ensures
        claimed_step_is(*cfg, *job, ev, a),
        claimed_finish(a) matches Some(r) ==> keeps_matrix(JobState::Claimed, r),
{
    proof {
        assert(prev_states(JobState::TronPrepared)[0] == JobState::Claimed);
        assert(prev_states(JobState::TronSent)[0] == JobState::Claimed);
        assert(prev_states(JobState::ProofBuilt)[0] == JobState::TronSent);
    }
    match ev {
        ClaimedEvent::Begin => match claimed_action(
            cfg.tron_mode,
            job.intent_type,
            cfg.resell_enabled,
        ) {
            ClaimedAction::ExecuteMock => ClaimedNext::ExecuteMock,
            ClaimedAction::PreparePlan => ClaimedNext::PreparePlan,
            ClaimedAction::TryResell => ClaimedNext::Resell,
            ClaimedAction::PrepareTrigger => ClaimedNext::PrepareTrigger,
            ClaimedAction::PrepareDelegate => ClaimedNext::LoadDelegateKey,
        },
        ClaimedEvent::MockExecuted { result } => match result {
            Ok(true) => ClaimedNext::Finish(
                Record::MockExecuted { txid: mock_txid(job.tron_txid, &job.intent_id) },
            ),
            Ok(false) => ClaimedNext::Finish(
                abort_with("unexpected PreparedTx in TRON_MODE=mock".to_owned()),
            ),
            Err(m) => ClaimedNext::Finish(prepare_retry(job.intent_type, m, job.attempts)),
        },
        ClaimedEvent::PlanPrepared { error } => match error {
            None => ClaimedNext::Finish(
                Record::Advance { to: JobState::TronPrepared, tx_hash: None },
            ),
            Some(e) => ClaimedNext::Finish(abort_with(e)),
        },
        ClaimedEvent::Resold { result } => match result {
            Ok(true) => ClaimedNext::Finish(Record::Wait),
            Ok(false) => ClaimedNext::LoadDelegateKey,
            Err(e) => ClaimedNext::Finish(abort_with(e)),
        },
        ClaimedEvent::DelegateKey { error } => match error {
            None => ClaimedNext::PrepareDelegate,
            Some(e) => ClaimedNext::Finish(abort_with(e)),
        },
        ClaimedEvent::Prepared { result } => match result {
            Ok(true) => ClaimedNext::Finish(
                Record::Advance { to: JobState::TronPrepared, tx_hash: None },
            ),
            Ok(false) => ClaimedNext::Finish(
                abort_with("unexpected ImmediateProof in TRON_MODE=grpc".to_owned()),
            ),
            Err(m) => ClaimedNext::Finish(prepare_retry(job.intent_type, m, job.attempts)),
        },
    }
}

/// What the outside work of the last step gave back to the handler of a job in
/// `tron_prepared`, which sends its stored transactions in order.
#[derive(Debug)]
pub enum PreparedEvent {
    Begin,
    /// The transactions to send were loaded: this many.
    Rows { count: usize },
    /// Transaction `index` of `count` was looked up: whether it is included, and whether the
    /// node already knows it.
    Looked { index: usize, count: usize, included: bool, known: bool },
    /// Transaction `index` of `count` was broadcast (or this error).
    Broadcast { index: usize, count: usize, error: Option<String> },
    /// Transaction `index` of `count` was looked up while waiting for its inclusion, at
    /// `now_ms`; the wait began at `started_ms`, and the lease is due at `next_refresh_ms`.
    Waited {
        index: usize,
        count: usize,
        included: bool,
        started_ms: u64,
        next_refresh_ms: u64,
        now_ms: u64,
    },
}

/// The next outside work for a job in `tron_prepared`, or the end of its turn.
#[derive(Debug)]
pub enum PreparedNext {
    LoadRows,
    LookUp { index: usize },
    Broadcast { index: usize },
    /// Look the transaction up again after a second; renew the job lease first when
    /// `renew_lease`; the lease is next due at `next_refresh_ms`.
    WaitInclusion { index: usize, renew_lease: bool, next_refresh_ms: u64 },
    /// Everything is on chain: release the job's stake reservation when asked, and record the
    /// final transaction id (the job moves to `tron_sent`).
    Sent { release_reservation: bool, txid: [u8; 32] },
    Finish(Record),
}

/// After transaction `index`: the next one, or the end when it was the last.
pub open spec fn after_row(job: TronJob, index: int, count: int) -> PreparedNext {
    if index + 1 < count {
        PreparedNext::LookUp { index: (index + 1) as usize }
    } else {
        PreparedNext::Sent {
            release_reservation: job.intent_type == IntentType::DelegateResource,
            txid: job.tron_txid.unwrap(),
        }
    }
}

/// One step of sending a prepared job's transactions: each one already included or known
/// to the node is skipped, else broadcast (a failure is retried) and waited for until it is
/// included, renewing the lease every ten seconds and giving up after a minute. When all
/// are on chain, a delegate job releases its reservation and the job records its final
/// transaction id.
pub open spec fn tron_prepared_step_is(job: TronJob, ev: PreparedEvent, a: PreparedNext) -> bool {
    let rd = retry_secs(job.attempts as int) as int;
    match job.tron_txid {
        None => a matches PreparedNext::Finish(rec) && retry_is(rec, "missing tron_txid"@, rd),
        Some(_) => match ev {
            PreparedEvent::Begin => a == PreparedNext::LoadRows,
            PreparedEvent::Rows { count } => if 0 < count {
                a == PreparedNext::LookUp { index: 0 }
            } else {
                a == after_row(job, 0, 0)
            },
            PreparedEvent::Looked { index, count, included, known } => if index >= count {
                a matches PreparedNext::Finish(rec) && abort_is(rec, "transaction index out of range"@)
            } else if !included && !known {
                a == PreparedNext::Broadcast { index }
            } else {
                a == after_row(job, index as int, count as int)
            },
            PreparedEvent::Broadcast { index, count, error } => if index >= count {
                a matches PreparedNext::Finish(rec) && abort_is(rec, "transaction index out of range"@)
            } else {
                match error {
                    Some(m) => a matches PreparedNext::Finish(rec) && retry_is(rec, m@, rd),
                    None => a == PreparedNext::WaitInclusion {
                        index,
                        renew_lease: false,
                        next_refresh_ms: 0,
                    },
                }
            },
            PreparedEvent::Waited { index, count, included, started_ms, next_refresh_ms, now_ms } =>
                if index >= count {
                a matches PreparedNext::Finish(rec) && abort_is(rec, "transaction index out of range"@)
            } else if included {
                a == after_row(job, index as int, count as int)
            } else if now_ms > started_ms && now_ms - started_ms > INCLUSION_TIMEOUT_MS {
                a matches PreparedNext::Finish(rec) && retry_is(rec, "tron tx inclusion timeout"@, rd)
            } else {
                a == PreparedNext::WaitInclusion {
                    index,
                    renew_lease: now_ms >= next_refresh_ms,
                    next_refresh_ms: if now_ms >= next_refresh_ms {
                        if now_ms + LEASE_REFRESH_MS > u64::MAX {
                            u64::MAX
                        } else {
                            (now_ms + LEASE_REFRESH_MS) as u64
                        }
                    } else {
                        next_refresh_ms
                    },
                }
            },
        },
    }
}

fn after_row_exec(job: &TronJob, index: usize, count: usize) -> (a: PreparedNext)
    requires
        index < count || (index == 0 && count == 0),
        job.tron_txid is Some,
    ensures
        a == after_row(*job, index as int, count as int),
{
    if index + 1 < count {
        PreparedNext::LookUp { index: index + 1 }
    } else {
        let release = match job.intent_type {
            IntentType::DelegateResource => true,
            _ => false,
        };
        PreparedNext::Sent { release_reservation: release, txid: job.tron_txid.unwrap() }
    }
}

fn out_of_range() -> (a: PreparedNext)
    ensures
        a matches PreparedNext::Finish(rec) && abort_is(rec, "transaction index out of range"@),
{
    PreparedNext::Finish(Record::Abort { message: "transaction index out of range".to_owned() })
}

/// Decides the next step of sending a prepared job's transactions. The first broadcast wait
/// starts with the lease due at once (the caller passes the time it will next be due).
pub fn tron_prepared_step(job: &TronJob, ev: PreparedEvent) -> (a: PreparedNext)
    ensures
        tron_prepared_step_is(*job, ev, a),
        a matches PreparedNext::Finish(r) ==> keeps_matrix(JobState::TronPrepared, r),
        a is Sent ==> allowed(JobState::TronPrepared, JobState::TronSent),
{
    proof {
        assert(prev_states(JobState::TronSent)[1] == JobState::TronPrepared);
    }
    let rd = retry_delay_secs(job.attempts);
    if job.tron_txid.is_none() {
        return PreparedNext::Finish(Record::Retry { message: "missing tron_txid".to_owned(), delay_secs: rd });
    }
    match ev {
        PreparedEvent::Begin => PreparedNext::LoadRows,
        PreparedEvent::Rows { count } => {
            if 0 < count {
                PreparedNext::LookUp { index: 0 }
            } else {
                after_row_exec(job, 0, 0)
            }
        },
        PreparedEvent::Looked { index, count, included, known } => {
            if index >= count {
                out_of_range()
            } else if needs_broadcast(included, known) {
                PreparedNext::Broadcast { index }
            } else {
                after_row_exec(job, index, count)
            }
        },
        PreparedEvent::Broadcast { index, count, error } => {
            if index >= count {
                out_of_range()
            } else {
                match error {
                    Some(m) => PreparedNext::Finish(Record::Retry { message: m, delay_secs: rd }),
                    None => PreparedNext::WaitInclusion { index, renew_lease: false, next_refresh_ms: 0 },
                }
            }
        },
        PreparedEvent::Waited { index, count, included, started_ms, next_refresh_ms, now_ms } => {
            if index >= count {
                out_of_range()
            } else if included {
                after_row_exec(job, index, count)
            } else {
                let tick = inclusion_wait_tick(started_ms, next_refresh_ms, now_ms);
                if tick.timed_out {
                    PreparedNext::Finish(
                        Record::Retry { message: "tron tx inclusion timeout".to_owned(), delay_secs: rd },
                    )
                } else {
                    PreparedNext::WaitInclusion {
                        index,
                        renew_lease: tick.renew_lease,
                        next_refresh_ms: tick.next_refresh_ms,
                    }
                }
            }
        },
    }
}

/// How an order from one rental provider went.
#[derive(Debug)]
pub enum RentOutcome {
    /// The provider answered: whether it says the order went through, the transaction id it
    /// reported, and the answer summed up as recorded on failure.
    Answered { ok: bool, txid: Option<String>, summary: String },
    /// The request failed with this error.
    Failed { error: String },
    /// The request timed out.
    TimedOut,
}

/// Where the energy resale of a delegate job stands: the configured providers, the order in
/// which they are tried, the next one to try, the last failure, and the decoded intent.
#[derive(Debug)]
pub struct ResellState {
    pub names: Vec<String>,
    pub order: Vec<usize>,
    pub next: usize,
    pub last_error: Option<String>,
}

/// What the outside work of the last step gave back to the energy resale.
#[derive(Debug)]
pub enum ResellEvent {
    /// The intent specification decoded (or not).
    Begin { decoded: Option<DelegateResourceIntent> },
    /// The stored rental of the job: the transaction id when one is known already, the
    /// provider that quoted it, and the configured providers; `intent` is the decoded intent.
    Rental {
        intent: DelegateResourceIntent,
        txid: Option<[u8; 32]>,
        preferred: Option<String>,
        names: Vec<String>,
    },
    /// The energy stake totals were read (or this error).
    StakeTotals { error: Option<String> },
    /// Whether the provider about to be tried is frozen (or the error of that check).
    Frozen { frozen: Result<bool, String> },
    /// The order placed with the provider about to be tried.
    Rented { outcome: RentOutcome },
    /// The provider's failure was recorded: go on with the next one.
    Next,
}

/// The next outside work of the energy resale, or its end.
#[derive(Debug)]
pub enum ResellNext {
    /// Only energy is resold: the job delegates from the solver's own stake instead.
    NotResold,
    LoadRental,
    FetchStakeTotals,
    CheckFrozen { provider: usize },
    Rent { provider: usize },
    /// Record the provider's failure (which may freeze it), then go on.
    RecordFailure { provider: usize, message: String },
    /// The energy is delegated under this transaction: store it with the rental, and the job
    /// moves to `tron_sent`.
    Delegated { txid: [u8; 32] },
    Finish(Record),
}

/// The outcome of reading a provider's transaction id: the 32 bytes, or the error text.
pub open spec fn rental_txid_outcome(t: Seq<char>) -> Result<Seq<u8>, Seq<char>> {
    match hex_decoded(strip_all_0x(t)) {
        None => Err("decode rental txid hex"@),
        Some(b) => if b.len() == 32 {
            Ok(b)
        } else {
            Err("rental txid is not 32 bytes: "@ + t)
        },
    }
}

/// The providers' names as character sequences.
pub open spec fn name_views(names: Seq<String>) -> Seq<Seq<char>> {
    names.map_values(|s: String| s@)
}

/// The step that tries the provider at position `next` of the order: check it, or give up
/// with the last failure once every provider was tried.
pub open spec fn try_next_is(s: ResellState, attempts: i32, a: ResellNext) -> bool {
    if s.next < s.order@.len() {
        a == ResellNext::CheckFrozen { provider: s.order@[s.next as int] }
    } else {
        a matches ResellNext::Finish(rec) && retry_is(
            rec,
            match s.last_error {
                Some(m) => m@,
                None => "no energy rental providers succeeded"@,
            },
            retry_secs(attempts as int) as int,
        )
    }
}

/// One step of the energy resale of a claimed delegate job: only energy is resold; a known
/// rental transaction is used at once; else the amounts must fit `i64`, the stake totals are
/// read, and the providers are tried in order (the one that quoted the job first), skipping
/// frozen ones, until one reports a transaction; each failure is recorded and remembered, and
/// the last one is retried once all failed.
pub open spec fn resell_step_is(
    s: ResellState,
    attempts: i32,
    ev: ResellEvent,
    s2: ResellState,
    a: ResellNext,
) -> bool {
    match ev {
        ResellEvent::Begin { decoded } => s2 == s && match decoded {
            None => (a matches ResellNext::Finish(rec) && abort_is(
                rec,
                "decode DelegateResourceIntent"@,
            )),
            Some(i) => if i.resource != 1 {
                a == ResellNext::NotResold
            } else {
                a == ResellNext::LoadRental
            },
        },
        ResellEvent::Rental { intent, txid, preferred, names } => match txid {
            Some(t) => s2 == s && a == ResellNext::Delegated { txid: t },
            None => match (word_i64(intent.balance_sun@), word_i64(intent.lock_period@)) {
                (None, _) => s2 == s && (a matches ResellNext::Finish(rec) && abort_is(
                    rec,
                    "balanceSun out of i64 range"@,
                )),
                (Some(_), None) => s2 == s && (a matches ResellNext::Finish(rec) && abort_is(
                    rec,
                    "lockPeriod out of i64 range"@,
                )),
                (Some(_), Some(_)) => a == ResellNext::FetchStakeTotals && name_views(s2.names@)
                    == name_views(names@) && s2.order@.map_values(|i: usize| i as int)
                    == provider_order_of(
                    name_views(names@),
                    match preferred {
                        Some(p) => Some(p@),
                        None => None,
                    },
                ) && s2.next == 0 && s2.last_error is None,
            },
        },
        ResellEvent::StakeTotals { error } => s2 == s && match error {
            Some(e) => (a matches ResellNext::Finish(rec) && abort_is(rec, e@)),
            None => try_next_is(s, attempts, a),
        },
        ResellEvent::Frozen { frozen } => if s.next >= s.order@.len() {
            s2 == s && try_next_is(s, attempts, a)
        } else {
            match frozen {
                Err(e) => s2 == s && (a matches ResellNext::Finish(rec) && abort_is(rec, e@)),
                Ok(true) => s2.names == s.names && s2.order == s.order && s2.next == s.next + 1
                    && s2.last_error == s.last_error && try_next_is(s2, attempts, a),
                Ok(false) => s2 == s && a == ResellNext::Rent { provider: s.order@[s.next as int] },
            }
        },
        ResellEvent::Rented { outcome } => if s.next >= s.order@.len() || s.order@[s.next as int]
            >= s.names@.len() {
            s2 == s && (a matches ResellNext::Finish(rec) && abort_is(
                rec,
                "provider index out of range"@,
            ))
        } else {
            let p = s.order@[s.next as int];
            let fail = |m: Seq<char>|
                (a matches ResellNext::RecordFailure { provider, message } && provider == p
                    && message@ == m) && s2.names == s.names && s2.order == s.order && s2.next
                    == s.next + 1 && (s2.last_error matches Some(le) && le@ == s.names@[p as int]@
                    + ": "@ + m);
            match outcome {
                RentOutcome::Answered { ok, txid, summary } => if ok && txid is Some {
                    s2 == s && match rental_txid_outcome(txid.unwrap()@) {
                        Ok(b) => a matches ResellNext::Delegated { txid: t } && t@ == b,
                        Err(m) => a matches ResellNext::Finish(rec) && abort_is(rec, m),
                    }
                } else {
                    fail(summary@)
                },
                RentOutcome::Failed { error } => fail(error@),
                RentOutcome::TimedOut => fail("timeout"@),
            }
        },
        ResellEvent::Next => s2 == s && try_next_is(s, attempts, a),
    }
}

fn try_next(s: &ResellState, attempts: i32) -> (a: ResellNext)
    ensures
        try_next_is(*s, attempts, a),
{
    if s.next < s.order.len() {
        ResellNext::CheckFrozen { provider: s.order[s.next] }
    } else {
        ResellNext::Finish(
            Record::Retry {
                message: no_rental_message(&s.last_error),
                delay_secs: retry_delay_secs(attempts),
            },
        )
    }
}

fn resell_abort(message: String) -> (a: ResellNext)
    ensures
        a matches ResellNext::Finish(rec) && abort_is(rec, message@),
{
    ResellNext::Finish(Record::Abort { message })
}

fn failure_step(s: ResellState, m: String) -> (r: (ResellState, ResellNext))
    requires
        s.next < s.order@.len(),
        s.order@[s.next as int] < s.names@.len(),
    ensures
        ({
            let p = s.order@[s.next as int];
            (r.1 matches ResellNext::RecordFailure { provider, message } && provider == p
                && message@ == m@) && r.0.names == s.names && r.0.order == s.order && r.0.next
                == s.next + 1 && (r.0.last_error matches Some(le) && le@ == s.names@[p as int]@
                + ": "@ + m@)
        }),
{
    let n = s.order.len();
    assert(s.next < n);
    let p = s.order[s.next];
    let le = provider_failure(s.names[p].as_str(), m.as_str());
    let next = s.next + 1;
    (
        ResellState { names: s.names, order: s.order, next, last_error: Some(le) },
        ResellNext::RecordFailure { provider: p, message: m },
    )
}

/// Decides the next step of the energy resale, and where it then stands.
pub fn resell_step(s: ResellState, attempts: i32, ev: ResellEvent) -> (r: (ResellState, ResellNext))
    ensures
        resell_step_is(s, attempts, ev, r.0, r.1),
        r.1 matches ResellNext::Finish(rec) ==> keeps_matrix(JobState::Claimed, rec),
        r.1 is Delegated ==> allowed(JobState::Claimed, JobState::TronSent),
{
    proof {
        assert(prev_states(JobState::TronSent)[0] == JobState::Claimed);
    }
    match ev {
        ResellEvent::Begin { decoded } => match decoded {
            None => (s, resell_abort("decode DelegateResourceIntent".to_owned())),
            Some(i) => {
                if i.resource != 1 {
                    (s, ResellNext::NotResold)
                } else {
                    (s, ResellNext::LoadRental)
                }
            },
        },
        ResellEvent::Rental { intent, txid, preferred, names } => match txid {
            Some(t) => (s, ResellNext::Delegated { txid: t }),
            None => match resell_amounts(&intent) {
                Err(e) => (s, resell_abort(e.message().to_owned())),
                Ok(_) => {
                    let order = provider_order(&names, &preferred);
                    (
                        ResellState { names, order, next: 0, last_error: None },
                        ResellNext::FetchStakeTotals,
                    )
                },
            },
        },
        ResellEvent::StakeTotals { error } => match error {
            Some(e) => (s, resell_abort(e)),
            None => {
                let a = try_next(&s, attempts);
                (s, a)
            },
        },
        ResellEvent::Frozen { frozen } => {
            if s.next >= s.order.len() {
                let a = try_next(&s, attempts);
                (s, a)
            } else {
                match frozen {
                    Err(e) => (s, resell_abort(e)),
                    Ok(true) => {
                        let next = s.next + 1;
                        let s2 = ResellState {
                            names: s.names,
                            order: s.order,
                            next,
                            last_error: s.last_error,
                        };
                        let a = try_next(&s2, attempts);
                        (s2, a)
                    },
                    Ok(false) => {
                        let p = s.order[s.next];
                        (s, ResellNext::Rent { provider: p })
                    },
                }
            }
        },
        ResellEvent::Rented { outcome } => {
            if s.next >= s.order.len() || s.order[s.next] >= s.names.len() {
                return (s, resell_abort("provider index out of range".to_owned()));
            }
            match outcome {
                RentOutcome::Answered { ok, txid, summary } => {
                    if ok && txid.is_some() {
                        let t = txid.unwrap();
                        match decode_rental_txid(t.as_str()) {
                            Ok(h) => (s, ResellNext::Delegated { txid: h }),
                            Err(e) => {
                                let m = e.message();
                                proof {
                                    reveal_strlit("decode rental txid hex");
                                }
                                (s, resell_abort(m))
                            },
                        }
                    } else {
                        failure_step(s, summary)
                    }
                },
                RentOutcome::Failed { error } => failure_step(s, error),
                RentOutcome::TimedOut => {
                    proof {
                        reveal_strlit("timeout");
                    }
                    failure_step(s, "timeout".to_owned())
                },
            }
        },
        ResellEvent::Next => {
            let a = try_next(&s, attempts);
            (s, a)
        },
    }
}

/// The Tron-side handlers only make moves the job table accepts: a claimed job moves to
/// `tron_prepared`, or through `tron_sent` to `proof_built` with the mock backend, or to
/// `tron_sent` once rented energy is delegated; a prepared job moves to `tron_sent`.
pub proof fn lemma_tron_steps_keep_matrix(
    cfg: TronStepConfig,
    job: TronJob,
    claimed: ClaimedEvent,
    next: ClaimedNext,
    prepared: PreparedEvent,
    sent: PreparedNext,
    s: ResellState,
    resold: ResellEvent,
    s2: ResellState,
    rn: ResellNext,
)
    ensures
        claimed_step_is(cfg, job, claimed, next) ==> (claimed_finish(next) matches Some(r)
            ==> keeps_matrix(JobState::Claimed, r)),
        tron_prepared_step_is(job, prepared, sent) ==> (sent matches PreparedNext::Finish(r)
            ==> keeps_matrix(JobState::TronPrepared, r)),
        sent is Sent ==> allowed(JobState::TronPrepared, JobState::TronSent),
        resell_step_is(s, job.attempts, resold, s2, rn) ==> (rn matches ResellNext::Finish(r)
            ==> keeps_matrix(JobState::Claimed, r)),
        rn is Delegated ==> allowed(JobState::Claimed, JobState::TronSent),
{
    assert(prev_states(JobState::TronPrepared)[0] == JobState::Claimed);
    assert(prev_states(JobState::TronSent)[0] == JobState::Claimed);
    assert(prev_states(JobState::TronSent)[1] == JobState::TronPrepared);
    assert(prev_states(JobState::ProofBuilt)[0] == JobState::TronSent);
}


/// A frozen provider is never sent a rent order: after a provider is reported frozen the
/// resale moves to the next provider of the order (or gives up with the last failure when
/// none is left), and a rent order only ever goes to the provider whose turn it is, after it
/// was found not frozen.
pub proof fn lemma_frozen_providers_skipped(
    s: ResellState,
    attempts: i32,
    ev: ResellEvent,
    s2: ResellState,
    a: ResellNext,
)
    requires
        resell_step_is(s, attempts, ev, s2, a),
    ensures
        a matches ResellNext::Rent { provider } ==> (ev matches ResellEvent::Frozen { frozen }
            && frozen == Ok::<bool, String>(false) && s.next < s.order@.len() && provider
            == s.order@[s.next as int]),
        (ev matches ResellEvent::Frozen { frozen } && frozen == Ok::<bool, String>(true) && s.next
            < s.order@.len()) ==> (s2.next == s.next + 1 && s2.order == s.order && s2.names
            == s.names && !(a is Rent) && (s2.next < s.order@.len() ==> a
            == ResellNext::CheckFrozen { provider: s.order@[s2.next as int] }) && (s2.next
            >= s.order@.len() ==> a matches ResellNext::Finish(Record::Retry { .. }))),
{
}

/// A claimed job moves on only when its Tron work is ready: to `tron_prepared` once its plan
/// or its transaction was prepared, and (with the mock backend only) through `tron_sent` to
/// `proof_built` once the mock produced a proof. A failed preparation is retried with its
/// error, counting against the breaker only for a trigger call.
pub proof fn lemma_claimed_moves_on_ready_work(cfg: TronStepConfig, job: TronJob, ev: ClaimedEvent, a: ClaimedNext)
    requires
        claimed_step_is(cfg, job, ev, a),
    ensures
        a matches ClaimedNext::Finish(Record::Advance { to, .. }) ==> (to == JobState::TronPrepared
            && ((ev matches ClaimedEvent::PlanPrepared { error } && error is None)
            || (ev matches ClaimedEvent::Prepared { result } && result == Ok::<bool, String>(true)))),
        a matches ClaimedNext::Finish(Record::MockExecuted { .. }) ==> (ev matches ClaimedEvent::MockExecuted {
            result,
        } && result == Ok::<bool, String>(true)),
        ev is Begin && cfg.tron_mode == TronMode::Mock ==> a is ExecuteMock,
        ev is Begin && cfg.tron_mode == TronMode::Grpc && (job.intent_type == IntentType::TrxTransfer
            || job.intent_type == IntentType::UsdtTransfer) ==> a is PreparePlan,
        ev matches ClaimedEvent::Prepared { result } ==> (result matches Err(m) ==> (
        a matches ClaimedNext::Finish(Record::PrepareRetry { message, trip_breaker, .. })
            && message@ == m@ && (trip_breaker ==> job.intent_type
            == IntentType::TriggerSmartContract))),
{
}

/// A prepared job is sent only when its last transaction is on chain or known to the node;
/// a transaction is broadcast only when it is neither; a failed broadcast is retried with the
/// node's error; and the wait gives up only after more than a minute.
pub proof fn lemma_sent_only_when_on_chain(job: TronJob, ev: PreparedEvent, a: PreparedNext)
    requires
        tron_prepared_step_is(job, ev, a),
    ensures
        a is Sent ==> (job.tron_txid is Some && ((ev matches PreparedEvent::Rows { count } && count == 0)
            || (ev matches PreparedEvent::Looked { index, count, included, known } && index + 1 == count
            && (included || known)) || (ev matches PreparedEvent::Waited { index, count, included, .. }
            && index + 1 == count && included))),
        a is Sent ==> (a matches PreparedNext::Sent { txid, .. } && Some(txid) == job.tron_txid),
        a is Broadcast ==> (ev matches PreparedEvent::Looked { included, known, .. } && !included
            && !known),
        job.tron_txid is Some ==> (ev matches PreparedEvent::Broadcast { index, count, error } ==> (
        index < count ==> (error matches Some(m) ==> a matches PreparedNext::Finish(
            Record::Retry { message, .. },
        ) && message@ == m@))),
        job.tron_txid is Some ==> (ev matches PreparedEvent::Waited { index, count, included, started_ms, now_ms, .. } ==> (
        (index < count && !included && a matches PreparedNext::Finish(Record::Retry { .. }))
            ==> now_ms > started_ms + 60_000)),
{
}

/// Energy is taken as delegated only under a transaction id the job already recorded, or one
/// a provider reported together with a successful order; every failed order is recorded
/// against the provider that took it and remembered, prefixed with that provider's name.
pub proof fn lemma_delegated_only_when_rented(
    s: ResellState,
    attempts: i32,
    ev: ResellEvent,
    s2: ResellState,
    a: ResellNext,
)
    requires
        resell_step_is(s, attempts, ev, s2, a),
    ensures
        a matches ResellNext::Delegated { txid } ==> ((ev matches ResellEvent::Rental { txid: t, .. }
            && t == Some(txid)) || (ev matches ResellEvent::Rented { outcome } && (
        outcome matches RentOutcome::Answered { ok, txid: t, .. } && ok && t is Some))),
        a matches ResellNext::RecordFailure { provider, message } ==> (s.next < s.order@.len()
            && provider == s.order@[s.next as int] && provider < s.names@.len() && (
        s2.last_error matches Some(le) && le@ == s.names@[provider as int]@ + ": "@ + message@)),
{
}
} // verus!
