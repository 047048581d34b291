use vstd::prelude::*;

use crate::abi::{keccak256, keccak256_of};
use crate::delegate::ResourceCode;
use crate::hexcodec::{hex_decode, hex_decoded};
use crate::intents::{word_to_u64, word_u64, DelegateResourceIntent};
use crate::rental::RentalAttempt;
use crate::rows::{InventoryCheck, TronSignedTxRow};
use crate::text::{chars_of, concat_str, contains, str_contains, string_from_chars};
use crate::types::{IntentType, TronMode};

verus! {

/// Which of the checks made before claiming an open intent apply to it.
#[derive(Debug, Clone, Copy)]
pub struct AttemptGates {
    /// Check that the keys can pay (or consolidate) the transfer.
    pub check_inventory: bool,
    /// Rent the energy from a provider instead of delegating the solver's own stake.
    pub resell: bool,
    /// Emulate the Tron call and skip intents that would revert.
    pub emulate: bool,
    /// Check that some key has enough stake left to delegate.
    pub check_capacity: bool,
}

/// The gates of an open intent. `resource` is the resource code of a delegate intent whose
/// specs decode, `None` otherwise: only energy is rented, and the capacity check needs the
/// decoded intent.
pub open spec fn attempt_gates_of(
    mode: TronMode,
    ty: IntentType,
    key_count: nat,
    consolidation_enabled: bool,
    resell_enabled: bool,
    emulation_enabled: bool,
    resource: Option<u8>,
) -> AttemptGates {
    let grpc = mode == TronMode::Grpc;
    let resell = grpc && ty == IntentType::DelegateResource && resell_enabled && resource
        == Some(1u8);
    AttemptGates {
        check_inventory: grpc && (ty == IntentType::TrxTransfer || ty == IntentType::UsdtTransfer)
            && (key_count > 1 || consolidation_enabled),
        resell,
        emulate: emulation_enabled && grpc && (ty == IntentType::TriggerSmartContract || ty
            == IntentType::UsdtTransfer),
        check_capacity: grpc && ty == IntentType::DelegateResource && !resell && resource is Some,
    }
}

/// An intent is never both resold and checked against the solver's own stake; only delegate
/// intents are resold or capacity-checked, only TRX and USDT transfers inventory-checked, and
/// nothing is checked with the mock backend.
pub proof fn lemma_attempt_gates_exclusive(
    mode: TronMode,
    ty: IntentType,
    key_count: nat,
    consolidation_enabled: bool,
    resell_enabled: bool,
    emulation_enabled: bool,
    resource: Option<u8>,
)
    ensures
        ({
            let g = attempt_gates_of(
                mode,
                ty,
                key_count,
                consolidation_enabled,
                resell_enabled,
                emulation_enabled,
                resource,
            );
            &&& !(g.resell && g.check_capacity)
            &&& (g.resell || g.check_capacity) ==> ty == IntentType::DelegateResource
            &&& g.check_inventory ==> (ty == IntentType::TrxTransfer || ty == IntentType::UsdtTransfer)
            &&& mode == TronMode::Mock ==> !g.check_inventory && !g.resell && !g.emulate
                && !g.check_capacity
        }),
{
}

/// Decides which pre-claim checks an open intent goes through.
pub fn attempt_gates(
    mode: TronMode,
    ty: IntentType,
    key_count: usize,
    consolidation_enabled: bool,
    resell_enabled: bool,
    emulation_enabled: bool,
    resource: Option<u8>,
) -> (g: AttemptGates)
    ensures
        g == attempt_gates_of(
            mode,
            ty,
            key_count as nat,
            consolidation_enabled,
            resell_enabled,
            emulation_enabled,
            resource,
        ),
{
    let grpc = mode == TronMode::Grpc;
    let is_energy = match resource {
        Some(r) => r == 1,
        None => false,
    };
    let resell = grpc && ty == IntentType::DelegateResource && resell_enabled && is_energy;
    AttemptGates {
        check_inventory: grpc && (ty == IntentType::TrxTransfer || ty == IntentType::UsdtTransfer)
            && (key_count > 1 || consolidation_enabled),
        resell,
        emulate: emulation_enabled && grpc && (ty == IntentType::TriggerSmartContract || ty
            == IntentType::UsdtTransfer),
        check_capacity: grpc && ty == IntentType::DelegateResource && !resell && resource.is_some(),
    }
}

/// The skip reason recorded for an intent the inventory cannot fill.
pub fn inventory_skip_reason(c: &InventoryCheck) -> (s: &'static str)
    ensures
        s@ == match c.reason {
            Some(r) => r@,
            None => "inventory_insufficient"@,
        },
{
    match c.reason {
        Some(r) => r,
        None => "inventory_insufficient",
    }
}

/// A recorded reason, or `fallback` when there is none.
pub fn reason_or(reason: &Option<String>, fallback: &str) -> (s: String)
    ensures
        s@ == match reason {
            Some(r) => r@,
            None => fallback@,
        },
{
    match reason {
        Some(r) => r.clone(),
        None => fallback.to_owned(),
    }
}

/// The resource whose stake the capacity check looks at (energy for unknown codes).
pub open spec fn capacity_resource_of(code: u8) -> ResourceCode {
    if code == 0 {
        ResourceCode::Bandwidth
    } else if code == 2 {
        ResourceCode::TronPower
    } else {
        ResourceCode::Energy
    }
}

/// What the capacity check asks of a delegate intent: the resource, and the SUN needed
/// (`i64::MAX` when the amount does not fit).
pub fn capacity_request(intent: &DelegateResourceIntent) -> (r: (ResourceCode, i64))
    ensures
        r.0 == capacity_resource_of(intent.resource),
        r.1 == match word_u64(intent.balance_sun@) {
            Some(v) => if v <= i64::MAX {
                v as int
            } else {
                i64::MAX as int
            },
            None => i64::MAX as int,
        },
{
    let rc = if intent.resource == 0 {
        ResourceCode::Bandwidth
    } else if intent.resource == 2 {
        ResourceCode::TronPower
    } else {
        ResourceCode::Energy
    };
    let needed: i64 = match word_to_u64(&intent.balance_sun) {
        Some(v) => if v <= 9223372036854775807u64 {
            v as i64
        } else {
            i64::MAX
        },
        None => i64::MAX,
    };
    (rc, needed)
}

/// The amount and lock period a rental quote is asked for (`u64::MAX` when a value does not
/// fit).
pub fn quote_request(intent: &DelegateResourceIntent) -> (r: (u64, u64))
    ensures
        r.0 == match word_u64(intent.balance_sun@) {
            Some(v) => v,
            None => u64::MAX,
        },
        r.1 == match word_u64(intent.lock_period@) {
            Some(v) => v,
            None => u64::MAX,
        },
{
    let balance = match word_to_u64(&intent.balance_sun) {
        Some(v) => v,
        None => u64::MAX,
    };
    let lock = match word_to_u64(&intent.lock_period) {
        Some(v) => v,
        None => u64::MAX,
    };
    (balance, lock)
}

/// What is done with a job whose claim is in: execute it at once against the mock backend;
/// prepare a transfer plan (pre-transactions and final transaction) for TRX and USDT; try
/// renting the energy for a delegate intent when reselling is on (and delegate from the
/// solver's own stake if that does not apply); prepare the trigger call; prepare the
/// delegation.
#[derive(Debug, Clone, Copy, PartialEq, Eq, Structural)]
pub enum ClaimedAction {
    ExecuteMock,
    PreparePlan,
    TryResell,
    PrepareTrigger,
    PrepareDelegate,
}

/// The action for a claimed job.
pub open spec fn claimed_action_of(mode: TronMode, ty: IntentType, resell_enabled: bool) -> ClaimedAction {
    if mode == TronMode::Mock {
        ClaimedAction::ExecuteMock
    } else if ty == IntentType::TrxTransfer || ty == IntentType::UsdtTransfer {
        ClaimedAction::PreparePlan
    } else if ty == IntentType::DelegateResource && resell_enabled {
        ClaimedAction::TryResell
    } else if ty == IntentType::TriggerSmartContract {
        ClaimedAction::PrepareTrigger
    } else {
        ClaimedAction::PrepareDelegate
    }
}

/// Decides what is done with a claimed job.
pub fn claimed_action(mode: TronMode, ty: IntentType, resell_enabled: bool) -> (a: ClaimedAction)
    ensures
        a == claimed_action_of(mode, ty, resell_enabled),
{
    if mode == TronMode::Mock {
        ClaimedAction::ExecuteMock
    } else if ty == IntentType::TrxTransfer || ty == IntentType::UsdtTransfer {
        ClaimedAction::PreparePlan
    } else if ty == IntentType::DelegateResource && resell_enabled {
        ClaimedAction::TryResell
    } else if ty == IntentType::TriggerSmartContract {
        ClaimedAction::PrepareTrigger
    } else {
        ClaimedAction::PrepareDelegate
    }
}

/// Why a rental order cannot be placed or read.
#[derive(Debug, Clone, Copy, PartialEq, Eq, Structural)]
pub enum ResellError {
    BalanceOutOfRange,
    LockPeriodOutOfRange,
}

impl ResellError {
    /// The error's text.
    pub fn message(self) -> (s: &'static str)
        ensures
            s@ == (match self {
                ResellError::BalanceOutOfRange => "balanceSun out of i64 range"@,
                ResellError::LockPeriodOutOfRange => "lockPeriod out of i64 range"@,
            }),
    {
        match self {
            ResellError::BalanceOutOfRange => "balanceSun out of i64 range",
            ResellError::LockPeriodOutOfRange => "lockPeriod out of i64 range",
        }
    }
}

/// An amount as an `i64`, when it fits.
pub open spec fn word_i64(w: Seq<u8>) -> Option<i64> {
    match word_u64(w) {
        Some(v) => if v <= i64::MAX {
            Some(v as i64)
        } else {
            None
        },
        None => None,
    }
}

fn word_to_i64(w: &[u8; 32]) -> (r: Option<i64>)
    ensures
        r == word_i64(w@),
{
    match word_to_u64(w) {
        Some(v) => if v <= 9223372036854775807u64 {
            Some(v as i64)
        } else {
            None
        },
        None => None,
    }
}

/// The balance and lock period of a rental order, as stored with it.
pub fn resell_amounts(intent: &DelegateResourceIntent) -> (r: Result<(i64, i64), ResellError>)
    ensures
        match (word_i64(intent.balance_sun@), word_i64(intent.lock_period@)) {
            (None, _) => r == Err::<(i64, i64), ResellError>(ResellError::BalanceOutOfRange),
            (Some(_), None) => r == Err::<(i64, i64), ResellError>(
                ResellError::LockPeriodOutOfRange,
            ),
            (Some(b), Some(l)) => r == Ok::<(i64, i64), ResellError>((b, l)),
        },
{
    let b = match word_to_i64(&intent.balance_sun) {
        Some(v) => v,
        None => return Err(ResellError::BalanceOutOfRange),
    };
    let l = match word_to_i64(&intent.lock_period) {
        Some(v) => v,
        None => return Err(ResellError::LockPeriodOutOfRange),
    };
    Ok((b, l))
}

/// The order in which rental providers are tried: those named `preferred` first, then the
/// others, each group in the configured order (indices into `names`).
pub open spec fn provider_order_upto(names: Seq<Seq<char>>, preferred: Option<Seq<char>>, n: int) -> (
    Seq<int>,
    Seq<int>,
)
    decreases n,
{
    if n <= 0 {
        (Seq::empty(), Seq::empty())
    } else {
        let (a, b) = provider_order_upto(names, preferred, n - 1);
        if preferred == Some(names[n - 1]) {
            (a.push(n - 1), b)
        } else {
            (a, b.push(n - 1))
        }
    }
}

/// The full order of the providers.
pub open spec fn provider_order_of(names: Seq<Seq<char>>, preferred: Option<Seq<char>>) -> Seq<int> {
    let (a, b) = provider_order_upto(names, preferred, names.len() as int);
    a + b
}

/// Orders the providers (by index) so that the preferred one, the provider that quoted the
/// job, is tried first; the order is otherwise kept.
pub fn provider_order(names: &Vec<String>, preferred: &Option<String>) -> (order: Vec<usize>)
    ensures
        order@.map_values(|i: usize| i as int) == provider_order_of(
            names@.map_values(|s: String| s@),
            match preferred {
                Some(p) => Some(p@),
                None => None,
            },
        ),
{
    let ghost ns = names@.map_values(|s: String| s@);
    let ghost pref = match preferred {
        Some(p) => Some(p@),
        None => None::<Seq<char>>,
    };
    let mut first: Vec<usize> = Vec::new();
    let mut rest: Vec<usize> = Vec::new();
    let mut i: usize = 0;
    while i < names.len()
        invariant
            i <= names@.len(),
            ns == names@.map_values(|s: String| s@),
            pref == (match preferred {
                Some(p) => Some(p@),
                None => None::<Seq<char>>,
            }),
            first@.map_values(|k: usize| k as int) == provider_order_upto(ns, pref, i as int).0,
            rest@.map_values(|k: usize| k as int) == provider_order_upto(ns, pref, i as int).1,
        decreases names@.len() - i,
    {
        let is_pref = match preferred {
            Some(p) => names[i] == *p,
            None => false,
        };
        assert(ns[i as int] == names@[i as int]@);
        let ghost f0 = first@.map_values(|k: usize| k as int);
        let ghost r0 = rest@.map_values(|k: usize| k as int);
        if is_pref {
            first.push(i);
            assert(first@.map_values(|k: usize| k as int) =~= f0.push(i as int));
        } else {
            rest.push(i);
            assert(rest@.map_values(|k: usize| k as int) =~= r0.push(i as int));
        }
        i = i + 1;
    }
    let ghost f = first@.map_values(|k: usize| k as int);
    let ghost r = rest@.map_values(|k: usize| k as int);
    first.append(&mut rest);
    assert(first@.map_values(|k: usize| k as int) =~= f + r);
    first
}

/// A rental order went through: the provider says so and named the transaction.
pub fn rental_succeeded(a: &RentalAttempt) -> (b: bool)
    ensures
        b == (a.ok && a.txid is Some),
{
    a.ok && a.txid.is_some()
}

/// The failure recorded for a provider: its name, a colon, and what went wrong.
pub fn provider_failure(provider: &str, msg: &str) -> (s: String)
    ensures
        s@ == provider@ + ": "@ + msg@,
{
    let head = concat_str(provider, ": ");
    concat_str(head.as_str(), msg)
}

/// The retryable error recorded when no provider rented the energy: the last failure, or a
/// note that none succeeded.
pub fn no_rental_message(last: &Option<String>) -> (s: String)
    ensures
        s@ == match last {
            Some(m) => m@,
            None => "no energy rental providers succeeded"@,
        },
{
    reason_or(last, "no energy rental providers succeeded")
}

/// `s` with every leading `0x` removed (`str::trim_start_matches("0x")`).
pub open spec fn strip_all_0x(s: Seq<char>) -> Seq<char>
    decreases s.len(),
{
    if s.len() >= 2 && s[0] == '0' && s[1] == 'x' {
        strip_all_0x(s.skip(2))
    } else {
        s
    }
}

/// Why the transaction id a provider reported cannot be used.
#[derive(Debug)]
pub enum RentalTxidError {
    BadHex,
    WrongLength { txid: String },
}

/// The text of a [`RentalTxidError`].
pub open spec fn rental_txid_error_text(bad_hex: bool, txid: Seq<char>) -> Seq<char> {
    if bad_hex {
        "decode rental txid hex"@
    } else {
        "rental txid is not 32 bytes: "@ + txid
    }
}

impl RentalTxidError {
    /// The error's text.
    pub fn message(&self) -> (s: String)
        ensures
            s@ == match self {
                RentalTxidError::BadHex => rental_txid_error_text(true, Seq::empty()),
                RentalTxidError::WrongLength { txid } => rental_txid_error_text(false, txid@),
            },
    {
        match self {
            RentalTxidError::BadHex => "decode rental txid hex".to_owned(),
            RentalTxidError::WrongLength { txid } => concat_str(
                "rental txid is not 32 bytes: ",
                txid.as_str(),
            ),
        }
    }
}

fn strip_all_0x_chars(s: &Vec<char>) -> (out: Vec<char>)
    ensures
        out@ == strip_all_0x(s@),
{
    let mut i: usize = 0;
    assert(s@.skip(0) =~= s@);
    while i < s.len() && s.len() - i >= 2 && s[i] == '0' && s[i + 1] == 'x'
        invariant
            i <= s@.len(),
            strip_all_0x(s@) == strip_all_0x(s@.skip(i as int)),
        decreases s@.len() - i,
    {
        assert(s@.skip(i as int).skip(2) =~= s@.skip(i + 2));
        i = i + 2;
    }
    let mut out: Vec<char> = Vec::new();
    let mut k: usize = i;
    while k < s.len()
        invariant
            i <= k <= s@.len(),
            out@ == s@.subrange(i as int, k as int),
        decreases s@.len() - k,
    {
        out.push(s[k]);
        k = k + 1;
        assert(out@ =~= s@.subrange(i as int, k as int));
    }
    assert(out@ =~= s@.skip(i as int));
    out
}

/// Reads the transaction id a rental provider reported: hex, with any `0x` prefixes, of
/// exactly 32 bytes.
pub fn decode_rental_txid(txid: &str) -> (r: Result<[u8; 32], RentalTxidError>)
    ensures
        match hex_decoded(strip_all_0x(txid@)) {
            None => r matches Err(RentalTxidError::BadHex),
            Some(b) => if b.len() == 32 {
                r matches Ok(a) && a@ == b
            } else {
                r matches Err(RentalTxidError::WrongLength { txid: t }) && t@ == txid@
            },
        },
{
    let c = chars_of(txid);
    let body = strip_all_0x_chars(&c);
    let body_s = string_from_chars(&body);
    match hex_decode(body_s.as_str()) {
        None => Err(RentalTxidError::BadHex),
        Some(bytes) => {
            if bytes.len() != 32 {
                return Err(RentalTxidError::WrongLength { txid: txid.to_owned() });
            }
            Ok(crate::hexcodec::to_array32(&bytes))
        },
    }
}

/// Building the proof failed because the transaction failed on chain: the job fails for good
/// (any other failure is retried).
pub fn proof_error_is_fatal(msg: &str) -> (b: bool)
    ensures
        b == contains(msg@, "tron_tx_failed:"@),
{
    str_contains(msg, "tron_tx_failed:")
}

/// Whether a transaction that failed on chain counts against its contract's breaker: trigger
/// calls and USDT transfers do.
pub fn failure_hits_breaker(ty: IntentType) -> (b: bool)
    ensures
        b == (ty == IntentType::TriggerSmartContract || ty == IntentType::UsdtTransfer),
{
    ty == IntentType::TriggerSmartContract || ty == IntentType::UsdtTransfer
}

/// The selector of TRC-20 `transfer(address,uint256)`, under which USDT failures count.
pub fn usdt_transfer_selector() -> (sel: [u8; 4])
    ensures
        sel@ == seq![0xa9u8, 0x05u8, 0x9cu8, 0xbbu8],
{
    let sel: [u8; 4] = [0xa9, 0x05, 0x9c, 0xbb];
    assert(sel@ =~= seq![0xa9u8, 0x05u8, 0x9cu8, 0xbbu8]);
    sel
}

/// Whether the emulation verdict is looked up for a transaction that failed on chain.
pub fn emulation_lookup_applies(emulation_enabled: bool, mode: TronMode) -> (b: bool)
    ensures
        b == (emulation_enabled && mode == TronMode::Grpc),
{
    emulation_enabled && mode == TronMode::Grpc
}

/// The weight of a breaker failure: the mismatch penalty (at least 1; 2 when it does not fit
/// an `i32`) when the emulation had said the call would succeed, else 1.
pub open spec fn breaker_weight(mismatch: bool, penalty: u64) -> i32 {
    if !mismatch {
        1
    } else if penalty > i32::MAX {
        2
    } else if penalty < 1 {
        1
    } else {
        penalty as i32
    }
}

/// The weight and text of the breaker failure recorded for a transaction that failed on
/// chain; `mismatch` when the emulation had said it would succeed, which the text then says.
pub fn onchain_failure_breaker(mismatch: bool, penalty: u64, msg: &str) -> (r: (i32, String))
    ensures
        r.0 == breaker_weight(mismatch, penalty),
        r.1@ == (if mismatch {
            "onchain_fail_after_emulation_ok: "@ + msg@
        } else {
            msg@
        }),
{
    if mismatch {
        let w: i32 = if penalty > 2147483647u64 {
            2
        } else if penalty < 1 {
            1
        } else {
            penalty as i32
        };
        (w, concat_str("onchain_fail_after_emulation_ok: ", msg))
    } else {
        (1, msg.to_owned())
    }
}

/// The row broadcast when a job has no stored plan: its final transaction alone.
pub fn final_only_row(txid: [u8; 32], tx_bytes: Vec<u8>) -> (row: TronSignedTxRow)
    ensures
        row.step@ == "final"@,
        row.txid == txid,
        row.tx_bytes == tx_bytes,
        row.fee_limit_sun is None,
        row.energy_required is None,
        row.tx_size_bytes is None,
{
    TronSignedTxRow {
        step: "final".to_owned(),
        txid,
        tx_bytes,
        fee_limit_sun: None,
        energy_required: None,
        tx_size_bytes: None,
    }
}

/// The transactions to send, in order: the stored plan, or the final transaction alone when
/// no plan was stored.
pub fn rows_to_send(plan: Vec<TronSignedTxRow>, final_row: TronSignedTxRow) -> (rows: Vec<
    TronSignedTxRow,
>)
    ensures
        plan@.len() > 0 ==> rows@ == plan@,
        plan@.len() == 0 ==> rows@ == seq![final_row],
{
    if plan.len() > 0 {
        plan
    } else {
        let mut rows: Vec<TronSignedTxRow> = Vec::new();
        rows.push(final_row);
        assert(rows@ =~= seq![final_row]);
        rows
    }
}

/// A transaction is broadcast unless it is already included or already known to the node.
pub fn needs_broadcast(included: bool, known: bool) -> (b: bool)
    ensures
        b == (!included && !known),
{
    !included && !known
}

/// How long to wait for a broadcast transaction to be included, in milliseconds.
pub const INCLUSION_TIMEOUT_MS: u64 = 60_000;

/// How often the job lease is renewed while waiting, in milliseconds.
pub const LEASE_REFRESH_MS: u64 = 10_000;

/// One round of waiting for inclusion.
#[derive(Debug, Clone, Copy)]
pub struct WaitTick {
    /// Renew the job lease now.
    pub renew_lease: bool,
    /// When the lease is next renewed.
    pub next_refresh_ms: u64,
    /// The wait is over: a retryable timeout is recorded.
    pub timed_out: bool,
}

/// A round of waiting at `now_ms`, for a wait that began at `started_ms` and whose lease is
/// due at `next_refresh_ms`: the lease is renewed once due (and is next due ten seconds
/// later), and the wait times out once more than a minute has passed.
pub fn inclusion_wait_tick(started_ms: u64, next_refresh_ms: u64, now_ms: u64) -> (t: WaitTick)
    ensures
        t.renew_lease == (now_ms >= next_refresh_ms),
        t.next_refresh_ms == (if now_ms >= next_refresh_ms {
            if now_ms + LEASE_REFRESH_MS > u64::MAX {
                u64::MAX as int
            } else {
                now_ms + LEASE_REFRESH_MS
            }
        } else {
            next_refresh_ms as int
        }),
        t.timed_out == (now_ms > started_ms && now_ms - started_ms > INCLUSION_TIMEOUT_MS),
{
    let renew = now_ms >= next_refresh_ms;
    let next = if renew {
        now_ms.saturating_add(LEASE_REFRESH_MS)
    } else {
        next_refresh_ms
    };
    let elapsed = now_ms.saturating_sub(started_ms);
    WaitTick { renew_lease: renew, next_refresh_ms: next, timed_out: elapsed > INCLUSION_TIMEOUT_MS }
}

/// A delegate job releases its stake reservation once its transactions are on chain.
pub fn releases_reservation(ty: IntentType) -> (b: bool)
    ensures
        b == (ty == IntentType::DelegateResource),
{
    ty == IntentType::DelegateResource
}

/// The indexer lags too far behind the hub chain for claiming: it reports an indexed block,
/// and the head is more than `max_lag` blocks past it.
pub fn indexer_lag_too_high(head: u64, indexed: Option<u64>, max_lag: u64) -> (b: bool)
    ensures
        b == match indexed {
            Some(i) => head > i && head - i > max_lag,
            None => false,
        },
{
    match indexed {
        Some(i) => head.saturating_sub(i) > max_lag,
        None => false,
    }
}

/// How many jobs a tick leases: the in-flight limit (50 when it does not fit an `i64`), at
/// least 1.
pub fn lease_batch_size(max_in_flight: u64) -> (n: i64)
    ensures
        n == (if max_in_flight > i64::MAX {
            50
        } else if max_in_flight < 1 {
            1
        } else {
            max_in_flight as int
        }),
{
    if max_in_flight > 9223372036854775807u64 {
        50
    } else if max_in_flight < 1 {
        1
    } else {
        max_in_flight as i64
    }
}

/// The permits of a concurrency limit (1 when it does not fit a `usize`).
pub fn permit_count(limit: u64) -> (n: usize)
    ensures
        n == (if limit > usize::MAX {
            1
        } else {
            limit as int
        }),
{
    if limit as u128 > usize::MAX as u128 {
        1
    } else {
        limit as usize
    }
}

/// How many past records a cost estimate averages (50 when the setting does not fit an
/// `i64`).
pub fn history_lookback(n: u64) -> (r: i64)
    ensures
        r == (if n > i64::MAX {
            50
        } else {
            n as int
        }),
{
    if n > 9223372036854775807u64 {
        50
    } else {
        n as i64
    }
}

/// The transaction id under which a mock execution's proof is stored: the job's recorded id,
/// or else the Keccak-256 digest of the intent id.
pub fn mock_txid(recorded: Option<[u8; 32]>, intent_id: &[u8; 32]) -> (t: [u8; 32])
    ensures
        match recorded {
            Some(r) => t == r,
            None => t@ == keccak256_of(intent_id@),
        },
{
    match recorded {
        Some(r) => r,
        None => {
            let bytes: &[u8] = intent_id.as_slice();
            keccak256(bytes)
        },
    }
}

proof fn lemma_order_upto(names: Seq<Seq<char>>, preferred: Option<Seq<char>>, n: int)
    requires
        0 <= n <= names.len(),
    ensures
        ({
            let (a, b) = provider_order_upto(names, preferred, n);
            &&& a.len() + b.len() == n
            &&& forall|i: int| 0 <= i < a.len() ==> 0 <= #[trigger] a[i] < n && preferred == Some(names[a[i]])
            &&& forall|i: int| 0 <= i < b.len() ==> 0 <= #[trigger] b[i] < n && preferred != Some(names[b[i]])
            &&& forall|i: int, j: int| 0 <= i < j < a.len() ==> a[i] < a[j]
            &&& forall|i: int, j: int| 0 <= i < j < b.len() ==> b[i] < b[j]
            &&& forall|k: int| 0 <= k < n ==> a.contains(k) || b.contains(k)
        }),
    decreases n,
{
    if n > 0 {
        lemma_order_upto(names, preferred, n - 1);
        let (a0, b0) = provider_order_upto(names, preferred, n - 1);
        let (a, b) = provider_order_upto(names, preferred, n);
        assert forall|k: int| 0 <= k < n implies a.contains(k) || b.contains(k) by {
            if k == n - 1 {
                if preferred == Some(names[n - 1]) {
                    assert(a[a.len() - 1] == k);
                } else {
                    assert(b[b.len() - 1] == k);
                }
            } else {
                if a0.contains(k) {
                    let i = choose|i: int| 0 <= i < a0.len() && a0[i] == k;
                    assert(a[i] == k);
                } else {
                    let i = choose|i: int| 0 <= i < b0.len() && b0[i] == k;
                    assert(b[i] == k);
                }
            }
        }
    }
}

/// Each provider is tried exactly once: those named as preferred first, and within each
/// group in the configured order.
pub proof fn lemma_provider_order(names: Seq<Seq<char>>, preferred: Option<Seq<char>>)
    ensures
        provider_order_of(names, preferred).len() == names.len(),
        provider_order_of(names, preferred).no_duplicates(),
        forall|k: int| 0 <= k < names.len() ==> provider_order_of(names, preferred).contains(k),
        forall|i: int, j: int|
            0 <= i < j < names.len() && preferred == Some(
                names[provider_order_of(names, preferred)[j]],
            ) ==> preferred == Some(names[provider_order_of(names, preferred)[i]]),
        forall|i: int, j: int|
            0 <= i < j < names.len() && (preferred == Some(
                names[provider_order_of(names, preferred)[i]],
            )) == (preferred == Some(names[provider_order_of(names, preferred)[j]]))
                ==> provider_order_of(names, preferred)[i] < provider_order_of(names, preferred)[j],
{
    let n = names.len() as int;
    lemma_order_upto(names, preferred, n);
    let (a, b) = provider_order_upto(names, preferred, n);
    let o = provider_order_of(names, preferred);
    assert(o == a + b);
    assert forall|k: int| 0 <= k < n implies o.contains(k) by {
        if a.contains(k) {
            let i = choose|i: int| 0 <= i < a.len() && a[i] == k;
            assert(o[i] == k);
        } else {
            let i = choose|i: int| 0 <= i < b.len() && b[i] == k;
            assert(o[a.len() + i] == k);
        }
    }
    assert forall|i: int, j: int| 0 <= i < j < o.len() implies o[i] != o[j] by {
        if j < a.len() {
            assert(a[i] < a[j]);
        } else if i >= a.len() {
            assert(b[i - a.len()] < b[j - a.len()]);
        } else {
            assert(preferred == Some(names[a[i]]));
            assert(preferred != Some(names[b[j - a.len()]]));
        }
    }
    assert forall|i: int, j: int|
        0 <= i < j < n && preferred == Some(names[o[j]]) implies preferred == Some(names[o[i]]) by {
        if j >= a.len() {
            assert(preferred != Some(names[b[j - a.len()]]));
        }
    }
    assert forall|i: int, j: int|
        0 <= i < j < n && (preferred == Some(names[o[i]])) == (preferred == Some(names[o[j]]))
            implies o[i] < o[j] by {
        if j < a.len() {
            assert(a[i] < a[j]);
        } else if i >= a.len() {
            assert(b[i - a.len()] < b[j - a.len()]);
        } else {
            assert(preferred == Some(names[a[i]]));
            assert(preferred != Some(names[b[j - a.len()]]));
        }
    }
}

/// The keys whose addresses the backend reports: the configured keys, else the default key
/// when it is not zero, else none.
pub fn signing_keys(keys: &Vec<[u8; 32]>, default_key: [u8; 32]) -> (out: Vec<[u8; 32]>)
    ensures
        keys@.len() > 0 ==> out@ == keys@,
        keys@.len() == 0 && default_key@ != Seq::new(32, |i: int| 0u8) ==> out@ == seq![default_key],
        keys@.len() == 0 && default_key@ == Seq::new(32, |i: int| 0u8) ==> out@.len() == 0,
{
    if keys.len() > 0 {
        let mut copy: Vec<[u8; 32]> = Vec::new();
        let mut k: usize = 0;
        while k < keys.len()
            invariant
                k <= keys@.len(),
                copy@ == keys@.take(k as int),
            decreases keys@.len() - k,
        {
            copy.push(keys[k]);
            k = k + 1;
            assert(copy@ =~= keys@.take(k as int));
        }
        assert(keys@.take(keys@.len() as int) =~= keys@);
        return copy;
    }
    let mut zero = true;
    let mut i: usize = 0;
    while i < 32
        invariant
            i <= 32,
            zero == (forall|j: int| 0 <= j < i ==> default_key@[j] == 0u8),
        decreases 32 - i,
    {
        if default_key[i] != 0 {
            zero = false;
        }
        i = i + 1;
    }
    let mut out: Vec<[u8; 32]> = Vec::new();
    if zero {
        assert(default_key@ =~= Seq::new(32, |i: int| 0u8));
    } else {
        out.push(default_key);
        assert(out@ =~= seq![default_key]);
    }
    out
}

/// Energy for a prepared call is rented only when providers are configured and the call
/// needs energy.
pub fn energy_rental_applies(provider_count: usize, energy_required: u64) -> (b: bool)
    ensures
        b == (provider_count > 0 && energy_required > 0),
{
    provider_count > 0 && energy_required > 0
}

/// A delegate intent reserves stake before its claim is submitted, unless the energy is
/// rented or the backend is the mock.
pub fn reservation_needed_before_claim(ty: IntentType, mode: TronMode, resell_enabled: bool) -> (b:
    bool)
    ensures
        b == (ty == IntentType::DelegateResource && mode == TronMode::Grpc && !resell_enabled),
{
    ty == IntentType::DelegateResource && mode == TronMode::Grpc && !resell_enabled
}

} // verus!
