use vstd::prelude::*;

use crate::address::{same_address, Address};
use crate::backoff::{lock_period_secs_from_blocks, sat_mul};
use crate::flow::u64_to_i64_or;
use crate::planner::sat_sub_i64;
use crate::intents::{
    abi_address_u8_uint_uint, abi_address_uint, abi_address_uint_bytes, word_to_u64, word_u64,
    DelegateResourceIntent, TriggerSmartContractIntent, TrxTransferIntent, UsdtTransferIntent,
};
use crate::rows::PoolOpenIntentRow;
use crate::text::{concat_str, dec_int, i64_to_dec};
use crate::types::{hex_bytes_of, intent_type_of_code, parse_hex_bytes, IntentType};

verus! {

/// The first four bytes of call data (the function selector), if there are four.
pub open spec fn selector_of(data: Seq<u8>) -> Option<Seq<u8>> {
    if data.len() >= 4 {
        Some(data.take(4))
    } else {
        None
    }
}

/// The function selector of call data: its first four bytes, if it has four.
pub fn selector4(data: &[u8]) -> (r: Option<[u8; 4]>)
    ensures
        match r {
            Some(s) => selector_of(data@) == Some(s@),
            None => selector_of(data@) is None,
        },
{
    if data.len() < 4 {
        return None;
    }
    let out: [u8; 4] = [data[0], data[1], data[2], data[3]];
    assert(out@ =~= data@.take(4));
    Some(out)
}

/// The contract and selector a circuit breaker is kept for.
#[derive(Debug, Clone, Copy)]
pub struct BreakerQuery {
    pub contract: Address,
    pub selector: Option<[u8; 4]>,
}

/// The view of a breaker key: contract bytes and selector bytes.
pub open spec fn breaker_view(b: BreakerQuery) -> (Seq<u8>, Option<Seq<u8>>) {
    (
        b.contract.bytes@,
        match b.selector {
            Some(s) => Some(s@),
            None => None,
        },
    )
}

/// The configured limits that intents are checked against before anything is priced.
#[derive(Debug, Clone)]
pub struct PolicyRules {
    pub enabled_intent_types: Vec<IntentType>,
    pub min_deadline_slack_secs: u64,
    pub trigger_contract_allowlist: Vec<Address>,
    pub trigger_contract_denylist: Vec<Address>,
    pub trigger_selector_denylist: Vec<[u8; 4]>,
    pub trigger_allow_fallback_calls: bool,
    pub max_trx_transfer_sun: Option<u64>,
    pub max_usdt_transfer_amount: Option<u64>,
    pub max_delegate_balance_sun: Option<u64>,
    pub max_delegate_lock_period_secs: Option<u64>,
    pub max_trigger_call_value_sun: Option<u64>,
    pub max_trigger_calldata_len: Option<u64>,
}

/// `a` is in the list.
pub open spec fn listed(list: Seq<Address>, a: Seq<u8>) -> bool {
    exists|i: int| 0 <= i < list.len() && (#[trigger] list[i]).bytes@ == a
}

/// The selector is in the list.
pub open spec fn selector_listed(list: Seq<[u8; 4]>, s: Seq<u8>) -> bool {
    exists|i: int| 0 <= i < list.len() && (#[trigger] list[i])@ == s
}

/// A trigger may call `contract`: when an allowlist is set, only contracts on it; otherwise
/// any contract not on the denylist.
pub open spec fn trigger_allowed(rules: PolicyRules, contract: Seq<u8>) -> bool {
    if rules.trigger_contract_allowlist@.len() > 0 {
        listed(rules.trigger_contract_allowlist@, contract)
    } else {
        !listed(rules.trigger_contract_denylist@, contract)
    }
}

fn is_listed(list: &Vec<Address>, a: &Address) -> (r: bool)
    ensures
        r == listed(list@, a.bytes@),
{
    let mut i: usize = 0;
    while i < list.len()
        invariant
            i <= list@.len(),
            forall|k: int| 0 <= k < i ==> (#[trigger] list@[k]).bytes@ != a.bytes@,
        decreases list@.len() - i,
    {
        if same_address(&list[i], a) {
            return true;
        }
        i = i + 1;
    }
    false
}

fn is_selector_listed(list: &Vec<[u8; 4]>, s: &[u8; 4]) -> (r: bool)
    ensures
        r == selector_listed(list@, s@),
{
    let mut i: usize = 0;
    while i < list.len()
        invariant
            i <= list@.len(),
            forall|k: int| 0 <= k < i ==> (#[trigger] list@[k])@ != s@,
        decreases list@.len() - i,
    {
        let c = list[i];
        if c[0] == s[0] && c[1] == s[1] && c[2] == s[2] && c[3] == s[3] {
            assert(c@ =~= s@);
            return true;
        }
        assert(c@[0] != s@[0] || c@[1] != s@[1] || c@[2] != s@[2] || c@[3] != s@[3]);
        i = i + 1;
    }
    false
}

fn type_enabled(list: &Vec<IntentType>, t: IntentType) -> (r: bool)
    ensures
        r == list@.contains(t),
{
    let mut i: usize = 0;
    while i < list.len()
        invariant
            i <= list@.len(),
            forall|k: int| 0 <= k < i ==> list@[k] != t,
        decreases list@.len() - i,
    {
        if list[i] == t {
            return true;
        }
        i = i + 1;
    }
    false
}

/// The result of the static checks: the breaker key to consult, and the rejection reason.
#[derive(Debug, Clone, Copy)]
pub struct StaticCheckOutcome {
    pub breaker: Option<BreakerQuery>,
    pub reject_reason: Option<&'static str>,
}

/// Why the policy could not judge an intent.
#[derive(Debug, Clone, Copy, PartialEq, Eq, Structural)]
pub enum PolicyError {
    /// The intent type code is not a known one.
    UnknownIntentType { code: i16 },
    /// The specification of a trigger intent is not a valid ABI encoding.
    TriggerDecodeFailed,
}

impl PolicyError {
    /// The error's text.
    pub fn message(&self) -> (s: String)
        ensures
            s@ == (match self {
                PolicyError::UnknownIntentType { code } => "unknown intent_type="@ + dec_int(
                    *code as int,
                ),
                PolicyError::TriggerDecodeFailed =>
                    "trigger decode failed: decode TriggerSmartContractIntent"@,
            }),
    {
        match self {
            PolicyError::UnknownIntentType { code } => {
                let n = i64_to_dec(*code as i64);
                concat_str("unknown intent_type=", n.as_str())
            },
            PolicyError::TriggerDecodeFailed => {
                "trigger decode failed: decode TriggerSmartContractIntent".to_owned()
            },
        }
    }
}

/// A view of a static check outcome: the breaker key and the rejection reason.
pub type StaticView = (Option<(Seq<u8>, Option<Seq<u8>>)>, Option<Seq<char>>);

/// A rejection for `reason`.
pub open spec fn reject(reason: Seq<char>) -> StaticView {
    (None, Some(reason))
}

/// The verdict on a 256-bit amount against an optional cap: `None` when there is no cap or
/// the amount is within it; otherwise the range reason (too large for `u64`) or the cap reason.
pub open spec fn cap_verdict(
    max: Option<u64>,
    w: Seq<u8>,
    range_reason: Seq<char>,
    cap_reason: Seq<char>,
) -> Option<Seq<char>> {
    match max {
        None => None,
        Some(m) => match word_u64(w) {
            None => Some(range_reason),
            Some(v) => if v > m {
                Some(cap_reason)
            } else {
                None
            },
        },
    }
}

/// The static checks of a trigger intent: call value cap, calldata length cap, selector
/// presence, contract allow/deny lists, selector denylist; the breaker key when it passes.
pub open spec fn trigger_checks(rules: PolicyRules, to: Seq<u8>, v: Seq<u8>, data: Seq<u8>) -> StaticView {
    match cap_verdict(
        rules.max_trigger_call_value_sun,
        v,
        "trigger_call_value_range"@,
        "trigger_call_value_cap"@,
    ) {
        Some(r) => reject(r),
        None => if rules.max_trigger_calldata_len matches Some(m) && data.len() > m {
            reject("trigger_calldata_len"@)
        } else if selector_of(data) is None && !rules.trigger_allow_fallback_calls {
            reject("trigger_selector_missing"@)
        } else if !trigger_allowed(rules, to) {
            reject("trigger_contract_not_allowed"@)
        } else if selector_of(data) matches Some(s) && selector_listed(
            rules.trigger_selector_denylist@,
            s,
        ) {
            reject("trigger_selector_denied"@)
        } else {
            (Some((to, selector_of(data))), None)
        },
    }
}

/// The static checks of a delegate intent: balance cap, then lock period cap (the lock
/// period is in blocks of 3 seconds).
pub open spec fn delegate_checks(rules: PolicyRules, balance: Seq<u8>, lock: Seq<u8>) -> StaticView {
    match cap_verdict(
        rules.max_delegate_balance_sun,
        balance,
        "delegate_balance_range"@,
        "delegate_balance_cap"@,
    ) {
        Some(r) => reject(r),
        None => match rules.max_delegate_lock_period_secs {
            None => (None, None),
            Some(m) => match word_u64(lock) {
                None => reject("delegate_lock_range"@),
                Some(blocks) => if sat_mul(blocks as nat, 3) > m {
                    reject("delegate_lock_cap"@)
                } else {
                    (None, None)
                },
            },
        },
    }
}

/// The static checks of an intent of type `ty` with hex specification `specs_hex`; `Err` when
/// a trigger specification cannot be decoded.
pub open spec fn static_checks_of(rules: PolicyRules, ty: IntentType, specs_hex: Seq<char>) -> Result<
    StaticView,
    PolicyError,
> {
    match hex_bytes_of(specs_hex) {
        None => Ok(reject("bad_intent_specs"@)),
        Some(specs) => match ty {
            IntentType::TriggerSmartContract => match abi_address_uint_bytes(specs) {
                None => Err(PolicyError::TriggerDecodeFailed),
                Some(t) => Ok(trigger_checks(rules, t.0, t.1, t.2)),
            },
            IntentType::TrxTransfer => match abi_address_uint(specs) {
                None => Ok(reject("trx_decode_failed"@)),
                Some(t) => Ok(
                    match cap_verdict(
                        rules.max_trx_transfer_sun,
                        t.1,
                        "trx_amount_range"@,
                        "trx_amount_cap"@,
                    ) {
                        Some(r) => reject(r),
                        None => (None, None),
                    },
                ),
            },
            IntentType::UsdtTransfer => match abi_address_uint(specs) {
                None => Ok(reject("usdt_decode_failed"@)),
                Some(t) => Ok(
                    match cap_verdict(
                        rules.max_usdt_transfer_amount,
                        t.1,
                        "usdt_amount_range"@,
                        "usdt_amount_cap"@,
                    ) {
                        Some(r) => reject(r),
                        None => (None, None),
                    },
                ),
            },
            IntentType::DelegateResource => match abi_address_u8_uint_uint(specs) {
                None => Ok(reject("delegate_decode_failed"@)),
                Some(t) => Ok(delegate_checks(rules, t.2, t.3)),
            },
        },
    }
}

/// The view of an outcome.
pub open spec fn outcome_view(o: StaticCheckOutcome) -> StaticView {
    (
        match o.breaker {
            Some(b) => Some(breaker_view(b)),
            None => None,
        },
        match o.reject_reason {
            Some(r) => Some(r@),
            None => None,
        },
    )
}

fn rejected(reason: &'static str) -> (o: StaticCheckOutcome)
    ensures
        outcome_view(o) == reject(reason@),
{
    StaticCheckOutcome { breaker: None, reject_reason: Some(reason) }
}

fn passed() -> (o: StaticCheckOutcome)
    ensures
        outcome_view(o) == (None::<(Seq<u8>, Option<Seq<u8>>)>, None::<Seq<char>>),
{
    StaticCheckOutcome { breaker: None, reject_reason: None }
}

/// Checks a 256-bit amount against an optional cap.
fn check_cap(
    max: Option<u64>,
    w: &[u8; 32],
    range_reason: &'static str,
    cap_reason: &'static str,
) -> (r: Option<&'static str>)
    ensures
        match r {
            Some(s) => cap_verdict(max, w@, range_reason@, cap_reason@) == Some(s@),
            None => cap_verdict(max, w@, range_reason@, cap_reason@) is None,
        },
{
    match max {
        None => None,
        Some(m) => match word_to_u64(w) {
            None => Some(range_reason),
            Some(v) => if v > m {
                Some(cap_reason)
            } else {
                None
            },
        },
    }
}

impl PolicyRules {
    /// Whether a trigger intent may call `contract`.
    pub fn is_trigger_contract_allowed(&self, contract: &Address) -> (b: bool)
        ensures
            b == trigger_allowed(*self, contract.bytes@),
    {
        if self.trigger_contract_allowlist.len() > 0 {
            return is_listed(&self.trigger_contract_allowlist, contract);
        }
        !is_listed(&self.trigger_contract_denylist, contract)
    }

    fn trigger_intent_checks(&self, intent: &TriggerSmartContractIntent) -> (o: StaticCheckOutcome)
        ensures
            outcome_view(o) == trigger_checks(
                *self,
                intent.to.bytes@,
                intent.call_value_sun@,
                intent.data@,
            ),
    {
        match check_cap(
            self.max_trigger_call_value_sun,
            &intent.call_value_sun,
            "trigger_call_value_range",
            "trigger_call_value_cap",
        ) {
            Some(r) => {
                return rejected(r);
            },
            None => {},
        }
        match self.max_trigger_calldata_len {
            Some(m) => {
                if intent.data.len() as u64 > m {
                    return rejected("trigger_calldata_len");
                }
            },
            None => {},
        }
        let selector = selector4(intent.data.as_slice());
        if selector.is_none() && !self.trigger_allow_fallback_calls {
            return rejected("trigger_selector_missing");
        }
        if !self.is_trigger_contract_allowed(&intent.to) {
            return rejected("trigger_contract_not_allowed");
        }
        match selector {
            Some(sel) => {
                if is_selector_listed(&self.trigger_selector_denylist, &sel) {
                    return rejected("trigger_selector_denied");
                }
            },
            None => {},
        }
        StaticCheckOutcome {
            breaker: Some(BreakerQuery { contract: intent.to, selector }),
            reject_reason: None,
        }
    }

    fn delegate_intent_checks(&self, intent: &DelegateResourceIntent) -> (o: StaticCheckOutcome)
        ensures
            outcome_view(o) == delegate_checks(*self, intent.balance_sun@, intent.lock_period@),
    {
        match check_cap(
            self.max_delegate_balance_sun,
            &intent.balance_sun,
            "delegate_balance_range",
            "delegate_balance_cap",
        ) {
            Some(r) => {
                return rejected(r);
            },
            None => {},
        }
        match self.max_delegate_lock_period_secs {
            None => passed(),
            Some(m) => match word_to_u64(&intent.lock_period) {
                None => rejected("delegate_lock_range"),
                Some(blocks) => {
                    if lock_period_secs_from_blocks(blocks) > m {
                        rejected("delegate_lock_cap")
                    } else {
                        passed()
                    }
                },
            },
        }
    }

    /// The per-type checks that need no prices: caps on amounts, trigger allow/deny lists and
    /// selector guards. A specification that is not valid hex is rejected; one of a trigger
    /// that does not decode is an error, others that do not decode are rejected.
    pub fn static_intent_checks(&self, ty: IntentType, intent_specs_hex: &str) -> (r: Result<
        StaticCheckOutcome,
        PolicyError,
    >)
        ensures
            match static_checks_of(*self, ty, intent_specs_hex@) {
                Ok(v) => r matches Ok(o) && outcome_view(o) == v,
                Err(e) => r == Err::<StaticCheckOutcome, _>(e),
            },
    {
        let specs = match parse_hex_bytes(intent_specs_hex) {
            Ok(v) => v,
            Err(_) => {
                return Ok(rejected("bad_intent_specs"));
            },
        };
        match ty {
            IntentType::TriggerSmartContract => {
                match TriggerSmartContractIntent::abi_decode(specs.as_slice()) {
                    None => Err(PolicyError::TriggerDecodeFailed),
                    Some(intent) => Ok(self.trigger_intent_checks(&intent)),
                }
            },
            IntentType::TrxTransfer => match TrxTransferIntent::abi_decode(specs.as_slice()) {
                None => Ok(rejected("trx_decode_failed")),
                Some(intent) => match check_cap(
                    self.max_trx_transfer_sun,
                    &intent.amount_sun,
                    "trx_amount_range",
                    "trx_amount_cap",
                ) {
                    Some(r) => Ok(rejected(r)),
                    None => Ok(passed()),
                },
            },
            IntentType::UsdtTransfer => match UsdtTransferIntent::abi_decode(specs.as_slice()) {
                None => Ok(rejected("usdt_decode_failed")),
                Some(intent) => match check_cap(
                    self.max_usdt_transfer_amount,
                    &intent.amount,
                    "usdt_amount_range",
                    "usdt_amount_cap",
                ) {
                    Some(r) => Ok(rejected(r)),
                    None => Ok(passed()),
                },
            },
            IntentType::DelegateResource => {
                match DelegateResourceIntent::abi_decode(specs.as_slice()) {
                    None => Ok(rejected("delegate_decode_failed")),
                    Some(intent) => Ok(self.delegate_intent_checks(&intent)),
                }
            },
        }
    }
}

/// The verdict of the checks that need no prices.
#[derive(Debug, Clone, Copy)]
pub enum PolicyPrecheck {
    /// The intent is not attempted, for this reason.
    Rejected { reason: &'static str },
    /// The intent passed; pricing decides, and a breaker may still hold it back.
    Passed { intent_type: IntentType, breaker: Option<BreakerQuery> },
}

/// A view of a precheck verdict.
pub enum PrecheckView {
    Rejected(Seq<char>),
    Passed(IntentType, Option<(Seq<u8>, Option<Seq<u8>>)>),
}

/// The checks an open intent goes through before it is priced, in order: it must be open
/// (neither closed nor solved), funded and unclaimed, its deadline at least the configured
/// slack away (saturating), its type known and enabled, and it must pass the static checks.
pub open spec fn precheck_of(rules: PolicyRules, row: PoolOpenIntentRow, now: i64) -> Result<
    PrecheckView,
    PolicyError,
> {
    if row.closed || row.solved {
        Ok(PrecheckView::Rejected("closed_or_solved"@))
    } else if !row.funded {
        Ok(PrecheckView::Rejected("not_funded"@))
    } else if row.solver is Some {
        Ok(PrecheckView::Rejected("already_claimed"@))
    } else if sat_sub_i64(row.deadline as int, now as int) < u64_to_i64_or(
        rules.min_deadline_slack_secs,
        i64::MAX,
    ) {
        Ok(PrecheckView::Rejected("deadline_slack"@))
    } else {
        match intent_type_of_code(row.intent_type) {
            None => Err(PolicyError::UnknownIntentType { code: row.intent_type }),
            Some(ty) => if !rules.enabled_intent_types@.contains(ty) {
                Ok(PrecheckView::Rejected("intent_type_disabled"@))
            } else {
                match static_checks_of(rules, ty, row.intent_specs@) {
                    Err(e) => Err(e),
                    Ok(v) => match v.1 {
                        Some(r) => Ok(PrecheckView::Rejected(r)),
                        None => Ok(PrecheckView::Passed(ty, v.0)),
                    },
                }
            },
        }
    }
}

/// The view of a precheck verdict.
pub open spec fn precheck_view(p: PolicyPrecheck) -> PrecheckView {
    match p {
        PolicyPrecheck::Rejected { reason } => PrecheckView::Rejected(reason@),
        PolicyPrecheck::Passed { intent_type, breaker } => PrecheckView::Passed(
            intent_type,
            match breaker {
                Some(b) => Some(breaker_view(b)),
                None => None,
            },
        ),
    }
}

fn sat_sub_i64_exec(a: i64, b: i64) -> (r: i64)
    ensures
        r == sat_sub_i64(a as int, b as int),
{
    if b < 0 && a > i64::MAX + b {
        i64::MAX
    } else if b > 0 && a < i64::MIN + b {
        i64::MIN
    } else {
        a - b
    }
}

impl PolicyRules {
    /// Judges an open intent on everything but its price, at time `now_unix_secs`.
    pub fn precheck_open_intent(&self, row: &PoolOpenIntentRow, now_unix_secs: i64) -> (r: Result<
        PolicyPrecheck,
        PolicyError,
    >)
        ensures
            match precheck_of(*self, *row, now_unix_secs) {
                Ok(v) => r matches Ok(p) && precheck_view(p) == v,
                Err(e) => r == Err::<PolicyPrecheck, _>(e),
            },
    {
        if row.closed || row.solved {
            return Ok(PolicyPrecheck::Rejected { reason: "closed_or_solved" });
        }
        if !row.funded {
            return Ok(PolicyPrecheck::Rejected { reason: "not_funded" });
        }
        if row.solver.is_some() {
            return Ok(PolicyPrecheck::Rejected { reason: "already_claimed" });
        }
        let slack: i64 = if self.min_deadline_slack_secs <= 9223372036854775807u64 {
            self.min_deadline_slack_secs as i64
        } else {
            i64::MAX
        };
        if sat_sub_i64_exec(row.deadline, now_unix_secs) < slack {
            return Ok(PolicyPrecheck::Rejected { reason: "deadline_slack" });
        }
        let ty = match IntentType::from_i16(row.intent_type) {
            Ok(t) => t,
            Err(_) => {
                return Err(PolicyError::UnknownIntentType { code: row.intent_type });
            },
        };
        if !type_enabled(&self.enabled_intent_types, ty) {
            return Ok(PolicyPrecheck::Rejected { reason: "intent_type_disabled" });
        }
        let outcome = match self.static_intent_checks(ty, row.intent_specs.as_str()) {
            Ok(o) => o,
            Err(e) => {
                return Err(e);
            },
        };
        match outcome.reject_reason {
            Some(reason) => Ok(PolicyPrecheck::Rejected { reason }),
            None => Ok(PolicyPrecheck::Passed { intent_type: ty, breaker: outcome.breaker }),
        }
    }
}

/// The contract a trigger intent calls and the selector of its call data, or `None` when
/// the specification does not decode.
pub fn decode_trigger_contract_and_selector(intent_specs: &[u8]) -> (r: Option<(Address, Option<[u8; 4]>)>)
    ensures
        match abi_address_uint_bytes(intent_specs@) {
            None => r is None,
            Some(t) => r matches Some(p) && p.0.bytes@ == t.0 && match p.1 {
                Some(s) => selector_of(t.2) == Some(s@),
                None => selector_of(t.2) is None,
            },
        },
{
    match TriggerSmartContractIntent::abi_decode(intent_specs) {
        None => None,
        Some(intent) => {
            let sel = selector4(intent.data.as_slice());
            Some((intent.to, sel))
        },
    }
}

} // verus!
