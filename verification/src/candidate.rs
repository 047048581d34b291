use vstd::prelude::*;

use crate::delegate::ResourceCode;
use crate::error::{error_message, ParseErrorView};
use crate::intents::{abi_address_u8_uint_uint, word_u64, DelegateResourceIntent};
use crate::planner::{delegate_choice, select_delegate_executor_index};
use crate::policy::{
    breaker_view, precheck_of, BreakerQuery, PolicyError, PolicyPrecheck, PolicyRules,
    PrecheckView,
};
use crate::rows::{InventoryCheck, PoolOpenIntentRow};
use crate::runner::{
    attempt_gates, attempt_gates_of, capacity_request, capacity_resource_of, AttemptGates,
};
use crate::text::dec_int;
use crate::types::{hex_bytes_of, intent_type_of_code, parse_hex_bytes, IntentType, TronMode};

verus! {

/// The settings that decide which checks an open intent goes through before it is claimed.
#[derive(Debug, Clone, Copy)]
pub struct AttemptSettings {
    pub tron_mode: TronMode,
    pub key_count: usize,
    pub consolidation_enabled: bool,
    pub resell_enabled: bool,
    pub emulation_enabled: bool,
    /// A minimum profit or a priced escrow is required, so a resold intent needs a priced
    /// rental quote.
    pub need_profitability: bool,
}

/// What the outside work of the last step gave back while an open intent is judged.
#[derive(Debug)]
pub enum AttemptEvent {
    Begin,
    /// The pre-claim inventory check (or its error, which is passed over).
    Inventory { result: Result<InventoryCheck, String> },
    /// The hub and Tron cost estimates are ready (or this error).
    Costs { error: Option<String> },
    /// The best rental quote was found (or the error of the search).
    Quote { error: Option<String> },
    /// The TRX price for the quote: whether it could be read.
    QuotePrice { available: bool },
    /// The profitability verdict of an intent that passed the policy (resold when `resell`):
    /// the rejection reason, or the error of the check.
    Profit { resell: bool, result: Result<Option<String>, String> },
    /// Whether the call's breaker is active (or the error of that check).
    Breaker { resell: bool, active: Result<bool, String> },
    /// The result of emulating the call: ok, or the reason it fails.
    Emulated { resell: bool, ok: bool, reason: Option<String> },
    /// The stake available to delegate and the stake reserved, per key (or the error of
    /// reading them, which is passed over).
    Capacity { result: Result<(Vec<i64>, Vec<i64>), String> },
}

/// The next outside work while an open intent is judged, or the verdict.
#[derive(Debug)]
pub enum AttemptNext {
    CheckInventory,
    /// Estimate the hub cost and the Tron fees of the intent and its pre-transactions.
    EstimateCosts { pre_txs: usize },
    QuoteRental,
    FetchTrxPrice,
    CheckProfit { resell: bool },
    CheckBreaker { resell: bool, breaker: BreakerQuery },
    Emulate { resell: bool },
    CheckCapacity { resource: ResourceCode, needed: i64 },
    /// Record that the intent is skipped, for this reason.
    Skip { reason: String },
    /// Claim the intent.
    Attempt,
    /// The check ends with this error.
    Abort { message: String },
}

/// The resource and balance of a delegate intent whose specification decodes.
pub open spec fn delegate_fields(row: PoolOpenIntentRow) -> Option<(u8, Seq<u8>)> {
    match hex_bytes_of(row.intent_specs@) {
        None => None,
        Some(b) => match abi_address_u8_uint_uint(b) {
            None => None,
            Some(t) => Some((t.1, t.2)),
        },
    }
}

/// Whether the intent's specification must be read before the policy judges it: for the
/// inventory check, and for a delegate intent on the gRPC backend when energy may be resold.
pub open spec fn specs_read_early(set: AttemptSettings, ty: IntentType) -> bool {
    let grpc = set.tron_mode == TronMode::Grpc;
    (grpc && (ty == IntentType::TrxTransfer || ty == IntentType::UsdtTransfer) && (set.key_count
        > 1 || set.consolidation_enabled)) || (grpc && ty == IntentType::DelegateResource
        && set.resell_enabled)
}

/// The checks the intent goes through.
pub open spec fn gates_for(set: AttemptSettings, ty: IntentType, row: PoolOpenIntentRow) -> AttemptGates {
    attempt_gates_of(
        set.tron_mode,
        ty,
        set.key_count as nat,
        set.consolidation_enabled,
        set.resell_enabled,
        set.emulation_enabled,
        if set.tron_mode == TronMode::Grpc && ty == IntentType::DelegateResource {
            match delegate_fields(row) {
                Some(f) => Some(f.0),
                None => None,
            }
        } else {
            None
        },
    )
}

/// The SUN a delegate intent needs (`i64::MAX` when it does not fit).
pub open spec fn needed_of(balance: Seq<u8>) -> int {
    match word_u64(balance) {
        Some(v) => if v <= i64::MAX {
            v as int
        } else {
            i64::MAX as int
        },
        None => i64::MAX as int,
    }
}

/// `a` skips the intent for reason `r`.
pub open spec fn skip_is(a: AttemptNext, r: Seq<char>) -> bool {
    a matches AttemptNext::Skip { reason } && reason@ == r
}

/// `a` ends the check with error `m`.
pub open spec fn attempt_abort_is(a: AttemptNext, m: Seq<char>) -> bool {
    a matches AttemptNext::Abort { message } && message@ == m
}

/// After the emulation: the capacity check of a delegate intent, else the claim.
pub open spec fn capacity_stage_is(set: AttemptSettings, ty: IntentType, row: PoolOpenIntentRow, a: AttemptNext) -> bool {
    if gates_for(set, ty, row).check_capacity {
        match delegate_fields(row) {
            Some(f) => a == AttemptNext::CheckCapacity {
                resource: capacity_resource_of(f.0),
                needed: needed_of(f.1) as i64,
            },
            None => a == AttemptNext::Attempt,
        }
    } else {
        a == AttemptNext::Attempt
    }
}

/// After the breaker: the emulation when it applies, else the capacity stage.
pub open spec fn emulation_stage_is(set: AttemptSettings, ty: IntentType, row: PoolOpenIntentRow, resell: bool, a: AttemptNext) -> bool {
    if gates_for(set, ty, row).emulate {
        a == AttemptNext::Emulate { resell }
    } else {
        capacity_stage_is(set, ty, row, a)
    }
}

/// The policy's verdict on everything but the price: an error ends the check, a rejection
/// skips the intent, and an intent that passes goes to the profitability check.
pub open spec fn policy_stage_is(rules: PolicyRules, row: PoolOpenIntentRow, now: i64, resell: bool, a: AttemptNext) -> bool {
    match precheck_of(rules, row, now) {
        Err(e) => attempt_abort_is(a, policy_error_text(e)),
        Ok(PrecheckView::Rejected(r)) => skip_is(a, r),
        Ok(PrecheckView::Passed(_, _)) => a == AttemptNext::CheckProfit { resell },
    }
}

/// The text of a policy error.
pub open spec fn policy_error_text(e: PolicyError) -> Seq<char> {
    match e {
        PolicyError::UnknownIntentType { code } => "unknown intent_type="@ + dec_int(code as int),
        PolicyError::TriggerDecodeFailed => "trigger decode failed: decode TriggerSmartContractIntent"@,
    }
}

/// One step of judging an open intent before it is claimed: the intent type must be known;
/// the specification must read where it is needed early; multi-key transfers must be
/// fillable (a failed check is passed over); the costs are estimated; an energy intent to be
/// resold needs a quote (and a TRX price when profit is required); then the policy, the
/// profitability, the call's breaker, the emulation and the delegation capacity (a failed
/// read is passed over) decide in that order.
pub open spec fn attempt_step_is(
    set: AttemptSettings,
    rules: PolicyRules,
    row: PoolOpenIntentRow,
    now: i64,
    ev: AttemptEvent,
    a: AttemptNext,
) -> bool {
    match intent_type_of_code(row.intent_type) {
        None => attempt_abort_is(a, "unknown intent_type="@ + dec_int(row.intent_type as int)),
        Some(ty) => if specs_read_early(set, ty) && hex_bytes_of(row.intent_specs@) is None {
            attempt_abort_is(a, "decode hex bytes"@)
        } else {
            let g = gates_for(set, ty, row);
            match ev {
                AttemptEvent::Begin => if g.check_inventory {
                    a == AttemptNext::CheckInventory
                } else {
                    a == AttemptNext::EstimateCosts { pre_txs: 0 }
                },
                AttemptEvent::Inventory { result } => match result {
                    Ok(inv) => if !inv.ok {
                        skip_is(
                            a,
                            match inv.reason {
                                Some(r) => r@,
                                None => "inventory_insufficient"@,
                            },
                        )
                    } else {
                        a == AttemptNext::EstimateCosts { pre_txs: inv.required_pre_txs }
                    },
                    Err(_) => a == AttemptNext::EstimateCosts { pre_txs: 0 },
                },
                AttemptEvent::Costs { error } => match error {
                    Some(e) => attempt_abort_is(a, e@),
                    None => if g.resell {
                        a == AttemptNext::QuoteRental
                    } else {
                        policy_stage_is(rules, row, now, false, a)
                    },
                },
                AttemptEvent::Quote { error } => match error {
                    None => if set.need_profitability {
                        a == AttemptNext::FetchTrxPrice
                    } else {
                        policy_stage_is(rules, row, now, true, a)
                    },
                    Some(_) => if set.need_profitability {
                        skip_is(a, "rental_quote_failed"@)
                    } else {
                        policy_stage_is(rules, row, now, true, a)
                    },
                },
                AttemptEvent::QuotePrice { available } => if available {
                    policy_stage_is(rules, row, now, true, a)
                } else {
                    skip_is(a, "rental_quote_no_price"@)
                },
                AttemptEvent::Profit { resell, result } => match result {
                    Err(e) => attempt_abort_is(a, e@),
                    Ok(Some(r)) => skip_is(a, r@),
                    Ok(None) => match precheck_of(rules, row, now) {
                        Ok(PrecheckView::Passed(_, Some(bv))) => a matches AttemptNext::CheckBreaker {
                            resell: rs,
                            breaker,
                        } && rs == resell && breaker_view(breaker) == bv,
                        Ok(PrecheckView::Passed(_, None)) => emulation_stage_is(
                            set,
                            ty,
                            row,
                            resell,
                            a,
                        ),
                        _ => attempt_abort_is(a, "event does not belong to this stage"@),
                    },
                },
                AttemptEvent::Breaker { resell, active } => match active {
                    Err(e) => attempt_abort_is(a, e@),
                    Ok(true) => skip_is(a, "breaker_active"@),
                    Ok(false) => emulation_stage_is(set, ty, row, resell, a),
                },
                AttemptEvent::Emulated { resell, ok, reason } => if ok {
                    capacity_stage_is(set, ty, row, a)
                } else {
                    skip_is(
                        a,
                        match reason {
                            Some(r) => r@,
                            None => "tron_emulation_failed"@,
                        },
                    )
                },
                AttemptEvent::Capacity { result } => match result {
                    Err(_) => a == AttemptNext::Attempt,
                    Ok((avail, resv)) => match delegate_fields(row) {
                        Some(f) => if delegate_choice(avail@, resv@, needed_of(f.1)) is None {
                            skip_is(a, "delegate_capacity_insufficient"@)
                        } else {
                            a == AttemptNext::Attempt
                        },
                        None => a == AttemptNext::Attempt,
                    },
                },
            }
        },
    }
}

fn delegate_intent_of(row: &PoolOpenIntentRow) -> (r: Option<DelegateResourceIntent>)
    ensures
        match delegate_fields(*row) {
            None => r is None,
            Some(f) => r matches Some(i) && i.resource == f.0 && i.balance_sun@ == f.1,
        },
{
    match parse_hex_bytes(row.intent_specs.as_str()) {
        Err(_) => None,
        Ok(bytes) => DelegateResourceIntent::abi_decode(bytes.as_slice()),
    }
}

fn gates_exec(set: &AttemptSettings, ty: IntentType, row: &PoolOpenIntentRow) -> (g: AttemptGates)
    ensures
        g == gates_for(*set, ty, *row),
{
    let resource: Option<u8> = if set.tron_mode == TronMode::Grpc && ty
        == IntentType::DelegateResource {
        match delegate_intent_of(row) {
            Some(i) => Some(i.resource),
            None => None,
        }
    } else {
        None
    };
    attempt_gates(
        set.tron_mode,
        ty,
        set.key_count,
        set.consolidation_enabled,
        set.resell_enabled,
        set.emulation_enabled,
        resource,
    )
}

fn skip(reason: String) -> (a: AttemptNext)
    ensures
        skip_is(a, reason@),
{
    AttemptNext::Skip { reason }
}

fn abort(message: String) -> (a: AttemptNext)
    ensures
        attempt_abort_is(a, message@),
{
    AttemptNext::Abort { message }
}

fn capacity_stage(set: &AttemptSettings, ty: IntentType, row: &PoolOpenIntentRow) -> (a: AttemptNext)
    ensures
        capacity_stage_is(*set, ty, *row, a),
{
    if gates_exec(set, ty, row).check_capacity {
        match delegate_intent_of(row) {
            Some(i) => {
                let (resource, needed) = capacity_request(&i);
                AttemptNext::CheckCapacity { resource, needed }
            },
            None => AttemptNext::Attempt,
        }
    } else {
        AttemptNext::Attempt
    }
}

fn emulation_stage(set: &AttemptSettings, ty: IntentType, row: &PoolOpenIntentRow, resell: bool) -> (a: AttemptNext)
    ensures
        emulation_stage_is(*set, ty, *row, resell, a),
{
    if gates_exec(set, ty, row).emulate {
        AttemptNext::Emulate { resell }
    } else {
        capacity_stage(set, ty, row)
    }
}

fn policy_stage(rules: &PolicyRules, row: &PoolOpenIntentRow, now: i64, resell: bool) -> (a: AttemptNext)
    ensures
        policy_stage_is(*rules, *row, now, resell, a),
{
    match rules.precheck_open_intent(row, now) {
        Err(e) => abort(e.message()),
        Ok(PolicyPrecheck::Rejected { reason }) => skip(reason.to_owned()),
        Ok(PolicyPrecheck::Passed { .. }) => AttemptNext::CheckProfit { resell },
    }
}

/// Decides the next step of judging an open intent at time `now`, from the outcome of the
/// last one.
pub fn attempt_step(
    set: &AttemptSettings,
    rules: &PolicyRules,
    row: &PoolOpenIntentRow,
    now: i64,
    ev: AttemptEvent,
) -> (a: AttemptNext)
    ensures
        attempt_step_is(*set, *rules, *row, now, ev, a),
{
    let ty = match IntentType::from_i16(row.intent_type) {
        Ok(t) => t,
        Err(e) => {
            return abort(e.message());
        },
    };
    let grpc = set.tron_mode == TronMode::Grpc;
    let early = (grpc && (ty == IntentType::TrxTransfer || ty == IntentType::UsdtTransfer) && (
    set.key_count > 1 || set.consolidation_enabled)) || (grpc && ty
        == IntentType::DelegateResource && set.resell_enabled);
    if early {
        if let Err(e) = parse_hex_bytes(row.intent_specs.as_str()) {
            return abort(e.message());
        }
    }
    let g = gates_exec(set, ty, row);
    match ev {
        AttemptEvent::Begin => {
            if g.check_inventory {
                AttemptNext::CheckInventory
            } else {
                AttemptNext::EstimateCosts { pre_txs: 0 }
            }
        },
        AttemptEvent::Inventory { result } => match result {
            Ok(inv) => {
                if !inv.ok {
                    let r: &str = match inv.reason {
                        Some(r) => r,
                        None => "inventory_insufficient",
                    };
                    skip(r.to_owned())
                } else {
                    AttemptNext::EstimateCosts { pre_txs: inv.required_pre_txs }
                }
            },
            Err(_) => AttemptNext::EstimateCosts { pre_txs: 0 },
        },
        AttemptEvent::Costs { error } => match error {
            Some(e) => abort(e),
            None => {
                if g.resell {
                    AttemptNext::QuoteRental
                } else {
                    policy_stage(rules, row, now, false)
                }
            },
        },
        AttemptEvent::Quote { error } => match error {
            None => {
                if set.need_profitability {
                    AttemptNext::FetchTrxPrice
                } else {
                    policy_stage(rules, row, now, true)
                }
            },
            Some(_) => {
                if set.need_profitability {
                    skip("rental_quote_failed".to_owned())
                } else {
                    policy_stage(rules, row, now, true)
                }
            },
        },
        AttemptEvent::QuotePrice { available } => {
            if available {
                policy_stage(rules, row, now, true)
            } else {
                skip("rental_quote_no_price".to_owned())
            }
        },
        AttemptEvent::Profit { resell, result } => match result {
            Err(e) => abort(e),
            Ok(Some(r)) => skip(r),
            Ok(None) => match rules.precheck_open_intent(row, now) {
                Ok(PolicyPrecheck::Passed { breaker: Some(b), .. }) => AttemptNext::CheckBreaker {
                    resell,
                    breaker: b,
                },
                Ok(PolicyPrecheck::Passed { breaker: None, .. }) => emulation_stage(
                    set,
                    ty,
                    row,
                    resell,
                ),
                _ => abort("event does not belong to this stage".to_owned()),
            },
        },
        AttemptEvent::Breaker { resell, active } => match active {
            Err(e) => abort(e),
            Ok(true) => skip("breaker_active".to_owned()),
            Ok(false) => emulation_stage(set, ty, row, resell),
        },
        AttemptEvent::Emulated { resell, ok, reason } => {
            if ok {
                capacity_stage(set, ty, row)
            } else {
                match reason {
                    Some(r) => skip(r),
                    None => skip("tron_emulation_failed".to_owned()),
                }
            }
        },
        AttemptEvent::Capacity { result } => match result {
            Err(_) => AttemptNext::Attempt,
            Ok((avail, resv)) => match delegate_intent_of(row) {
                Some(i) => {
                    let (_, needed) = capacity_request(&i);
                    match select_delegate_executor_index(avail.as_slice(), resv.as_slice(), needed) {
                        None => skip("delegate_capacity_insufficient".to_owned()),
                        Some(_) => AttemptNext::Attempt,
                    }
                },
                None => AttemptNext::Attempt,
            },
        },
    }
}


/// A check that rejects an intent always skips it, whatever else holds: an inventory check
/// that finds it unfillable, a profitability verdict with a reason, an active breaker on its
/// call, an emulation that fails, and (when profit is required) a failed rental quote or a
/// missing TRX price. None of them lets the step go on to a later check or to the claim.
pub proof fn lemma_rejecting_checks_skip(
    set: AttemptSettings,
    rules: PolicyRules,
    row: PoolOpenIntentRow,
    now: i64,
    ev: AttemptEvent,
    a: AttemptNext,
)
    requires
        intent_type_of_code(row.intent_type) is Some,
        hex_bytes_of(row.intent_specs@) is Some,
        attempt_step_is(set, rules, row, now, ev, a),
    ensures
        ev matches AttemptEvent::Breaker { active, .. } && active == Ok::<bool, String>(true) ==> (
        a matches AttemptNext::Skip { reason } && reason@ == "breaker_active"@),
        ev matches AttemptEvent::Inventory { result } ==> (result matches Ok(inv) ==> (!inv.ok ==> (
        a matches AttemptNext::Skip { reason } && reason@ == match inv.reason {
            Some(r) => r@,
            None => "inventory_insufficient"@,
        }))),
        ev matches AttemptEvent::Profit { result, .. } ==> (result matches Ok(Some(r)) ==> (
        a matches AttemptNext::Skip { reason } && reason@ == r@)),
        ev matches AttemptEvent::Emulated { ok, reason: why, .. } ==> (!ok ==> (
        a matches AttemptNext::Skip { reason } && reason@ == match why {
            Some(r) => r@,
            None => "tron_emulation_failed"@,
        })),
        set.need_profitability && (ev matches AttemptEvent::Quote { error } && error is Some) ==> (
        a matches AttemptNext::Skip { reason } && reason@ == "rental_quote_failed"@),
        ev matches AttemptEvent::QuotePrice { available } && !available ==> (
        a matches AttemptNext::Skip { reason } && reason@ == "rental_quote_no_price"@),
        a is Attempt ==> (ev is Profit || ev is Breaker || ev is Emulated || ev is Capacity),
{
}
} // verus!
