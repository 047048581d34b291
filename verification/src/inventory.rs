use vstd::prelude::*;

use crate::flow::clamp_i64;
use crate::planner::{
    caps_check, i64_ints, lemma_plan_pulls_bounded, plan, plan_reaches_sum, plan_trc20_consolidation,
    plan_trx_consolidation, prefix_sums_within, pull_amounts, sum, u64_ints,
    validate_trc20_consolidation_caps, validate_trx_consolidation_caps, ConsolidationCapError,
    Trc20ConsolidationPlan, TrxConsolidationPlan,
};
use crate::rows::{EmulationCheck, InventoryCheck, JobConfig, TronPreparedPlan, TronPreparedTx,
    TronSignedTxRow,
};
use crate::text::{concat_str, contains, dec, dec_int, i64_to_dec, str_contains, u64_to_dec, string_from_chars, chars_of};
use crate::types::{IntentType, TronMode};

verus! {

/// TRX (SUN) an executor keeps for fees on top of what it sends.
pub const BALANCE_RESERVE_SUN: i64 = 2_000_000;

/// What an account must hold to send `amount` SUN and keep the fee reserve (saturating).
pub open spec fn trx_need(amount: i64) -> int {
    clamp_i64(amount + BALANCE_RESERVE_SUN)
}

fn trx_need_exec(amount: i64) -> (r: i64)
    ensures
        r == trx_need(amount),
{
    if amount > i64::MAX - BALANCE_RESERVE_SUN {
        i64::MAX
    } else {
        amount + BALANCE_RESERVE_SUN
    }
}

/// The configured bound on pre-transactions, or 0 when it does not fit in `usize`.
pub open spec fn max_pre_txs_of(v: u64) -> int {
    if v <= usize::MAX {
        v as int
    } else {
        0
    }
}

fn max_pre_txs_exec(v: u64) -> (r: usize)
    ensures
        r == max_pre_txs_of(v),
{
    if v <= usize::MAX as u64 {
        v as usize
    } else {
        0
    }
}

/// `i` is the first account holding at least `need`.
pub open spec fn first_at_least(bal: Seq<i64>, need: int, i: int) -> bool {
    0 <= i < bal.len() && bal[i] >= need && forall|j: int| 0 <= j < i ==> #[trigger] bal[j] < need
}

/// Some account holds at least `need`.
pub open spec fn some_at_least(bal: Seq<i64>, need: int) -> bool {
    exists|i: int| 0 <= i < bal.len() && #[trigger] bal[i] >= need
}

/// The first account that can send `amount` SUN by itself (keeping the fee reserve).
pub fn trx_direct_executor(balances: &[i64], amount_sun: i64) -> (r: Option<usize>)
    ensures
        match r {
            Some(i) => first_at_least(balances@, trx_need(amount_sun), i as int),
            None => !some_at_least(balances@, trx_need(amount_sun)),
        },
{
    let need = trx_need_exec(amount_sun);
    let mut i: usize = 0;
    while i < balances.len()
        invariant
            i <= balances@.len(),
            need == trx_need(amount_sun),
            forall|j: int| 0 <= j < i ==> #[trigger] balances@[j] < need,
        decreases balances@.len() - i,
    {
        if balances[i] >= need {
            return Some(i);
        }
        i = i + 1;
    }
    None
}

/// The TRX balance at `i`, or 0 past the end.
pub open spec fn trx_at(trx: Seq<i64>, i: int) -> int {
    if 0 <= i < trx.len() {
        trx[i] as int
    } else {
        0
    }
}

/// Account `i` holds `amount` tokens and the TRX fee reserve.
pub open spec fn usdt_payer(tok: Seq<u64>, trx: Seq<i64>, amount: u64, i: int) -> bool {
    tok[i] >= amount && trx_at(trx, i) >= BALANCE_RESERVE_SUN
}

/// `i` is the first account that can send `amount` tokens by itself.
pub open spec fn first_usdt_payer(tok: Seq<u64>, trx: Seq<i64>, amount: u64, i: int) -> bool {
    0 <= i < tok.len() && usdt_payer(tok, trx, amount, i) && forall|j: int|
        0 <= j < i ==> !#[trigger] usdt_payer(tok, trx, amount, j)
}

/// Some account can send `amount` tokens by itself.
pub open spec fn some_usdt_payer(tok: Seq<u64>, trx: Seq<i64>, amount: u64) -> bool {
    exists|i: int| 0 <= i < tok.len() && #[trigger] usdt_payer(tok, trx, amount, i)
}

/// The first account that holds `amount` tokens and the TRX fee reserve.
pub fn usdt_direct_executor(token_balances: &[u64], trx_balances: &[i64], amount: u64) -> (r:
    Option<usize>)
    ensures
        match r {
            Some(i) => first_usdt_payer(token_balances@, trx_balances@, amount, i as int),
            None => !some_usdt_payer(token_balances@, trx_balances@, amount),
        },
{
    let mut i: usize = 0;
    while i < token_balances.len()
        invariant
            i <= token_balances@.len(),
            forall|j: int|
                0 <= j < i ==> !#[trigger] usdt_payer(token_balances@, trx_balances@, amount, j),
        decreases token_balances@.len() - i,
    {
        let fee_balance: i64 = if i < trx_balances.len() {
            trx_balances[i]
        } else {
            0
        };
        if token_balances[i] >= amount && fee_balance >= BALANCE_RESERVE_SUN {
            return Some(i);
        }
        i = i + 1;
    }
    None
}

/// Whether the inventory check ends before looking at balances: always fine outside gRPC
/// mode and for intents that move no TRX or USDT, never fine without keys.
pub fn preclaim_gate(mode: TronMode, key_count: usize, ty: IntentType) -> (r: Option<InventoryCheck>)
    ensures
        mode != TronMode::Grpc ==> (r matches Some(c) && c.ok && c.reason is None
            && c.required_pre_txs == 0),
        mode == TronMode::Grpc && key_count == 0 ==> (r matches Some(c) && !c.ok && (
        c.reason matches Some(s) && s@ == "no_tron_keys"@) && c.required_pre_txs == 0),
        mode == TronMode::Grpc && key_count > 0 && ty != IntentType::TrxTransfer && ty
            != IntentType::UsdtTransfer ==> (r matches Some(c) && c.ok && c.reason is None
            && c.required_pre_txs == 0),
        mode == TronMode::Grpc && key_count > 0 && (ty == IntentType::TrxTransfer || ty
            == IntentType::UsdtTransfer) ==> r is None,
{
    if mode != TronMode::Grpc {
        return Some(InventoryCheck { ok: true, reason: None, required_pre_txs: 0 });
    }
    if key_count == 0 {
        return Some(InventoryCheck { ok: false, reason: Some("no_tron_keys"), required_pre_txs: 0 });
    }
    if ty != IntentType::TrxTransfer && ty != IntentType::UsdtTransfer {
        return Some(InventoryCheck { ok: true, reason: None, required_pre_txs: 0 });
    }
    None
}

/// The verdict (fillable, reason, pre-transactions needed) of an inventory check: fine when
/// an account can pay directly, else a consolidation plan within the caps is needed.
pub open spec fn inventory_of(
    direct: bool,
    enabled: bool,
    planned: Option<(int, Seq<(int, int)>)>,
    max_total: int,
    max_per_tx: int,
) -> (bool, Option<Seq<char>>, int) {
    if direct {
        (true, None, 0)
    } else if !enabled {
        (false, Some("consolidation_disabled"@), 0)
    } else {
        match planned {
            None => (false, Some("cannot_consolidate"@), 0),
            Some(p) => if caps_check(pull_amounts(p.1), max_total, max_per_tx) != 0 {
                (false, Some("consolidation_caps"@), p.1.len() as int)
            } else {
                (true, None, p.1.len() as int)
            },
        }
    }
}

/// `c` reports the verdict `v`.
pub open spec fn reports(c: InventoryCheck, v: (bool, Option<Seq<char>>, int)) -> bool {
    &&& c.ok == v.0
    &&& c.required_pre_txs == v.2
    &&& match c.reason {
        Some(s) => v.1 == Some(s@),
        None => v.1 is None,
    }
}

/// Checks before claiming whether the keys can send `amount_sun` TRX (with the fee reserve),
/// directly or after a consolidation that stays within the configured caps.
pub fn trx_inventory_check(balances: &[i64], amount_sun: i64, jobs: &JobConfig) -> (c:
    InventoryCheck)
    requires
        !some_at_least(balances@, trx_need(amount_sun)) && jobs.consolidation_enabled
            && plan_reaches_sum(
            i64_ints(balances@),
            trx_need(amount_sun),
            max_pre_txs_of(jobs.consolidation_max_pre_txs),
        ) ==> prefix_sums_within(i64_ints(balances@), i64::MIN as int, i64::MAX as int),
    ensures
        reports(
            c,
            inventory_of(
                some_at_least(balances@, trx_need(amount_sun)),
                jobs.consolidation_enabled,
                plan(
                    i64_ints(balances@),
                    trx_need(amount_sun),
                    max_pre_txs_of(jobs.consolidation_max_pre_txs),
                ),
                jobs.consolidation_max_total_trx_pull_sun as int,
                jobs.consolidation_max_per_tx_trx_pull_sun as int,
            ),
        ),
{
    if trx_direct_executor(balances, amount_sun).is_some() {
        return InventoryCheck { ok: true, reason: None, required_pre_txs: 0 };
    }
    if !jobs.consolidation_enabled {
        return InventoryCheck { ok: false, reason: Some("consolidation_disabled"), required_pre_txs: 0 };
    }
    let need = trx_need_exec(amount_sun);
    let max_pre_txs = max_pre_txs_exec(jobs.consolidation_max_pre_txs);
    match plan_trx_consolidation(balances, need, max_pre_txs) {
        Err(_) => {
            proof {
                assert(false);
            }
            InventoryCheck { ok: false, reason: Some("cannot_consolidate"), required_pre_txs: 0 }
        },
        Ok(None) => InventoryCheck { ok: false, reason: Some("cannot_consolidate"), required_pre_txs: 0 },
        Ok(Some(p)) => {
            proof {
                lemma_plan_pulls_bounded(i64_ints(balances@), need as int, max_pre_txs as int);
            }
            let n = p.transfers.len();
            if validate_trx_consolidation_caps(
                &p,
                jobs.consolidation_max_total_trx_pull_sun,
                jobs.consolidation_max_per_tx_trx_pull_sun,
            ).is_err() {
                InventoryCheck { ok: false, reason: Some("consolidation_caps"), required_pre_txs: n }
            } else {
                InventoryCheck { ok: true, reason: None, required_pre_txs: n }
            }
        },
    }
}

/// Checks before claiming whether the keys can send `amount` USDT (an account also needs the
/// TRX fee reserve), directly or after a consolidation within the configured caps.
pub fn usdt_inventory_check(
    token_balances: &[u64],
    trx_balances: &[i64],
    amount: u64,
    jobs: &JobConfig,
) -> (c: InventoryCheck)
    requires
        !some_usdt_payer(token_balances@, trx_balances@, amount) && jobs.consolidation_enabled
            && plan_reaches_sum(
            u64_ints(token_balances@),
            amount as int,
            max_pre_txs_of(jobs.consolidation_max_pre_txs),
        ) ==> sum(u64_ints(token_balances@)) <= u64::MAX,
    ensures
        reports(
            c,
            inventory_of(
                some_usdt_payer(token_balances@, trx_balances@, amount),
                jobs.consolidation_enabled,
                plan(
                    u64_ints(token_balances@),
                    amount as int,
                    max_pre_txs_of(jobs.consolidation_max_pre_txs),
                ),
                jobs.consolidation_max_total_usdt_pull_amount as int,
                jobs.consolidation_max_per_tx_usdt_pull_amount as int,
            ),
        ),
{
    if usdt_direct_executor(token_balances, trx_balances, amount).is_some() {
        return InventoryCheck { ok: true, reason: None, required_pre_txs: 0 };
    }
    if !jobs.consolidation_enabled {
        return InventoryCheck { ok: false, reason: Some("consolidation_disabled"), required_pre_txs: 0 };
    }
    let max_pre_txs = max_pre_txs_exec(jobs.consolidation_max_pre_txs);
    match plan_trc20_consolidation(token_balances, amount, max_pre_txs) {
        Err(_) => {
            proof {
                assert(false);
            }
            InventoryCheck { ok: false, reason: Some("cannot_consolidate"), required_pre_txs: 0 }
        },
        Ok(None) => InventoryCheck { ok: false, reason: Some("cannot_consolidate"), required_pre_txs: 0 },
        Ok(Some(p)) => {
            proof {
                lemma_plan_pulls_bounded(u64_ints(token_balances@), amount as int, max_pre_txs as int);
                let a = pull_amounts(p.model().1);
                assert(a.take(a.len() as int) =~= a);
            }
            let n = p.transfers.len();
            if validate_trc20_consolidation_caps(
                &p,
                jobs.consolidation_max_total_usdt_pull_amount,
                jobs.consolidation_max_per_tx_usdt_pull_amount,
            ).is_err() {
                InventoryCheck { ok: false, reason: Some("consolidation_caps"), required_pre_txs: n }
            } else {
                InventoryCheck { ok: true, reason: None, required_pre_txs: n }
            }
        },
    }
}

/// How a TRX or USDT transfer is funded.
#[derive(Debug)]
pub enum TransferPlan<P> {
    /// This account pays by itself.
    Direct { executor_index: usize },
    /// Consolidate into an executor first.
    Consolidate(P),
}

/// Why no transfer plan was made.
#[derive(Debug, Clone, Copy, PartialEq, Eq, Structural)]
pub enum TransferPlanError {
    TrxConsolidationDisabled,
    TrxCannotConsolidate,
    UsdtConsolidationDisabled,
    UsdtCannotConsolidate,
    Caps(ConsolidationCapError),
}

impl TransferPlanError {
    /// The error's text.
    pub fn message(&self) -> (s: &'static str)
        ensures
            s@ == (match self {
                TransferPlanError::TrxConsolidationDisabled =>
                    "insufficient TRX balance (and consolidation disabled)"@,
                TransferPlanError::TrxCannotConsolidate =>
                    "insufficient TRX balance (cannot consolidate within limits)"@,
                TransferPlanError::UsdtConsolidationDisabled =>
                    "insufficient USDT balance (and consolidation disabled)"@,
                TransferPlanError::UsdtCannotConsolidate =>
                    "insufficient USDT balance (cannot consolidate within limits)"@,
                TransferPlanError::Caps(c) => match c {
                    ConsolidationCapError::TrxTotalExceeded =>
                        "consolidation max_total_trx_pull_sun exceeded"@,
                    ConsolidationCapError::TrxPerTxExceeded =>
                        "consolidation max_per_tx_trx_pull_sun exceeded"@,
                    ConsolidationCapError::UsdtTotalExceeded =>
                        "consolidation max_total_usdt_pull_amount exceeded"@,
                    ConsolidationCapError::UsdtPerTxExceeded =>
                        "consolidation max_per_tx_usdt_pull_amount exceeded"@,
                },
            }),
    {
        match self {
            TransferPlanError::TrxConsolidationDisabled =>
                "insufficient TRX balance (and consolidation disabled)",
            TransferPlanError::TrxCannotConsolidate =>
                "insufficient TRX balance (cannot consolidate within limits)",
            TransferPlanError::UsdtConsolidationDisabled =>
                "insufficient USDT balance (and consolidation disabled)",
            TransferPlanError::UsdtCannotConsolidate =>
                "insufficient USDT balance (cannot consolidate within limits)",
            TransferPlanError::Caps(c) => c.message(),
        }
    }
}

/// The error a cap check outcome (see `caps_check`) stands for, for TRX (`trx`) or USDT.
pub open spec fn cap_error(outcome: int, trx: bool) -> ConsolidationCapError {
    if outcome == 1 {
        if trx {
            ConsolidationCapError::TrxTotalExceeded
        } else {
            ConsolidationCapError::UsdtTotalExceeded
        }
    } else if trx {
        ConsolidationCapError::TrxPerTxExceeded
    } else {
        ConsolidationCapError::UsdtPerTxExceeded
    }
}

/// How a transfer is funded, as a model: the paying account, or the executor and the pulls.
pub enum FundingView {
    Direct(int),
    Consolidate((int, Seq<(int, int)>)),
}

/// The first account holding at least `need`, if any.
pub open spec fn first_trx_payer(bal: Seq<i64>, need: int) -> Option<int> {
    if some_at_least(bal, need) {
        Some(choose|i: int| first_at_least(bal, need, i))
    } else {
        None
    }
}

/// The first account that can send `amount` tokens by itself, if any.
pub open spec fn first_usdt_payer_of(tok: Seq<u64>, trx: Seq<i64>, amount: u64) -> Option<int> {
    if some_usdt_payer(tok, trx, amount) {
        Some(choose|i: int| first_usdt_payer(tok, trx, amount, i))
    } else {
        None
    }
}

/// How a transfer is funded: directly by `direct` when there is such an account; otherwise,
/// with consolidation enabled, by the plan when one exists within the caps; else the error.
pub open spec fn funding_of(
    direct: Option<int>,
    enabled: bool,
    planned: Option<(int, Seq<(int, int)>)>,
    max_total: int,
    max_per_tx: int,
    trx: bool,
) -> Result<FundingView, TransferPlanError> {
    match direct {
        Some(i) => Ok(FundingView::Direct(i)),
        None => if !enabled {
            Err(
                if trx {
                    TransferPlanError::TrxConsolidationDisabled
                } else {
                    TransferPlanError::UsdtConsolidationDisabled
                },
            )
        } else {
            match planned {
                None => Err(
                    if trx {
                        TransferPlanError::TrxCannotConsolidate
                    } else {
                        TransferPlanError::UsdtCannotConsolidate
                    },
                ),
                Some(mp) => {
                    let o = caps_check(pull_amounts(mp.1), max_total, max_per_tx);
                    if o == 0 {
                        Ok(FundingView::Consolidate(mp))
                    } else {
                        Err(TransferPlanError::Caps(cap_error(o, trx)))
                    }
                },
            }
        },
    }
}

/// The funding of a TRX transfer of `amount` from balances `bal`.
pub open spec fn trx_funding(bal: Seq<i64>, amount: i64, jobs: JobConfig) -> Result<
    FundingView,
    TransferPlanError,
> {
    funding_of(
        first_trx_payer(bal, trx_need(amount)),
        jobs.consolidation_enabled,
        plan(i64_ints(bal), trx_need(amount), max_pre_txs_of(jobs.consolidation_max_pre_txs)),
        jobs.consolidation_max_total_trx_pull_sun as int,
        jobs.consolidation_max_per_tx_trx_pull_sun as int,
        true,
    )
}

/// The funding of a USDT transfer of `amount` from token balances `tok` (fee balances `trx`).
pub open spec fn usdt_funding(tok: Seq<u64>, trx: Seq<i64>, amount: u64, jobs: JobConfig) -> Result<
    FundingView,
    TransferPlanError,
> {
    funding_of(
        first_usdt_payer_of(tok, trx, amount),
        jobs.consolidation_enabled,
        plan(u64_ints(tok), amount as int, max_pre_txs_of(jobs.consolidation_max_pre_txs)),
        jobs.consolidation_max_total_usdt_pull_amount as int,
        jobs.consolidation_max_per_tx_usdt_pull_amount as int,
        false,
    )
}

/// The model of a TRX funding decision.
pub open spec fn trx_plan_view(r: Result<TransferPlan<TrxConsolidationPlan>, TransferPlanError>) -> Result<
    FundingView,
    TransferPlanError,
> {
    match r {
        Ok(TransferPlan::Direct { executor_index }) => Ok(FundingView::Direct(executor_index as int)),
        Ok(TransferPlan::Consolidate(p)) => Ok(FundingView::Consolidate(p.model())),
        Err(e) => Err(e),
    }
}

/// The model of a USDT funding decision.
pub open spec fn usdt_plan_view(r: Result<TransferPlan<Trc20ConsolidationPlan>, TransferPlanError>) -> Result<
    FundingView,
    TransferPlanError,
> {
    match r {
        Ok(TransferPlan::Direct { executor_index }) => Ok(FundingView::Direct(executor_index as int)),
        Ok(TransferPlan::Consolidate(p)) => Ok(FundingView::Consolidate(p.model())),
        Err(e) => Err(e),
    }
}

proof fn lemma_first_trx_payer(bal: Seq<i64>, need: int, i: int)
    requires
        first_at_least(bal, need, i),
    ensures
        first_trx_payer(bal, need) == Some(i),
{
    let j = choose|j: int| first_at_least(bal, need, j);
    assert(first_at_least(bal, need, j));
    if j < i {
        assert(bal[j] < need);
    } else if i < j {
        assert(bal[i] < need);
    }
}

proof fn lemma_first_usdt_payer(tok: Seq<u64>, trx: Seq<i64>, amount: u64, i: int)
    requires
        first_usdt_payer(tok, trx, amount, i),
    ensures
        first_usdt_payer_of(tok, trx, amount) == Some(i),
{
    let j = choose|j: int| first_usdt_payer(tok, trx, amount, j);
    assert(first_usdt_payer(tok, trx, amount, j));
    if j < i {
        assert(!usdt_payer(tok, trx, amount, j));
    } else if i < j {
        assert(!usdt_payer(tok, trx, amount, i));
    }
}

/// Decides how to fund a transfer of `amount_sun` TRX from the keys' balances: the first
/// account that can pay (keeping the fee reserve), else a consolidation plan within the caps.
pub fn choose_trx_transfer_plan(balances: &[i64], amount_sun: i64, jobs: &JobConfig) -> (r:
    Result<TransferPlan<TrxConsolidationPlan>, TransferPlanError>)
    requires
        !some_at_least(balances@, trx_need(amount_sun)) && jobs.consolidation_enabled ==> amount_sun
            <= i64::MAX - BALANCE_RESERVE_SUN,
        !some_at_least(balances@, trx_need(amount_sun)) && jobs.consolidation_enabled
            && plan_reaches_sum(
            i64_ints(balances@),
            trx_need(amount_sun),
            max_pre_txs_of(jobs.consolidation_max_pre_txs),
        ) ==> prefix_sums_within(i64_ints(balances@), i64::MIN as int, i64::MAX as int),
    ensures
        trx_plan_view(r) == trx_funding(balances@, amount_sun, *jobs),
{
    match trx_direct_executor(balances, amount_sun) {
        Some(i) => {
            proof {
                lemma_first_trx_payer(balances@, trx_need(amount_sun), i as int);
            }
            return Ok(TransferPlan::Direct { executor_index: i });
        },
        None => {},
    }
    if !jobs.consolidation_enabled {
        return Err(TransferPlanError::TrxConsolidationDisabled);
    }
    let max_pre_txs = max_pre_txs_exec(jobs.consolidation_max_pre_txs);
    let need = amount_sun + BALANCE_RESERVE_SUN;
    match plan_trx_consolidation(balances, need, max_pre_txs) {
        Err(_) => {
            proof {
                assert(false);
            }
            Err(TransferPlanError::TrxCannotConsolidate)
        },
        Ok(None) => Err(TransferPlanError::TrxCannotConsolidate),
        Ok(Some(p)) => {
            proof {
                lemma_plan_pulls_bounded(i64_ints(balances@), need as int, max_pre_txs as int);
            }
            match validate_trx_consolidation_caps(
                &p,
                jobs.consolidation_max_total_trx_pull_sun,
                jobs.consolidation_max_per_tx_trx_pull_sun,
            ) {
                Ok(()) => Ok(TransferPlan::Consolidate(p)),
                Err(e) => Err(TransferPlanError::Caps(e)),
            }
        },
    }
}

/// Decides how to fund a transfer of `amount` USDT: the first account holding the tokens and
/// the TRX fee reserve, else a consolidation plan within the caps.
pub fn choose_usdt_transfer_plan(
    token_balances: &[u64],
    trx_balances: &[i64],
    amount: u64,
    jobs: &JobConfig,
) -> (r: Result<TransferPlan<Trc20ConsolidationPlan>, TransferPlanError>)
    requires
        !some_usdt_payer(token_balances@, trx_balances@, amount) && jobs.consolidation_enabled
            && plan_reaches_sum(
            u64_ints(token_balances@),
            amount as int,
            max_pre_txs_of(jobs.consolidation_max_pre_txs),
        ) ==> sum(u64_ints(token_balances@)) <= u64::MAX,
    ensures
        usdt_plan_view(r) == usdt_funding(token_balances@, trx_balances@, amount, *jobs),
{
    match usdt_direct_executor(token_balances, trx_balances, amount) {
        Some(i) => {
            proof {
                lemma_first_usdt_payer(token_balances@, trx_balances@, amount, i as int);
            }
            return Ok(TransferPlan::Direct { executor_index: i });
        },
        None => {},
    }
    if !jobs.consolidation_enabled {
        return Err(TransferPlanError::UsdtConsolidationDisabled);
    }
    let max_pre_txs = max_pre_txs_exec(jobs.consolidation_max_pre_txs);
    match plan_trc20_consolidation(token_balances, amount, max_pre_txs) {
        Err(_) => {
            proof {
                assert(false);
            }
            Err(TransferPlanError::UsdtCannotConsolidate)
        },
        Ok(None) => Err(TransferPlanError::UsdtCannotConsolidate),
        Ok(Some(p)) => {
            proof {
                lemma_plan_pulls_bounded(u64_ints(token_balances@), amount as int, max_pre_txs as int);
                let a = pull_amounts(p.model().1);
                assert(a.take(a.len() as int) =~= a);
            }
            match validate_trc20_consolidation_caps(
                &p,
                jobs.consolidation_max_total_usdt_pull_amount,
                jobs.consolidation_max_per_tx_usdt_pull_amount,
            ) {
                Ok(()) => Ok(TransferPlan::Consolidate(p)),
                Err(e) => Err(TransferPlanError::Caps(e)),
            }
        },
    }
}

/// The pre-claim inventory check predicts the preparation: it finds the intent fillable
/// exactly when preparing the transfer finds a way to fund it, and the number of
/// pre-transactions it reports is the number of pulls of that funding (none when an account
/// pays directly).
pub proof fn lemma_preclaim_check_predicts_funding(
    bal: Seq<i64>,
    amount: i64,
    tok: Seq<u64>,
    trx: Seq<i64>,
    token_amount: u64,
    jobs: JobConfig,
)
    ensures
        ({
            let v = inventory_of(
                some_at_least(bal, trx_need(amount)),
                jobs.consolidation_enabled,
                plan(i64_ints(bal), trx_need(amount), max_pre_txs_of(jobs.consolidation_max_pre_txs)),
                jobs.consolidation_max_total_trx_pull_sun as int,
                jobs.consolidation_max_per_tx_trx_pull_sun as int,
            );
            let f = trx_funding(bal, amount, jobs);
            &&& v.0 <==> f is Ok
            &&& f matches Ok(FundingView::Direct(_)) ==> v.2 == 0
            &&& f matches Ok(FundingView::Consolidate(mp)) ==> v.2 == mp.1.len()
        }),
        ({
            let v = inventory_of(
                some_usdt_payer(tok, trx, token_amount),
                jobs.consolidation_enabled,
                plan(u64_ints(tok), token_amount as int, max_pre_txs_of(jobs.consolidation_max_pre_txs)),
                jobs.consolidation_max_total_usdt_pull_amount as int,
                jobs.consolidation_max_per_tx_usdt_pull_amount as int,
            );
            let f = usdt_funding(tok, trx, token_amount, jobs);
            &&& v.0 <==> f is Ok
            &&& f matches Ok(FundingView::Direct(_)) ==> v.2 == 0
            &&& f matches Ok(FundingView::Consolidate(mp)) ==> v.2 == mp.1.len()
        }),
{
}

/// `d` padded on the left with zeros to at least four characters.
pub open spec fn zero_pad4(d: Seq<char>) -> Seq<char> {
    if d.len() < 4 {
        Seq::new((4 - d.len()) as nat, |_k: int| '0') + d
    } else {
        d
    }
}

/// The stored step name of the `i`-th pre-transaction (`pre:0000`, `pre:0001`, ...).
pub open spec fn pre_step_name(i: int) -> Seq<char> {
    "pre:"@ + zero_pad4(dec(i as nat))
}

/// The stored step name of the `i`-th pre-transaction.
pub fn pre_step(i: usize) -> (s: String)
    ensures
        s@ == pre_step_name(i as int),
{
    let d = chars_of(u64_to_dec(i as u64).as_str());
    let mut padded: Vec<char> = Vec::new();
    let mut k: usize = d.len();
    while k < 4
        invariant
            d.len() <= k <= 4 || (d.len() >= 4 && k == d.len()),
            padded@ == Seq::new((k - d.len()) as nat, |_j: int| '0'),
        decreases 4 - k,
    {
        padded.push('0');
        k = k + 1;
        assert(padded@ =~= Seq::new((k - d.len()) as nat, |_j: int| '0'));
    }
    let mut i2: usize = 0;
    while i2 < d.len()
        invariant
            i2 <= d.len(),
            padded@ == Seq::new((k - d.len()) as nat, |_j: int| '0') + d@.take(i2 as int),
        decreases d.len() - i2,
    {
        padded.push(d[i2]);
        i2 = i2 + 1;
        assert(padded@ =~= Seq::new((k - d.len()) as nat, |_j: int| '0') + d@.take(i2 as int));
    }
    assert(d@.take(d.len() as int) =~= d@);
    assert(padded@ =~= zero_pad4(dec(i as nat)));
    let body = string_from_chars(&padded);
    concat_str("pre:", body.as_str())
}

/// `row` stores the signed transaction `tx`.
pub open spec fn stores(row: TronSignedTxRow, tx: TronPreparedTx) -> bool {
    &&& row.txid == tx.txid
    &&& row.tx_bytes@ == tx.tx_bytes@
    &&& row.fee_limit_sun == tx.fee_limit_sun
    &&& row.energy_required == tx.energy_required
    &&& row.tx_size_bytes == tx.tx_size_bytes
}

fn row_for(step: String, tx: &TronPreparedTx) -> (row: TronSignedTxRow)
    ensures
        stores(row, *tx),
        row.step@ == step@,
{
    let bytes = tx.tx_bytes.clone();
    proof {
        assert(bytes@ =~= tx.tx_bytes@);
    }
    TronSignedTxRow {
        step,
        txid: tx.txid,
        tx_bytes: bytes,
        fee_limit_sun: tx.fee_limit_sun,
        energy_required: tx.energy_required,
        tx_size_bytes: tx.tx_size_bytes,
    }
}

/// The rows that persist a prepared plan: one `pre:NNNN` row per pre-transaction, in order,
/// and the `final` row.
pub fn plan_rows(plan: &TronPreparedPlan) -> (rows: (Vec<TronSignedTxRow>, TronSignedTxRow))
    ensures
        rows.0@.len() == plan.pre_txs@.len(),
        forall|i: int|
            0 <= i < rows.0@.len() ==> (#[trigger] rows.0@[i]).step@ == pre_step_name(i) && stores(
                rows.0@[i],
                plan.pre_txs@[i],
            ),
        rows.1.step@ == "final"@,
        stores(rows.1, plan.final_tx),
{
    let mut pre: Vec<TronSignedTxRow> = Vec::new();
    let mut i: usize = 0;
    while i < plan.pre_txs.len()
        invariant
            i <= plan.pre_txs@.len(),
            pre@.len() == i,
            forall|k: int|
                0 <= k < i ==> (#[trigger] pre@[k]).step@ == pre_step_name(k) && stores(
                    pre@[k],
                    plan.pre_txs@[k],
                ),
        decreases plan.pre_txs@.len() - i,
    {
        let row = row_for(pre_step(i), &plan.pre_txs[i]);
        pre.push(row);
        i = i + 1;
    }
    let last = row_for("final".to_owned(), &plan.final_tx);
    (pre, last)
}

/// The verdict of a pre-claim emulation: it gates only in gRPC mode with emulation enabled;
/// there, an error whose text holds `emulation_revert:` rejects the intent and any other
/// error is ignored. `failure` is the emulation's error text, `None` when it passed.
pub fn emulation_verdict(gated: bool, failure: &Option<String>) -> (c: EmulationCheck)
    ensures
        (gated && (failure matches Some(m) && contains(m@, "emulation_revert:"@))) ==> (!c.ok && (
        c.reason matches Some(r) && r@ == "tron_emulation_revert"@)),
        !(gated && (failure matches Some(m) && contains(m@, "emulation_revert:"@))) ==> (c.ok
            && c.reason is None),
{
    if !gated {
        return EmulationCheck { ok: true, reason: None };
    }
    match failure {
        None => EmulationCheck { ok: true, reason: None },
        Some(m) => {
            if str_contains(m.as_str(), "emulation_revert:") {
                EmulationCheck { ok: false, reason: Some("tron_emulation_revert".to_owned()) }
            } else {
                EmulationCheck { ok: true, reason: None }
            }
        },
    }
}

/// The lowercase hexadecimal digit of a value below 16.
pub open spec fn hex_digit_char(v: u8) -> char {
    if v < 10 {
        (('0' as u8) + v) as char
    } else {
        (('a' as u8) + v - 10) as char
    }
}

/// `hex::encode`: two lowercase hexadecimal digits per byte, high half first.
pub open spec fn hex_lower(b: Seq<u8>) -> Seq<char>
    decreases b.len(),
{
    if b.len() == 0 {
        Seq::empty()
    } else {
        hex_lower(b.drop_last()) + seq![hex_digit_char(b.last() / 16), hex_digit_char(b.last() % 16)]
    }
}

fn hex_digit(v: u8) -> (c: char)
    requires
        v < 16,
    ensures
        c == hex_digit_char(v),
{
    if v < 10 {
        (48u8 + v) as char
    } else {
        (97u8 + v - 10) as char
    }
}

fn hex_lower_string(b: &Vec<u8>) -> (s: String)
    ensures
        s@ == hex_lower(b@),
{
    let mut cs: Vec<char> = Vec::new();
    let mut i: usize = 0;
    while i < b.len()
        invariant
            i <= b@.len(),
            cs@ == hex_lower(b@.take(i as int)),
        decreases b@.len() - i,
    {
        assert(b@.take(i + 1).drop_last() =~= b@.take(i as int));
        cs.push(hex_digit(b[i] / 16));
        cs.push(hex_digit(b[i] % 16));
        i = i + 1;
        assert(cs@ =~= hex_lower(b@.take(i as int)));
    }
    assert(b@.take(b@.len() as int) =~= b@);
    string_from_chars(&cs)
}

/// What a node answered to an energy estimate: whether the call succeeds, the response code
/// (and whether it is a contract validation or execution error), and the message.
#[derive(Debug, Clone)]
pub struct EstimateAnswer {
    pub result: bool,
    pub code: i32,
    pub contract_error: bool,
    pub message: Vec<u8>,
    /// The message read as UTF-8, invalid sequences replaced.
    pub message_utf8: String,
}

/// The error text of an emulation that did not pass: a contract error is a revert (the
/// marker `emulation_revert:` that the pre-claim verdict looks for), anything else a failure.
pub open spec fn emulation_error_text(a: EstimateAnswer) -> Seq<char> {
    (if a.contract_error {
        "emulation_revert: code="@
    } else {
        "emulation_failed: code="@
    }) + dec_int(a.code as int) + " msg_hex=0x"@ + hex_lower(a.message@) + " msg_utf8="@
        + a.message_utf8@
}

/// Reads a node's answer to the energy estimate of an emulated call: `Ok` when the call
/// succeeds, else the error text.
pub fn emulation_outcome(answer: &Option<EstimateAnswer>) -> (r: Result<(), String>)
    ensures
        match answer {
            None => r matches Err(m) && m@ == "emulation_failed: missing result"@,
            Some(a) => if a.result {
                r is Ok
            } else {
                r matches Err(m) && m@ == emulation_error_text(*a)
            },
        },
{
    match answer {
        None => Err("emulation_failed: missing result".to_owned()),
        Some(a) => {
            if a.result {
                Ok(())
            } else {
                let head = if a.contract_error {
                    "emulation_revert: code="
                } else {
                    "emulation_failed: code="
                };
                let code = i64_to_dec(a.code as i64);
                let s1 = concat_str(head, code.as_str());
                let s2 = concat_str(s1.as_str(), " msg_hex=0x");
                let hx = hex_lower_string(&a.message);
                let s3 = concat_str(s2.as_str(), hx.as_str());
                let s4 = concat_str(s3.as_str(), " msg_utf8=");
                Err(concat_str(s4.as_str(), a.message_utf8.as_str()))
            }
        },
    }
}

} // verus!
