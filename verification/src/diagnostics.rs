use vstd::prelude::*;

use crate::text::{chars_contains_str, chars_of, contains, lower, lower_chars, str_contains};
use crate::types::IntentType;

verus! {

/// Some message of an error's cause chain contains `needle`.
pub open spec fn chain_has(chain: Seq<Seq<char>>, needle: Seq<char>) -> bool {
    exists|k: int| 0 <= k < chain.len() && contains(#[trigger] chain[k], needle)
}

/// The messages of a list of strings.
pub open spec fn messages(chain: Seq<String>) -> Seq<Seq<char>> {
    chain.map_values(|m: String| m@)
}

/// Whether any message of an error's cause chain (outermost first) contains `needle`.
pub fn chain_contains(chain: &Vec<String>, needle: &str) -> (r: bool)
    ensures
        r == chain_has(messages(chain@), needle@),
{
    let mut i: usize = 0;
    while i < chain.len()
        invariant
            i <= chain@.len(),
            forall|k: int| 0 <= k < i ==> !contains(#[trigger] messages(chain@)[k], needle@),
        decreases chain@.len() - i,
    {
        if str_contains(chain[i].as_str(), needle) {
            assert(contains(messages(chain@)[i as int], needle@));
            return true;
        }
        i = i + 1;
    }
    false
}

/// The failure reason recorded for a job error with the given cause chain.
pub open spec fn job_error_reason(chain: Seq<Seq<char>>) -> Seq<char> {
    if chain_has(chain, "[transition_reject:state_mismatch]"@) {
        "transition_state_mismatch"@
    } else if chain_has(chain, "[transition_reject:lease_expired]"@) {
        "transition_lease_expired"@
    } else if chain_has(chain, "[transition_reject:lease_owner_mismatch]"@) {
        "transition_lease_owner_mismatch"@
    } else if chain_has(chain, "[transition_reject:job_not_found]"@) {
        "transition_job_not_found"@
    } else if chain_has(chain, "lost job lease"@) {
        "lost_job_lease"@
    } else if chain_has(chain, "delegate_capacity_insufficient"@) {
        "delegate_capacity_insufficient"@
    } else if chain_has(chain, "global solver pause active"@) {
        "global_pause"@
    } else if chain_has(chain, "indexer lag too high"@) {
        "indexer_lag"@
    } else {
        "other"@
    }
}

/// Classifies a failed job by the messages of its error's cause chain (outermost first).
pub fn classify_job_error(chain: &Vec<String>) -> (r: &'static str)
    ensures
        r@ == job_error_reason(messages(chain@)),
{
    if chain_contains(chain, "[transition_reject:state_mismatch]") {
        return "transition_state_mismatch";
    }
    if chain_contains(chain, "[transition_reject:lease_expired]") {
        return "transition_lease_expired";
    }
    if chain_contains(chain, "[transition_reject:lease_owner_mismatch]") {
        return "transition_lease_owner_mismatch";
    }
    if chain_contains(chain, "[transition_reject:job_not_found]") {
        return "transition_job_not_found";
    }
    if chain_contains(chain, "lost job lease") {
        return "lost_job_lease";
    }
    if chain_contains(chain, "delegate_capacity_insufficient") {
        return "delegate_capacity_insufficient";
    }
    if chain_contains(chain, "global solver pause active") {
        return "global_pause";
    }
    if chain_contains(chain, "indexer lag too high") {
        return "indexer_lag";
    }
    "other"
}

/// Whether a user-operation submission error means the prepared operation must be rebuilt
/// (nonce, fee or paymaster problems), judged on the ASCII-lower-cased message.
pub open spec fn rebuild_needed(msg: Seq<char>) -> bool {
    let m = lower(msg);
    ||| contains(m, "aa25 invalid account nonce"@)
    ||| contains(m, "invalid account nonce"@)
    ||| contains(m, "nonce too low"@)
    ||| contains(m, "nonce too high"@)
    ||| contains(m, "replacement transaction underpriced"@)
    ||| contains(m, "underpriced"@)
    ||| contains(m, "fee too low"@)
    ||| contains(m, "max fee per gas less than block base fee"@)
    ||| contains(m, "maxfeepergas"@)
    ||| contains(m, "maxpriorityfeepergas"@)
    ||| (contains(m, "aa3"@) && contains(m, "paymaster"@))
    ||| (contains(m, "paymaster"@) && (contains(m, "expired"@) || contains(m, "deposit"@)
        || contains(m, "stake"@)))
}

/// Whether a prepared user operation must be rebuilt after its submission failed with `msg`.
pub fn should_rebuild_prepared_userop_on_submit_error(msg: &str) -> (r: bool)
    ensures
        r == rebuild_needed(msg@),
{
    let c = chars_of(msg);
    let m = lower_chars(&c);
    chars_contains_str(&m, "aa25 invalid account nonce") || chars_contains_str(
        &m,
        "invalid account nonce",
    ) || chars_contains_str(&m, "nonce too low") || chars_contains_str(&m, "nonce too high")
        || chars_contains_str(&m, "replacement transaction underpriced") || chars_contains_str(
        &m,
        "underpriced",
    ) || chars_contains_str(&m, "fee too low") || chars_contains_str(
        &m,
        "max fee per gas less than block base fee",
    ) || chars_contains_str(&m, "maxfeepergas") || chars_contains_str(&m, "maxpriorityfeepergas")
        || (chars_contains_str(&m, "aa3") && chars_contains_str(&m, "paymaster")) || (
    chars_contains_str(&m, "paymaster") && (chars_contains_str(&m, "expired") || chars_contains_str(
        &m,
        "deposit",
    ) || chars_contains_str(&m, "stake")))
}

/// Whether a Tron node error says the node is overloaded.
pub fn looks_like_tron_server_busy(msg: &str) -> (r: bool)
    ensures
        r == contains(msg@, "SERVER_BUSY"@),
{
    str_contains(msg, "SERVER_BUSY")
}

/// Whether a Tron error (ASCII-lower-cased) reports a failed or rejected contract execution.
pub open spec fn contract_failure_like(msg: Seq<char>) -> bool {
    let m = lower(msg);
    ||| contains(m, "revert"@)
    ||| contains(m, "contract_validate_error"@)
    ||| contains(m, "contract validate error"@)
    ||| contains(m, "out_of_energy"@)
    ||| contains(m, "out of energy"@)
    ||| contains(m, "validate"@)
}

/// Whether a Tron error reports a failed or rejected contract execution.
pub fn looks_like_tron_contract_failure(msg: &str) -> (r: bool)
    ensures
        r == contract_failure_like(msg@),
{
    let c = chars_of(msg);
    let m = lower_chars(&c);
    chars_contains_str(&m, "revert") || chars_contains_str(&m, "contract_validate_error")
        || chars_contains_str(&m, "contract validate error") || chars_contains_str(
        &m,
        "out_of_energy",
    ) || chars_contains_str(&m, "out of energy") || chars_contains_str(&m, "validate")
}

/// Whether a failed preparation of an intent of type `ty` counts against the circuit breaker
/// of the called contract: only trigger intents, only for contract failures, and not when the
/// node was merely overloaded.
pub fn prepare_error_trips_breaker(ty: IntentType, msg: &str) -> (r: bool)
    ensures
        r == (ty == IntentType::TriggerSmartContract && !contains(msg@, "SERVER_BUSY"@)
            && contract_failure_like(msg@)),
{
    ty == IntentType::TriggerSmartContract && !looks_like_tron_server_busy(msg)
        && looks_like_tron_contract_failure(msg)
}

} // verus!
