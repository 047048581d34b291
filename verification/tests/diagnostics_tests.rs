use untron_solver::diagnostics::{
    chain_contains, classify_job_error, looks_like_tron_contract_failure,
    looks_like_tron_server_busy, prepare_error_trips_breaker,
    should_rebuild_prepared_userop_on_submit_error,
};
use untron_solver::types::IntentType;

fn chain_of(err: &anyhow::Error) -> Vec<String> {
    err.chain().map(|cause| cause.to_string()).collect()
}

#[test]
fn classify_job_error_maps_transition_reasons() {
    let err = anyhow::Error::msg("[transition_reject:lease_expired] rejected transition");
    assert_eq!(classify_job_error(&chain_of(&err)), "transition_lease_expired");

    let err = anyhow::Error::msg("[transition_reject:state_mismatch] rejected transition");
    assert_eq!(classify_job_error(&chain_of(&err)), "transition_state_mismatch");
}

#[test]
fn classify_job_error_uses_chain_messages() {
    let err: anyhow::Error = anyhow::Error::msg("lost job lease for job_id=7").context("outer context");
    assert_eq!(classify_job_error(&chain_of(&err)), "lost_job_lease");
}

#[test]
fn classify_job_error_falls_back_to_other() {
    let chain = vec!["something else".to_string()];
    assert_eq!(classify_job_error(&chain), "other");
    let chain = vec!["outer".to_string(), "indexer lag too high: 12".to_string()];
    assert_eq!(classify_job_error(&chain), "indexer_lag");
    assert!(chain_contains(&chain, "lag too"));
    assert!(!chain_contains(&Vec::new(), "x"));
}

#[test]
fn rebuild_userop_on_nonce_errors() {
    assert!(should_rebuild_prepared_userop_on_submit_error(
        "AA25 invalid account nonce",
    ));
    assert!(should_rebuild_prepared_userop_on_submit_error(
        "nonce too low",
    ));
}

#[test]
fn rebuild_userop_on_fee_errors() {
    assert!(should_rebuild_prepared_userop_on_submit_error(
        "replacement transaction underpriced",
    ));
    assert!(should_rebuild_prepared_userop_on_submit_error(
        "max fee per gas less than block base fee",
    ));
}

#[test]
fn rebuild_userop_on_paymaster_errors() {
    assert!(should_rebuild_prepared_userop_on_submit_error(
        "AA31 paymaster deposit too low",
    ));
}

#[test]
fn keep_prepared_userop_for_non_rebuild_errors() {
    assert!(!should_rebuild_prepared_userop_on_submit_error(
        "insufficient funds for transfer",
    ));
}

#[test]
fn grpc_emulation_revert_marker_is_stable() {
    let msg = anyhow::Error::msg("emulation_revert: code=3 msg_hex=0x00 msg_utf8=oops");
    assert!(msg.to_string().contains("emulation_revert:"));
}

#[test]
fn emulate_emulation_revert_marker_is_stable() {
    let msg = anyhow::Error::msg("emulation_revert: code=3 msg_hex=0x00 msg_utf8=oops");
    assert!(msg.to_string().contains("emulation_revert:"));
    let verdict = untron_solver::inventory::emulation_verdict(true, &Some(msg.to_string()));
    assert!(!verdict.ok);
    assert_eq!(verdict.reason.as_deref(), Some("tron_emulation_revert"));
}

#[test]
fn tron_error_classification() {
    assert!(looks_like_tron_server_busy("grpc: SERVER_BUSY"));
    assert!(!looks_like_tron_server_busy("server_busy"));
    assert!(looks_like_tron_contract_failure("REVERT opcode executed"));
    assert!(looks_like_tron_contract_failure("Contract validate error : x"));
    assert!(!looks_like_tron_contract_failure("timeout"));
}

#[test]
fn breaker_counts_only_trigger_contract_failures() {
    assert!(prepare_error_trips_breaker(IntentType::TriggerSmartContract, "REVERT"));
    assert!(!prepare_error_trips_breaker(IntentType::TriggerSmartContract, "SERVER_BUSY revert"));
    assert!(!prepare_error_trips_breaker(IntentType::TrxTransfer, "REVERT"));
    assert!(!prepare_error_trips_breaker(IntentType::TriggerSmartContract, "timeout"));
}
