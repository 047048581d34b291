use untron_solver::runner::{energy_rental_applies, reservation_needed_before_claim, signing_keys};
use untron_solver::store::{
    breaker_failure_step, claim_rate_verdict, provider_failure_step, transition_reject_message,
    transition_reject_reason,
    userop_cost_lookback,
};
use untron_solver::types::{IntentType, TronMode};

fn expected() -> Vec<String> {
    vec!["claimed".to_string(), "tron_prepared".to_string()]
}

#[test]
fn rejected_transitions_are_explained() {
    assert_eq!(transition_reject_reason(&None, &expected(), "me"), "job_not_found");
    let row = Some((Some("done".to_string()), Some("me".to_string()), Some(true)));
    assert_eq!(transition_reject_reason(&row, &expected(), "me"), "state_mismatch");
    let row = Some((Some("claimed".to_string()), Some("you".to_string()), Some(true)));
    assert_eq!(transition_reject_reason(&row, &expected(), "me"), "lease_owner_mismatch");
    let row = Some((Some("claimed".to_string()), Some("me".to_string()), Some(false)));
    assert_eq!(transition_reject_reason(&row, &expected(), "me"), "lease_expired");
    let row = Some((Some("claimed".to_string()), Some("me".to_string()), Some(true)));
    assert_eq!(transition_reject_reason(&row, &expected(), "me"), "unknown_conflict");
    let row = Some((None, None, None));
    assert_eq!(transition_reject_reason(&row, &expected(), "me"), "unknown_conflict");
}

#[test]
fn breaker_failures_accumulate_with_clamped_weight() {
    assert_eq!(breaker_failure_step(None, 1), (1, 60));
    assert_eq!(breaker_failure_step(Some(1), 0), (2, 300));
    assert_eq!(breaker_failure_step(Some(2), 500), (102, 86400));
    assert_eq!(breaker_failure_step(Some(i32::MAX - 1), 5), (i32::MAX, 86400));
}

#[test]
fn rental_providers_freeze_after_threshold_in_window() {
    let f = provider_failure_step(1, 1_000, 1_030, 60, 3, 300);
    assert!(!f.window_reset);
    assert_eq!(f.fail_count, 2);
    assert!(!f.froze);
    let f = provider_failure_step(2, 1_000, 1_030, 60, 3, 300);
    assert_eq!(f.fail_count, 3);
    assert!(f.froze);
    let f = provider_failure_step(2, 1_000, 1_061, 60, 3, 300);
    assert!(f.window_reset);
    assert_eq!(f.fail_count, 1);
    assert!(!f.froze);
    let f = provider_failure_step(5, 1_000, 1_001, 60, 0, 0);
    assert!(!f.froze);
}

#[test]
fn claim_rate_limits_wait_for_the_next_minute() {
    assert_eq!(claim_rate_verdict(0, 100, 30), None);
    assert_eq!(claim_rate_verdict(5, 5, 30), None);
    assert_eq!(claim_rate_verdict(5, 6, 30), Some(30));
    assert_eq!(claim_rate_verdict(5, 6, 0), Some(1));
    assert_eq!(claim_rate_verdict(u64::MAX, i64::MAX, 3), None);
}

#[test]
fn cost_lookback_is_bounded() {
    assert_eq!(userop_cost_lookback(0), 1);
    assert_eq!(userop_cost_lookback(50), 50);
    assert_eq!(userop_cost_lookback(1_000_000), 10_000);
}

#[test]
fn backend_keys_and_small_gates() {
    assert_eq!(signing_keys(&vec![[1u8; 32], [2u8; 32]], [9u8; 32]), vec![[1u8; 32], [2u8; 32]]);
    assert_eq!(signing_keys(&Vec::new(), [9u8; 32]), vec![[9u8; 32]]);
    assert!(signing_keys(&Vec::new(), [0u8; 32]).is_empty());
    assert!(energy_rental_applies(1, 10));
    assert!(!energy_rental_applies(0, 10));
    assert!(!energy_rental_applies(1, 0));
    assert!(reservation_needed_before_claim(IntentType::DelegateResource, TronMode::Grpc, false));
    assert!(!reservation_needed_before_claim(IntentType::DelegateResource, TronMode::Grpc, true));
    assert!(!reservation_needed_before_claim(IntentType::DelegateResource, TronMode::Mock, false));
    assert!(!reservation_needed_before_claim(IntentType::TrxTransfer, TronMode::Grpc, false));
}

#[test]
fn transition_reject_message_carries_the_marker() {
    let m = transition_reject_message("lease_expired", 42, "expected one of [\"claimed\"]");
    assert_eq!(
        m,
        "[transition_reject:lease_expired] rejected state transition for job_id=42: expected one of [\"claimed\"]"
    );
}
