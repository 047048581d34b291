use untron_solver::transitions::{
    expected_previous_states_for, expected_previous_states_for_transition, expected_state_binds,
    expected_state_binds_for, transition_allowed,
};
use untron_solver::types::JobState;

#[test]
fn transition_matrix_allows_expected_forward_edges() {
    assert!(transition_allowed(JobState::Ready, JobState::Claimed));
    assert!(transition_allowed(JobState::Claimed, JobState::TronPrepared));
    assert!(transition_allowed(JobState::Claimed, JobState::TronSent));
    assert!(transition_allowed(
        JobState::TronPrepared,
        JobState::TronSent
    ));
    assert!(transition_allowed(JobState::TronSent, JobState::ProofBuilt));
    assert!(transition_allowed(JobState::ProofBuilt, JobState::ProofBuilt));
    assert!(transition_allowed(JobState::ProofBuilt, JobState::Proved));
    assert!(transition_allowed(
        JobState::Proved,
        JobState::ProvedWaitingFunding
    ));
    assert!(transition_allowed(
        JobState::ProvedWaitingFunding,
        JobState::ProvedWaitingSettlement
    ));
    assert!(transition_allowed(
        JobState::ProvedWaitingSettlement,
        JobState::Done
    ));
    assert!(transition_allowed(JobState::Done, JobState::Done));
}

#[test]
fn transition_matrix_rejects_invalid_or_regressive_edges() {
    assert!(!transition_allowed(JobState::Ready, JobState::Proved));
    assert!(!transition_allowed(JobState::Claimed, JobState::Proved));
    assert!(!transition_allowed(JobState::TronSent, JobState::Claimed));
    assert!(!transition_allowed(JobState::Done, JobState::Proved));
    assert!(!transition_allowed(JobState::FailedFatal, JobState::Done));
}

#[test]
fn transition_target_validation_and_bind_encoding_are_stable() {
    let proved_waiting_settlement =
        expected_previous_states_for_transition("proved_waiting_settlement")
            .expect("known transition target");
    assert_eq!(
        proved_waiting_settlement,
        &[
            "proved",
            "proved_waiting_funding",
            "proved_waiting_settlement"
        ]
    );

    let done_binds = expected_state_binds("done").expect("done bind encoding");
    assert_eq!(
        done_binds,
        vec![
            "proved".to_string(),
            "proved_waiting_funding".to_string(),
            "proved_waiting_settlement".to_string(),
            "done".to_string()
        ]
    );

    assert!(expected_previous_states_for_transition("not_a_real_state").is_err());
    assert!(expected_state_binds("not_a_real_state").is_err());
}

#[test]
fn ready_and_failed_fatal_are_not_transition_targets() {
    let err = expected_previous_states_for_transition("ready").unwrap_err().message();
    assert_eq!(err, "unsupported record_job_state transition target: ready");
    assert!(expected_state_binds("failed_fatal").is_err());
    assert!(expected_previous_states_for(JobState::Ready).is_empty());
    assert!(expected_state_binds_for(JobState::FailedFatal).is_empty());
}

#[test]
fn every_allowed_edge_moves_forward() {
    let all = [
        JobState::Ready,
        JobState::Claimed,
        JobState::TronPrepared,
        JobState::TronSent,
        JobState::ProofBuilt,
        JobState::Proved,
        JobState::ProvedWaitingFunding,
        JobState::ProvedWaitingSettlement,
        JobState::Done,
        JobState::FailedFatal,
    ];
    for (i, from) in all.iter().enumerate() {
        for (j, to) in all.iter().enumerate() {
            if transition_allowed(*from, *to) {
                assert!(i <= j, "{from:?} -> {to:?}");
                assert!(*to != JobState::Ready && *to != JobState::FailedFatal);
            }
        }
    }
}
