use vstd::prelude::*;

use crate::error::{ParseError, ParseErrorView};
use crate::text::string_from_chars;
use crate::text::chars_of;
use crate::types::{db_name, lemma_job_state_name_roundtrip, state_of_name, JobState};

verus! {

/// The states a job must be in for a move into `next` to be accepted.
pub open spec fn prev_states(next: JobState) -> Seq<JobState> {
    match next {
        JobState::Claimed => seq![JobState::Ready],
        JobState::TronPrepared => seq![JobState::Claimed],
        JobState::TronSent => seq![JobState::Claimed, JobState::TronPrepared],
        JobState::ProofBuilt => seq![JobState::TronSent, JobState::ProofBuilt],
        JobState::Proved => seq![JobState::ProofBuilt],
        JobState::ProvedWaitingFunding => seq![JobState::Proved, JobState::ProvedWaitingFunding],
        JobState::ProvedWaitingSettlement => seq![
            JobState::Proved,
            JobState::ProvedWaitingFunding,
            JobState::ProvedWaitingSettlement,
        ],
        JobState::Done => seq![
            JobState::Proved,
            JobState::ProvedWaitingFunding,
            JobState::ProvedWaitingSettlement,
            JobState::Done,
        ],
        JobState::Ready | JobState::FailedFatal => seq![],
    }
}

/// The stored names of `prev_states(next)`, in the same order.
pub open spec fn prev_state_names(next: JobState) -> Seq<Seq<char>> {
    prev_states(next).map_values(|s: JobState| db_name(s))
}

/// Position of a state along the job lifecycle.
pub open spec fn lifecycle_rank(s: JobState) -> int {
    match s {
        JobState::Ready => 0,
        JobState::Claimed => 1,
        JobState::TronPrepared => 2,
        JobState::TronSent => 3,
        JobState::ProofBuilt => 4,
        JobState::Proved => 5,
        JobState::ProvedWaitingFunding => 6,
        JobState::ProvedWaitingSettlement => 7,
        JobState::Done => 8,
        JobState::FailedFatal => 9,
    }
}

/// The states in which a repeated move into the same state is accepted.
pub open spec fn is_repeatable(s: JobState) -> bool {
    s == JobState::ProofBuilt || s == JobState::ProvedWaitingFunding
        || s == JobState::ProvedWaitingSettlement || s == JobState::Done
}

/// Whether a job in `from` may move into `to`.
pub open spec fn allowed(from: JobState, to: JobState) -> bool {
    prev_states(to).contains(from)
}

/// The states a job must be in for a move into `next_state`.
pub fn expected_previous_states_for(next_state: JobState) -> (r: Vec<JobState>)
    ensures
        r@ == prev_states(next_state),
{
    match next_state {
        JobState::Claimed => vec![JobState::Ready],
        JobState::TronPrepared => vec![JobState::Claimed],
        JobState::TronSent => vec![JobState::Claimed, JobState::TronPrepared],
        JobState::ProofBuilt => vec![JobState::TronSent, JobState::ProofBuilt],
        JobState::Proved => vec![JobState::ProofBuilt],
        JobState::ProvedWaitingFunding => vec![JobState::Proved, JobState::ProvedWaitingFunding],
        JobState::ProvedWaitingSettlement => vec![
            JobState::Proved,
            JobState::ProvedWaitingFunding,
            JobState::ProvedWaitingSettlement,
        ],
        JobState::Done => vec![
            JobState::Proved,
            JobState::ProvedWaitingFunding,
            JobState::ProvedWaitingSettlement,
            JobState::Done,
        ],
        JobState::Ready | JobState::FailedFatal => vec![],
    }
}

/// The stored names of the states a job must be in for a move into `next_state`.
pub fn expected_previous_state_names_for(next_state: JobState) -> (r: Vec<&'static str>)
    ensures
        r@.len() == prev_state_names(next_state).len(),
        forall|i: int| 0 <= i < r@.len() ==> #[trigger] r@[i]@ == prev_state_names(next_state)[i],
{
    let states = expected_previous_states_for(next_state);
    let mut out: Vec<&'static str> = Vec::new();
    let mut i: usize = 0;
    while i < states.len()
        invariant
            i <= states.len(),
            states@ == prev_states(next_state),
            out@.len() == i,
            forall|k: int| 0 <= k < i ==> #[trigger] out@[k]@ == db_name(states@[k]),
        decreases states.len() - i,
    {
        out.push(states[i].as_db_str());
        i = i + 1;
    }
    out
}

/// The stored names of `expected_previous_states_for(next_state)`, as owned strings.
pub fn expected_state_binds_for(next_state: JobState) -> (r: Vec<String>)
    ensures
        r@.len() == prev_state_names(next_state).len(),
        forall|i: int| 0 <= i < r@.len() ==> #[trigger] r@[i]@ == prev_state_names(next_state)[i],
{
    let names = expected_previous_state_names_for(next_state);
    let mut out: Vec<String> = Vec::new();
    let mut i: usize = 0;
    while i < names.len()
        invariant
            i <= names.len(),
            names@.len() == prev_state_names(next_state).len(),
            forall|k: int| 0 <= k < names@.len() ==> #[trigger] names@[k]@ == prev_state_names(next_state)[k],
            out@.len() == i,
            forall|k: int| 0 <= k < i ==> #[trigger] out@[k]@ == prev_state_names(next_state)[k],
        decreases names.len() - i,
    {
        let cs = chars_of(names[i]);
        out.push(string_from_chars(&cs));
        i = i + 1;
    }
    out
}

/// Whether `next` names a state that a recorded transition may target (all but `ready` and
/// `failed_fatal`).
pub open spec fn transition_target(next: Seq<char>) -> Option<JobState> {
    match state_of_name(next) {
        Some(s) => if s == JobState::Ready || s == JobState::FailedFatal {
            None
        } else {
            Some(s)
        },
        None => None,
    }
}

/// The stored names of the states a job must be in for a recorded move into the state named
/// `next_state`.
pub fn expected_previous_states_for_transition(next_state: &str) -> (r: Result<
    Vec<&'static str>,
    ParseError,
>)
    ensures
        r is Ok <==> transition_target(next_state@) is Some,
        r matches Ok(v) ==> v@.len() == prev_state_names(transition_target(next_state@)->0).len()
            && forall|i: int|
            0 <= i < v@.len() ==> #[trigger] v@[i]@ == prev_state_names(
                transition_target(next_state@)->0,
            )[i],
        r matches Err(e) ==> e@ == (ParseErrorView::UnsupportedTransitionTarget {
            value: next_state@,
        }),
{
    match JobState::parse(next_state) {
        Ok(state) => {
            if state == JobState::Ready || state == JobState::FailedFatal {
                Err(ParseError::UnsupportedTransitionTarget { value: next_state.to_owned() })
            } else {
                Ok(expected_previous_state_names_for(state))
            }
        },
        Err(_) => Err(ParseError::UnsupportedTransitionTarget { value: next_state.to_owned() }),
    }
}

/// `expected_previous_states_for_transition`, as owned strings.
pub fn expected_state_binds(next_state: &str) -> (r: Result<Vec<String>, ParseError>)
    ensures
        r is Ok <==> transition_target(next_state@) is Some,
        r matches Ok(v) ==> v@.len() == prev_state_names(transition_target(next_state@)->0).len()
            && forall|i: int|
            0 <= i < v@.len() ==> #[trigger] v@[i]@ == prev_state_names(
                transition_target(next_state@)->0,
            )[i],
        r matches Err(e) ==> e@ == (ParseErrorView::UnsupportedTransitionTarget {
            value: next_state@,
        }),
{
    let names = expected_previous_states_for_transition(next_state)?;
    let ghost t = transition_target(next_state@)->0;
    let mut out: Vec<String> = Vec::new();
    let mut i: usize = 0;
    while i < names.len()
        invariant
            i <= names.len(),
            names@.len() == prev_state_names(t).len(),
            forall|k: int| 0 <= k < names@.len() ==> #[trigger] names@[k]@ == prev_state_names(t)[k],
            out@.len() == i,
            forall|k: int| 0 <= k < i ==> #[trigger] out@[k]@ == prev_state_names(t)[k],
        decreases names.len() - i,
    {
        let cs = chars_of(names[i]);
        out.push(string_from_chars(&cs));
        i = i + 1;
    }
    Ok(out)
}

/// Whether a job in `from_state` may move into `to_state`.
pub fn transition_allowed(from_state: JobState, to_state: JobState) -> (r: bool)
    ensures
        r == allowed(from_state, to_state),
{
    let prev = expected_previous_states_for(to_state);
    let mut i: usize = 0;
    while i < prev.len()
        invariant
            i <= prev.len(),
            prev@ == prev_states(to_state),
            forall|k: int| 0 <= k < i ==> prev@[k] != from_state,
        decreases prev.len() - i,
    {
        if prev[i] == from_state {
            return true;
        }
        i = i + 1;
    }
    false
}

/// Accepted moves never go back along the lifecycle: a job only stays where it is (in the
/// states that allow a repeated record) or moves forward; nothing moves into `ready` or
/// `failed_fatal` this way, and nothing leaves `failed_fatal`.
pub proof fn lemma_transitions_only_move_forward(from: JobState, to: JobState)
    requires
        allowed(from, to),
    ensures
        lifecycle_rank(from) <= lifecycle_rank(to),
        from == to ==> is_repeatable(to),
        to != JobState::Ready && to != JobState::FailedFatal,
        from != JobState::FailedFatal,
{
    let p = prev_states(to);
    let i = choose|i: int| 0 <= i < p.len() && p[i] == from;
    assert(p[i] == from);
}

/// Every state except `ready` and `failed_fatal` can be reached by an accepted move, and the
/// stored names a transition accepts are exactly the names of the accepted states.
pub proof fn lemma_transition_targets(s: JobState)
    ensures
        transition_target(db_name(s)) == (if s == JobState::Ready || s == JobState::FailedFatal {
            None::<JobState>
        } else {
            Some(s)
        }),
        s != JobState::Ready && s != JobState::FailedFatal ==> prev_states(s).len() > 0,
        prev_state_names(s).len() == prev_states(s).len(),
        forall|i: int|
            0 <= i < prev_states(s).len() ==> #[trigger] prev_state_names(s)[i] == db_name(
                prev_states(s)[i],
            ),
{
    lemma_job_state_name_roundtrip(s, s);
}

} // verus!
