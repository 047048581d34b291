use vstd::prelude::*;

use crate::backoff::{breaker_backoff, breaker_backoff_secs};
use crate::intents::be_value;
use crate::receipts::{u256_from_text, u256_text_value};
use crate::text::{concat_str, dec_int, i64_to_dec};
use crate::wordmath::{average_word, saturating_sum, word_values};

verus! {

/// Why a job's state change was refused, found from the job's row when the guarded update
/// changed nothing: no such job; the job is in another state; another instance holds the
/// lease; the lease has run out; or none of these (a conflict the row does not explain).
pub open spec fn transition_reject_text(
    row: Option<(Option<Seq<char>>, Option<Seq<char>>, Option<bool>)>,
    expected: Seq<Seq<char>>,
    leased_by: Seq<char>,
) -> Seq<char> {
    match row {
        None => "job_not_found"@,
        Some((state, holder, lease_valid)) => match state {
            None => "unknown_conflict"@,
            Some(cs) => if !expected.contains(cs) {
                "state_mismatch"@
            } else if holder != Some(leased_by) {
                "lease_owner_mismatch"@
            } else if lease_valid == Some(false) {
                "lease_expired"@
            } else {
                "unknown_conflict"@
            },
        },
    }
}

fn str_eq(a: &str, b: &str) -> (r: bool)
    ensures
        r == (a@ == b@),
{
    let x = crate::text::chars_of(a);
    let y = crate::text::chars_of(b);
    crate::text::chars_eq(&x, &y)
}

fn listed_state(expected: &Vec<String>, cs: &str) -> (r: bool)
    ensures
        r == expected@.map_values(|s: String| s@).contains(cs@),
{
    let ghost views = expected@.map_values(|s: String| s@);
    let mut i: usize = 0;
    while i < expected.len()
        invariant
            i <= expected@.len(),
            views == expected@.map_values(|s: String| s@),
            forall|j: int| 0 <= j < i ==> views[j] != cs@,
        decreases expected@.len() - i,
    {
        if str_eq(expected[i].as_str(), cs) {
            assert(views[i as int] == cs@);
            return true;
        }
        i = i + 1;
    }
    false
}

/// Names why a state change was refused (the marker inside `[transition_reject:...]`).
pub fn transition_reject_reason(
    row: &Option<(Option<String>, Option<String>, Option<bool>)>,
    expected: &Vec<String>,
    leased_by: &str,
) -> (r: &'static str)
    ensures
        r@ == transition_reject_text(
            match row {
                None => None,
                Some((s, h, v)) => Some(
                    (
                        match s {
                            Some(x) => Some(x@),
                            None => None,
                        },
                        match h {
                            Some(x) => Some(x@),
                            None => None,
                        },
                        *v,
                    ),
                ),
            },
            expected@.map_values(|s: String| s@),
            leased_by@,
        ),
{
    match row {
        None => "job_not_found",
        Some((state, holder, lease_valid)) => match state {
            None => "unknown_conflict",
            Some(cs) => {
                if !listed_state(expected, cs.as_str()) {
                    "state_mismatch"
                } else {
                    let same_holder = match holder {
                        Some(h) => str_eq(h.as_str(), leased_by),
                        None => false,
                    };
                    if !same_holder {
                        "lease_owner_mismatch"
                    } else if *lease_valid == Some(false) {
                        "lease_expired"
                    } else {
                        "unknown_conflict"
                    }
                }
            },
        },
    }
}

/// The error raised when a state change is refused: the marker with its reason, the job, and
/// `detail` (the expected and current states and the lease, as printed by the caller).
pub fn transition_reject_message(reason: &str, job_id: i64, detail: &str) -> (s: String)
    ensures
        s@ == "[transition_reject:"@ + reason@ + "] rejected state transition for job_id="@
            + dec_int(job_id as int) + ": "@ + detail@,
{
    let a = concat_str("[transition_reject:", reason);
    let b = concat_str(a.as_str(), "] rejected state transition for job_id=");
    let n = i64_to_dec(job_id);
    let c = concat_str(b.as_str(), n.as_str());
    let d = concat_str(c.as_str(), ": ");
    concat_str(d.as_str(), detail)
}

/// The failure count and cool-down after a weighted failure of a circuit breaker: the weight
/// is kept within 1..=100 and added (saturating) to the current count (0 when there is no
/// breaker yet).
pub open spec fn breaker_after_failure(current: Option<i32>, weight: i32) -> (int, int) {
    let w: int = if weight < 1 {
        1
    } else if weight > 100 {
        100
    } else {
        weight as int
    };
    let c: int = match current {
        Some(c) => c as int,
        None => 0,
    };
    let next = if c + w > i32::MAX {
        i32::MAX as int
    } else {
        c + w
    };
    (next, breaker_backoff(next))
}

/// Applies a weighted failure to a circuit breaker.
pub fn breaker_failure_step(current: Option<i32>, weight: i32) -> (r: (i32, i64))
    ensures
        (r.0 as int, r.1 as int) == breaker_after_failure(current, weight),
{
    let w: i32 = if weight < 1 {
        1
    } else if weight > 100 {
        100
    } else {
        weight
    };
    let c: i32 = match current {
        Some(c) => c,
        None => 0,
    };
    let next: i32 = if c > i32::MAX - w {
        i32::MAX
    } else {
        c + w
    };
    (next, breaker_backoff_secs(next))
}

/// The state of a rental provider after one more failure.
#[derive(Debug, Clone, Copy)]
pub struct ProviderFailure {
    /// The failure window had run out, so the count started over.
    pub window_reset: bool,
    /// The failures counted in the current window, this one included.
    pub fail_count: i32,
    /// The provider is frozen now.
    pub froze: bool,
}

/// One more failure of a rental provider: the count starts over when more than the window
/// (at least a second) has passed since the window began; the failure is added (saturating);
/// the provider freezes once the count reaches the threshold (at least 1), if freezing is on.
pub fn provider_failure_step(
    fail_count: i32,
    window_start_unix: i64,
    now_unix: i64,
    fail_window_secs: i64,
    threshold: i32,
    freeze_secs: i64,
) -> (r: ProviderFailure)
    ensures
        r.window_reset == (now_unix as int - window_start_unix as int > (if fail_window_secs < 1 {
            1
        } else {
            fail_window_secs as int
        })),
        r.fail_count == (if r.window_reset {
            1
        } else if fail_count as int + 1 > i32::MAX {
            i32::MAX as int
        } else {
            fail_count as int + 1
        }),
        r.froze == (r.fail_count >= (if threshold < 1 {
            1
        } else {
            threshold as int
        }) && freeze_secs > 0),
{
    let window: i64 = if fail_window_secs < 1 {
        1
    } else {
        fail_window_secs
    };
    let elapsed: i128 = now_unix as i128 - window_start_unix as i128;
    let reset = elapsed > window as i128;
    let base: i32 = if reset {
        0
    } else {
        fail_count
    };
    let count: i32 = if base == i32::MAX {
        i32::MAX
    } else {
        base + 1
    };
    let limit: i32 = if threshold < 1 {
        1
    } else {
        threshold
    };
    ProviderFailure { window_reset: reset, fail_count: count, froze: count >= limit && freeze_secs > 0 }
}

/// The wait before the next claim when a per-minute limit is hit: none without a limit (0)
/// or while the count this minute is within it; otherwise the seconds to the next minute, at
/// least 1.
pub fn claim_rate_verdict(limit: u64, count: i64, wait_secs: i64) -> (r: Option<i64>)
    ensures
        r == (if limit == 0 || count as int <= (if limit > i64::MAX {
            i64::MAX as int
        } else {
            limit as int
        }) {
            None
        } else {
            Some(if wait_secs < 1 {
                1i64
            } else {
                wait_secs
            })
        }),
{
    if limit == 0 {
        return None;
    }
    let l: i64 = if limit > 9223372036854775807u64 {
        i64::MAX
    } else {
        limit as i64
    };
    if count > l {
        Some(if wait_secs < 1 {
            1
        } else {
            wait_secs
        })
    } else {
        None
    }
}

/// How many included user operations the hub cost average looks back on: within 1..=10000.
pub fn userop_cost_lookback(lookback: i64) -> (n: i64)
    ensures
        n == (if lookback < 1 {
            1
        } else if lookback > 10000 {
            10000
        } else {
            lookback as int
        }),
{
    if lookback < 1 {
        1
    } else if lookback > 10000 {
        10000
    } else {
        lookback
    }
}

/// The first stored cost text that does not read as a 256-bit value, if any.
pub open spec fn first_unreadable(texts: Seq<Seq<char>>) -> Option<Seq<char>>
    decreases texts.len(),
{
    if texts.len() == 0 {
        None
    } else {
        match first_unreadable(texts.drop_last()) {
            Some(t) => Some(t),
            None => if u256_text_value(texts.last()) is None {
                Some(texts.last())
            } else {
                None
            },
        }
    }
}

/// The average gas cost of the included user operations looked back on, from the stored
/// decimal texts: none when there are none; an error naming the first text that does not
/// read as a 256-bit value; otherwise the saturating sum divided by the count, rounding down.
pub fn average_actual_gas_cost(texts: &Vec<String>) -> (r: Result<Option<[u8; 32]>, String>)
    ensures
        match first_unreadable(texts@.map_values(|s: String| s@)) {
            Some(t) => r matches Err(m) && m@ == "parse actual_gas_cost_wei numeric: "@ + t,
            None => r matches Ok(a) && (texts@.len() == 0 ==> a is None) && (texts@.len() > 0 ==> (
            a matches Some(w) && be_value(w@) == saturating_sum(
                texts@.map_values(|s: String| u256_text_value(s@)->0),
            ) / (texts@.len() as nat))),
        },
{
    let ghost views = texts@.map_values(|s: String| s@);
    let mut values: Vec<[u8; 32]> = Vec::new();
    let mut i: usize = 0;
    assert(views.take(0) =~= Seq::<Seq<char>>::empty());
    while i < texts.len()
        invariant
            i <= texts@.len(),
            views == texts@.map_values(|s: String| s@),
            first_unreadable(views.take(i as int)) is None,
            values@.len() == i,
            forall|k: int|
                0 <= k < i ==> u256_text_value(views[k]) == Some(be_value(#[trigger] values@[k]@)),
        decreases texts@.len() - i,
    {
        assert(views.take(i + 1).drop_last() =~= views.take(i as int));
        assert(views.take(i + 1).last() == texts@[i as int]@);
        match u256_from_text(texts[i].as_str()) {
            Some(w) => {
                values.push(w);
            },
            None => {
                proof {
                    lemma_unreadable_persists(views, i + 1);
                    assert(views.take(views.len() as int) =~= views);
                }
                return Err(concat_str("parse actual_gas_cost_wei numeric: ", texts[i].as_str()));
            },
        }
        i = i + 1;
    }
    assert(views.take(i as int) =~= views);
    assert(word_values(values@) =~= texts@.map_values(|s: String| u256_text_value(s@)->0));
    Ok(average_word(&values))
}

proof fn lemma_unreadable_persists(s: Seq<Seq<char>>, j: int)
    requires
        0 <= j <= s.len(),
        first_unreadable(s.take(j)) is Some,
    ensures
        first_unreadable(s) == first_unreadable(s.take(j)),
    decreases s.len() - j,
{
    if j < s.len() {
        assert(s.take(j + 1).drop_last() =~= s.take(j));
        lemma_unreadable_persists(s, j + 1);
    } else {
        assert(s.take(j) =~= s);
    }
}

} // verus!
