use vstd::prelude::*;

verus! {

/// `2^k`.
pub open spec fn two_pow(k: nat) -> nat
    decreases k,
{
    if k == 0 {
        1
    } else {
        2 * two_pow((k - 1) as nat)
    }
}

pub proof fn lemma_two_pow_monotone(a: nat, b: nat)
    requires
        a <= b,
    ensures
        1 <= two_pow(a) <= two_pow(b),
    decreases b,
{
    if b > 0 {
        if a < b {
            lemma_two_pow_monotone(a, (b - 1) as nat);
        } else {
            lemma_two_pow_monotone((b - 1) as nat, (b - 1) as nat);
        }
    }
}

/// The retry exponent: the attempt count clamped to `0..=10`.
pub open spec fn retry_exponent(attempts: int) -> nat {
    if attempts < 0 {
        0
    } else if attempts > 10 {
        10
    } else {
        attempts as nat
    }
}

/// Seconds to wait before the next retry: `2^attempts`, attempts clamped to `0..=10`, capped at
/// five minutes.
pub open spec fn retry_secs(attempts: int) -> nat {
    let p = two_pow(retry_exponent(attempts));
    if p < 300 {
        p
    } else {
        300
    }
}

/// A `Duration` of the given number of whole seconds (`Duration::from_secs`).
pub uninterp spec fn duration_of_secs(secs: u64) -> std::time::Duration;

/// `std::time::Duration::from_secs`: the contract claims only that the result is the duration
/// named by `duration_of_secs` for the same number of seconds.
#[verifier::external_body]
pub(crate) fn duration_from_secs(secs: u64) -> (d: std::time::Duration)
    ensures
        d == duration_of_secs(secs),
{
    std::time::Duration::from_secs(secs)
}

/// Seconds of exponential backoff after `attempts` failed attempts.
pub fn retry_delay_secs(attempts: i32) -> (s: u64)
    ensures
        s == retry_secs(attempts as int),
{
    let shift: u32 = if attempts < 0 {
        0
    } else if attempts > 10 {
        10
    } else {
        attempts as u32
    };
    let mut base: u64 = 1;
    let mut i: u32 = 0;
    while i < shift
        invariant
            i <= shift <= 10,
            base == two_pow(i as nat),
        decreases shift - i,
    {
        proof {
            lemma_two_pow_monotone(i as nat, 9);
            reveal_with_fuel(two_pow, 10);
            assert(two_pow(9) == 512);
        }
        base = base * 2;
        i = i + 1;
    }
    if base < 300 {
        base
    } else {
        300
    }
}

/// Backoff before the next retry of a job that has failed `attempts` times.
pub fn retry_delay(attempts: i32) -> (d: std::time::Duration)
    ensures
        d == duration_of_secs(retry_secs(attempts as int) as u64),
{
    let s = retry_delay_secs(attempts);
    duration_from_secs(s)
}

/// The retry backoff never shrinks as attempts grow, is at least one second and at most five
/// minutes, and is exactly five minutes from the tenth attempt on.
pub proof fn lemma_retry_secs_monotone_and_capped(a: int, b: int)
    ensures
        a <= b ==> retry_secs(a) <= retry_secs(b),
        1 <= retry_secs(a) <= 300,
        a >= 10 ==> retry_secs(a) == 300,
        a <= 0 ==> retry_secs(a) == 1,
{
    if a <= b {
        lemma_two_pow_monotone(retry_exponent(a), retry_exponent(b));
    }
    lemma_two_pow_monotone(0, retry_exponent(a));
    if a >= 10 {
        reveal_with_fuel(two_pow, 11);
        assert(two_pow(10) == 1024);
    }
}

/// Cool-down of a circuit breaker that has failed `fail_count` times.
pub open spec fn breaker_backoff(fail_count: int) -> int {
    if fail_count == 0 {
        0
    } else if fail_count == 1 {
        60
    } else if fail_count == 2 {
        300
    } else if fail_count == 3 {
        1800
    } else if fail_count == 4 {
        21600
    } else {
        86400
    }
}

/// Cool-down (seconds) of a circuit breaker after `fail_count` failures.
pub fn breaker_backoff_secs(fail_count: i32) -> (s: i64)
    ensures
        s == breaker_backoff(fail_count as int),
{
    match fail_count {
        0 => 0,
        1 => 60,
        2 => 300,
        3 => 1800,
        4 => 21600,
        _ => 86400,
    }
}

/// For non-negative failure counts the breaker cool-down never shrinks as failures add up, and
/// it never exceeds one day.
pub proof fn lemma_breaker_backoff_monotone(a: int, b: int)
    requires
        0 <= a <= b,
    ensures
        breaker_backoff(a) <= breaker_backoff(b) <= 86400,
{
}

/// Failure count and cool-down after one more weighted failure: the weight is clamped to
/// `1..=100` and added to the previous count (0 when there is none), saturating at `i32::MAX`.
pub open spec fn breaker_next(current: Option<i32>, weight: i32) -> (i32, int) {
    let w: int = if weight < 1 {
        1
    } else if weight > 100 {
        100
    } else {
        weight as int
    };
    let prev: int = match current {
        Some(c) => c as int,
        None => 0,
    };
    let sum = prev + w;
    let next: i32 = if sum > i32::MAX {
        i32::MAX
    } else {
        sum as i32
    };
    (next, breaker_backoff(next as int))
}

/// The new failure count and cool-down that recording a weighted breaker failure stores.
pub fn breaker_next_failure(current: Option<i32>, weight: i32) -> (r: (i32, i64))
    ensures
        r.0 == breaker_next(current, weight).0,
        r.1 == breaker_next(current, weight).1,
{
    let w: i32 = if weight < 1 {
        1
    } else if weight > 100 {
        100
    } else {
        weight
    };
    let prev: i32 = match current {
        Some(c) => c,
        None => 0,
    };
    let next: i32 = if prev > i32::MAX - w {
        i32::MAX
    } else {
        prev + w
    };
    (next, breaker_backoff_secs(next))
}

/// `a * b`, saturating at `u64::MAX`.
pub open spec fn sat_mul(a: nat, b: nat) -> nat {
    if a * b > u64::MAX {
        u64::MAX as nat
    } else {
        a * b
    }
}

/// `a + b`, saturating at `u64::MAX`.
pub open spec fn sat_add(a: nat, b: nat) -> nat {
    if a + b > u64::MAX {
        u64::MAX as nat
    } else {
        a + b
    }
}

fn saturating_mul_u64(a: u64, b: u64) -> (r: u64)
    ensures
        r == sat_mul(a as nat, b as nat),
{
    match a.checked_mul(b) {
        Some(v) => v,
        None => u64::MAX,
    }
}

/// Seconds spanned by a lock period given in Tron blocks (3 s each), saturating.
pub fn lock_period_secs_from_blocks(lock_period_blocks: u64) -> (s: u64)
    ensures
        s == sat_mul(lock_period_blocks as nat, 3),
{
    saturating_mul_u64(lock_period_blocks, 3)
}

/// Whole hours (rounded up, at least one) spanned by a lock period in Tron blocks.
pub open spec fn lock_period_hours(blocks: nat) -> nat {
    let h = sat_add(sat_mul(blocks, 3), 3599) / 3600;
    if h < 1 {
        1
    } else {
        h
    }
}

/// Rental duration, in whole hours, that covers a lock period of `lock_period_blocks` blocks.
pub fn duration_hours_for_lock_period_blocks(lock_period_blocks: u64) -> (h: u64)
    ensures
        h == lock_period_hours(lock_period_blocks as nat),
{
    let secs = saturating_mul_u64(lock_period_blocks, 3);
    let sum: u64 = match secs.checked_add(3599) {
        Some(v) => v,
        None => u64::MAX,
    };
    let hours = sum / 3600;
    if hours < 1 {
        1
    } else {
        hours
    }
}

/// A lock period that fits in `u64` seconds is covered by the hours computed for it.
pub proof fn lemma_lock_period_hours_cover(blocks: nat)
    requires
        blocks * 3 + 3599 <= u64::MAX,
    ensures
        lock_period_hours(blocks) * 3600 >= blocks * 3,
        lock_period_hours(blocks) >= 1,
{
}

/// Fee-limit policy for Tron transactions.
#[derive(Debug, Clone, Copy)]
pub struct FeePolicy {
    /// Cap (sun) applied after headroom.
    pub fee_limit_cap_sun: u64,
    /// Extra headroom applied as parts-per-million.
    pub fee_limit_headroom_ppm: u64,
}

/// The fee limit for a base fee: headroom (ppm, at most 100%) added, saturating, then capped.
pub open spec fn fee_limit(cap: nat, ppm: nat, base: nat) -> nat {
    let p = if ppm < 1_000_000 {
        ppm
    } else {
        1_000_000
    };
    let headroom = sat_mul(base, p) / 1_000_000;
    let total = sat_add(base, headroom);
    if total < cap {
        total
    } else {
        cap
    }
}

impl FeePolicy {
    /// Applies headroom and the cap to a base fee limit.
    pub fn apply(&self, base: u64) -> (r: u64)
        ensures
            r == fee_limit(
                self.fee_limit_cap_sun as nat,
                self.fee_limit_headroom_ppm as nat,
                base as nat,
            ),
    {
        let p = if self.fee_limit_headroom_ppm < 1_000_000 {
            self.fee_limit_headroom_ppm
        } else {
            1_000_000
        };
        let headroom = saturating_mul_u64(base, p) / 1_000_000;
        let total = match base.checked_add(headroom) {
            Some(v) => v,
            None => u64::MAX,
        };
        if total < self.fee_limit_cap_sun {
            total
        } else {
            self.fee_limit_cap_sun
        }
    }
}

/// The energy a contract call's fee limit is sized for: the node's estimate, or 50,000 when it
/// estimates none (some networks report 0 for calls that change state).
pub fn energy_for_fee_limit(estimated: u64) -> (e: u64)
    ensures
        e == if estimated == 0 {
            50_000
        } else {
            estimated
        },
{
    if estimated == 0 {
        50_000
    } else {
        estimated
    }
}

/// The fee limit of a contract call: `energy * energy_fee + tx_size * tx_fee` (each step
/// saturating), with the policy's headroom and cap.
pub open spec fn call_fee_limit(p: FeePolicy, energy: nat, tx_size: nat, energy_fee: nat, tx_fee: nat) -> nat {
    fee_limit(
        p.fee_limit_cap_sun as nat,
        p.fee_limit_headroom_ppm as nat,
        sat_add(sat_mul(energy, energy_fee), sat_mul(tx_size, tx_fee)),
    )
}

/// Computes the fee limit of a contract call from its energy, its signed size and the chain's
/// energy and bandwidth prices.
pub fn call_fee_limit_sun(p: &FeePolicy, energy: u64, tx_size: u64, energy_fee: u64, tx_fee: u64) -> (r: u64)
    ensures
        r == call_fee_limit(*p, energy as nat, tx_size as nat, energy_fee as nat, tx_fee as nat),
{
    let e = saturating_mul_u64(energy, energy_fee);
    let n = saturating_mul_u64(tx_size, tx_fee);
    let base = match e.checked_add(n) {
        Some(v) => v,
        None => u64::MAX,
    };
    p.apply(base)
}

/// A fee limit as the signed transaction carries it: it must fit `i64`.
pub fn fee_limit_for_signing(fee: u64) -> (r: Result<i64, &'static str>)
    ensures
        fee <= i64::MAX ==> r == Ok::<i64, &'static str>(fee as i64),
        fee > i64::MAX ==> (r matches Err(m) && m@ == "fee_limit_sun out of range"@),
{
    if fee <= 9223372036854775807u64 {
        Ok(fee as i64)
    } else {
        Err("fee_limit_sun out of range")
    }
}

/// The call is signed a third time only when the fee limit changed with the signed size.
pub fn needs_resign(fee_limit_first: u64, fee_limit_second: u64) -> (b: bool)
    ensures
        b == (fee_limit_first != fee_limit_second),
{
    fee_limit_first != fee_limit_second
}

/// The fee limit never exceeds the cap and never falls below the base fee (unless the cap is
/// lower).
pub proof fn lemma_fee_limit_bounds(cap: nat, ppm: nat, base: nat)
    requires
        cap <= u64::MAX,
        base <= u64::MAX,
    ensures
        fee_limit(cap, ppm, base) <= cap,
        fee_limit(cap, ppm, base) >= (if base < cap {
            base
        } else {
            cap
        }),
{
}

} // verus!
