use std::time::Duration;
use untron_solver::backoff::{
    breaker_backoff_secs, breaker_next_failure, duration_hours_for_lock_period_blocks,
    lock_period_secs_from_blocks, retry_delay, retry_delay_secs, FeePolicy,
    call_fee_limit_sun, energy_for_fee_limit, fee_limit_for_signing, needs_resign,
};

#[test]
fn breaker_backoff_schedule_is_stable() {
    assert_eq!(breaker_backoff_secs(0), 0);
    assert_eq!(breaker_backoff_secs(1), 60);
    assert_eq!(breaker_backoff_secs(2), 300);
    assert_eq!(breaker_backoff_secs(3), 1800);
    assert_eq!(breaker_backoff_secs(4), 21600);
    assert_eq!(breaker_backoff_secs(5), 86400);
    assert_eq!(breaker_backoff_secs(100), 86400);
}

#[test]
fn retry_delay_grows_monotonically_until_cap() {
    let mut prev = Duration::from_secs(0);
    for attempts in 0..=16 {
        let d = retry_delay(attempts);
        assert!(
            d >= prev,
            "retry_delay regressed at attempts={attempts}: prev={prev:?} next={d:?}"
        );
        assert!(d <= Duration::from_secs(300));
        prev = d;
    }
}

#[test]
fn retry_delay_caps_at_five_minutes_after_ten_attempts() {
    for attempts in [10, 11, 20, i32::MAX] {
        assert_eq!(retry_delay(attempts), Duration::from_secs(300));
    }
}

#[test]
fn retry_delay_clamps_negative_attempts_to_initial_backoff() {
    assert_eq!(retry_delay(-1), Duration::from_secs(1));
    assert_eq!(retry_delay(i32::MIN), Duration::from_secs(1));
}

#[test]
fn retry_delay_doubles_before_the_cap() {
    assert_eq!(retry_delay_secs(0), 1);
    assert_eq!(retry_delay_secs(3), 8);
    assert_eq!(retry_delay_secs(8), 256);
    assert_eq!(retry_delay_secs(9), 300);
}

#[test]
fn breaker_failure_weight_accumulates() {
    let (count, secs) = breaker_next_failure(None, 1);
    assert_eq!((count, secs), (1, 60));
    let (count, secs) = breaker_next_failure(Some(1), 2);
    assert_eq!((count, secs), (3, 1800));
}

#[test]
fn lock_period_conversions() {
    assert_eq!(lock_period_secs_from_blocks(28_800), 86_400);
    assert_eq!(lock_period_secs_from_blocks(u64::MAX), u64::MAX);
    assert_eq!(duration_hours_for_lock_period_blocks(0), 1);
    assert_eq!(duration_hours_for_lock_period_blocks(1200), 1);
    assert_eq!(duration_hours_for_lock_period_blocks(1201), 2);
    assert_eq!(duration_hours_for_lock_period_blocks(28_800), 24);
}

#[test]
fn fee_policy_adds_headroom_then_caps() {
    let p = FeePolicy { fee_limit_cap_sun: 150, fee_limit_headroom_ppm: 100_000 };
    assert_eq!(p.apply(100), 110);
    assert_eq!(p.apply(140), 150);
    let full = FeePolicy { fee_limit_cap_sun: u64::MAX, fee_limit_headroom_ppm: 5_000_000 };
    assert_eq!(full.apply(100), 200);
}

#[test]
fn call_fee_limit_prices_energy_and_bandwidth() {
    let p = FeePolicy { fee_limit_cap_sun: 1_000_000_000, fee_limit_headroom_ppm: 100_000 };
    assert_eq!(energy_for_fee_limit(0), 50_000);
    assert_eq!(energy_for_fee_limit(7), 7);
    // 50_000 * 420 + 300 * 1_000 = 21_300_000, plus 10% headroom.
    assert_eq!(call_fee_limit_sun(&p, 50_000, 300, 420, 1_000), 23_430_000);
    let capped = FeePolicy { fee_limit_cap_sun: 5_000_000, fee_limit_headroom_ppm: 0 };
    assert_eq!(call_fee_limit_sun(&capped, u64::MAX, 1, 2, 3), 5_000_000);
    assert_eq!(fee_limit_for_signing(12), Ok(12));
    assert_eq!(fee_limit_for_signing(u64::MAX), Err("fee_limit_sun out of range"));
    assert!(needs_resign(1, 2));
    assert!(!needs_resign(3, 3));
}
