use transfer_hook_mania::volatility::VolatilityIndex;
use transfer_hook_mania::TransferHookError;

fn fresh_index() -> VolatilityIndex {
    VolatilityIndex::new(3000, 1000, [5u8; 32], 0)
}

#[test]
fn new_index_starts_empty() {
    let v = fresh_index();
    assert_eq!(v.price_history, [0u64; 24]);
    assert_eq!(v.current_index, 0);
    assert_eq!(v.last_update_time, 0);
    assert_eq!(v.volatility, 0);
    assert_eq!(v.up_threshold, 3000);
    assert_eq!(v.down_threshold, 1000);
    assert_eq!(v.sol_mint, [5u8; 32]);
}

#[test]
fn alternating_prices_fill_the_window_to_5000() {
    // Feeding 100, 150, 100, 150, ... at exactly one-hour spacing until the
    // 24-slot window fills yields (150 - 100) * 10000 / 100 = 5000.
    let mut v = fresh_index();
    for k in 0..24u64 {
        let price: u64 = if k % 2 == 0 { 100 } else { 150 };
        let now: i64 = (k as i64 + 1) * 3600;
        v.update(price, now).unwrap();
    }
    assert_eq!(v.volatility, 5000);
    // The cursor wrapped around the ring exactly once.
    assert_eq!(v.current_index, 0);
    assert_eq!(v.last_update_time, 24 * 3600);
}

#[test]
fn updates_under_an_hour_apart_change_nothing() {
    let mut v = fresh_index();
    v.update(100, 3600).unwrap();
    let before = v;
    v.update(999, 3600 + 3599).unwrap();
    assert_eq!(v, before);
}

#[test]
fn first_sample_alone_gives_zero_spread() {
    let mut v = fresh_index();
    v.update(100, 3600).unwrap();
    assert_eq!(v.volatility, 0);
    assert_eq!(v.price_history[0], 100);
    assert_eq!(v.current_index, 1);
    assert_eq!(v.last_update_time, 3600);
}

#[test]
fn zero_samples_leave_volatility_untouched() {
    // A zero price is recorded in the ring but never enters the statistic:
    // with no non-zero sample the volatility is left as it was.
    let mut v = fresh_index();
    v.update(0, 3600).unwrap();
    assert_eq!(v.volatility, 0);
    assert_eq!(v.current_index, 1);
    // Now one real sample, then another zero: the statistic still only sees
    // the non-zero sample.
    v.update(200, 2 * 3600).unwrap();
    v.update(0, 3 * 3600).unwrap();
    assert_eq!(v.volatility, 0);
    assert_eq!(v.price_history[1], 200);
}

#[test]
fn oversized_spread_is_a_fault_and_commits_nothing() {
    let mut v = fresh_index();
    v.update(1, 3600).unwrap();
    let before = v;
    // min 1, max u64::MAX: the spread in basis points does not fit 64 bits.
    let r = v.update(u64::MAX, 2 * 3600);
    assert_eq!(r.unwrap_err(), TransferHookError::ArithmeticFault);
    assert_eq!(v, before);
}

#[test]
fn threshold_comparison_is_observable() {
    let mut v = fresh_index();
    assert!(!v.is_above_up_threshold());
    assert!(v.is_below_down_threshold());
    v.update(100, 3600).unwrap();
    v.update(150, 2 * 3600).unwrap();
    // Spread 5000 basis points: above the up threshold of 3000.
    assert!(v.is_above_up_threshold());
    assert!(!v.is_below_down_threshold());
}
