use escrow_pool::curve::{floor_sqrt, price_swap, quote_deposit, quote_withdraw};
use escrow_pool::error::ErrorCode;

#[test]
fn swap_of_hundred_on_thousand_pool_pays_ninety() {
    assert_eq!(price_swap(1000, 1000, 100, 30), Ok(90));
}

#[test]
fn swap_without_fee() {
    // 100 * 1000 / 1100 = 90.9, rounded down
    assert_eq!(price_swap(1000, 1000, 100, 0), Ok(90));
    // 500 * 2000 / 1500 = 666.6, rounded down
    assert_eq!(price_swap(1000, 2000, 500, 0), Ok(666));
}

#[test]
fn swap_of_zero_is_refused() {
    assert_eq!(price_swap(1000, 1000, 0, 30), Err(ErrorCode::InvalidParameter));
}

#[test]
fn swap_paying_nothing_is_refused() {
    assert_eq!(price_swap(1_000_000, 10, 1, 0), Err(ErrorCode::InvalidParameter));
    assert_eq!(price_swap(1000, 1000, 100, 10_000), Err(ErrorCode::InvalidParameter));
}

#[test]
fn swap_with_fee_above_maximum_is_refused() {
    assert_eq!(price_swap(1000, 1000, 100, 10_001), Err(ErrorCode::InvalidParameter));
}

#[test]
fn swap_on_largest_values_does_not_overflow() {
    let out = price_swap(u64::MAX, u64::MAX, u64::MAX, 0).unwrap();
    assert_eq!(out, u64::MAX / 2);
}

#[test]
fn swap_is_monotonic_in_input() {
    let mut last = 0u64;
    for amount in 1..2000u64 {
        if let Ok(out) = price_swap(1000, 1000, amount, 30) {
            assert!(out >= last);
            last = out;
        }
    }
    assert!(last > 0);
}

#[test]
fn swap_never_lowers_reserve_product() {
    for amount in [1u64, 7, 100, 999, 5000] {
        if let Ok(out) = price_swap(1000, 1000, amount, 30) {
            assert!((1000 + amount as u128) * (1000 - out as u128) >= 1_000_000);
        }
    }
}

#[test]
fn first_deposit_mints_square_root() {
    assert_eq!(quote_deposit(0, 0, 0, 1000, 1000), Ok((1000, 1000)));
    assert_eq!(quote_deposit(0, 0, 0, 2, 8), Ok((8, 4)));
    assert_eq!(quote_deposit(0, 0, 0, 3, 3), Ok((3, 3)));
    assert_eq!(quote_deposit(0, 0, 0, 2, 3), Ok((3, 2)));
}

#[test]
fn deposit_rounds_required_amount_up_and_lp_down() {
    // y = ceil(10 * 300 / 700) = ceil(4.28) = 5; lp = floor(10 * 1000 / 700) = 14
    assert_eq!(quote_deposit(700, 300, 1000, 10, 0), Ok((5, 14)));
    assert_eq!(quote_deposit(1000, 1000, 1000, 100, 0), Ok((100, 100)));
}

#[test]
fn deposit_errors() {
    assert_eq!(quote_deposit(1000, 1000, 1000, 0, 5), Err(ErrorCode::InvalidParameter));
    assert_eq!(quote_deposit(0, 0, 0, 5, 0), Err(ErrorCode::InvalidParameter));
    assert_eq!(quote_deposit(0, 1000, 1000, 5, 0), Err(ErrorCode::InvalidParameter));
    assert_eq!(quote_deposit(1000, 1000, 1, 5, 0), Err(ErrorCode::InvalidParameter));
}

#[test]
fn withdraw_is_proportional_and_rounds_down() {
    assert_eq!(quote_withdraw(1000, 500, 300, 100), Ok((333, 166)));
    assert_eq!(quote_withdraw(1000, 500, 300, 300), Ok((1000, 500)));
}

#[test]
fn withdraw_errors() {
    assert_eq!(quote_withdraw(1000, 500, 0, 1), Err(ErrorCode::InvalidParameter));
    assert_eq!(quote_withdraw(1000, 500, 300, 0), Err(ErrorCode::InvalidParameter));
    assert_eq!(quote_withdraw(1000, 500, 300, 301), Err(ErrorCode::InsufficientFunds));
}

#[test]
fn deposit_then_withdraw_returns_no_more_than_deposited() {
    let (rx, ry, s, ax) = (700u64, 300u64, 1000u64, 10u64);
    let (y, lp) = quote_deposit(rx, ry, s, ax, 0).unwrap();
    let (wx, wy) = quote_withdraw(rx + ax, ry + y, s + lp, lp).unwrap();
    assert!(wx <= ax);
    assert!(wy <= y);
    let (y0, lp0) = quote_deposit(0, 0, 0, 1000, 1000).unwrap();
    assert_eq!(quote_withdraw(1000, y0, lp0, lp0), Ok((1000, 1000)));
}

#[test]
fn floor_sqrt_values() {
    assert_eq!(floor_sqrt(0), 0);
    assert_eq!(floor_sqrt(1), 1);
    assert_eq!(floor_sqrt(15), 3);
    assert_eq!(floor_sqrt(16), 4);
    assert_eq!(floor_sqrt(u128::MAX), u64::MAX);
}
