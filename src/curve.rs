//! Constant-product pricing: swaps with a fee, and proportional deposit and
//! withdrawal quotes. Every rounding favours the pool.
use vstd::prelude::*;
use vstd::arithmetic::div_mod::{lemma_fundamental_div_mod, lemma_mod_pos_bound};
use vstd::arithmetic::mul::{lemma_mul_inequality, lemma_mul_nonnegative};
use crate::error::ErrorCode;

verus! {

/// The fee's denominator: fees are in basis points.
pub const FEE_DENOMINATOR: u64 = 10000;

/// The part of `amount_in` that is priced once the fee is taken, rounded down.
pub open spec fn after_fee(amount_in: int, fee_bps: int) -> int {
    amount_in * (10000 - fee_bps) / 10000
}

/// What a swap of `amount_in` pays out: `a * reserve_out / (reserve_in + a)`
/// rounded down, with `a` the input after the fee. This is `reserve_out` less
/// the new output reserve rounded up, so the product of the reserves never
/// falls.
pub open spec fn swap_out(reserve_in: int, reserve_out: int, amount_in: int, fee_bps: int) -> int {
    let a = after_fee(amount_in, fee_bps);
    if reserve_in + a <= 0 {
        0
    } else {
        a * reserve_out / (reserve_in + a)
    }
}

/// `n / d` rounded up.
pub open spec fn ceil_div(n: int, d: int) -> int {
    (n + d - 1) / d
}

/// Whether `r` is the integer square root of `n`.
pub open spec fn is_floor_sqrt(r: int, n: int) -> bool {
    r >= 0 && r * r <= n < (r + 1) * (r + 1)
}

/// The integer square root of `n`, for `n >= 0`.
pub open spec fn sqrt_of(n: int) -> int {
    choose|r: int| is_floor_sqrt(r, n)
}

proof fn lemma_floor_sqrt_unique(r: int, n: int)
    requires
        is_floor_sqrt(r, n),
    ensures
        sqrt_of(n) == r,
{
    let s = sqrt_of(n);
    assert(is_floor_sqrt(s, n));
    assert(s == r) by (nonlinear_arith)
        requires
            r >= 0,
            s >= 0,
            r * r <= n < (r + 1) * (r + 1),
            s * s <= n < (s + 1) * (s + 1),
    ;
}

/// The share of `reserve` that `lp_amount` of `lp_supply` claims, rounded down.
pub open spec fn share_of(reserve: int, lp_supply: int, lp_amount: int) -> int {
    lp_amount * reserve / lp_supply
}

proof fn lemma_div_bounds(n: int, d: int)
    requires
        n >= 0,
        d > 0,
    ensures
        0 <= n / d,
        (n / d) * d <= n,
        n < (n / d + 1) * d,
{
    lemma_fundamental_div_mod(n, d);
    lemma_mod_pos_bound(n, d);
    assert(0 <= n / d) by (nonlinear_arith)
        requires
            n == d * (n / d) + n % d,
            0 <= n % d < d,
            n >= 0,
            d > 0,
    ;
    assert((n / d) * d <= n && n < (n / d + 1) * d) by (nonlinear_arith)
        requires
            n == d * (n / d) + n % d,
            0 <= n % d < d,
    ;
}

/// A `q` with `q * d <= n` is at most `n / d`.
proof fn lemma_le_div(q: int, n: int, d: int)
    requires
        n >= 0,
        d > 0,
        q * d <= n,
    ensures
        q <= n / d,
{
    lemma_div_bounds(n, d);
    let f = n / d;
    assert(q <= f) by (nonlinear_arith)
        requires
            q * d <= n,
            n < (f + 1) * d,
            d > 0,
    ;
}

/// `n / d` is at most `m / d` when `n <= m`.
proof fn lemma_div_monotone(n: int, m: int, d: int)
    requires
        0 <= n <= m,
        d > 0,
    ensures
        n / d <= m / d,
{
    lemma_div_bounds(n, d);
    lemma_le_div(n / d, m, d);
}

proof fn lemma_after_fee_bounds(amount_in: int, fee_bps: int)
    requires
        amount_in >= 0,
        0 <= fee_bps <= 10000,
    ensures
        0 <= after_fee(amount_in, fee_bps) <= amount_in,
{
    lemma_mul_nonnegative(amount_in, 10000 - fee_bps);
    lemma_mul_inequality(10000 - fee_bps, 10000, amount_in);
    assert(amount_in * (10000 - fee_bps) <= amount_in * 10000) by (nonlinear_arith)
        requires
            amount_in >= 0,
            10000 - fee_bps <= 10000,
    ;
    lemma_div_bounds(amount_in * (10000 - fee_bps), 10000);
}

proof fn lemma_swap_out_bounds(reserve_in: int, reserve_out: int, amount_in: int, fee_bps: int)
    requires
        reserve_in >= 0,
        reserve_out >= 0,
        amount_in >= 0,
        0 <= fee_bps <= 10000,
    ensures
        0 <= swap_out(reserve_in, reserve_out, amount_in, fee_bps) <= reserve_out,
        reserve_in + after_fee(amount_in, fee_bps) > 0 ==> swap_out(reserve_in, reserve_out, amount_in, fee_bps)
            * (reserve_in + after_fee(amount_in, fee_bps)) <= after_fee(amount_in, fee_bps) * reserve_out,
{
    lemma_after_fee_bounds(amount_in, fee_bps);
    let a = after_fee(amount_in, fee_bps);
    if reserve_in + a > 0 {
        let d = reserve_in + a;
        let n = a * reserve_out;
        lemma_mul_nonnegative(a, reserve_out);
        lemma_div_bounds(n, d);
        assert(n <= reserve_out * d) by (nonlinear_arith)
            requires
                n == a * reserve_out,
                a <= d,
                reserve_out >= 0,
        ;
        lemma_le_div(n / d, reserve_out * d, d);
        assert(reserve_out * d / d == reserve_out) by (nonlinear_arith)
            requires
                d > 0,
        ;
    }
}

/// The amount a swap pays out, or why it is refused: a fee above one hundred
/// percent, a zero input, or an input too small to pay anything out.
pub open spec fn swap_outcome(reserve_in: u64, reserve_out: u64, amount_in: u64, fee_bps: u16) -> Result<u64, ErrorCode> {
    if fee_bps > 10000 || amount_in == 0 {
        Err(ErrorCode::InvalidParameter)
    } else if swap_out(reserve_in as int, reserve_out as int, amount_in as int, fee_bps as int) == 0 {
        Err(ErrorCode::InvalidParameter)
    } else {
        Ok(swap_out(reserve_in as int, reserve_out as int, amount_in as int, fee_bps as int) as u64)
    }
}

/// Prices a swap of `amount_in` against the reserves, taking the fee from
/// the input first.
pub fn price_swap(reserve_in: u64, reserve_out: u64, amount_in: u64, fee_bps: u16) -> (r: Result<u64, ErrorCode>)
    ensures
        r == swap_outcome(reserve_in, reserve_out, amount_in, fee_bps),
        r matches Ok(out) ==> 0 < out <= reserve_out,
{
    if fee_bps > 10000 || amount_in == 0 {
        return Err(ErrorCode::InvalidParameter);
    }
    proof {
        lemma_after_fee_bounds(amount_in as int, fee_bps as int);
        lemma_swap_out_bounds(reserve_in as int, reserve_out as int, amount_in as int, fee_bps as int);
    }
    let keep: u128 = (FEE_DENOMINATOR - fee_bps as u64) as u128;
    assert(amount_in as int * keep <= 0xffff_ffff_ffff_ffff * 10000) by (nonlinear_arith)
        requires
            amount_in <= 0xffff_ffff_ffff_ffff,
            keep <= 10000,
    ;
    let a: u128 = (amount_in as u128 * keep) / 10000;
    assert(a * reserve_out as int <= 0xffff_ffff_ffff_ffff * 0xffff_ffff_ffff_ffff) by (nonlinear_arith)
        requires
            a <= 0xffff_ffff_ffff_ffff,
            reserve_out <= 0xffff_ffff_ffff_ffff,
    ;
    let den: u128 = reserve_in as u128 + a;
    if den == 0 {
        return Err(ErrorCode::InvalidParameter);
    }
    let out: u128 = (a * reserve_out as u128) / den;
    if out == 0 || out > reserve_out as u128 {
        return Err(ErrorCode::InvalidParameter);
    }
    Ok(out as u64)
}

/// A larger input never pays out less, for the same reserves and fee.
pub proof fn lemma_swap_monotonic(reserve_in: int, reserve_out: int, amount_in: int, more_in: int, fee_bps: int)
    requires
        reserve_in >= 0,
        reserve_out >= 0,
        0 <= amount_in <= more_in,
        0 <= fee_bps <= 10000,
    ensures
        swap_out(reserve_in, reserve_out, amount_in, fee_bps) <= swap_out(reserve_in, reserve_out, more_in, fee_bps),
{
    lemma_after_fee_bounds(amount_in, fee_bps);
    lemma_after_fee_bounds(more_in, fee_bps);
    lemma_swap_out_bounds(reserve_in, reserve_out, amount_in, fee_bps);
    lemma_swap_out_bounds(reserve_in, reserve_out, more_in, fee_bps);
    let a1 = after_fee(amount_in, fee_bps);
    let a2 = after_fee(more_in, fee_bps);
    assert(amount_in * (10000 - fee_bps) <= more_in * (10000 - fee_bps)) by (nonlinear_arith)
        requires
            amount_in <= more_in,
            10000 - fee_bps >= 0,
    ;
    lemma_mul_nonnegative(amount_in, 10000 - fee_bps);
    lemma_div_monotone(amount_in * (10000 - fee_bps), more_in * (10000 - fee_bps), 10000);
    if reserve_in + a1 > 0 {
        let q1 = swap_out(reserve_in, reserve_out, amount_in, fee_bps);
        assert(q1 * (reserve_in + a2) <= a2 * reserve_out) by (nonlinear_arith)
            requires
                q1 * (reserve_in + a1) <= a1 * reserve_out,
                0 <= q1 <= reserve_out,
                a1 <= a2,
        ;
        lemma_mul_nonnegative(a2, reserve_out);
        lemma_le_div(q1, a2 * reserve_out, reserve_in + a2);
    }
}

/// A swap never lowers the product of the reserves: the pool receives the
/// whole input and pays out the priced amount.
pub proof fn lemma_swap_keeps_product(reserve_in: int, reserve_out: int, amount_in: int, fee_bps: int)
    requires
        reserve_in >= 0,
        reserve_out >= 0,
        amount_in >= 0,
        0 <= fee_bps <= 10000,
    ensures
        (reserve_in + amount_in) * (reserve_out - swap_out(reserve_in, reserve_out, amount_in, fee_bps))
            >= reserve_in * reserve_out,
{
    lemma_after_fee_bounds(amount_in, fee_bps);
    lemma_swap_out_bounds(reserve_in, reserve_out, amount_in, fee_bps);
    let a = after_fee(amount_in, fee_bps);
    let out = swap_out(reserve_in, reserve_out, amount_in, fee_bps);
    if reserve_in + a > 0 {
        assert((reserve_in + amount_in) * (reserve_out - out) >= reserve_in * reserve_out) by (nonlinear_arith)
            requires
                out * (reserve_in + a) <= a * reserve_out,
                0 <= out <= reserve_out,
                0 <= a <= amount_in,
                reserve_in >= 0,
        ;
    } else {
        assert(reserve_in == 0);
    }
}

/// The integer square root of `n`.
pub fn floor_sqrt(n: u128) -> (r: u64)
    ensures
        is_floor_sqrt(r as int, n as int),
{
    let mut lo: u128 = 0;
    let mut hi: u128 = 0x1_0000_0000_0000_0000;
    assert(n < hi * hi) by (nonlinear_arith)
        requires
            n <= 0xffff_ffff_ffff_ffff_ffff_ffff_ffff_ffff,
            hi == 0x1_0000_0000_0000_0000,
    ;
    while hi - lo > 1
        invariant
            lo < hi <= 0x1_0000_0000_0000_0000,
            lo * lo <= n,
            n < hi * hi,
        decreases hi - lo,
    {
        let mid: u128 = lo + (hi - lo) / 2;
        assert(mid * mid < 0x1_0000_0000_0000_0000 * 0x1_0000_0000_0000_0000) by (nonlinear_arith)
            requires
                mid < 0x1_0000_0000_0000_0000,
        ;
        if mid * mid <= n {
            lo = mid;
        } else {
            hi = mid;
        }
    }
    assert(hi == lo + 1);
    lo as u64
}

/// What a deposit of `amount_x` asks of the other asset and mints, or why it
/// is refused. On an empty pool (no LP supply) the depositor sets the rate
/// with `amount_y` and receives the integer square root of the product.
/// Otherwise the other asset is `amount_x` at the pool's rate rounded up,
/// and the LP minted is `amount_x`'s share of the reserve rounded down.
pub open spec fn deposit_outcome(reserve_x: u64, reserve_y: u64, lp_supply: u64, amount_x: u64, amount_y: u64) -> Result<(int, int), ErrorCode> {
    if amount_x == 0 {
        Err(ErrorCode::InvalidParameter)
    } else if lp_supply == 0 {
        if amount_y == 0 {
            Err(ErrorCode::InvalidParameter)
        } else {
            Ok((amount_y as int, sqrt_of(amount_x * amount_y)))
        }
    } else if reserve_x == 0 {
        Err(ErrorCode::InvalidParameter)
    } else {
        let y = ceil_div(amount_x * reserve_y, reserve_x as int);
        let lp = share_of(lp_supply as int, reserve_x as int, amount_x as int);
        if y > u64::MAX || lp > u64::MAX || lp == 0 {
            Err(ErrorCode::InvalidParameter)
        } else {
            Ok((y, lp))
        }
    }
}

/// Quotes a deposit: the amount of the second asset required and the LP
/// amount minted.
pub fn quote_deposit(reserve_x: u64, reserve_y: u64, lp_supply: u64, amount_x: u64, amount_y: u64) -> (r: Result<(u64, u64), ErrorCode>)
    ensures
        match r {
            Ok((y, lp)) => deposit_outcome(reserve_x, reserve_y, lp_supply, amount_x, amount_y)
                == Ok::<(int, int), ErrorCode>((y as int, lp as int)) && lp > 0,
            Err(e) => deposit_outcome(reserve_x, reserve_y, lp_supply, amount_x, amount_y)
                == Err::<(int, int), ErrorCode>(e),
        },
{
    if amount_x == 0 {
        return Err(ErrorCode::InvalidParameter);
    }
    if lp_supply == 0 {
        if amount_y == 0 {
            return Err(ErrorCode::InvalidParameter);
        }
        assert(amount_x as int * amount_y <= 0xffff_ffff_ffff_ffff * 0xffff_ffff_ffff_ffff) by (nonlinear_arith)
            requires
                amount_x <= 0xffff_ffff_ffff_ffff,
                amount_y <= 0xffff_ffff_ffff_ffff,
        ;
        let lp = floor_sqrt(amount_x as u128 * amount_y as u128);
        proof {
            lemma_floor_sqrt_unique(lp as int, amount_x * amount_y);
        }
        assert(lp > 0) by (nonlinear_arith)
            requires
                amount_x >= 1,
                amount_y >= 1,
                amount_x * amount_y < (lp + 1) * (lp + 1),
                lp >= 0,
        ;
        return Ok((amount_y, lp));
    }
    if reserve_x == 0 {
        return Err(ErrorCode::InvalidParameter);
    }
    assert(amount_x as int * reserve_y <= 0xffff_ffff_ffff_ffff * 0xffff_ffff_ffff_ffff) by (nonlinear_arith)
        requires
            amount_x <= 0xffff_ffff_ffff_ffff,
            reserve_y <= 0xffff_ffff_ffff_ffff,
    ;
    assert(amount_x as int * lp_supply <= 0xffff_ffff_ffff_ffff * 0xffff_ffff_ffff_ffff) by (nonlinear_arith)
        requires
            amount_x <= 0xffff_ffff_ffff_ffff,
            lp_supply <= 0xffff_ffff_ffff_ffff,
    ;
    let num: u128 = amount_x as u128 * reserve_y as u128;
    let y: u128 = num / reserve_x as u128 + if num % reserve_x as u128 == 0 { 0 } else { 1 };
    proof {
        let n = num as int;
        let d = reserve_x as int;
        lemma_fundamental_div_mod(n, d);
        lemma_mod_pos_bound(n, d);
        lemma_fundamental_div_mod(n + d - 1, d);
        lemma_mod_pos_bound(n + d - 1, d);
        let q = n / d;
        let m = n % d;
        if m == 0 {
            assert(n + d - 1 == d * q + (d - 1));
        } else {
            assert(n + d - 1 == d * (q + 1) + (m - 1)) by (nonlinear_arith)
                requires
                    n == d * q + m,
            ;
        }
        crate::curve::lemma_unique_div(n + d - 1, d, if m == 0 { q } else { q + 1 }, if m == 0 { d - 1 } else { m - 1 });
        lemma_div_bounds(n, d);
    }
    let lp: u128 = (amount_x as u128 * lp_supply as u128) / reserve_x as u128;
    if y > u64::MAX as u128 || lp > u64::MAX as u128 || lp == 0 {
        return Err(ErrorCode::InvalidParameter);
    }
    Ok((y as u64, lp as u64))
}

proof fn lemma_unique_div(n: int, d: int, q: int, m: int)
    requires
        n >= 0,
        d > 0,
        0 <= m < d,
        n == d * q + m,
    ensures
        n / d == q,
{
    lemma_fundamental_div_mod(n, d);
    lemma_mod_pos_bound(n, d);
    let q2 = n / d;
    let m2 = n % d;
    assert(q2 == q) by (nonlinear_arith)
        requires
            d * q + m == d * q2 + m2,
            0 <= m < d,
            0 <= m2 < d,
    ;
}

/// The amounts of both assets that a withdrawal of `lp_amount` returns, or
/// why it is refused.
pub open spec fn withdraw_outcome(reserve_x: u64, reserve_y: u64, lp_supply: u64, lp_amount: u64) -> Result<(u64, u64), ErrorCode> {
    if lp_supply == 0 || lp_amount == 0 {
        Err(ErrorCode::InvalidParameter)
    } else if lp_amount > lp_supply {
        Err(ErrorCode::InsufficientFunds)
    } else {
        Ok((
            share_of(reserve_x as int, lp_supply as int, lp_amount as int) as u64,
            share_of(reserve_y as int, lp_supply as int, lp_amount as int) as u64,
        ))
    }
}

/// Quotes a withdrawal: each reserve's share for `lp_amount`, rounded down.
pub fn quote_withdraw(reserve_x: u64, reserve_y: u64, lp_supply: u64, lp_amount: u64) -> (r: Result<(u64, u64), ErrorCode>)
    ensures
        r == withdraw_outcome(reserve_x, reserve_y, lp_supply, lp_amount),
        r matches Ok((x, y)) ==> x <= reserve_x && y <= reserve_y,
{
    if lp_supply == 0 || lp_amount == 0 {
        return Err(ErrorCode::InvalidParameter);
    }
    if lp_amount > lp_supply {
        return Err(ErrorCode::InsufficientFunds);
    }
    proof {
        lemma_share_bounds(reserve_x as int, lp_supply as int, lp_amount as int);
        lemma_share_bounds(reserve_y as int, lp_supply as int, lp_amount as int);
    }
    assert(lp_amount as int * reserve_x <= 0xffff_ffff_ffff_ffff * 0xffff_ffff_ffff_ffff) by (nonlinear_arith)
        requires
            lp_amount <= 0xffff_ffff_ffff_ffff,
            reserve_x <= 0xffff_ffff_ffff_ffff,
    ;
    assert(lp_amount as int * reserve_y <= 0xffff_ffff_ffff_ffff * 0xffff_ffff_ffff_ffff) by (nonlinear_arith)
        requires
            lp_amount <= 0xffff_ffff_ffff_ffff,
            reserve_y <= 0xffff_ffff_ffff_ffff,
    ;
    let x: u128 = (lp_amount as u128 * reserve_x as u128) / lp_supply as u128;
    let y: u128 = (lp_amount as u128 * reserve_y as u128) / lp_supply as u128;
    Ok((x as u64, y as u64))
}

proof fn lemma_share_bounds(reserve: int, lp_supply: int, lp_amount: int)
    requires
        reserve >= 0,
        0 < lp_amount <= lp_supply,
    ensures
        0 <= share_of(reserve, lp_supply, lp_amount) <= reserve,
{
    lemma_mul_nonnegative(lp_amount, reserve);
    lemma_div_bounds(lp_amount * reserve, lp_supply);
    assert(lp_amount * reserve <= reserve * lp_supply) by (nonlinear_arith)
        requires
            reserve >= 0,
            lp_amount <= lp_supply,
    ;
    lemma_div_monotone(lp_amount * reserve, reserve * lp_supply, lp_supply);
    assert(reserve * lp_supply / lp_supply == reserve) by (nonlinear_arith)
        requires
            lp_supply > 0,
    ;
}

proof fn lemma_sqrt_exists(n: int)
    requires
        n >= 0,
    ensures
        is_floor_sqrt(sqrt_of(n), n),
    decreases n,
{
    if n == 0 {
        assert(is_floor_sqrt(0, 0));
    } else {
        lemma_sqrt_exists(n - 1);
        let r = sqrt_of(n - 1);
        if (r + 1) * (r + 1) <= n {
            assert(is_floor_sqrt(r + 1, n)) by (nonlinear_arith)
                requires
                    r >= 0,
                    n - 1 < (r + 1) * (r + 1),
                    (r + 1) * (r + 1) <= n,
            ;
        } else {
            assert(is_floor_sqrt(r, n)) by (nonlinear_arith)
                requires
                    r >= 0,
                    r * r <= n - 1,
                    n < (r + 1) * (r + 1),
            ;
        }
    }
}

/// `n / d` is at most `q` when `n <= q * d`.
proof fn lemma_div_le(n: int, d: int, q: int)
    requires
        n >= 0,
        d > 0,
        n <= q * d,
    ensures
        n / d <= q,
{
    lemma_div_bounds(n, d);
    let f = n / d;
    assert(f <= q) by (nonlinear_arith)
        requires
            f * d <= n,
            n <= q * d,
            d > 0,
    ;
}

/// Withdrawing the LP amount that a deposit minted, from the pool as the
/// deposit left it, returns no more of either asset than was deposited. On an
/// empty pool this holds when the pool holds no reserves either.
pub proof fn lemma_deposit_then_withdraw_favors_pool(reserve_x: u64, reserve_y: u64, lp_supply: u64, amount_x: u64, amount_y: u64)
    requires
        deposit_outcome(reserve_x, reserve_y, lp_supply, amount_x, amount_y) is Ok,
        lp_supply == 0 ==> reserve_x == 0 && reserve_y == 0,
    ensures
        ({
            let (y, lp) = deposit_outcome(reserve_x, reserve_y, lp_supply, amount_x, amount_y)->Ok_0;
            &&& lp > 0
            &&& share_of(reserve_x + amount_x, lp_supply + lp, lp) <= amount_x
            &&& share_of(reserve_y + y, lp_supply + lp, lp) <= y
        }),
{
    let (y, lp) = deposit_outcome(reserve_x, reserve_y, lp_supply, amount_x, amount_y)->Ok_0;
    let ax = amount_x as int;
    let rx = reserve_x as int;
    let ry = reserve_y as int;
    let s = lp_supply as int;
    if lp_supply == 0 {
        let n = ax * amount_y;
        lemma_sqrt_exists(n);
        assert(lp > 0) by (nonlinear_arith)
            requires
                ax >= 1,
                amount_y >= 1,
                n == ax * amount_y,
                n < (lp + 1) * (lp + 1),
                lp >= 0,
        ;
        assert(lp * ax == ax * lp && lp * y == y * lp) by (nonlinear_arith);
        lemma_mul_nonnegative(lp, ax);
        lemma_div_le(lp * ax, lp, ax);
        lemma_mul_nonnegative(lp, y);
        lemma_div_le(lp * y, lp, y);
    } else {
        lemma_mul_nonnegative(ax, s);
        lemma_div_bounds(ax * s, rx);
        lemma_mul_nonnegative(ax, ry);
        lemma_div_bounds(ax * ry + rx - 1, rx);
        assert(y * rx >= ax * ry) by (nonlinear_arith)
            requires
                y == (ax * ry + rx - 1) / rx,
                ax * ry + rx - 1 < (y + 1) * rx,
        ;
        assert(lp * rx <= ax * s);
        assert(lp * ry <= y * s) by (nonlinear_arith)
            requires
                lp * rx <= ax * s,
                y * rx >= ax * ry,
                rx > 0,
                ry >= 0,
                s >= 0,
                lp >= 0,
        ;
        assert(lp * (rx + ax) <= ax * (s + lp)) by (nonlinear_arith)
            requires
                lp * rx <= ax * s,
        ;
        assert(lp * (ry + y) <= y * (s + lp)) by (nonlinear_arith)
            requires
                lp * ry <= y * s,
        ;
        assert(lp >= 0 && y >= 0);
        lemma_mul_nonnegative(lp, rx + ax);
        lemma_mul_nonnegative(lp, ry + y);
        lemma_div_le(lp * (rx + ax), s + lp, ax);
        lemma_div_le(lp * (ry + y), s + lp, y);
    }
}

} // verus!
