//! Integer arithmetic of the constant-product pool.
//!
//! Amounts are unsigned 64-bit integers; products are formed in 128 bits before
//! any division, so nothing is truncated early and nothing wraps.

use vstd::prelude::*;
use vstd::arithmetic::div_mod::{lemma_fundamental_div_mod, lemma_mod_bound};
use crate::error::AmmError;

verus! {

/// Basis points in a whole: a fee of `BPS_DENOMINATOR` takes everything.
pub const BPS_DENOMINATOR: u16 = 10000;

/// Decimal places of the liquidity-share unit.
pub const SHARE_DECIMALS: u8 = 6;

/// The quotient `a / d` is the largest multiple of `d` that does not exceed `a`.
pub proof fn lemma_floor_div_bounds(a: nat, d: nat)
    requires
        d > 0,
    ensures
        (a / d) * d <= a,
        a < (a / d + 1) * d,
{
    lemma_fundamental_div_mod(a as int, d as int);
    lemma_mod_bound(a as int, d as int);
    assert((a / d) * d == d * (a / d)) by (nonlinear_arith);
    assert((a / d + 1) * d == d * (a / d) + d) by (nonlinear_arith);
}

/// Whatever `q` is squeezed between the multiples of `d` around `a` is `a / d`.
pub proof fn lemma_floor_div_unique(a: nat, d: nat, q: nat)
    requires
        d > 0,
        q * d <= a,
        a < (q + 1) * d,
    ensures
        q == a / d,
{
    lemma_floor_div_bounds(a, d);
    let p = a / d;
    if p < q {
        assert((p + 1) * d <= q * d) by (nonlinear_arith)
            requires
                p + 1 <= q,
        ;
    } else if q < p {
        assert((q + 1) * d <= p * d) by (nonlinear_arith)
            requires
                q + 1 <= p,
        ;
    }
}

/// `r` is the integer square root of `n`: the largest integer whose square
/// does not exceed `n`.
pub open spec fn spec_is_integer_sqrt(n: nat, r: nat) -> bool {
    r * r <= n && n < (r + 1) * (r + 1)
}

/// At most one integer is the integer square root of `n`.
pub proof fn lemma_integer_sqrt_unique(n: nat, r: nat, s: nat)
    requires
        spec_is_integer_sqrt(n, r),
        spec_is_integer_sqrt(n, s),
    ensures
        r == s,
{
    if r < s {
        assert((r + 1) * (r + 1) <= s * s) by (nonlinear_arith)
            requires
                r + 1 <= s,
        ;
    } else if s < r {
        assert((s + 1) * (s + 1) <= r * r) by (nonlinear_arith)
            requires
                s + 1 <= r,
        ;
    }
}

/// The integer square root of `n`, rounded down.
pub fn integer_sqrt(n: u128) -> (r: u64)
    ensures
        spec_is_integer_sqrt(n as nat, r as nat),
{
    let mut lo: u128 = 0;
    let mut hi: u128 = 0x1_0000_0000_0000_0000;
    assert(n < hi * hi) by (nonlinear_arith)
        requires
            hi == 0x1_0000_0000_0000_0000,
            n <= u128::MAX,
    ;
    while hi - lo > 1
        invariant
            lo < hi <= 0x1_0000_0000_0000_0000,
            lo * lo <= n,
            n < hi * hi,
        decreases hi - lo,
    {
        let mid: u128 = lo + (hi - lo) / 2;
        assert(mid * mid <= u128::MAX) by (nonlinear_arith)
            requires
                mid < 0x1_0000_0000_0000_0000,
        ;
        if mid * mid <= n {
            lo = mid;
        } else {
            hi = mid;
        }
    }
    lo as u64
}

/// What is left of `amount_in` once the fee of `fee_bps` basis points is
/// taken, rounded down.
pub open spec fn spec_amount_after_fee(amount_in: nat, fee_bps: nat) -> nat
    recommends
        fee_bps <= 10000,
{
    (amount_in * (10000 - fee_bps) as nat) / 10000
}

/// The fee never adds to the amount, and a fee of nothing takes nothing.
pub proof fn lemma_amount_after_fee_bounds(amount_in: nat, fee_bps: nat)
    requires
        fee_bps <= 10000,
    ensures
        spec_amount_after_fee(amount_in, fee_bps) <= amount_in,
        fee_bps == 0 ==> spec_amount_after_fee(amount_in, fee_bps) == amount_in,
        fee_bps == 10000 ==> spec_amount_after_fee(amount_in, fee_bps) == 0,
{
    let keep = (10000 - fee_bps) as nat;
    let net = spec_amount_after_fee(amount_in, fee_bps);
    lemma_floor_div_bounds(amount_in * keep, 10000);
    assert(amount_in * keep <= amount_in * 10000) by (nonlinear_arith)
        requires
            keep <= 10000,
    ;
    assert(net <= amount_in) by (nonlinear_arith)
        requires
            net * 10000 <= amount_in * 10000,
    ;
    if fee_bps == 0 {
        lemma_floor_div_unique(amount_in * keep, 10000, amount_in);
    }
    if fee_bps == 10000 {
        assert(amount_in * keep == 0) by (nonlinear_arith)
            requires
                keep == 0,
        ;
    }
}

/// What is left of `amount_in` once the fee is taken, rounded down.
///
/// A fee above 10000 basis points would leave less than nothing and is
/// reported as `ArithmeticOverflow`.
pub fn amount_after_fee(amount_in: u64, fee_bps: u16) -> (r: Result<u64, AmmError>)
    ensures
        fee_bps > 10000 ==> r == Err::<u64, AmmError>(AmmError::ArithmeticOverflow),
        fee_bps <= 10000 ==> r == Ok::<u64, AmmError>(
            spec_amount_after_fee(amount_in as nat, fee_bps as nat) as u64,
        ),
        fee_bps <= 10000 ==> spec_amount_after_fee(amount_in as nat, fee_bps as nat) <= amount_in,
{
    if fee_bps > BPS_DENOMINATOR {
        return Err(AmmError::ArithmeticOverflow);
    }
    let keep: u128 = (BPS_DENOMINATOR - fee_bps) as u128;
    proof {
        lemma_amount_after_fee_bounds(amount_in as nat, fee_bps as nat);
        assert(amount_in as nat * keep as nat <= amount_in as nat * 10000) by (nonlinear_arith)
            requires
                keep <= 10000,
        ;
    }
    let scaled: u128 = amount_in as u128 * keep;
    let left: u128 = scaled / 10000;
    Ok(left as u64)
}

/// The part of `reserve` that `shares` out of `lp_supply` liquidity shares
/// stand for, rounded down.
pub open spec fn spec_proportional_amount(shares: nat, reserve: nat, lp_supply: nat) -> nat
    recommends
        lp_supply > 0,
{
    (shares * reserve) / lp_supply
}

/// The amounts of both assets that `shares` liquidity shares stand for in a
/// pool of `reserve_x`, `reserve_y` and `lp_supply` shares, each rounded down;
/// `ArithmeticOverflow` where there are no shares to divide by or an amount
/// does not fit 64 bits.
pub open spec fn spec_amounts_from_shares(
    reserve_x: u64,
    reserve_y: u64,
    lp_supply: u64,
    shares: u64,
) -> Result<(u64, u64), AmmError> {
    let x = spec_proportional_amount(shares as nat, reserve_x as nat, lp_supply as nat);
    let y = spec_proportional_amount(shares as nat, reserve_y as nat, lp_supply as nat);
    if lp_supply == 0 || x > u64::MAX || y > u64::MAX {
        Err(AmmError::ArithmeticOverflow)
    } else {
        Ok((x as u64, y as u64))
    }
}

/// The proportional amount is the exact part rounded down: it never exceeds
/// `shares * reserve / lp_supply` as a fraction, and falls short of it by less
/// than one unit.
pub proof fn lemma_proportional_amount_is_rounded_down(shares: nat, reserve: nat, lp_supply: nat)
    requires
        lp_supply > 0,
    ensures
        spec_proportional_amount(shares, reserve, lp_supply) * lp_supply <= shares * reserve,
        shares * reserve < (spec_proportional_amount(shares, reserve, lp_supply) + 1) * lp_supply,
{
    lemma_floor_div_bounds(shares * reserve, lp_supply);
}

/// No more shares than the supply stand for no more than the reserve, and the
/// whole supply stands for all of it.
pub proof fn lemma_proportional_amount_bounds(shares: nat, reserve: nat, lp_supply: nat)
    requires
        lp_supply > 0,
    ensures
        shares <= lp_supply ==> spec_proportional_amount(shares, reserve, lp_supply) <= reserve,
        shares == lp_supply ==> spec_proportional_amount(shares, reserve, lp_supply) == reserve,
        shares < lp_supply && reserve > 0 ==> spec_proportional_amount(shares, reserve, lp_supply)
            < reserve,
{
    let amount = spec_proportional_amount(shares, reserve, lp_supply);
    lemma_floor_div_bounds(shares * reserve, lp_supply);
    if shares <= lp_supply {
        assert(shares * reserve <= lp_supply * reserve) by (nonlinear_arith)
            requires
                shares <= lp_supply,
        ;
        assert(amount <= reserve) by (nonlinear_arith)
            requires
                amount * lp_supply <= lp_supply * reserve,
                lp_supply > 0,
        ;
    }
    if shares == lp_supply {
        assert(reserve * lp_supply == shares * reserve) by (nonlinear_arith)
            requires
                shares == lp_supply,
        ;
        assert((reserve + 1) * lp_supply > shares * reserve) by (nonlinear_arith)
            requires
                shares == lp_supply,
                lp_supply > 0,
        ;
        lemma_floor_div_unique(shares * reserve, lp_supply, reserve);
    }
    if shares < lp_supply && reserve > 0 {
        assert(shares * reserve < lp_supply * reserve) by (nonlinear_arith)
            requires
                shares < lp_supply,
                reserve > 0,
        ;
        assert(amount < reserve) by (nonlinear_arith)
            requires
                amount * lp_supply < lp_supply * reserve,
                lp_supply > 0,
        ;
    }
}

/// One asset's proportional amount in 64 bits, or `None` where it does not fit.
fn proportional_amount(shares: u64, reserve: u64, lp_supply: u64) -> (r: Option<u64>)
    requires
        lp_supply > 0,
    ensures
        r is Some <==> spec_proportional_amount(shares as nat, reserve as nat, lp_supply as nat)
            <= u64::MAX,
        r is Some ==> r->0 == spec_proportional_amount(
            shares as nat,
            reserve as nat,
            lp_supply as nat,
        ),
{
    assert(shares as nat * reserve as nat <= u128::MAX) by (nonlinear_arith)
        requires
            shares <= u64::MAX,
            reserve <= u64::MAX,
    ;
    let product: u128 = shares as u128 * reserve as u128;
    let amount: u128 = product / lp_supply as u128;
    if amount > u64::MAX as u128 {
        None
    } else {
        Some(amount as u64)
    }
}

/// The amounts of both assets owed for `shares_requested` new liquidity shares
/// in a pool that already holds liquidity:
/// `shares_requested * reserve / lp_supply` for each asset, rounded down.
///
/// `decimals` is the precision of the share unit. Shares are counted in whole
/// units of that precision, so it does not enter the amounts.
#[allow(unused_variables)]
pub fn deposit_amounts_from_shares(
    reserve_x: u64,
    reserve_y: u64,
    lp_supply: u64,
    shares_requested: u64,
    decimals: u8,
) -> (r: Result<(u64, u64), AmmError>)
    ensures
        r == spec_amounts_from_shares(reserve_x, reserve_y, lp_supply, shares_requested),
{
    if lp_supply == 0 {
        return Err(AmmError::ArithmeticOverflow);
    }
    let x: Option<u64> = proportional_amount(shares_requested, reserve_x, lp_supply);
    let y: Option<u64> = proportional_amount(shares_requested, reserve_y, lp_supply);
    match (x, y) {
        (Some(amount_x), Some(amount_y)) => Ok((amount_x, amount_y)),
        _ => Err(AmmError::ArithmeticOverflow),
    }
}

/// The amounts of both assets paid out for `shares_burned` liquidity shares:
/// `shares_burned * reserve / lp_supply` for each asset, rounded down, so that
/// a holder receives at most the exact proportional part.
///
/// `decimals` is the precision of the share unit and does not enter the
/// amounts.
#[allow(unused_variables)]
pub fn withdraw_amounts_from_shares(
    reserve_x: u64,
    reserve_y: u64,
    lp_supply: u64,
    shares_burned: u64,
    decimals: u8,
) -> (r: Result<(u64, u64), AmmError>)
    ensures
        r == spec_amounts_from_shares(reserve_x, reserve_y, lp_supply, shares_burned),
{
    if lp_supply == 0 {
        return Err(AmmError::ArithmeticOverflow);
    }
    let x: Option<u64> = proportional_amount(shares_burned, reserve_x, lp_supply);
    let y: Option<u64> = proportional_amount(shares_burned, reserve_y, lp_supply);
    match (x, y) {
        (Some(amount_x), Some(amount_y)) => Ok((amount_x, amount_y)),
        _ => Err(AmmError::ArithmeticOverflow),
    }
}

/// The amount of the output asset that a trade of `amount_in` buys from
/// reserves `reserve_in` and `reserve_out` at a fee of `fee_bps` basis points:
/// with `net` the input after the fee, `net * reserve_out / (reserve_in + net)`,
/// rounded down.
pub open spec fn spec_swap_output(
    reserve_in: nat,
    reserve_out: nat,
    amount_in: nat,
    fee_bps: nat,
) -> nat
    recommends
        reserve_in > 0,
        fee_bps <= 10000,
{
    let net = spec_amount_after_fee(amount_in, fee_bps);
    (net * reserve_out) / (reserve_in + net)
}

/// What `swap_output` returns: `InvalidAmount` for a trade of nothing or
/// against an empty reserve, `ArithmeticOverflow` for a fee above the whole,
/// else the amount bought.
pub open spec fn spec_swap_result(
    reserve_in: u64,
    reserve_out: u64,
    amount_in: u64,
    fee_bps: u16,
) -> Result<u64, AmmError> {
    if amount_in == 0 || reserve_in == 0 || reserve_out == 0 {
        Err(AmmError::InvalidAmount)
    } else if fee_bps > 10000 {
        Err(AmmError::ArithmeticOverflow)
    } else {
        Ok(
            spec_swap_output(
                reserve_in as nat,
                reserve_out as nat,
                amount_in as nat,
                fee_bps as nat,
            ) as u64,
        )
    }
}

/// A trade never buys the whole output reserve, and a trade whose input the
/// fee consumes buys nothing.
pub proof fn lemma_swap_output_bounds(reserve_in: nat, reserve_out: nat, amount_in: nat, fee_bps: nat)
    requires
        reserve_in > 0,
        fee_bps <= 10000,
    ensures
        spec_swap_output(reserve_in, reserve_out, amount_in, fee_bps) <= reserve_out,
        reserve_out > 0 ==> spec_swap_output(reserve_in, reserve_out, amount_in, fee_bps)
            < reserve_out,
        spec_amount_after_fee(amount_in, fee_bps) == 0 ==> spec_swap_output(
            reserve_in,
            reserve_out,
            amount_in,
            fee_bps,
        ) == 0,
{
    let net = spec_amount_after_fee(amount_in, fee_bps);
    let out = spec_swap_output(reserve_in, reserve_out, amount_in, fee_bps);
    let d = reserve_in + net;
    lemma_floor_div_bounds(net * reserve_out, d);
    assert(net * reserve_out <= reserve_out * d) by (nonlinear_arith)
        requires
            d == reserve_in + net,
    ;
    assert(out <= reserve_out) by (nonlinear_arith)
        requires
            out * d <= reserve_out * d,
            d > 0,
    ;
    if reserve_out > 0 {
        assert(net * reserve_out < reserve_out * d) by (nonlinear_arith)
            requires
                d == reserve_in + net,
                reserve_in > 0,
                reserve_out > 0,
        ;
        assert(out < reserve_out) by (nonlinear_arith)
            requires
                out * d < reserve_out * d,
                d > 0,
        ;
    }
    if net == 0 {
        assert(net * reserve_out == 0) by (nonlinear_arith)
            requires
                net == 0,
        ;
    }
}

/// A trade does not lower the product of the reserves: with the whole input
/// added to one reserve and the output taken from the other, the product is at
/// least what it was.
pub proof fn lemma_swap_keeps_product(reserve_in: nat, reserve_out: nat, amount_in: nat, fee_bps: nat)
    requires
        reserve_in > 0,
        fee_bps <= 10000,
    ensures
        spec_swap_output(reserve_in, reserve_out, amount_in, fee_bps) <= reserve_out,
        (reserve_in + amount_in) * (reserve_out - spec_swap_output(
            reserve_in,
            reserve_out,
            amount_in,
            fee_bps,
        )) >= reserve_in * reserve_out,
{
    let net = spec_amount_after_fee(amount_in, fee_bps);
    let out = spec_swap_output(reserve_in, reserve_out, amount_in, fee_bps);
    let d = reserve_in + net;
    lemma_amount_after_fee_bounds(amount_in, fee_bps);
    lemma_swap_output_bounds(reserve_in, reserve_out, amount_in, fee_bps);
    lemma_floor_div_bounds(net * reserve_out, d);
    let rest = (reserve_out - out) as nat;
    assert(d * rest >= reserve_in * reserve_out) by (nonlinear_arith)
        requires
            out * d <= net * reserve_out,
            d == reserve_in + net,
            rest == reserve_out - out,
    ;
    assert((reserve_in + amount_in) * rest >= d * rest) by (nonlinear_arith)
        requires
            reserve_in + amount_in >= d,
            rest >= 0,
    ;
}

/// The amount bought is the largest that the constant product allows: with
/// `net` the input after the fee, an output keeps
/// `(reserve_in + net) * (reserve_out - output)` at or above
/// `reserve_in * reserve_out` exactly when it is at most `spec_swap_output`.
pub proof fn lemma_swap_output_is_largest(
    reserve_in: nat,
    reserve_out: nat,
    amount_in: nat,
    fee_bps: nat,
    output: nat,
)
    requires
        reserve_in > 0,
        fee_bps <= 10000,
        output <= reserve_out,
    ensures
        (reserve_in + spec_amount_after_fee(amount_in, fee_bps)) * (reserve_out - output)
            >= reserve_in * reserve_out <==> output <= spec_swap_output(
            reserve_in,
            reserve_out,
            amount_in,
            fee_bps,
        ),
{
    let net = spec_amount_after_fee(amount_in, fee_bps);
    let out = spec_swap_output(reserve_in, reserve_out, amount_in, fee_bps);
    let d = reserve_in + net;
    let rest = reserve_out - output;
    lemma_floor_div_bounds(net * reserve_out, d);
    assert(d * rest - reserve_in * reserve_out == net * reserve_out - d * output)
        by (nonlinear_arith)
        requires
            d == reserve_in + net,
            rest == reserve_out - output,
    ;
    if output <= out {
        assert(d * output <= out * d) by (nonlinear_arith)
            requires
                output <= out,
                d >= 0,
        ;
    } else {
        assert(d * output >= (out + 1) * d) by (nonlinear_arith)
            requires
                output >= out + 1,
                d >= 0,
        ;
    }
}

/// The amount of the output asset that a trade of `amount_in` buys.
///
/// With `net = amount_in * (10000 - fee_bps) / 10000`, the result is
/// `net * reserve_out / (reserve_in + net)`, both divisions rounding down, so
/// that `(reserve_in + net) * (reserve_out - amount_out)` is never below
/// `reserve_in * reserve_out`. In 128 bits no product of two 64-bit amounts is
/// out of range; the only quantity that is not representable is the remainder
/// of a fee above 10000 basis points.
pub fn swap_output(reserve_in: u64, reserve_out: u64, amount_in: u64, fee_bps: u16) -> (r: Result<
    u64,
    AmmError,
>)
    ensures
        r == spec_swap_result(reserve_in, reserve_out, amount_in, fee_bps),
        r is Ok ==> r->Ok_0 < reserve_out,
        r is Ok ==> r->Ok_0 == spec_swap_output(
            reserve_in as nat,
            reserve_out as nat,
            amount_in as nat,
            fee_bps as nat,
        ),
{
    if amount_in == 0 || reserve_in == 0 || reserve_out == 0 {
        return Err(AmmError::InvalidAmount);
    }
    let net: u64 = match amount_after_fee(amount_in, fee_bps) {
        Ok(net) => net,
        Err(e) => {
            return Err(e);
        },
    };
    proof {
        lemma_swap_output_bounds(
            reserve_in as nat,
            reserve_out as nat,
            amount_in as nat,
            fee_bps as nat,
        );
        assert(net as nat * reserve_out as nat <= u128::MAX) by (nonlinear_arith)
            requires
                net <= u64::MAX,
                reserve_out <= u64::MAX,
        ;
    }
    let numerator: u128 = net as u128 * reserve_out as u128;
    let denominator: u128 = reserve_in as u128 + net as u128;
    let amount_out: u128 = numerator / denominator;
    Ok(amount_out as u64)
}

} // verus!
