//! The payout engine: pure functions computing leverage- and
//! volatility-adjusted payouts from principal, price, and multiplier. All
//! ratios are carried in basis points (10000 = 1.0) and every rounding is
//! half away from zero, matching `rnd_div`.

use vstd::prelude::*;

use crate::math::rnd_div;
use crate::TransferHookError;

verus! {

/// The volatility reward multiplier, in basis points: amplified by the
/// excess over the up threshold, dampened by the deficit under the down
/// threshold, floored at zero, and exactly one between the thresholds. It is
/// not a probability and is unbounded above.
pub open spec fn reward_multiplier_bps(vol: int, up: int, down: int) -> int {
    if vol > up {
        10000 + (vol - up)
    } else if vol < down {
        if down - vol >= 10000 {
            0
        } else {
            10000 - (down - vol)
        }
    } else {
        10000
    }
}

/// A value scaled by a basis-point factor and rounded half up.
pub open spec fn scale_bps_spec(value: int, bps: int) -> int {
    rnd_div(value * bps, 10000)
}

/// The settlement payout: the reserve scaled by the reward multiplier.
pub open spec fn settlement_payout_spec(reserve: int, bps: int) -> int {
    scale_bps_spec(reserve, bps)
}

/// The burn-redemption payout: the reserve scaled by the burned share of
/// the supply and by the reward multiplier, with one half-up rounding of
/// the exact rational product.
pub open spec fn burn_redemption_spec(burn: int, supply: int, reserve: int, bps: int) -> int
    recommends
        supply > 0,
{
    rnd_div(burn * reserve * bps, supply * 10000)
}

/// The leveraged position ratio in basis points: one, plus (for a long) or
/// minus (for a short) the leveraged relative price move. An adverse move
/// larger than the principal floors the ratio at zero instead of going
/// negative.
pub open spec fn price_ratio_bps(current: int, last: int, leverage: int, is_short: bool) -> int
    recommends
        last > 0,
{
    let delta = if current >= last {
        current - last
    } else {
        last - current
    };
    let adj = leverage * delta * 10000 / last;
    let gain = (current >= last) != is_short;
    if delta == 0 {
        10000
    } else if gain {
        10000 + adj
    } else if adj >= 10000 {
        0
    } else {
        10000 - adj
    }
}

/// Computes the reward multiplier from the current volatility and the two
/// immutable thresholds, in basis points.
pub fn calculate_reward_multiplier(
    current_volatility: u64,
    up_threshold: u64,
    down_threshold: u64,
) -> (r: u128)
    ensures
        r == reward_multiplier_bps(
            current_volatility as int,
            up_threshold as int,
            down_threshold as int,
        ),
{
    if current_volatility > up_threshold {
        10000u128 + (current_volatility - up_threshold) as u128
    } else if current_volatility < down_threshold {
        let deficit = down_threshold - current_volatility;
        if deficit >= 10000 {
            0u128
        } else {
            10000u128 - deficit as u128
        }
    } else {
        10000u128
    }
}

/// Scales `value` by `bps` basis points, rounding half up; fails with
/// `ArithmeticFault` exactly when the result does not fit 64 bits.
fn scale_bps(value: u128, bps: u128) -> (r: Result<u64, TransferHookError>)
    ensures
        match r {
            Ok(p) => scale_bps_spec(value as int, bps as int) == p as int,
            Err(e) => e == TransferHookError::ArithmeticFault && scale_bps_spec(
                value as int,
                bps as int,
            ) > u64::MAX,
        },
{
    match value.checked_mul(bps) {
        None => {
            proof {
                vstd::arithmetic::div_mod::lemma_div_is_ordered(
                    0x100000000000000000000000000000000int,
                    value * bps,
                    10000,
                );
                assert(0x100000000000000000000000000000000int == 10000
                    * 34028236692093846346337460743176821int + 1456);
                vstd::arithmetic::div_mod::lemma_fundamental_div_mod_converse(
                    0x100000000000000000000000000000000int,
                    10000,
                    34028236692093846346337460743176821int,
                    1456,
                );
            }
            Err(TransferHookError::ArithmeticFault)
        },
        Some(prod) => {
            let q = prod / 10000;
            let rem = prod % 10000;
            let p = if 2 * rem >= 10000 {
                q + 1
            } else {
                q
            };
            if p > 0xffffffffffffffffu128 {
                Err(TransferHookError::ArithmeticFault)
            } else {
                Ok(p as u64)
            }
        },
    }
}

/// The settlement payout released when a won round is consumed: the backing
/// reserve scaled by the reward multiplier. Fails with `ArithmeticFault`
/// exactly when the scaled amount does not fit 64 bits; the caller must
/// ensure the result does not exceed the backing reserve.
pub fn settlement_payout(reserve: u64, multiplier_bps: u128) -> (r: Result<
    u64,
    TransferHookError,
>)
    ensures
        match r {
            Ok(p) => settlement_payout_spec(reserve as int, multiplier_bps as int) == p as int,
            Err(e) => e == TransferHookError::ArithmeticFault && settlement_payout_spec(
                reserve as int,
                multiplier_bps as int,
            ) > u64::MAX,
        },
{
    scale_bps(reserve as u128, multiplier_bps)
}

/// The burn-redemption payout: the reserve share for the burned fraction of
/// the supply, scaled by the reward multiplier, rounded once. Fails with
/// `ArithmeticFault` on a zero supply (the proportion is undefined), on a
/// burn larger than the supply (the share would exceed the whole), and
/// exactly when the payout does not fit 64 bits.
pub fn burn_redemption_payout(
    burn_amount: u64,
    total_supply: u64,
    reserve: u64,
    multiplier_bps: u128,
) -> (r: Result<u64, TransferHookError>)
    ensures
        match r {
            Ok(p) => 0 < total_supply && burn_amount <= total_supply && burn_redemption_spec(
                burn_amount as int,
                total_supply as int,
                reserve as int,
                multiplier_bps as int,
            ) == p as int,
            Err(e) => e == TransferHookError::ArithmeticFault && (total_supply == 0 || burn_amount
                > total_supply || burn_redemption_spec(
                burn_amount as int,
                total_supply as int,
                reserve as int,
                multiplier_bps as int,
            ) > u64::MAX),
        },
{
    if total_supply == 0 || burn_amount > total_supply {
        return Err(TransferHookError::ArithmeticFault);
    }
    proof {
        assert((burn_amount as int) * (reserve as int) < 0x100000000000000000000000000000000int)
            by (nonlinear_arith)
            requires
                0 <= burn_amount as int <= 0xffffffffffffffffint,
                0 <= reserve as int <= 0xffffffffffffffffint,
        ;
    }
    let share = (burn_amount as u128) * (reserve as u128);
    let (hi, lo) = crate::math::mul_wide(share, multiplier_bps);
    let (q1h, q1l, rs) = crate::math::div_wide_u64(hi, lo, total_supply);
    let (q2h, q2l, rt) = crate::math::div_wide_u64(q1h, q1l, 10000);
    proof {
        assert((total_supply as int) * (rt as int) <= (total_supply as int) * 9999)
            by (nonlinear_arith)
            requires
                0 <= rt <= 9999,
                total_supply >= 1,
        ;
    }
    let rem: u128 = (total_supply as u128) * (rt as u128) + (rs as u128);
    let divisor: u128 = (total_supply as u128) * 10000;
    proof {
        let n = (burn_amount as int) * (reserve as int) * (multiplier_bps as int);
        let q1 = (q1h as int) * crate::math::pow2_128() + q1l;
        let q2 = (q2h as int) * crate::math::pow2_128() + q2l;
        assert((total_supply as int) * q1 == (divisor as int) * q2 + (total_supply as int) * (
        rt as int)) by (nonlinear_arith)
            requires
                q1 == 10000 * q2 + rt,
                divisor as int == (total_supply as int) * 10000,
        ;
        assert((total_supply as int) * (rt as int) <= (total_supply as int) * 9999)
            by (nonlinear_arith)
            requires
                0 <= rt <= 9999,
                total_supply >= 1,
        ;
        vstd::arithmetic::mul::lemma_mul_is_commutative(q2, divisor as int);
        vstd::arithmetic::div_mod::lemma_fundamental_div_mod_converse(
            n,
            divisor as int,
            q2,
            rem as int,
        );
    }
    if q2h > 0 || q2l > 0xffffffffffffffffu128 {
        return Err(TransferHookError::ArithmeticFault);
    }
    let p: u128 = if 2 * rem >= divisor {
        q2l + 1
    } else {
        q2l
    };
    if p > 0xffffffffffffffffu128 {
        return Err(TransferHookError::ArithmeticFault);
    }
    Ok(p as u64)
}

/// LAW: burning the entire supply redeems the entire reserve, scaled only by
/// the reward multiplier — a complete redemption pays exactly what a
/// settlement of the same reserve would.
pub proof fn lemma_full_redemption(burn: u64, reserve: u64, bps: u128)
    requires
        burn > 0,
    ensures
        burn_redemption_spec(burn as int, burn as int, reserve as int, bps as int)
            == settlement_payout_spec(reserve as int, bps as int),
{
    assert((burn as int) * (reserve as int) * (bps as int) == (burn as int) * ((reserve as int)
        * (bps as int))) by (nonlinear_arith);
    crate::math::lemma_rnd_div_cancel(burn as int, (reserve as int) * (bps as int), 10000);
}

/// The leveraged position ratio in basis points. Fails with
/// `ArithmeticFault` on a zero reference price and exactly when the ratio
/// does not fit 128 bits.
pub fn price_ratio(current: u64, last: u64, leverage: u64, is_short: bool) -> (r: Result<
    u128,
    TransferHookError,
>)
    ensures
        match r {
            Ok(p) => last > 0 && price_ratio_bps(
                current as int,
                last as int,
                leverage as int,
                is_short,
            ) == p as int,
            Err(e) => e == TransferHookError::ArithmeticFault && (last == 0 || price_ratio_bps(
                current as int,
                last as int,
                leverage as int,
                is_short,
            ) > u128::MAX),
        },
{
    if last == 0 {
        return Err(TransferHookError::ArithmeticFault);
    }
    let delta: u64 = if current >= last {
        current - last
    } else {
        last - current
    };
    if delta == 0 {
        return Ok(10000u128);
    }
    let gain = (current >= last) != is_short;
    proof {
        assert((leverage as int) * (delta as int) < 0x100000000000000000000000000000000int)
            by (nonlinear_arith)
            requires
                0 <= leverage as int <= 0xffffffffffffffffint,
                0 <= delta as int <= 0xffffffffffffffffint,
        ;
    }
    let ld = (leverage as u128) * (delta as u128);
    let lastw = last as u128;
    let q = ld / lastw;
    let rem = ld % lastw;
    let tail = rem * 10000 / lastw;
    proof {
        vstd::arithmetic::div_mod::lemma_fundamental_div_mod(ld as int, lastw as int);
        vstd::arithmetic::div_mod::lemma_mod_pos_bound(ld as int, lastw as int);
        assert((leverage as int) * (delta as int) * 10000 == ((lastw as int) * (q as int) + rem)
            * 10000);
        assert(((lastw as int) * (q as int) + rem) * 10000 == (q * 10000) * (lastw as int) + rem
            * 10000) by (nonlinear_arith);
        vstd::arithmetic::div_mod::lemma_hoist_over_denominator(
            rem * 10000,
            q * 10000,
            lastw as nat,
        );
        assert(leverage as int * (delta as int) * 10000 / (lastw as int) == q * 10000 + rem * 10000
            / (lastw as int));
    }
    if gain {
        match q.checked_mul(10000) {
            None => {
                proof {
                    assert(q * 10000 > u128::MAX);
                }
                Err(TransferHookError::ArithmeticFault)
            },
            Some(qh) => {
                match qh.checked_add(tail) {
                    None => Err(TransferHookError::ArithmeticFault),
                    Some(adj) => {
                        match adj.checked_add(10000) {
                            None => Err(TransferHookError::ArithmeticFault),
                            Some(ratio) => Ok(ratio),
                        }
                    },
                }
            },
        }
    } else {
        if q > 0 {
            proof {
                assert(q * 10000 >= 10000) by (nonlinear_arith)
                    requires
                        q >= 1,
                ;
            }
            Ok(0u128)
        } else {
            let adj = tail;
            if adj >= 10000 {
                Ok(0u128)
            } else {
                Ok(10000 - adj)
            }
        }
    }
}

/// The leveraged payout: the position amount scaled by the exact leveraged
/// price ratio, floored at zero for an adverse move that eats the whole
/// principal, and rounded half up once.
pub open spec fn leveraged_payout_spec(
    amount: int,
    current: int,
    last: int,
    leverage: int,
    is_short: bool,
) -> int
    recommends
        last > 0,
{
    let delta = if current >= last {
        current - last
    } else {
        last - current
    };
    let gain = (current >= last) != is_short;
    if gain {
        rnd_div(amount * (last + leverage * delta), last)
    } else if leverage * delta >= last {
        0
    } else {
        rnd_div(amount * (last - leverage * delta), last)
    }
}

/// Computes the leveraged payout in one rounding. Fails with
/// `ArithmeticFault` on a zero reference price and exactly when the payout
/// does not fit 64 bits.
pub fn leveraged_payout(amount: u64, current: u64, last: u64, leverage: u64, is_short: bool) -> (r:
    Result<u64, TransferHookError>)
    ensures
        match r {
            Ok(p) => last > 0 && leveraged_payout_spec(
                amount as int,
                current as int,
                last as int,
                leverage as int,
                is_short,
            ) == p as int,
            Err(e) => e == TransferHookError::ArithmeticFault && (last == 0
                || leveraged_payout_spec(
                amount as int,
                current as int,
                last as int,
                leverage as int,
                is_short,
            ) > u64::MAX),
        },
{
    if last == 0 {
        return Err(TransferHookError::ArithmeticFault);
    }
    let delta: u64 = if current >= last {
        current - last
    } else {
        last - current
    };
    let gain = (current >= last) != is_short;
    proof {
        assert((leverage as int) * (delta as int) <= 0xffffffffffffffffint
            * 0xffffffffffffffffint) by (nonlinear_arith)
            requires
                0 <= leverage as int <= 0xffffffffffffffffint,
                0 <= delta as int <= 0xffffffffffffffffint,
        ;
    }
    let ld: u128 = (leverage as u128) * (delta as u128);
    let lastw: u128 = last as u128;
    if gain {
        let factor: u128 = lastw + ld;
        let (hi, lo) = crate::math::mul_wide(factor, amount as u128);
        let (qh, ql, rem) = crate::math::div_wide_u64(hi, lo, last);
        proof {
            let n = (amount as int) * (factor as int);
            let q = (qh as int) * crate::math::pow2_128() + ql;
            vstd::arithmetic::mul::lemma_mul_is_commutative(factor as int, amount as int);
            vstd::arithmetic::mul::lemma_mul_is_commutative(q, last as int);
            vstd::arithmetic::div_mod::lemma_fundamental_div_mod_converse(
                n,
                last as int,
                q,
                rem as int,
            );
        }
        if qh > 0 || ql > 0xffffffffffffffffu128 {
            return Err(TransferHookError::ArithmeticFault);
        }
        let p: u128 = if 2 * (rem as u128) >= lastw {
            ql + 1
        } else {
            ql
        };
        if p > 0xffffffffffffffffu128 {
            return Err(TransferHookError::ArithmeticFault);
        }
        Ok(p as u64)
    } else {
        if ld >= lastw {
            return Ok(0u64);
        }
        let factor: u128 = lastw - ld;
        proof {
            assert((amount as int) * (factor as int) <= (amount as int) * (lastw as int)
                && (amount as int) * (lastw as int) < 0x100000000000000000000000000000000int)
                by (nonlinear_arith)
                requires
                    0 <= amount as int <= 0xffffffffffffffffint,
                    0 <= factor as int <= lastw as int,
                    0 < lastw as int <= 0xffffffffffffffffint,
            ;
        }
        let n: u128 = (amount as u128) * factor;
        let q: u128 = n / lastw;
        let rem: u128 = n % lastw;
        proof {
            vstd::arithmetic::div_mod::lemma_fundamental_div_mod(n as int, lastw as int);
            vstd::arithmetic::div_mod::lemma_mod_pos_bound(n as int, lastw as int);
            assert(q <= amount) by (nonlinear_arith)
                requires
                    n == (lastw as int) * (q as int) + rem,
                    n <= (amount as int) * (lastw as int),
                    0 <= rem,
                    0 <= q,
                    0 < lastw,
                    0 <= amount,
            ;
        }
        let p: u128;
        if 2 * rem >= lastw {
            proof {
                assert(q < amount) by (nonlinear_arith)
                    requires
                        n == (lastw as int) * (q as int) + rem,
                        n <= (amount as int) * (lastw as int),
                        2 * rem >= lastw,
                        rem < lastw,
                        0 <= q,
                        0 < lastw,
                        0 <= amount,
                ;
            }
            p = q + 1;
        } else {
            p = q;
        }
        Ok(p as u64)
    }
}

} // verus!
