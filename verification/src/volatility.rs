//! The rolling volatility window: a fixed ring of hourly price samples and
//! the basis-point volatility statistic derived from its non-zero entries.

use vstd::prelude::*;

use crate::TransferHookError;

verus! {

broadcast use vstd::array::group_array_axioms;

/// Number of slots in the rolling window of hourly price samples.
pub const PRICE_HISTORY_SLOTS: usize = 24;

/// Seconds that must have passed since the last recorded sample before a new
/// one is written.
pub const SAMPLE_INTERVAL_SECONDS: i64 = 3600;

/// The volatility state of one market: a 24-slot ring buffer of hourly price
/// samples, the write cursor, the time of the last recorded sample, the
/// derived volatility in basis points, and the two immutable thresholds.
#[derive(Clone, Copy, Debug, PartialEq, Eq)]
pub struct VolatilityIndex {
    pub price_history: [u64; 24],
    pub current_index: usize,
    pub last_update_time: i64,
    pub volatility: u64,
    pub up_threshold: u64,
    pub down_threshold: u64,
    pub sol_mint: [u8; 32],
}

/// The smallest non-zero sample of the window, folded from `u64::MAX`.
pub open spec fn min_nonzero(s: Seq<u64>) -> int
    decreases s.len(),
{
    if s.len() == 0 {
        u64::MAX as int
    } else {
        let rest = min_nonzero(s.drop_last());
        if s.last() != 0 && (s.last() as int) < rest {
            s.last() as int
        } else {
            rest
        }
    }
}

/// The largest non-zero sample of the window, folded from zero.
pub open spec fn max_nonzero(s: Seq<u64>) -> int
    decreases s.len(),
{
    if s.len() == 0 {
        0
    } else {
        let rest = max_nonzero(s.drop_last());
        if s.last() != 0 && (s.last() as int) > rest {
            s.last() as int
        } else {
            rest
        }
    }
}

/// The minimum fold only ever takes non-zero samples, so it is positive.
pub proof fn lemma_min_nonzero_pos(s: Seq<u64>)
    ensures
        min_nonzero(s) >= 1,
    decreases s.len(),
{
    if s.len() > 0 {
        lemma_min_nonzero_pos(s.drop_last());
    }
}

/// Whenever the minimum fold moved off `u64::MAX`, a non-zero sample exists,
/// so the maximum fold dominates the minimum and is itself non-zero.
pub proof fn lemma_min_le_max(s: Seq<u64>)
    ensures
        min_nonzero(s) != u64::MAX ==> min_nonzero(s) <= max_nonzero(s) && max_nonzero(s) != 0,
    decreases s.len(),
{
    if s.len() > 0 {
        lemma_min_le_max(s.drop_last());
        lemma_min_nonzero_pos(s.drop_last());
    }
}

/// Whether the window holds a usable sample pair: the guard that stands
/// before the division in the volatility recomputation.
pub open spec fn window_active(hist: Seq<u64>) -> bool {
    min_nonzero(hist) != u64::MAX && max_nonzero(hist) != 0
}

/// The volatility of a window in basis points: the spread of the non-zero
/// samples relative to their minimum.
pub open spec fn window_volatility(hist: Seq<u64>) -> int
    recommends
        window_active(hist),
{
    (max_nonzero(hist) - min_nonzero(hist)) * 10000 / min_nonzero(hist)
}

/// The window as it would look with `price` written into the cursor slot.
pub open spec fn sampled_history(v: VolatilityIndex, price: u64) -> [u64; 24] {
    vstd::array::spec_array_update(v.price_history, v.current_index as int, price)
}

/// Whether a sampling step at `now` would recompute a volatility that does
/// not fit 64 bits — the one way the step can fail.
pub open spec fn update_overflows(v: VolatilityIndex, price: u64, now: i64) -> bool {
    &&& now - v.last_update_time >= SAMPLE_INTERVAL_SECONDS
    &&& window_active(sampled_history(v, price)@)
    &&& window_volatility(sampled_history(v, price)@) > u64::MAX
}

/// The index after one successful sampling step: unchanged inside the
/// sampling interval; otherwise the sample is recorded, the cursor advances
/// around the ring, the clock is stamped, and the volatility is recomputed
/// from the non-zero samples (or kept when there are none).
pub open spec fn update_applied(v: VolatilityIndex, price: u64, now: i64) -> VolatilityIndex
    recommends
        !update_overflows(v, price, now),
{
    if now - v.last_update_time < SAMPLE_INTERVAL_SECONDS {
        v
    } else {
        let h = sampled_history(v, price);
        VolatilityIndex {
            price_history: h,
            current_index: ((v.current_index + 1) % 24) as usize,
            last_update_time: now,
            volatility: if window_active(h@) {
                window_volatility(h@) as u64
            } else {
                v.volatility
            },
            ..v
        }
    }
}

impl VolatilityIndex {
    /// Structural soundness: the write cursor stays inside the window and
    /// the sample clock never runs before the epoch.
    pub open spec fn wf(self) -> bool {
        &&& self.current_index < 24
        &&& self.last_update_time >= 0
    }

    /// A fresh index: an empty window, thresholds fixed for the lifetime of
    /// the market, volatility zero.
    pub fn new(up_threshold: u64, down_threshold: u64, sol_mint: [u8; 32], now: i64) -> (r:
        VolatilityIndex)
        requires
            now >= 0,
        ensures
            r.wf(),
            r.price_history@ == Seq::<u64>::new(24, |i: int| 0u64),
            r.current_index == 0,
            r.last_update_time == now,
            r.volatility == 0,
            r.up_threshold == up_threshold,
            r.down_threshold == down_threshold,
            r.sol_mint == sol_mint,
    {
        let r = VolatilityIndex {
            price_history: [0u64; 24],
            current_index: 0,
            last_update_time: now,
            volatility: 0,
            up_threshold,
            down_threshold,
            sol_mint,
        };
        proof {
            assert(r.price_history@ =~= Seq::<u64>::new(24, |i: int| 0u64));
        }
        r
    }

    /// One opportunistic sampling step. A no-op unless a full sampling
    /// interval has passed since the last recorded sample; otherwise writes
    /// `current_price` into the cursor slot, advances the cursor, stamps the
    /// time, and recomputes the volatility from the non-zero samples. When no
    /// usable sample pair exists the volatility is left unchanged (this
    /// guards the division); when the recomputed value does not fit 64 bits
    /// the whole step fails with `ArithmeticFault` and changes nothing.
    pub fn update(&mut self, current_price: u64, now: i64) -> (r: Result<(), TransferHookError>)
        requires
            old(self).wf(),
            now >= 0,
        ensures
            final(self).wf(),
            update_overflows(*old(self), current_price, now) ==> r == Err::<
                (),
                TransferHookError,
            >(TransferHookError::ArithmeticFault) && *final(self) == *old(self),
            !update_overflows(*old(self), current_price, now) ==> r == Ok::<
                (),
                TransferHookError,
            >(()) && *final(self) == update_applied(*old(self), current_price, now),
    {
        if now - self.last_update_time < SAMPLE_INTERVAL_SECONDS {
            return Ok(());
        }
        let mut hist = self.price_history;
        hist[self.current_index] = current_price;
        let mut mn: u64 = u64::MAX;
        let mut mx: u64 = 0;
        let mut i: usize = 0;
        proof {
            assert(hist@.take(0) =~= Seq::<u64>::empty());
        }
        while i < 24
            invariant
                0 <= i <= 24,
                hist@.len() == 24,
                mn as int == min_nonzero(hist@.take(i as int)),
                mx as int == max_nonzero(hist@.take(i as int)),
            decreases 24 - i,
        {
            let p = hist[i];
            proof {
                assert(hist@.take(i + 1).drop_last() =~= hist@.take(i as int));
                assert(hist@.take(i + 1).last() == hist@[i as int]);
            }
            if p != 0 {
                if p < mn {
                    mn = p;
                }
                if p > mx {
                    mx = p;
                }
            }
            i = i + 1;
        }
        proof {
            assert(hist@.take(24) =~= hist@);
        }
        if mn != u64::MAX && mx != 0 {
            proof {
                lemma_min_le_max(hist@);
                lemma_min_nonzero_pos(hist@);
            }
            let spread: u128 = (mx - mn) as u128 * 10000;
            let vol: u128 = spread / (mn as u128);
            if vol > 0xffffffffffffffffu128 {
                return Err(TransferHookError::ArithmeticFault);
            }
            self.volatility = vol as u64;
        }
        self.price_history = hist;
        self.current_index = (self.current_index + 1) % 24;
        self.last_update_time = now;
        proof {
            assert(self.price_history == sampled_history(*old(self), current_price)) by {
                assert(self.price_history@ =~= sampled_history(*old(self), current_price)@);
            }
        }
        Ok(())
    }

    /// Observability: whether the current volatility sits above the up
    /// threshold. Does not gate any payout.
    pub fn is_above_up_threshold(&self) -> (r: bool)
        ensures
            r == (self.volatility > self.up_threshold),
    {
        self.volatility > self.up_threshold
    }

    /// Observability: whether the current volatility sits below the down
    /// threshold. Does not gate any payout.
    pub fn is_below_down_threshold(&self) -> (r: bool)
        ensures
            r == (self.volatility < self.down_threshold),
    {
        self.volatility < self.down_threshold
    }
}

} // verus!
