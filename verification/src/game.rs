//! The per-market round state machine: win/lose outcomes derived from price
//! deltas on every transfer, and exactly-once settlement of a won round.

use vstd::prelude::*;

use crate::TransferHookError;

verus! {

/// The round state, one of three: no outcome pending, a win pending
/// settlement, or a win already consumed. A tagged state instead of two
/// independent flags, so that illegal flag combinations are unrepresentable.
#[derive(Clone, Copy, Debug, PartialEq, Eq, Structural)]
pub enum RoundState {
    Undecided,
    Won,
    Consumed,
}

/// The persistent state of one market: round outcome, payout bookkeeping,
/// epoch timestamps, the last normalized price, and the immutable
/// initialization-time configuration (paired asset, leverage, creator).
#[derive(Clone, Copy, Debug, PartialEq, Eq)]
pub struct Game {
    pub state: RoundState,
    pub total_pending_payout: u64,
    pub next_epoch: u64,
    pub last_epoch: u64,
    pub last_price: u64,
    pub other_mint: [u8; 32],
    pub leverage: u64,
    pub creator: [u8; 32],
}

/// The outcome of one price tick: won exactly when the price moved strictly
/// in the direction of the market's side; everything else, ties included,
/// leaves the round undecided. The outcome has no memory beyond the most
/// recent tick.
pub open spec fn tick_outcome(last_price: u64, new_price: u64, up_side: bool) -> RoundState {
    if (new_price > last_price && up_side) || (new_price < last_price && !up_side) {
        RoundState::Won
    } else {
        RoundState::Undecided
    }
}

/// The game as it stands after one transfer tick at `now`: the outcome of
/// the tick, the new price and epoch stamped unconditionally, everything
/// else untouched.
pub open spec fn ticked(g: Game, new_price: u64, up_side: bool, now: i64) -> Game
    recommends
        now >= 0,
{
    Game {
        state: tick_outcome(g.last_price, new_price, up_side),
        last_price: new_price,
        last_epoch: now as u64,
        ..g
    }
}

impl Game {
    /// A fresh market: undecided, nothing pending, epochs anchored at `now`
    /// with the next epoch one day later.
    pub fn new(
        last_price: u64,
        other_mint: [u8; 32],
        leverage: u64,
        creator: [u8; 32],
        now: i64,
    ) -> (r: Game)
        requires
            0 <= now <= i64::MAX - 86400,
        ensures
            r.state == RoundState::Undecided,
            r.total_pending_payout == 0,
            r.next_epoch == now + 86400,
            r.last_epoch == now,
            r.last_price == last_price,
            r.other_mint == other_mint,
            r.leverage == leverage,
            r.creator == creator,
    {
        Game {
            state: RoundState::Undecided,
            total_pending_payout: 0,
            next_epoch: (now + 24 * 3600) as u64,
            last_epoch: now as u64,
            last_price,
            other_mint,
            leverage,
            creator,
        }
    }

    /// One transfer tick: derives the round outcome from the price delta and
    /// the market's side, and stamps the price and the epoch unconditionally.
    pub fn on_transfer(&mut self, new_price: u64, up_side: bool, now: i64)
        requires
            now >= 0,
        ensures
            *final(self) == ticked(*old(self), new_price, up_side, now),
    {
        if (new_price > self.last_price && up_side) || (new_price < self.last_price && !up_side) {
            self.state = RoundState::Won;
        } else {
            self.state = RoundState::Undecided;
        }
        self.last_price = new_price;
        self.last_epoch = now as u64;
    }

    /// Settlement is exactly-once per win: it succeeds only on a round that
    /// is currently won, consuming the win; settling an undecided round, or
    /// settling a second time, fails with `PreconditionFailed` and changes
    /// nothing.
    pub fn settle(&mut self) -> (r: Result<(), TransferHookError>)
        ensures
            old(self).state == RoundState::Won ==> r == Ok::<(), TransferHookError>(())
                && *final(self) == (Game { state: RoundState::Consumed, ..*old(self) }),
            old(self).state != RoundState::Won ==> r == Err::<(), TransferHookError>(
                TransferHookError::PreconditionFailed,
            ) && *final(self) == *old(self),
    {
        match self.state {
            RoundState::Won => {
                self.state = RoundState::Consumed;
                Ok(())
            },
            _ => Err(TransferHookError::PreconditionFailed),
        }
    }
}

} // verus!
