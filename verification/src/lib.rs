//! Price-reactive settlement core for a token transfer hook.
//!
//! Every transfer of the hooked token is routed through this core: it decodes
//! an external liquidity-pool account as a price oracle, updates a rolling
//! volatility estimate, decides whether the current round is won, and computes
//! leverage- and volatility-adjusted payouts against a pooled reserve.
//!
//! The host runtime (account creation, rent, CPIs, signatures) is out of
//! scope; the core works on plain values handed in by its caller.

use vstd::prelude::*;

pub mod game;
pub mod hook;
pub mod math;
pub mod oracle;
pub mod payout;
pub mod volatility;

verus! {

/// The error kinds of the core. Every error is terminal for the current
/// operation: no partial state is ever committed.
#[derive(Clone, Copy, Debug, PartialEq, Eq, Structural)]
pub enum TransferHookError {
    /// The oracle account failed validation (length, discriminator or owner).
    InvalidCLMMOracle,
    /// A settlement was attempted on a round that is not currently won.
    PreconditionFailed,
    /// The instruction buffer at the dispatch boundary carried an unknown tag.
    UnrecognizedInstruction,
    /// A guarded arithmetic step (division by zero, overflow, or an underflow
    /// of the pending-payout counter) could not be performed.
    ArithmeticFault,
}

/// Immutable reference constants, injected at construction time: the oracle
/// account's expected discriminator and owning program, the canonical
/// stable-quote and native asset identifiers that drive price inversion, and
/// the instruction tag that the dispatcher accepts.
#[derive(Clone, Copy, Debug)]
pub struct HookConfig {
    /// First 8 bytes every valid oracle account must carry.
    pub pool_discriminator: [u8; 8],
    /// Program identifier that must own the oracle account.
    pub pool_owner: [u8; 32],
    /// Canonical stable-quote asset identifier.
    pub stable_mint: [u8; 32],
    /// Canonical native asset identifier.
    pub native_mint: [u8; 32],
    /// Tag of the one instruction variant the dispatcher accepts.
    pub execute_tag: [u8; 8],
}

} // verus!
