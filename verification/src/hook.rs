//! The protocol layer at the system boundary: the account-resolution
//! manifest written once at market creation, the per-transfer hook that
//! drives the game and the volatility window from the oracle, the two
//! settlement entry points, and the tagged-instruction fallback that routes
//! the one recognized instruction to the transfer-hook entry point.

use vstd::prelude::*;

use crate::game::{ticked, Game, RoundState};
use crate::math::{key_lt, lex_lt};
use crate::oracle::{
    load_raydium_pool_state, oracle_price, oracle_price_fits, valid_pool_account,
};
use crate::payout::{
    burn_redemption_payout, burn_redemption_spec, calculate_reward_multiplier,
    reward_multiplier_bps, settlement_payout, settlement_payout_spec,
};
use crate::volatility::{update_applied, update_overflows, VolatilityIndex};
use crate::HookConfig;
use crate::TransferHookError;

verus! {

/// One descriptor in the account-resolution manifest: an account the caller
/// must append, and whether it must sign or be writable.
#[derive(Clone, Copy, Debug, PartialEq, Eq)]
pub struct ExtraAccountMeta {
    pub address: [u8; 32],
    pub is_signer: bool,
    pub is_writable: bool,
}

/// The ordered, immutable-after-creation list of account descriptors a
/// caller must append after the four mandatory transfer accounts (source,
/// mint, destination, authority) to invoke the hook correctly.
#[derive(Clone, Debug, PartialEq, Eq)]
pub struct ExtraAccountManifest {
    pub metas: Vec<ExtraAccountMeta>,
}

/// The tagged instruction union of the dispatch boundary. Only the
/// `Execute` variant, carrying the transferred amount, is recognized.
#[derive(Clone, Copy, Debug, PartialEq, Eq, Structural)]
pub enum HookInstruction {
    Execute { amount: u64 },
}

/// Whether an instruction buffer is a well-formed `Execute`: the accepted
/// tag followed by the 8-byte little-endian amount.
pub open spec fn is_execute_instruction(cfg: HookConfig, data: Seq<u8>) -> bool {
    data.len() >= 16 && data.subrange(0, 8) == cfg.execute_tag@
}

/// The amount carried by a well-formed `Execute` buffer.
pub open spec fn execute_amount(data: Seq<u8>) -> u64 {
    vstd::bytes::spec_u64_from_le_bytes(data.subrange(8, 16))
}

/// Decodes an opaque instruction buffer against the tagged union. Exactly
/// the buffers carrying the accepted tag and a full 8-byte amount decode to
/// `Execute`; every other buffer is rejected with `UnrecognizedInstruction`.
pub fn unpack_instruction(cfg: &HookConfig, data: &[u8]) -> (r: Result<
    HookInstruction,
    TransferHookError,
>)
    ensures
        match r {
            Ok(ins) => is_execute_instruction(*cfg, data@) && ins == (HookInstruction::Execute {
                amount: execute_amount(data@),
            }),
            Err(e) => !is_execute_instruction(*cfg, data@) && e
                == TransferHookError::UnrecognizedInstruction,
        },
{
    if data.len() < 16 {
        return Err(TransferHookError::UnrecognizedInstruction);
    }
    let mut i: usize = 0;
    while i < 8
        invariant
            0 <= i <= 8,
            data@.len() >= 16,
            forall|j: int| 0 <= j < i ==> data@[j] == cfg.execute_tag@[j],
        decreases 8 - i,
    {
        if data[i] != cfg.execute_tag[i] {
            proof {
                assert(data@.subrange(0, 8)[i as int] != cfg.execute_tag@[i as int]);
            }
            return Err(TransferHookError::UnrecognizedInstruction);
        }
        i = i + 1;
    }
    proof {
        assert(data@.subrange(0, 8) =~= cfg.execute_tag@);
    }
    let amount_bytes = vstd::slice::slice_subrange(data, 8, 16);
    let amount = vstd::bytes::u64_from_le_bytes(amount_bytes);
    Ok(HookInstruction::Execute { amount })
}

/// What one transfer tick does to the game and the volatility index, for a
/// given oracle blob: any oracle failure, price failure or volatility
/// overflow is terminal and leaves both untouched; otherwise the game takes
/// the tick outcome and the window takes its opportunistic sample.
pub open spec fn transfer_hook_post(
    cfg: HookConfig,
    g0: Game,
    v0: VolatilityIndex,
    g1: Game,
    v1: VolatilityIndex,
    mint: Seq<u8>,
    data: Seq<u8>,
    owner: Seq<u8>,
    now: i64,
    r: Result<(), TransferHookError>,
) -> bool {
    if !valid_pool_account(cfg, data, owner) {
        r == Err::<(), TransferHookError>(TransferHookError::InvalidCLMMOracle) && g1 == g0 && v1
            == v0
    } else if !oracle_price_fits(cfg, data) {
        r == Err::<(), TransferHookError>(TransferHookError::ArithmeticFault) && g1 == g0 && v1
            == v0
    } else {
        let price = oracle_price(cfg, data) as u64;
        if update_overflows(v0, price, now) {
            r == Err::<(), TransferHookError>(TransferHookError::ArithmeticFault) && g1 == g0 && v1
                == v0
        } else {
            &&& r == Ok::<(), TransferHookError>(())
            &&& g1 == ticked(g0, price, lex_lt(g0.other_mint@, mint), now)
            &&& v1 == update_applied(v0, price, now)
        }
    }
}

/// The per-transfer hook: reads the oracle, derives the round outcome from
/// the price move and the market's side (this mint above the paired mint in
/// the fixed ordering plays "up"), and feeds the volatility window. All
/// state mutations of one invocation commit together or not at all.
pub fn transfer_hook(
    cfg: &HookConfig,
    game: &mut Game,
    vol: &mut VolatilityIndex,
    mint: &[u8; 32],
    oracle_data: &[u8],
    oracle_owner: &[u8; 32],
    _amount: u64,
    now: i64,
) -> (r: Result<(), TransferHookError>)
    requires
        old(vol).wf(),
        now >= 0,
    ensures
        final(vol).wf(),
        transfer_hook_post(
            *cfg,
            *old(game),
            *old(vol),
            *final(game),
            *final(vol),
            mint@,
            oracle_data@,
            oracle_owner@,
            now,
            r,
        ),
{
    let state = match load_raydium_pool_state(cfg, oracle_data, oracle_owner) {
        Err(e) => {
            return Err(e);
        },
        Ok(st) => st,
    };
    let price = match state.get_clmm_price(cfg) {
        Err(e) => {
            return Err(e);
        },
        Ok(p) => p,
    };
    let up_side = key_lt(&game.other_mint, mint);
    match vol.update(price, now) {
        Err(e) => {
            return Err(e);
        },
        Ok(()) => {},
    }
    game.on_transfer(price, up_side, now);
    Ok(())
}

/// The internal transfer-hook entry point: takes the re-encoded fixed-width
/// little-endian payload the fallback produces, decodes the amount back out
/// of it, and runs the hook.
pub fn transfer_hook_entry(
    cfg: &HookConfig,
    game: &mut Game,
    vol: &mut VolatilityIndex,
    mint: &[u8; 32],
    oracle_data: &[u8],
    oracle_owner: &[u8; 32],
    payload: &[u8],
    now: i64,
) -> (r: Result<(), TransferHookError>)
    requires
        payload@.len() == 8,
        old(vol).wf(),
        now >= 0,
    ensures
        final(vol).wf(),
        transfer_hook_post(
            *cfg,
            *old(game),
            *old(vol),
            *final(game),
            *final(vol),
            mint@,
            oracle_data@,
            oracle_owner@,
            now,
            r,
        ),
{
    let amount = vstd::bytes::u64_from_le_bytes(payload);
    transfer_hook(cfg, game, vol, mint, oracle_data, oracle_owner, amount, now)
}

/// The instruction fallback at the dispatch boundary: decodes the opaque
/// buffer, rejects everything but `Execute` without touching any state, and
/// redispatches a recognized `Execute` to the transfer-hook entry point as a
/// fixed-width little-endian payload.
pub fn fallback(
    cfg: &HookConfig,
    game: &mut Game,
    vol: &mut VolatilityIndex,
    mint: &[u8; 32],
    oracle_data: &[u8],
    oracle_owner: &[u8; 32],
    instruction_data: &[u8],
    now: i64,
) -> (r: Result<(), TransferHookError>)
    requires
        old(vol).wf(),
        now >= 0,
    ensures
        final(vol).wf(),
        !is_execute_instruction(*cfg, instruction_data@) ==> r == Err::<(), TransferHookError>(
            TransferHookError::UnrecognizedInstruction,
        ) && *final(game) == *old(game) && *final(vol) == *old(vol),
        is_execute_instruction(*cfg, instruction_data@) ==> transfer_hook_post(
            *cfg,
            *old(game),
            *old(vol),
            *final(game),
            *final(vol),
            mint@,
            oracle_data@,
            oracle_owner@,
            now,
            r,
        ),
{
    let instruction = match unpack_instruction(cfg, instruction_data) {
        Err(e) => {
            return Err(e);
        },
        Ok(ins) => ins,
    };
    match instruction {
        HookInstruction::Execute { amount } => {
            let amount_bytes = vstd::bytes::u64_to_le_bytes(amount);
            proof {
                vstd::bytes::lemma_auto_spec_u64_to_from_le_bytes();
            }
            transfer_hook_entry(
                cfg,
                game,
                vol,
                mint,
                oracle_data,
                oracle_owner,
                amount_bytes.as_slice(),
                now,
            )
        },
    }
}

/// Settlement of a won round: consumes the win exactly once and computes
/// the payout — the backing reserve scaled by the volatility reward
/// multiplier. A round that is not currently won fails with
/// `PreconditionFailed`; a payout that does not fit 64 bits fails with
/// `ArithmeticFault`; either failure changes nothing.
pub fn om_nom_nom(game: &mut Game, vol: &VolatilityIndex, reserve: u64) -> (r: Result<
    u64,
    TransferHookError,
>)
    ensures
        old(game).state != RoundState::Won ==> r == Err::<u64, TransferHookError>(
            TransferHookError::PreconditionFailed,
        ) && *final(game) == *old(game),
        old(game).state == RoundState::Won ==> {
            let bps = reward_multiplier_bps(
                vol.volatility as int,
                vol.up_threshold as int,
                vol.down_threshold as int,
            );
            let payout = settlement_payout_spec(reserve as int, bps);
            if payout > u64::MAX {
                r == Err::<u64, TransferHookError>(TransferHookError::ArithmeticFault)
                    && *final(game) == *old(game)
            } else {
                r == Ok::<u64, TransferHookError>(payout as u64) && *final(game) == (Game {
                    state: RoundState::Consumed,
                    ..*old(game)
                })
            }
        },
{
    match game.state {
        RoundState::Won => {},
        _ => {
            return Err(TransferHookError::PreconditionFailed);
        },
    }
    let bps = calculate_reward_multiplier(vol.volatility, vol.up_threshold, vol.down_threshold);
    let payout = match settlement_payout(reserve, bps) {
        Err(e) => {
            return Err(e);
        },
        Ok(p) => p,
    };
    match game.settle() {
        Ok(()) => Ok(payout),
        Err(e) => Err(e),
    }
}

/// Burn redemption: pays the reserve share proportional to the burned
/// amount, scaled by the volatility reward multiplier, and decrements the
/// pending-payout counter by the same amount. A zero supply, a burn larger
/// than the supply, an oversized payout, or a payout that would drive the
/// counter negative fails with `ArithmeticFault` and changes nothing — the
/// counter never wraps.
pub fn burn_baby_burn(
    game: &mut Game,
    vol: &VolatilityIndex,
    amount: u64,
    total_supply: u64,
    reserve: u64,
) -> (r: Result<u64, TransferHookError>)
    ensures
        ({
            let bps = reward_multiplier_bps(
                vol.volatility as int,
                vol.up_threshold as int,
                vol.down_threshold as int,
            );
            let payout = burn_redemption_spec(
                amount as int,
                total_supply as int,
                reserve as int,
                bps,
            );
            if total_supply == 0 || amount > total_supply || payout > u64::MAX
                || payout > old(game).total_pending_payout {
                r == Err::<u64, TransferHookError>(TransferHookError::ArithmeticFault)
                    && *final(game) == *old(game)
            } else {
                r == Ok::<u64, TransferHookError>(payout as u64) && *final(game) == (Game {
                    total_pending_payout: (old(game).total_pending_payout - payout) as u64,
                    ..*old(game)
                })
            }
        }),
{
    let bps = calculate_reward_multiplier(vol.volatility, vol.up_threshold, vol.down_threshold);
    let payout = match burn_redemption_payout(amount, total_supply, reserve, bps) {
        Err(e) => {
            return Err(e);
        },
        Ok(p) => p,
    };
    match game.total_pending_payout.checked_sub(payout) {
        None => Err(TransferHookError::ArithmeticFault),
        Some(rest) => {
            game.total_pending_payout = rest;
            Ok(payout)
        },
    }
}

/// Market creation: decodes the oracle once to anchor the starting price,
/// and returns the fresh game, the fresh volatility index, and the
/// account-resolution manifest — the four descriptors (paired mint, game,
/// volatility index, oracle) that every later transfer must append, in this
/// order. Written once; never renegotiated per call.
pub fn initialize_extra_account_meta_list(
    cfg: &HookConfig,
    mint: &[u8; 32],
    other_mint: &[u8; 32],
    game_key: &[u8; 32],
    volatility_key: &[u8; 32],
    oracle_key: &[u8; 32],
    oracle_data: &[u8],
    oracle_owner: &[u8; 32],
    up_threshold: u64,
    down_threshold: u64,
    leverage: u64,
    creator: &[u8; 32],
    now: i64,
) -> (r: Result<(Game, VolatilityIndex, ExtraAccountManifest), TransferHookError>)
    requires
        0 <= now <= i64::MAX - 86400,
    ensures
        !valid_pool_account(*cfg, oracle_data@, oracle_owner@) ==> r == Err::<
            (Game, VolatilityIndex, ExtraAccountManifest),
            TransferHookError,
        >(TransferHookError::InvalidCLMMOracle),
        valid_pool_account(*cfg, oracle_data@, oracle_owner@) && !oracle_price_fits(
            *cfg,
            oracle_data@,
        ) ==> r == Err::<(Game, VolatilityIndex, ExtraAccountManifest), TransferHookError>(
            TransferHookError::ArithmeticFault,
        ),
        valid_pool_account(*cfg, oracle_data@, oracle_owner@) && oracle_price_fits(
            *cfg,
            oracle_data@,
        ) ==> match r {
            Ok(out) => {
                &&& out.0 == (Game {
                    state: RoundState::Undecided,
                    total_pending_payout: 0,
                    next_epoch: (now + 86400) as u64,
                    last_epoch: now as u64,
                    last_price: oracle_price(*cfg, oracle_data@) as u64,
                    other_mint: *other_mint,
                    leverage: leverage,
                    creator: *creator,
                })
                &&& out.1.wf()
                &&& out.1.price_history@ == Seq::<u64>::new(24, |i: int| 0u64)
                &&& out.1.current_index == 0
                &&& out.1.last_update_time == now
                &&& out.1.volatility == 0
                &&& out.1.up_threshold == up_threshold
                &&& out.1.down_threshold == down_threshold
                &&& out.1.sol_mint == *mint
                &&& out.2.metas@ == seq![
                    (ExtraAccountMeta {
                        address: *other_mint,
                        is_signer: false,
                        is_writable: false,
                    }),
                    (ExtraAccountMeta { address: *game_key, is_signer: false, is_writable: true }),
                    (ExtraAccountMeta {
                        address: *volatility_key,
                        is_signer: false,
                        is_writable: true,
                    }),
                    (ExtraAccountMeta {
                        address: *oracle_key,
                        is_signer: false,
                        is_writable: false,
                    }),
                ]
            },
            Err(_) => false,
        },
{
    let state = match load_raydium_pool_state(cfg, oracle_data, oracle_owner) {
        Err(e) => {
            return Err(e);
        },
        Ok(st) => st,
    };
    let price = match state.get_clmm_price(cfg) {
        Err(e) => {
            return Err(e);
        },
        Ok(p) => p,
    };
    let game = Game::new(price, *other_mint, leverage, *creator, now);
    let vol = VolatilityIndex::new(up_threshold, down_threshold, *mint, now);
    let mut metas: Vec<ExtraAccountMeta> = Vec::new();
    metas.push(ExtraAccountMeta { address: *other_mint, is_signer: false, is_writable: false });
    metas.push(ExtraAccountMeta { address: *game_key, is_signer: false, is_writable: true });
    metas.push(ExtraAccountMeta { address: *volatility_key, is_signer: false, is_writable: true });
    metas.push(ExtraAccountMeta { address: *oracle_key, is_signer: false, is_writable: false });
    let manifest = ExtraAccountManifest { metas };
    proof {
        assert(manifest.metas@ =~= seq![
            (ExtraAccountMeta { address: *other_mint, is_signer: false, is_writable: false }),
            (ExtraAccountMeta { address: *game_key, is_signer: false, is_writable: true }),
            (ExtraAccountMeta { address: *volatility_key, is_signer: false, is_writable: true }),
            (ExtraAccountMeta { address: *oracle_key, is_signer: false, is_writable: false }),
        ]);
    }
    Ok((game, vol, manifest))
}

} // verus!
