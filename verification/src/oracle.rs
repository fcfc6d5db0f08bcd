//! Reading the price oracle: validation and decoding of the raw pool account
//! blob, and normalization of its square-root fixed-point price into an
//! integer price under the canonical mint-ordering rule.

use vstd::prelude::*;

use crate::math::{bytes_eq, div_pow2_128, mul_wide, pow2_128, pow2_64};
use crate::HookConfig;
use crate::TransferHookError;

verus! {

/// Total byte length every valid oracle account must have.
pub const RAYDIUM_POOL_LEN: usize = 1544;

/// A decoded pool price state: the square-root price in Q64.64 fixed point
/// and the two mint identifiers of the pool. Reconstructed fresh from the
/// oracle account on every read, never persisted.
#[derive(Clone, Copy, Debug)]
pub struct CLMMPoolState {
    pub sqrt_price: u128,
    pub token_mint_a: [u8; 32],
    pub token_mint_b: [u8; 32],
}

/// Whether a raw account blob passes oracle validation: exact length, the
/// expected leading discriminator, and the expected owning program.
pub open spec fn valid_pool_account(cfg: HookConfig, data: Seq<u8>, owner: Seq<u8>) -> bool {
    &&& data.len() == 1544
    &&& data.subrange(0, 8) == cfg.pool_discriminator@
    &&& owner == cfg.pool_owner@
}

/// The normalized integer price of a pool whose square-root price has bit
/// pattern `s`: the square of the Q64.64 value, floored, with the reciprocal
/// taken first when the mint ordering marks the pool as inverted
/// (invert-then-floor, never floor-then-invert).
pub open spec fn normalized_price(s: u128, inverted: bool) -> int
    recommends
        inverted ==> s > 0,
{
    if inverted {
        pow2_128() / (s * s)
    } else {
        (s * s) / pow2_128()
    }
}

impl CLMMPoolState {
    /// The asymmetric mint-ordering rule: the pool's price is quoted from the
    /// wrong side, and must be inverted, when mint A is the canonical stable
    /// asset, or when mint A is the canonical native asset while mint B is
    /// not the stable asset.
    pub open spec fn spec_is_inverted(self, cfg: HookConfig) -> bool {
        ||| self.token_mint_a@ == cfg.stable_mint@
        ||| (self.token_mint_a@ == cfg.native_mint@ && self.token_mint_b@ != cfg.stable_mint@)
    }

    /// Decides the mint-ordering rule.
    pub fn is_inverted(&self, cfg: &HookConfig) -> (r: bool)
        ensures
            r == self.spec_is_inverted(*cfg),
    {
        bytes_eq(&self.token_mint_a, &cfg.stable_mint) || (bytes_eq(
            &self.token_mint_a,
            &cfg.native_mint,
        ) && !bytes_eq(&self.token_mint_b, &cfg.stable_mint))
    }

    /// Normalizes the square-root price to an integer price. Fails with
    /// `ArithmeticFault` when an inverted pool reports a zero square-root
    /// price (the reciprocal is undefined) or when the normalized price does
    /// not fit a 64-bit integer.
    pub fn get_clmm_price(&self, cfg: &HookConfig) -> (r: Result<u64, TransferHookError>)
        ensures
            match r {
                Ok(p) => {
                    &&& self.spec_is_inverted(*cfg) ==> self.sqrt_price > 0
                    &&& normalized_price(self.sqrt_price, self.spec_is_inverted(*cfg)) == p as int
                },
                Err(e) => {
                    &&& e == TransferHookError::ArithmeticFault
                    &&& (self.spec_is_inverted(*cfg) && self.sqrt_price == 0) || normalized_price(
                        self.sqrt_price,
                        self.spec_is_inverted(*cfg),
                    ) > u64::MAX
                },
            },
    {
        let inverted = self.is_inverted(cfg);
        let s = self.sqrt_price;
        let (hi, lo) = mul_wide(s, s);
        if inverted {
            if s == 0 {
                return Err(TransferHookError::ArithmeticFault);
            }
            if hi > 0 {
                if hi == 1 && lo == 0 {
                    proof {
                        vstd::arithmetic::div_mod::lemma_fundamental_div_mod_converse(
                            pow2_128(),
                            s * s,
                            1,
                            0,
                        );
                    }
                    Ok(1u64)
                } else {
                    proof {
                        vstd::arithmetic::div_mod::lemma_basic_div(pow2_128(), s * s);
                    }
                    Ok(0u64)
                }
            } else {
                proof {
                    assert(s * s >= 1) by (nonlinear_arith)
                        requires
                            s >= 1,
                    ;
                }
                if lo <= 0x10000000000000000u128 {
                    proof {
                        vstd::arithmetic::div_mod::lemma_fundamental_div_mod_converse(
                            pow2_128(),
                            pow2_64(),
                            pow2_64(),
                            0,
                        );
                        vstd::arithmetic::div_mod::lemma_div_is_ordered_by_denominator(
                            pow2_128(),
                            lo as int,
                            pow2_64(),
                        );
                    }
                    Err(TransferHookError::ArithmeticFault)
                } else {
                    let q = div_pow2_128(lo);
                    proof {
                        assert((pow2_64() - 1) * (pow2_64() + 1) == pow2_128() - 1)
                            by (nonlinear_arith);
                        vstd::arithmetic::div_mod::lemma_fundamental_div_mod_converse(
                            pow2_128(),
                            pow2_64() + 1,
                            pow2_64() - 1,
                            1,
                        );
                        vstd::arithmetic::div_mod::lemma_div_is_ordered_by_denominator(
                            pow2_128(),
                            pow2_64() + 1,
                            lo as int,
                        );
                    }
                    Ok(q as u64)
                }
            }
        } else {
            if hi > 0xffffffffffffffffu128 {
                proof {
                    vstd::arithmetic::div_mod::lemma_fundamental_div_mod_converse(
                        s * s,
                        pow2_128(),
                        hi as int,
                        lo as int,
                    );
                }
                Err(TransferHookError::ArithmeticFault)
            } else {
                proof {
                    vstd::arithmetic::div_mod::lemma_fundamental_div_mod_converse(
                        s * s,
                        pow2_128(),
                        hi as int,
                        lo as int,
                    );
                }
                Ok(hi as u64)
            }
        }
    }
}

/// The square-root price embedded in a valid oracle blob.
pub open spec fn oracle_sqrt_price(data: Seq<u8>) -> u128 {
    vstd::bytes::spec_u128_from_le_bytes(data.subrange(253, 269))
}

/// The mint-ordering rule read straight off a valid oracle blob.
pub open spec fn oracle_inverted(cfg: HookConfig, data: Seq<u8>) -> bool {
    ||| data.subrange(73, 105) == cfg.stable_mint@
    ||| (data.subrange(73, 105) == cfg.native_mint@ && data.subrange(105, 137) != cfg.stable_mint@)
}

/// Whether the normalized price of a valid oracle blob is well-defined and
/// fits 64 bits.
pub open spec fn oracle_price_fits(cfg: HookConfig, data: Seq<u8>) -> bool {
    &&& oracle_inverted(cfg, data) ==> oracle_sqrt_price(data) > 0
    &&& normalized_price(oracle_sqrt_price(data), oracle_inverted(cfg, data)) <= u64::MAX
}

/// The normalized price of a valid oracle blob.
pub open spec fn oracle_price(cfg: HookConfig, data: Seq<u8>) -> int {
    normalized_price(oracle_sqrt_price(data), oracle_inverted(cfg, data))
}

/// LAW: swapping which asset is "A" and which is "B" flips whether inversion
/// applies, whenever the two mints differ and at least one of them is a
/// canonical reference asset. (With two identical mints, or with no canonical
/// asset in the pair, the mint-ordering rule gives the same answer on both
/// sides and nothing flips.)
pub proof fn lemma_swap_flips_inversion(cfg: HookConfig, st: CLMMPoolState, swapped: CLMMPoolState)
    requires
        swapped.token_mint_a@ == st.token_mint_b@,
        swapped.token_mint_b@ == st.token_mint_a@,
        st.token_mint_a@ != st.token_mint_b@,
        st.token_mint_a@ == cfg.stable_mint@ || st.token_mint_b@ == cfg.stable_mint@
            || st.token_mint_a@ == cfg.native_mint@ || st.token_mint_b@ == cfg.native_mint@,
    ensures
        st.spec_is_inverted(cfg) != swapped.spec_is_inverted(cfg),
{
}

/// Exchanging a square-root price for its exact Q64.64 reciprocal exchanges
/// the direct and the inverted reading of the price, to the digit.
proof fn lemma_swap_preserves_price(s: u128, t: u128)
    requires
        s * t == pow2_128(),
    ensures
        normalized_price(s, false) == normalized_price(t, true),
        normalized_price(s, true) == normalized_price(t, false),
{
    assert(s > 0 && t > 0) by (nonlinear_arith)
        requires
            (s as int) * (t as int) == 0x100000000000000000000000000000000int,
            s >= 0,
            t >= 0,
    ;
    vstd::arithmetic::mul::lemma_mul_is_commutative(s as int, t as int);
    vstd::arithmetic::div_mod::lemma_div_multiples_vanish_quotient(s as int, s as int, t as int);
    vstd::arithmetic::div_mod::lemma_div_multiples_vanish_quotient(t as int, s as int, t as int);
    vstd::arithmetic::div_mod::lemma_div_multiples_vanish_quotient(s as int, t as int, s as int);
    vstd::arithmetic::div_mod::lemma_div_multiples_vanish_quotient(t as int, t as int, s as int);
}

/// LAW: price normalization is consistent under the mint-ordering rule. For
/// one and the same underlying pool, read once as (A, B) with square-root
/// price `s` and once as (B, A) with the exact reciprocal square-root price,
/// swapping the mints changes only whether inversion applies, never the
/// normalized economic price.
pub proof fn lemma_price_invariant_under_mint_swap(
    cfg: HookConfig,
    st: CLMMPoolState,
    swapped: CLMMPoolState,
)
    requires
        swapped.token_mint_a@ == st.token_mint_b@,
        swapped.token_mint_b@ == st.token_mint_a@,
        st.token_mint_a@ != st.token_mint_b@,
        st.token_mint_a@ == cfg.stable_mint@ || st.token_mint_b@ == cfg.stable_mint@
            || st.token_mint_a@ == cfg.native_mint@ || st.token_mint_b@ == cfg.native_mint@,
        st.sqrt_price * swapped.sqrt_price == pow2_128(),
    ensures
        st.spec_is_inverted(cfg) != swapped.spec_is_inverted(cfg),
        normalized_price(st.sqrt_price, st.spec_is_inverted(cfg)) == normalized_price(
            swapped.sqrt_price,
            swapped.spec_is_inverted(cfg),
        ),
{
    lemma_swap_flips_inversion(cfg, st, swapped);
    lemma_swap_preserves_price(st.sqrt_price, swapped.sqrt_price);
}

/// Copies the 32 bytes of `data` starting at `off` into a fresh identifier.
fn read_key(data: &[u8], off: usize) -> (r: [u8; 32])
    requires
        off <= 1512,
        off + 32 <= data@.len(),
    ensures
        r@ == data@.subrange(off as int, off + 32),
{
    let mut out: [u8; 32] = [0u8; 32];
    let mut i: usize = 0;
    while i < 32
        invariant
            0 <= i <= 32,
            off <= 1512,
            off + 32 <= data@.len(),
            out@.len() == 32,
            forall|j: int| 0 <= j < i ==> out@[j] == data@[off + j],
        decreases 32 - i,
    {
        out[i] = data[off + i];
        i = i + 1;
    }
    proof {
        assert(out@ =~= data@.subrange(off as int, off + 32));
    }
    out
}

/// Validates and decodes a raw oracle account blob: the total length must
/// be exact, the first 8 bytes must carry the expected discriminator, and
/// the account must be owned by the expected program; any mismatch is fatal
/// and yields `InvalidCLMMOracle`. On success extracts the little-endian
/// square-root price at byte offset 253 and the two mint identifiers at
/// offsets 73 and 105.
pub fn load_raydium_pool_state(cfg: &HookConfig, data: &[u8], owner: &[u8; 32]) -> (r: Result<
    CLMMPoolState,
    TransferHookError,
>)
    ensures
        match r {
            Ok(st) => {
                &&& valid_pool_account(*cfg, data@, owner@)
                &&& st.sqrt_price == vstd::bytes::spec_u128_from_le_bytes(
                    data@.subrange(253, 269),
                )
                &&& st.token_mint_a@ == data@.subrange(73, 105)
                &&& st.token_mint_b@ == data@.subrange(105, 137)
            },
            Err(e) => {
                &&& !valid_pool_account(*cfg, data@, owner@)
                &&& e == TransferHookError::InvalidCLMMOracle
            },
        },
{
    if data.len() != RAYDIUM_POOL_LEN {
        return Err(TransferHookError::InvalidCLMMOracle);
    }
    let mut i: usize = 0;
    while i < 8
        invariant
            0 <= i <= 8,
            data@.len() == 1544,
            forall|j: int| 0 <= j < i ==> data@[j] == cfg.pool_discriminator@[j],
        decreases 8 - i,
    {
        if data[i] != cfg.pool_discriminator[i] {
            proof {
                assert(data@.subrange(0, 8)[i as int] != cfg.pool_discriminator@[i as int]);
            }
            return Err(TransferHookError::InvalidCLMMOracle);
        }
        i = i + 1;
    }
    proof {
        assert(data@.subrange(0, 8) =~= cfg.pool_discriminator@);
    }
    if !bytes_eq(owner, &cfg.pool_owner) {
        return Err(TransferHookError::InvalidCLMMOracle);
    }
    let price_bytes = vstd::slice::slice_subrange(data, 253, 269);
    let sqrt_price = vstd::bytes::u128_from_le_bytes(price_bytes);
    let token_mint_a = read_key(data, 73);
    let token_mint_b = read_key(data, 105);
    Ok(CLMMPoolState { sqrt_price, token_mint_a, token_mint_b })
}

} // verus!
