use transfer_hook_mania::oracle::{load_raydium_pool_state, CLMMPoolState, RAYDIUM_POOL_LEN};
use transfer_hook_mania::{HookConfig, TransferHookError};

fn test_config() -> HookConfig {
    HookConfig {
        pool_discriminator: [247, 237, 227, 245, 215, 195, 222, 70],
        pool_owner: [7u8; 32],
        stable_mint: [1u8; 32],
        native_mint: [2u8; 32],
        execute_tag: [105, 37, 101, 197, 75, 251, 102, 26],
    }
}

fn make_blob(cfg: &HookConfig, sqrt_price: u128, mint_a: [u8; 32], mint_b: [u8; 32]) -> Vec<u8> {
    let mut blob: Vec<u8> = vec![0u8; RAYDIUM_POOL_LEN];
    blob[0..8].copy_from_slice(&cfg.pool_discriminator);
    blob[73..105].copy_from_slice(&mint_a);
    blob[105..137].copy_from_slice(&mint_b);
    blob[253..269].copy_from_slice(&sqrt_price.to_le_bytes());
    blob
}

#[test]
fn decode_recovers_embedded_fields() {
    let cfg = test_config();
    let sqrt: u128 = 12345678901234567890123456789012345678u128;
    let a: [u8; 32] = [11u8; 32];
    let b: [u8; 32] = [22u8; 32];
    let blob = make_blob(&cfg, sqrt, a, b);
    let st = load_raydium_pool_state(&cfg, &blob, &cfg.pool_owner.clone()).unwrap();
    assert_eq!(st.sqrt_price, sqrt);
    assert_eq!(st.token_mint_a, a);
    assert_eq!(st.token_mint_b, b);
}

#[test]
fn decode_rejects_wrong_length() {
    let cfg = test_config();
    let mut blob = make_blob(&cfg, 1, [0u8; 32], [0u8; 32]);
    blob.push(0);
    let r = load_raydium_pool_state(&cfg, &blob, &cfg.pool_owner.clone());
    assert_eq!(r.unwrap_err(), TransferHookError::InvalidCLMMOracle);
}

#[test]
fn decode_rejects_wrong_discriminator() {
    let cfg = test_config();
    let mut blob = make_blob(&cfg, 1, [0u8; 32], [0u8; 32]);
    blob[3] ^= 0xff;
    let r = load_raydium_pool_state(&cfg, &blob, &cfg.pool_owner.clone());
    assert_eq!(r.unwrap_err(), TransferHookError::InvalidCLMMOracle);
}

#[test]
fn decode_rejects_wrong_owner() {
    let cfg = test_config();
    let blob = make_blob(&cfg, 1, [0u8; 32], [0u8; 32]);
    let r = load_raydium_pool_state(&cfg, &blob, &[8u8; 32]);
    assert_eq!(r.unwrap_err(), TransferHookError::InvalidCLMMOracle);
}

#[test]
fn is_inverted_follows_mint_ordering_rule() {
    let cfg = test_config();
    let with = |a: [u8; 32], b: [u8; 32]| CLMMPoolState {
        sqrt_price: 1,
        token_mint_a: a,
        token_mint_b: b,
    };
    // mint A is the stable asset: inverted.
    assert!(with(cfg.stable_mint, [9u8; 32]).is_inverted(&cfg));
    // mint A is the native asset and B is not the stable asset: inverted.
    assert!(with(cfg.native_mint, [9u8; 32]).is_inverted(&cfg));
    // mint A is the native asset but B is the stable asset: not inverted.
    assert!(!with(cfg.native_mint, cfg.stable_mint).is_inverted(&cfg));
    // neither mint is canonical: not inverted.
    assert!(!with([9u8; 32], [10u8; 32]).is_inverted(&cfg));
}

#[test]
fn price_squares_the_fixed_point_value() {
    let cfg = test_config();
    // sqrt price 3.0 in Q64.64, non-inverted pool: price is 9.
    let st = CLMMPoolState {
        sqrt_price: 3u128 << 64,
        token_mint_a: [9u8; 32],
        token_mint_b: [10u8; 32],
    };
    assert_eq!(st.get_clmm_price(&cfg).unwrap(), 9);
}

#[test]
fn price_truncates_fractional_square() {
    let cfg = test_config();
    // sqrt price 1.5 in Q64.64: square is 2.25, floored to 2.
    let st = CLMMPoolState {
        sqrt_price: (3u128 << 64) / 2,
        token_mint_a: [9u8; 32],
        token_mint_b: [10u8; 32],
    };
    assert_eq!(st.get_clmm_price(&cfg).unwrap(), 2);
}

#[test]
fn price_inverts_then_floors() {
    let cfg = test_config();
    // sqrt price 0.5 in Q64.64 on an inverted pool: square is 0.25 (which
    // would floor to zero); the reciprocal is taken first, giving exactly 4.
    let st = CLMMPoolState {
        sqrt_price: 1u128 << 63,
        token_mint_a: cfg.stable_mint,
        token_mint_b: [9u8; 32],
    };
    assert_eq!(st.get_clmm_price(&cfg).unwrap(), 4);
}

#[test]
fn price_inverted_zero_sqrt_is_a_fault() {
    let cfg = test_config();
    let st = CLMMPoolState {
        sqrt_price: 0,
        token_mint_a: cfg.stable_mint,
        token_mint_b: [9u8; 32],
    };
    assert_eq!(
        st.get_clmm_price(&cfg).unwrap_err(),
        TransferHookError::ArithmeticFault
    );
}

#[test]
fn price_too_large_is_a_fault() {
    let cfg = test_config();
    let st = CLMMPoolState {
        sqrt_price: u128::MAX,
        token_mint_a: [9u8; 32],
        token_mint_b: [10u8; 32],
    };
    assert_eq!(
        st.get_clmm_price(&cfg).unwrap_err(),
        TransferHookError::ArithmeticFault
    );
}

#[test]
fn mint_swap_preserves_the_economic_price() {
    let cfg = test_config();
    // One pool, read from both sides: as (stable, native) with sqrt price
    // 0.5, and as (native, stable) with the reciprocal sqrt price 2.0.
    // Inversion applies to exactly one reading; the price is 4 either way.
    let direct = CLMMPoolState {
        sqrt_price: 1u128 << 63,
        token_mint_a: cfg.stable_mint,
        token_mint_b: cfg.native_mint,
    };
    let swapped = CLMMPoolState {
        sqrt_price: 1u128 << 65,
        token_mint_a: cfg.native_mint,
        token_mint_b: cfg.stable_mint,
    };
    assert!(direct.is_inverted(&cfg));
    assert!(!swapped.is_inverted(&cfg));
    assert_eq!(
        direct.get_clmm_price(&cfg).unwrap(),
        swapped.get_clmm_price(&cfg).unwrap()
    );
    assert_eq!(direct.get_clmm_price(&cfg).unwrap(), 4);
}
