use transfer_hook_mania::game::{Game, RoundState};
use transfer_hook_mania::payout::{
    burn_redemption_payout, calculate_reward_multiplier, leveraged_payout, price_ratio,
    settlement_payout,
};
use transfer_hook_mania::TransferHookError;

fn fresh_game(last_price: u64) -> Game {
    Game::new(last_price, [4u8; 32], 1, [9u8; 32], 0)
}

#[test]
fn new_game_is_undecided() {
    let g = fresh_game(100);
    assert_eq!(g.state, RoundState::Undecided);
    assert_eq!(g.total_pending_payout, 0);
    assert_eq!(g.last_epoch, 0);
    assert_eq!(g.next_epoch, 86400);
    assert_eq!(g.last_price, 100);
}

#[test]
fn price_rise_on_the_up_side_wins() {
    let mut g = fresh_game(100);
    g.on_transfer(150, true, 10);
    assert_eq!(g.state, RoundState::Won);
    assert_eq!(g.last_price, 150);
    assert_eq!(g.last_epoch, 10);
}

#[test]
fn price_rise_on_the_down_side_loses() {
    let mut g = fresh_game(100);
    g.on_transfer(150, false, 10);
    assert_eq!(g.state, RoundState::Undecided);
    assert_eq!(g.last_price, 150);
}

#[test]
fn price_drop_on_the_down_side_wins() {
    let mut g = fresh_game(100);
    g.on_transfer(50, false, 10);
    assert_eq!(g.state, RoundState::Won);
}

#[test]
fn tie_is_undecided_on_both_sides() {
    let mut g = fresh_game(100);
    g.on_transfer(100, true, 10);
    assert_eq!(g.state, RoundState::Undecided);
    let mut h = fresh_game(100);
    h.on_transfer(100, false, 10);
    assert_eq!(h.state, RoundState::Undecided);
}

#[test]
fn settle_requires_a_won_round() {
    let mut g = fresh_game(100);
    assert_eq!(
        g.settle().unwrap_err(),
        TransferHookError::PreconditionFailed
    );
    assert_eq!(g.state, RoundState::Undecided);
}

#[test]
fn settle_is_exactly_once() {
    let mut g = fresh_game(100);
    g.on_transfer(150, true, 10);
    g.settle().unwrap();
    assert_eq!(g.state, RoundState::Consumed);
    assert_eq!(
        g.settle().unwrap_err(),
        TransferHookError::PreconditionFailed
    );
    assert_eq!(g.state, RoundState::Consumed);
}

#[test]
fn a_new_win_rearms_after_consumption() {
    let mut g = fresh_game(100);
    g.on_transfer(150, true, 10);
    g.settle().unwrap();
    g.on_transfer(200, true, 20);
    assert_eq!(g.state, RoundState::Won);
}

#[test]
fn reward_multiplier_piecewise_values() {
    // In basis points: 1.2, 0.95 and exactly 1.0.
    assert_eq!(calculate_reward_multiplier(5000, 3000, 1000), 12000);
    assert_eq!(calculate_reward_multiplier(500, 3000, 1000), 9500);
    assert_eq!(calculate_reward_multiplier(2000, 3000, 1000), 10000);
}

#[test]
fn reward_multiplier_boundaries_and_floor() {
    // At the thresholds themselves the multiplier is exactly one.
    assert_eq!(calculate_reward_multiplier(3000, 3000, 1000), 10000);
    assert_eq!(calculate_reward_multiplier(1000, 3000, 1000), 10000);
    // A deficit of a full unit or more floors the multiplier at zero.
    assert_eq!(calculate_reward_multiplier(0, 30000, 20000), 0);
}

#[test]
fn settlement_payout_rounds_half_up() {
    assert_eq!(settlement_payout(10000, 12000).unwrap(), 12000);
    // 3 * 0.95 = 2.85 rounds to 3.
    assert_eq!(settlement_payout(3, 9500).unwrap(), 3);
    // 1 * 0.5 = 0.5 rounds away from zero to 1.
    assert_eq!(settlement_payout(1, 5000).unwrap(), 1);
    // 1 * 0.049 = 0.049 rounds to 0.
    assert_eq!(settlement_payout(1, 490).unwrap(), 0);
}

#[test]
fn settlement_payout_overflow_is_a_fault() {
    let r = settlement_payout(u64::MAX, 20000);
    assert_eq!(r.unwrap_err(), TransferHookError::ArithmeticFault);
}

#[test]
fn burn_of_the_whole_supply_redeems_the_whole_reserve() {
    // Complete redemption: the payout is the full reserve scaled only by
    // the multiplier, exactly what settling the same reserve would pay.
    let burn = burn_redemption_payout(1000, 1000, 777, 12000).unwrap();
    let settle = settlement_payout(777, 12000).unwrap();
    assert_eq!(burn, settle);
    assert_eq!(burn, 932);
}

#[test]
fn burn_pays_proportionally() {
    assert_eq!(burn_redemption_payout(500, 1000, 1000, 10000).unwrap(), 500);
    assert_eq!(burn_redemption_payout(1, 3, 1000, 10000).unwrap(), 333);
}

#[test]
fn burn_rounds_the_exact_product_once() {
    // 1 * (2/5) * 3.0 = 1.2 rounds to 1 in a single rounding; rounding the
    // proportional share first would collapse it to 0.
    assert_eq!(burn_redemption_payout(2, 5, 1, 30000).unwrap(), 1);
}

#[test]
fn burn_with_zero_supply_is_a_fault() {
    let r = burn_redemption_payout(10, 0, 1000, 10000);
    assert_eq!(r.unwrap_err(), TransferHookError::ArithmeticFault);
}

#[test]
fn burn_beyond_the_supply_is_a_fault() {
    let r = burn_redemption_payout(2, 1, 1000, 10000);
    assert_eq!(r.unwrap_err(), TransferHookError::ArithmeticFault);
}

#[test]
fn price_ratio_leveraged_moves() {
    // Long, price up 50% at 2x leverage: ratio 2.0.
    assert_eq!(price_ratio(150, 100, 2, false).unwrap(), 20000);
    // Short of the same move: the leveraged loss eats the whole principal.
    assert_eq!(price_ratio(150, 100, 2, true).unwrap(), 0);
    // Short, price down 50% at 1x leverage: ratio 1.5.
    assert_eq!(price_ratio(50, 100, 1, true).unwrap(), 15000);
    // Long, price down 50% at 3x leverage: floored at zero, not negative.
    assert_eq!(price_ratio(50, 100, 3, false).unwrap(), 0);
    // No move: ratio exactly one either way.
    assert_eq!(price_ratio(100, 100, 7, false).unwrap(), 10000);
    assert_eq!(price_ratio(100, 100, 7, true).unwrap(), 10000);
}

#[test]
fn price_ratio_zero_reference_is_a_fault() {
    let r = price_ratio(100, 0, 1, false);
    assert_eq!(r.unwrap_err(), TransferHookError::ArithmeticFault);
}

#[test]
fn leveraged_payout_scales_the_amount() {
    assert_eq!(leveraged_payout(500, 150, 100, 2, false).unwrap(), 1000);
    assert_eq!(leveraged_payout(500, 50, 100, 3, false).unwrap(), 0);
    // Rounding half up on the exact product: 3 * 1.2345 = 3.7035 -> 4.
    assert_eq!(leveraged_payout(3, 12345, 10000, 1, false).unwrap(), 4);
}

#[test]
fn leveraged_payout_rounds_the_exact_ratio_once() {
    // 1,000,000 * (1 + 1/3) = 1,333,333.33..., rounded once to 1,333,333;
    // a ratio quantized to basis points first would pay 1,333,300.
    assert_eq!(leveraged_payout(1_000_000, 4, 3, 1, false).unwrap(), 1_333_333);
    // A short of the same move: 1,000,000 * (1 - 1/3) rounds to 666,667.
    assert_eq!(leveraged_payout(1_000_000, 4, 3, 1, true).unwrap(), 666_667);
}
