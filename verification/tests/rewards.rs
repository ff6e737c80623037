use vault_contract::rewards::{calculate_vested_rewards, checked_accrued_rewards, checked_reward_index_increment};
use vault_contract::types::{UserPosition, VaultError, PRECISION_FACTOR};

fn position(accrued_rewards: i128, last_reward_timestamp: u64) -> UserPosition {
    UserPosition { balance: 100, reward_index: 0, accrued_rewards, last_reward_timestamp }
}

#[test]
fn increment_spreads_amount_over_deposits() {
    // 200000 reward units over 100 deposited units: 2000 per unit, scaled.
    assert_eq!(checked_reward_index_increment(200_000, 100), Ok(2_000 * PRECISION_FACTOR));
    assert_eq!(checked_reward_index_increment(10, 3), Ok(3_333_333_333));
}

#[test]
fn increment_without_deposits_is_refused() {
    assert_eq!(checked_reward_index_increment(100, 0), Err(VaultError::NoDeposits));
    assert_eq!(checked_reward_index_increment(100, -5), Err(VaultError::NoDeposits));
}

#[test]
fn increment_overflow_is_refused() {
    assert_eq!(checked_reward_index_increment(i128::MAX / 1_000, 1), Err(VaultError::Overflow));
}

#[test]
fn increment_that_rounds_to_zero_is_refused() {
    assert_eq!(checked_reward_index_increment(1, 2 * PRECISION_FACTOR), Err(VaultError::ZeroRewardIncrement));
    assert_eq!(checked_reward_index_increment(0, 10), Err(VaultError::ZeroRewardIncrement));
    assert_eq!(checked_reward_index_increment(-10, 10), Err(VaultError::ZeroRewardIncrement));
}

#[test]
fn accrued_rewards_scale_balance_by_index_delta() {
    assert_eq!(checked_accrued_rewards(100, 2_000 * PRECISION_FACTOR), Ok(200_000));
    assert_eq!(checked_accrued_rewards(3, 1), Ok(0));
    assert_eq!(checked_accrued_rewards(3, 500_000_000), Ok(1));
}

#[test]
fn accrued_rewards_round_toward_zero() {
    assert_eq!(checked_accrued_rewards(3, -500_000_000), Ok(-1));
    assert_eq!(checked_accrued_rewards(1, -1), Ok(0));
}

#[test]
fn accrued_rewards_overflow_is_refused() {
    assert_eq!(checked_accrued_rewards(i128::MAX, 2), Err(VaultError::Overflow));
}

#[test]
fn vesting_without_period_is_immediate() {
    assert_eq!(calculate_vested_rewards(5, &position(700, 4), 0), Ok(700));
}

#[test]
fn unstamped_rewards_have_not_vested() {
    assert_eq!(calculate_vested_rewards(100_000, &position(700, 0), 86_400), Ok(0));
}

#[test]
fn vesting_is_linear_over_the_period() {
    let p = position(200_000, 1_000);
    assert_eq!(calculate_vested_rewards(1_000, &p, 86_400), Ok(0));
    assert_eq!(calculate_vested_rewards(1_000 + 43_200, &p, 86_400), Ok(100_000));
    assert_eq!(calculate_vested_rewards(1_000 + 86_399, &p, 86_400), Ok(199_997));
    assert_eq!(calculate_vested_rewards(1_000 + 86_400, &p, 86_400), Ok(200_000));
    assert_eq!(calculate_vested_rewards(1_000 + 86_400 + 1, &p, 86_400), Ok(200_000));
}

#[test]
fn vesting_before_the_stamp_counts_no_time() {
    assert_eq!(calculate_vested_rewards(10, &position(500, 1_000), 100), Ok(0));
}

#[test]
fn vesting_product_overflow_is_refused() {
    assert_eq!(calculate_vested_rewards(3, &position(-1, 1), 10), Err(VaultError::Overflow));
}

#[test]
fn vesting_reads_negative_rewards_as_unsigned_bits() {
    // -1 reads as u128::MAX; half of it, read back as i128, is i128::MAX.
    assert_eq!(calculate_vested_rewards(2, &position(-1, 1), 2), Ok(i128::MAX));
}
