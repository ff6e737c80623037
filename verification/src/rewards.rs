//! Reward arithmetic: the reward index, accrual of rewards to a position, and
//! linear vesting.

use crate::types::{UserPosition, VaultError, PRECISION_FACTOR};
use vstd::prelude::*;

verus! {

const REWARD_INDEX_SCALE: i128 = PRECISION_FACTOR;

/// Whether `x` is in the range of `i128`.
pub open spec fn fits_i128(x: int) -> bool {
    i128::MIN <= x <= i128::MAX
}

/// Integer division rounded toward zero, as Rust's `/` does (`d > 0`).
pub open spec fn trunc_div(x: int, d: int) -> int
    recommends
        d > 0,
{
    if x >= 0 {
        x / d
    } else {
        -((-x) / d)
    }
}

/// What a distribution of `amount` raises the reward index by, when
/// `total_deposits` are in the vault.
pub open spec fn reward_index_increment(amount: int, total_deposits: int) -> Result<i128, VaultError> {
    let scaled = amount * PRECISION_FACTOR;
    if total_deposits <= 0 {
        Err(VaultError::NoDeposits)
    } else if !fits_i128(scaled) {
        Err(VaultError::Overflow)
    } else if trunc_div(scaled, total_deposits) <= 0 {
        Err(VaultError::ZeroRewardIncrement)
    } else {
        Ok(trunc_div(scaled, total_deposits) as i128)
    }
}

/// The rewards that `balance` earns while the reward index moves by `delta`.
pub open spec fn accrued_rewards(balance: int, delta: int) -> Result<i128, VaultError> {
    if !fits_i128(balance * delta) {
        Err(VaultError::Overflow)
    } else {
        Ok(trunc_div(balance * delta, PRECISION_FACTOR as int) as i128)
    }
}

/// The rewards that position `p` earns when it is brought up to the reward
/// index `index` (zero when its balance is not positive).
pub open spec fn pending_accrual(index: i128, p: UserPosition) -> Result<i128, VaultError> {
    if index == p.reward_index || p.balance <= 0 {
        Ok(0)
    } else if !fits_i128(index - p.reward_index) {
        Err(VaultError::Overflow)
    } else {
        accrued_rewards(p.balance as int, index - p.reward_index)
    }
}

/// Position `p` brought up to the reward index `index` at time `now`: newly
/// earned rewards are added to the accrued ones and stamped with `now`.
pub open spec fn accrue(index: i128, p: UserPosition, now: u64) -> Result<UserPosition, VaultError> {
    match pending_accrual(index, p) {
        Err(err) => Err(err),
        Ok(earned) => if earned <= 0 {
            Ok(UserPosition { reward_index: index, ..p })
        } else if !fits_i128(p.accrued_rewards + earned) {
            Err(VaultError::Overflow)
        } else {
            Ok(
                UserPosition {
                    reward_index: index,
                    accrued_rewards: (p.accrued_rewards + earned) as i128,
                    last_reward_timestamp: now,
                    ..p
                },
            )
        },
    }
}

/// The part of `p`'s accrued rewards that has vested at time `now`, rewards
/// vesting linearly over `vesting_period` seconds from the last accrual. The
/// accrued amount is read as a `u128` and the share converted back to `i128`,
/// both by reinterpreting the bits.
pub open spec fn vested_rewards(now: u64, p: UserPosition, vesting_period: u64) -> Result<i128, VaultError> {
    if vesting_period == 0 {
        Ok(p.accrued_rewards)
    } else if p.last_reward_timestamp == 0 {
        Ok(0)
    } else {
        let elapsed: int = if now >= p.last_reward_timestamp {
            now - p.last_reward_timestamp
        } else {
            0
        };
        if elapsed >= vesting_period {
            Ok(p.accrued_rewards)
        } else {
            let product = (p.accrued_rewards as u128) * elapsed;
            if product > u128::MAX {
                Err(VaultError::Overflow)
            } else {
                Ok(((product / (vesting_period as int)) as u128) as i128)
            }
        }
    }
}

/// Computes how much a distribution of `amount` raises the reward index by.
pub fn checked_reward_index_increment(amount: i128, total_deposits: i128) -> (r: Result<i128, VaultError>)
    ensures
        r == reward_index_increment(amount as int, total_deposits as int),
{
    if total_deposits <= 0 {
        return Err(VaultError::NoDeposits);
    }
    let scaled = match amount.checked_mul(REWARD_INDEX_SCALE) {
        Some(s) => s,
        None => return Err(VaultError::Overflow),
    };
    proof {
        if scaled < 0 {
            vstd::arithmetic::div_mod::lemma_div_is_ordered_by_denominator(-(scaled as int), 1, total_deposits as int);
        }
    }
    let increment = match scaled.checked_div(total_deposits) {
        Some(i) => i,
        None => return Err(VaultError::RewardCalculationFailed),
    };
    if increment <= 0 {
        return Err(VaultError::ZeroRewardIncrement);
    }
    Ok(increment)
}

/// Computes the rewards that `balance` earns while the reward index moves by
/// `delta`.
pub fn checked_accrued_rewards(balance: i128, delta: i128) -> (r: Result<i128, VaultError>)
    ensures
        r == accrued_rewards(balance as int, delta as int),
{
    let product = match balance.checked_mul(delta) {
        Some(p) => p,
        None => return Err(VaultError::Overflow),
    };
    match product.checked_div(REWARD_INDEX_SCALE) {
        Some(q) => Ok(q),
        None => Err(VaultError::RewardCalculationFailed),
    }
}

/// Computes the part of `position`'s accrued rewards that has vested at
/// `current_timestamp`.
pub fn calculate_vested_rewards(current_timestamp: u64, position: &UserPosition, vesting_period: u64) -> (r: Result<i128, VaultError>)
    ensures
        r == vested_rewards(current_timestamp, *position, vesting_period),
{
    if vesting_period == 0 {
        return Ok(position.accrued_rewards);
    }
    if position.last_reward_timestamp == 0 {
        return Ok(0);
    }
    let time_elapsed = current_timestamp.checked_sub(position.last_reward_timestamp).unwrap_or(0);
    if time_elapsed >= vesting_period {
        Ok(position.accrued_rewards)
    } else {
        let product = match (position.accrued_rewards as u128).checked_mul(time_elapsed as u128) {
            Some(p) => p,
            None => return Err(VaultError::Overflow),
        };
        match product.checked_div(vesting_period as u128) {
            Some(q) => Ok(q as i128),
            None => Err(VaultError::RewardCalculationFailed),
        }
    }
}

} // verus!
