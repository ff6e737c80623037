//! The values the vault keeps and hands out, and its errors.

use vstd::prelude::*;

verus! {

/// Fixed-point scale of the reward index: one unit of reward per unit of
/// deposit raises the index by this much.
pub const PRECISION_FACTOR: i128 = 1_000_000_000;

/// Why a vault operation was refused.
#[derive(Clone, Copy, Debug, PartialEq, Eq, Structural)]
pub enum VaultError {
    /// The vault has not been initialized.
    NotInitialized,
    /// Storage lacks a value that an initialized vault always has.
    InvalidState,
    /// The operation is not allowed (the vault is paused).
    Unauthorized,
    /// The reentrancy guard is already held.
    ReentrancyDetected,
    /// A withdrawal asked for more than the user's balance.
    InsufficientBalance,
    /// A reward distribution found no deposits to spread over.
    NoDeposits,
    /// An amount left the range of its integer type.
    Overflow,
    /// A division in the reward arithmetic could not be carried out.
    RewardCalculationFailed,
    /// A reward distribution would not raise the reward index.
    ZeroRewardIncrement,
}

/// A user's position in the vault.
#[derive(Clone, Copy, Debug, PartialEq, Eq, Structural)]
pub struct UserPosition {
    /// The amount of deposit tokens the user has staked.
    pub balance: i128,
    /// The global reward index at the user's last interaction.
    pub reward_index: i128,
    /// Rewards earned but not yet vested and claimed.
    pub accrued_rewards: i128,
    /// When rewards were last accrued to this position (0: never).
    pub last_reward_timestamp: u64,
}

/// Reward information about a user, as the read-only views report it.
#[derive(Clone, Copy, Debug, PartialEq, Eq, Structural)]
pub struct UserRewardSnapshot {
    /// The reward index the snapshot was taken at.
    pub reward_index: i128,
    /// The user's rewards, accrued and newly earned.
    pub rewards: i128,
    /// The part of `rewards` that has vested.
    pub vested_rewards: i128,
}

} // verus!
