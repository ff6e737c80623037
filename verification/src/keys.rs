//! The keys under which the vault keeps its state, and the vault's view of
//! contract storage through them.

use crate::host::{
    contract_running, entry_of_kind, instance_entries, instance_writable, is_symbol_name,
    persistent_entries, readable_slots, writable_slots, StoredValue,
};
use soroban_sdk::{Address, Env};
use vstd::prelude::*;

verus! {

/// Keys used to store data in the contract's storage. The first eleven live in
/// instance storage under `[Symbol(name)]`, the four per-user keys in
/// persistent storage under `[Symbol(name), user]`, `name` being the
/// variant's name.
#[derive(Clone, Debug, PartialEq, Eq)]
pub enum DataKey {
    /// Flag indicating if the contract has been initialized.
    Initialized,
    /// Admin address.
    Admin,
    /// Pending admin address (for two-step transfer).
    PendingAdmin,
    /// Deposit token address.
    DepositToken,
    /// Reward token address.
    RewardToken,
    /// Total deposits amount.
    TotalDeposits,
    /// Global reward index.
    RewardIndex,
    /// Vesting period in seconds.
    VestingPeriod,
    /// Reentrancy guard flag.
    ReentrancyGuard,
    /// Pause flag.
    IsPaused,
    /// When rewards were last distributed (rewards vest from that time).
    LastDistributionTimestamp,
    /// User balance.
    UserBalance(Address),
    /// User's last synced reward index.
    UserRewardIndex(Address),
    /// User's accrued but unvested rewards.
    UserAccruedRewards(Address),
    /// User's last reward distribution timestamp (for vesting calculation).
    UserLastRewardTimestamp(Address),
}

impl DataKey {
    /// The text of the symbol that the key is stored under.
    pub open spec fn spec_symbol(self) -> Seq<char> {
        match self {
            DataKey::Initialized => "Initialized"@,
            DataKey::Admin => "Admin"@,
            DataKey::PendingAdmin => "PendingAdmin"@,
            DataKey::DepositToken => "DepositToken"@,
            DataKey::RewardToken => "RewardToken"@,
            DataKey::TotalDeposits => "TotalDeposits"@,
            DataKey::RewardIndex => "RewardIndex"@,
            DataKey::VestingPeriod => "VestingPeriod"@,
            DataKey::ReentrancyGuard => "ReentrancyGuard"@,
            DataKey::IsPaused => "IsPaused"@,
            DataKey::LastDistributionTimestamp => "LastDistributionTimestamp"@,
            DataKey::UserBalance(_) => "UserBalance"@,
            DataKey::UserRewardIndex(_) => "UserRewardIndex"@,
            DataKey::UserAccruedRewards(_) => "UserAccruedRewards"@,
            DataKey::UserLastRewardTimestamp(_) => "UserLastRewardTimestamp"@,
        }
    }

    /// The user a per-user key belongs to; `None` for the instance keys.
    pub open spec fn spec_user(self) -> Option<Address> {
        match self {
            DataKey::UserBalance(u) => Some(u),
            DataKey::UserRewardIndex(u) => Some(u),
            DataKey::UserAccruedRewards(u) => Some(u),
            DataKey::UserLastRewardTimestamp(u) => Some(u),
            _ => None,
        }
    }

    /// A value of the kind stored under the key.
    pub open spec fn kind(self) -> StoredValue {
        match self {
            DataKey::Initialized | DataKey::ReentrancyGuard | DataKey::IsPaused => StoredValue::Bool(false),
            DataKey::Admin | DataKey::PendingAdmin | DataKey::DepositToken | DataKey::RewardToken => StoredValue::Addr(arbitrary()),
            DataKey::VestingPeriod
            | DataKey::LastDistributionTimestamp
            | DataKey::UserLastRewardTimestamp(_) => StoredValue::U64(0),
            _ => StoredValue::I128(0),
        }
    }

    /// The name of the symbol the key is stored under.
    pub fn symbol(&self) -> (s: &'static str)
        ensures
            s@ == self.spec_symbol(),
            is_symbol_name(s@),
    {
        proof {
            lemma_symbols_are_names(*self);
        }
        match self {
            DataKey::Initialized => "Initialized",
            DataKey::Admin => "Admin",
            DataKey::PendingAdmin => "PendingAdmin",
            DataKey::DepositToken => "DepositToken",
            DataKey::RewardToken => "RewardToken",
            DataKey::TotalDeposits => "TotalDeposits",
            DataKey::RewardIndex => "RewardIndex",
            DataKey::VestingPeriod => "VestingPeriod",
            DataKey::ReentrancyGuard => "ReentrancyGuard",
            DataKey::IsPaused => "IsPaused",
            DataKey::LastDistributionTimestamp => "LastDistributionTimestamp",
            DataKey::UserBalance(_) => "UserBalance",
            DataKey::UserRewardIndex(_) => "UserRewardIndex",
            DataKey::UserAccruedRewards(_) => "UserAccruedRewards",
            DataKey::UserLastRewardTimestamp(_) => "UserLastRewardTimestamp",
        }
    }
}

/// What contract storage holds under `key`.
pub open spec fn stored(e: Env, key: DataKey) -> Option<StoredValue> {
    match key.spec_user() {
        Some(u) => persistent_entries(e).get((key.spec_symbol(), u)),
        None => instance_entries(e).get(key.spec_symbol()),
    }
}

/// `key` holds, if anything, a value of its kind.
pub open spec fn key_typed(e: Env, key: DataKey) -> bool {
    entry_of_kind(stored(e, key), key.kind())
}

/// `key` can be read: a contract is running and, for a per-user key, its slot
/// can be reached by a read.
pub open spec fn key_readable(e: Env, key: DataKey) -> bool {
    &&& contract_running(e)
    &&& match key.spec_user() {
        Some(u) => readable_slots(e).contains((key.spec_symbol(), u)),
        None => true,
    }
}

/// `key` can be read and holds, if anything, a value of its kind.
pub open spec fn key_usable(e: Env, key: DataKey) -> bool {
    key_readable(e, key) && key_typed(e, key)
}

/// `key` can be written: a contract is running and the key's instance
/// storage or persistent slot can be reached by a write.
pub open spec fn key_writable(e: Env, key: DataKey) -> bool {
    &&& contract_running(e)
    &&& match key.spec_user() {
        Some(u) => writable_slots(e).contains((key.spec_symbol(), u)),
        None => instance_writable(e),
    }
}

/// Each key's symbol text is a valid symbol name.
pub proof fn lemma_symbols_are_names(k: DataKey)
    ensures
        is_symbol_name(k.spec_symbol()),
{
    reveal_strlit("Initialized");
    reveal_strlit("Admin");
    reveal_strlit("PendingAdmin");
    reveal_strlit("DepositToken");
    reveal_strlit("RewardToken");
    reveal_strlit("TotalDeposits");
    reveal_strlit("RewardIndex");
    reveal_strlit("VestingPeriod");
    reveal_strlit("ReentrancyGuard");
    reveal_strlit("IsPaused");
    reveal_strlit("LastDistributionTimestamp");
    reveal_strlit("UserBalance");
    reveal_strlit("UserRewardIndex");
    reveal_strlit("UserAccruedRewards");
    reveal_strlit("UserLastRewardTimestamp");
}

/// Different keys are stored under different storage keys.
pub proof fn lemma_keys_distinct(k1: DataKey, k2: DataKey)
    ensures
        k1.spec_symbol() == k2.spec_symbol() && k1.spec_user() == k2.spec_user() ==> k1 == k2,
{
    reveal_strlit("Initialized");
    reveal_strlit("Admin");
    reveal_strlit("PendingAdmin");
    reveal_strlit("DepositToken");
    reveal_strlit("RewardToken");
    reveal_strlit("TotalDeposits");
    reveal_strlit("RewardIndex");
    reveal_strlit("VestingPeriod");
    reveal_strlit("ReentrancyGuard");
    reveal_strlit("IsPaused");
    reveal_strlit("LastDistributionTimestamp");
    reveal_strlit("UserBalance");
    reveal_strlit("UserRewardIndex");
    reveal_strlit("UserAccruedRewards");
    reveal_strlit("UserLastRewardTimestamp");
    let (s1, s2) = (k1.spec_symbol(), k2.spec_symbol());
    if s1 == s2 {
        assert(s1.len() == s2.len() && s1[0] == s2[0] && s1[6] == s2[6]);
    }
}

/// Different instance keys are stored under different symbols, and so are
/// different per-user keys.
pub proof fn lemma_symbols_distinct()
    ensures
        forall|k1: DataKey, k2: DataKey|
            k1 != k2 && (k1.spec_user() is None <==> k2.spec_user() is None)
                && (k1.spec_user() is Some ==> k1.spec_user() == k2.spec_user())
                ==> #[trigger] k1.spec_symbol() != #[trigger] k2.spec_symbol(),
{
    assert forall|k1: DataKey, k2: DataKey|
        k1 != k2 && (k1.spec_user() is None <==> k2.spec_user() is None)
            && (k1.spec_user() is Some ==> k1.spec_user() == k2.spec_user())
            implies #[trigger] k1.spec_symbol() != #[trigger] k2.spec_symbol() by {
        lemma_keys_distinct(k1, k2);
    }
}

} // verus!
