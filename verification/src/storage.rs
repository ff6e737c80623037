//! The vault's reads and writes of contract storage, and the operations that
//! combine them with the reward arithmetic.

use crate::host::{
    as_address, as_bool, as_i128, as_u64, entry_of_kind, instance_entries, instance_extend_ttl,
    instance_get_address, instance_get_bool, instance_get_i128, instance_get_u64,
    instance_remove, instance_set_address, instance_set_bool, instance_set_i128,
    instance_set_u64, ledger_timestamp, access_kept, contract_running, extended_live_until, instance_live_until,
    instance_writable, ledger_sequence, ledger_time, max_live_until, persistent_entries, persistent_live_until, persistent_extend_ttl,
    persistent_get_i128, persistent_get_u64, persistent_remove, persistent_set_i128,
    persistent_set_u64, StoredValue,
};
use crate::keys::{
    key_readable, key_typed, key_usable, key_writable, lemma_keys_distinct, stored, DataKey,
};
use crate::rewards::{
    accrue, calculate_vested_rewards, checked_accrued_rewards, checked_reward_index_increment,
    fits_i128, reward_index_increment, vested_rewards,
};
use crate::types::{UserPosition, UserRewardSnapshot, VaultError};
use soroban_sdk::{Address, Env};
use vstd::prelude::*;

verus! {

/// Instance lifetime extension: threshold and target, in ledgers.
pub const INSTANCE_TTL_THRESHOLD: u32 = 518_400;
pub const INSTANCE_TTL_EXTEND_TO: u32 = 518_400;

/// Persistent lifetime extension: threshold and target, in ledgers.
pub const PERSISTENT_TTL_THRESHOLD: u32 = 518_400;
pub const PERSISTENT_TTL_EXTEND_TO: u32 = 518_400;

// ---------------------------------------------------------------------------
// The vault's view of storage
// ---------------------------------------------------------------------------

/// The flag stored under `key`, `false` when there is none.
pub open spec fn stored_flag(e: Env, key: DataKey) -> bool {
    as_bool(stored(e, key)) == Some(true)
}

/// The `i128` stored under `key`, 0 when there is none.
pub open spec fn stored_amount(e: Env, key: DataKey) -> i128 {
    match as_i128(stored(e, key)) {
        Some(v) => v,
        None => 0,
    }
}

/// The `u64` stored under `key`, 0 when there is none.
pub open spec fn stored_seconds(e: Env, key: DataKey) -> u64 {
    match as_u64(stored(e, key)) {
        Some(v) => v,
        None => 0,
    }
}

/// Storage after `key` is made to hold `v` (or nothing): that key changes and
/// no other.
pub open spec fn written(old: Env, new: Env, key: DataKey, v: Option<StoredValue>) -> bool {
    forall|k: DataKey| #[trigger] stored(new, k) == if k == key { v } else { stored(old, k) }
}

/// `m` with `k` made to hold `v`, or removed when `v` is `None`.
pub open spec fn put<K>(m: Map<K, StoredValue>, k: K, v: Option<StoredValue>) -> Map<K, StoredValue> {
    match v {
        Some(x) => m.insert(k, x),
        None => m.remove(k),
    }
}

/// The raw storage maps after `key` is made to hold `v` (or nothing).
pub open spec fn raw_written(old: Env, new: Env, key: DataKey, v: Option<StoredValue>) -> bool {
    match key.spec_user() {
        None => {
            &&& instance_entries(new) == put(instance_entries(old), key.spec_symbol(), v)
            &&& persistent_entries(new) == persistent_entries(old)
        },
        Some(u) => {
            &&& persistent_entries(new) == put(persistent_entries(old), (key.spec_symbol(), u), v)
            &&& instance_entries(new) == instance_entries(old)
        },
    }
}

/// The ledger, and which contract runs and which entries can be reached, are
/// as before.
pub open spec fn host_kept(old: Env, new: Env) -> bool {
    &&& access_kept(old, new)
    &&& ledger_sequence(new) == ledger_sequence(old)
    &&& ledger_time(new) == ledger_time(old)
    &&& max_live_until(new) == max_live_until(old)
}

/// No stored value changed (so every key keeps the kind of what it holds).
pub open spec fn entries_kept(old: Env, new: Env) -> bool {
    &&& instance_entries(new) == instance_entries(old)
    &&& persistent_entries(new) == persistent_entries(old)
    &&& kinds_kept(old, new)
}

/// An entry's last live ledger `live` after the vault's extension of it in
/// storage `e`.
pub open spec fn vault_extended(e: Env, live: u32) -> u32 {
    extended_live_until(live, ledger_sequence(e), max_live_until(e), PERSISTENT_TTL_THRESHOLD, PERSISTENT_TTL_EXTEND_TO)
}

/// The instance entry was kept live for the vault's extension period.
pub open spec fn instance_kept_live(old: Env, new: Env) -> bool {
    instance_live_until(new) == extended_live_until(
        instance_live_until(old),
        ledger_sequence(old),
        max_live_until(old),
        INSTANCE_TTL_THRESHOLD,
        INSTANCE_TTL_EXTEND_TO,
    )
}

/// The lifetimes after a write of `key`: no lifetime changes but, for a
/// per-user key, that of its slot.
pub open spec fn lives_after_write(old: Env, new: Env, key: DataKey) -> bool {
    &&& instance_live_until(new) == instance_live_until(old)
    &&& match key.spec_user() {
        None => persistent_live_until(new) == persistent_live_until(old),
        Some(u) => persistent_live_until(new).remove((key.spec_symbol(), u))
            == persistent_live_until(old).remove((key.spec_symbol(), u)),
    }
}

// ---------------------------------------------------------------------------
// Typed access to single keys
// ---------------------------------------------------------------------------

/// What a write of `v` under `key` does to the vault's view of storage: a
/// read of `key` gives back `v`, every other key reads as before.
pub proof fn lemma_read_after_write(old: Env, new: Env, key: DataKey, v: Option<StoredValue>)
    requires
        raw_written(old, new, key, v),
    ensures
        written(old, new, key, v),
{
    assert forall|k: DataKey| #[trigger] stored(new, k) == if k == key { v } else { stored(old, k) } by {
        lemma_keys_distinct(k, key);
    }
}

/// Every key that held, if anything, a value of its kind still does.
pub open spec fn kinds_kept(old: Env, new: Env) -> bool {
    forall|k: DataKey| key_typed(old, k) ==> #[trigger] key_typed(new, k)
}

/// A write of a value of the key's kind keeps every key that held a value of
/// its kind holding one.
pub proof fn lemma_write_keeps_kinds(old: Env, new: Env, key: DataKey, v: Option<StoredValue>)
    requires
        entry_of_kind(v, key.kind()),
        raw_written(old, new, key, v),
    ensures
        kinds_kept(old, new),
        written(old, new, key, v),
{
    lemma_read_after_write(old, new, key, v);
    assert forall|k: DataKey| key_typed(old, k) implies #[trigger] key_typed(new, k) by {
        assert(stored(new, k) == if k == key { v } else { stored(old, k) });
    }
}

/// Kinds kept over two steps are kept over both.
pub proof fn lemma_kinds_kept_chain(e0: Env, e1: Env, e2: Env)
    requires
        kinds_kept(e0, e1),
        kinds_kept(e1, e2),
    ensures
        kinds_kept(e0, e2),
{
    assert forall|k: DataKey| key_typed(e0, k) implies #[trigger] key_typed(e2, k) by {
        assert(key_typed(e1, k));
    }
}

fn read_flag(e: &Env, key: &DataKey) -> (r: Option<bool>)
    requires
        key_usable(*e, *key),
        key.spec_user() is None,
        key.kind() is Bool,
    ensures
        r == as_bool(stored(*e, *key)),
{
    assert(entry_of_kind(stored(*e, *key), key.kind()));
    instance_get_bool(e, key.symbol())
}

fn read_address(e: &Env, key: &DataKey) -> (r: Option<Address>)
    requires
        key_usable(*e, *key),
        key.spec_user() is None,
        key.kind() is Addr,
    ensures
        r == as_address(stored(*e, *key)),
{
    assert(entry_of_kind(stored(*e, *key), key.kind()));
    instance_get_address(e, key.symbol())
}

fn read_amount(e: &Env, key: &DataKey) -> (r: Option<i128>)
    requires
        key_usable(*e, *key),
        key.kind() is I128,
    ensures
        r == as_i128(stored(*e, *key)),
{
    assert(entry_of_kind(stored(*e, *key), key.kind()));
    match key {
        DataKey::UserBalance(u) | DataKey::UserRewardIndex(u) | DataKey::UserAccruedRewards(u) => {
            persistent_get_i128(e, key.symbol(), u)
        },
        _ => instance_get_i128(e, key.symbol()),
    }
}

fn read_seconds(e: &Env, key: &DataKey) -> (r: Option<u64>)
    requires
        key_usable(*e, *key),
        key.kind() is U64,
    ensures
        r == as_u64(stored(*e, *key)),
{
    assert(entry_of_kind(stored(*e, *key), key.kind()));
    match key {
        DataKey::UserLastRewardTimestamp(u) => persistent_get_u64(e, key.symbol(), u),
        _ => instance_get_u64(e, key.symbol()),
    }
}

fn write_flag(e: &mut Env, key: &DataKey, value: bool)
    requires
        key_writable(*old(e), *key),
        key.spec_user() is None,
        key.kind() is Bool,
    ensures
        host_kept(*old(e), *final(e)),
        lives_after_write(*old(e), *final(e), *key),
        written(*old(e), *final(e), *key, Some(StoredValue::Bool(value))),
        raw_written(*old(e), *final(e), *key, Some(StoredValue::Bool(value))),
        kinds_kept(*old(e), *final(e)),
{
    let ghost before = *e;
    instance_set_bool(e, key.symbol(), value);
    proof {
        lemma_write_keeps_kinds(before, *e, *key, Some(StoredValue::Bool(value)));
    }
}

fn write_address(e: &mut Env, key: &DataKey, value: &Address)
    requires
        key_writable(*old(e), *key),
        key.spec_user() is None,
        key.kind() is Addr,
    ensures
        host_kept(*old(e), *final(e)),
        lives_after_write(*old(e), *final(e), *key),
        written(*old(e), *final(e), *key, Some(StoredValue::Addr(*value))),
        raw_written(*old(e), *final(e), *key, Some(StoredValue::Addr(*value))),
        kinds_kept(*old(e), *final(e)),
{
    let ghost before = *e;
    instance_set_address(e, key.symbol(), value);
    proof {
        lemma_write_keeps_kinds(before, *e, *key, Some(StoredValue::Addr(*value)));
    }
}

fn write_amount(e: &mut Env, key: &DataKey, value: i128)
    requires
        key_writable(*old(e), *key),
        key.kind() is I128,
    ensures
        host_kept(*old(e), *final(e)),
        lives_after_write(*old(e), *final(e), *key),
        written(*old(e), *final(e), *key, Some(StoredValue::I128(value))),
        raw_written(*old(e), *final(e), *key, Some(StoredValue::I128(value))),
        kinds_kept(*old(e), *final(e)),
{
    let ghost before = *e;
    match key {
        DataKey::UserBalance(u) | DataKey::UserRewardIndex(u) | DataKey::UserAccruedRewards(u) => {
            persistent_set_i128(e, key.symbol(), u, value)
        },
        _ => instance_set_i128(e, key.symbol(), value),
    }
    proof {
        lemma_write_keeps_kinds(before, *e, *key, Some(StoredValue::I128(value)));
    }
}

fn write_seconds(e: &mut Env, key: &DataKey, value: u64)
    requires
        key_writable(*old(e), *key),
        key.kind() is U64,
    ensures
        host_kept(*old(e), *final(e)),
        lives_after_write(*old(e), *final(e), *key),
        written(*old(e), *final(e), *key, Some(StoredValue::U64(value))),
        raw_written(*old(e), *final(e), *key, Some(StoredValue::U64(value))),
        kinds_kept(*old(e), *final(e)),
{
    let ghost before = *e;
    match key {
        DataKey::UserLastRewardTimestamp(u) => persistent_set_u64(e, key.symbol(), u, value),
        _ => instance_set_u64(e, key.symbol(), value),
    }
    proof {
        lemma_write_keeps_kinds(before, *e, *key, Some(StoredValue::U64(value)));
    }
}

fn erase(e: &mut Env, key: &DataKey)
    requires
        key_writable(*old(e), *key),
    ensures
        host_kept(*old(e), *final(e)),
        lives_after_write(*old(e), *final(e), *key),
        written(*old(e), *final(e), *key, None),
        raw_written(*old(e), *final(e), *key, None),
        kinds_kept(*old(e), *final(e)),
{
    let ghost before = *e;
    match key {
        DataKey::UserBalance(u)
        | DataKey::UserRewardIndex(u)
        | DataKey::UserAccruedRewards(u)
        | DataKey::UserLastRewardTimestamp(u) => persistent_remove(e, key.symbol(), u),
        _ => instance_remove(e, key.symbol()),
    }
    proof {
        lemma_write_keeps_kinds(before, *e, *key, None);
    }
}


/// The global state of the vault.
#[derive(Clone, Debug, PartialEq, Eq)]
pub struct VaultState {
    /// The address allowed to perform administrative actions.
    pub admin: Address,
    /// The token that users deposit into the vault.
    pub deposit_token: Address,
    /// The token distributed as rewards.
    pub reward_token: Address,
    /// The total amount of deposit tokens held by the vault.
    pub total_deposits: i128,
    /// Cumulative rewards per unit of deposit, scaled by `PRECISION_FACTOR`.
    pub reward_index: i128,
    /// The vesting period in seconds.
    pub vesting_period: u64,
}

/// Whether the vault has been initialized.
pub open spec fn vault_initialized(e: Env) -> bool {
    stored_flag(e, DataKey::Initialized)
}

/// The global state as storage holds it: refused before initialization, and
/// when an address that an initialized vault always has is missing; the
/// numbers default to 0.
pub open spec fn vault_state(e: Env) -> Result<VaultState, VaultError> {
    if !vault_initialized(e) {
        Err(VaultError::NotInitialized)
    } else {
        match (
            as_address(stored(e, DataKey::Admin)),
            as_address(stored(e, DataKey::DepositToken)),
            as_address(stored(e, DataKey::RewardToken)),
        ) {
            (Some(admin), Some(deposit_token), Some(reward_token)) => Ok(
                VaultState {
                    admin,
                    deposit_token,
                    reward_token,
                    total_deposits: stored_amount(e, DataKey::TotalDeposits),
                    reward_index: stored_amount(e, DataKey::RewardIndex),
                    vesting_period: stored_seconds(e, DataKey::VestingPeriod),
                },
            ),
            _ => Err(VaultError::InvalidState),
        }
    }
}

/// The keys the global state is read from can be read and hold values of
/// their kinds.
pub open spec fn state_usable(e: Env) -> bool {
    &&& key_usable(e, DataKey::Initialized)
    &&& key_usable(e, DataKey::Admin)
    &&& key_usable(e, DataKey::DepositToken)
    &&& key_usable(e, DataKey::RewardToken)
    &&& key_usable(e, DataKey::TotalDeposits)
    &&& key_usable(e, DataKey::RewardIndex)
    &&& key_usable(e, DataKey::VestingPeriod)
}

/// Instance storage can be written.
pub open spec fn instance_storable(e: Env) -> bool {
    contract_running(e) && instance_writable(e)
}

/// Storage after the global state was read: on success nothing stored
/// changed and the instance entry was kept live; on failure nothing changed.
pub open spec fn state_read(old: Env, new: Env, succeeded: bool) -> bool {
    if succeeded {
        &&& entries_kept(old, new)
        &&& host_kept(old, new)
        &&& instance_kept_live(old, new)
        &&& persistent_live_until(new) == persistent_live_until(old)
    } else {
        new == old
    }
}

/// The lifetimes after an instance write: the instance entry was kept live,
/// persistent lifetimes are unchanged.
pub open spec fn instance_lives_extended(old: Env, new: Env) -> bool {
    &&& instance_kept_live(old, new)
    &&& persistent_live_until(new) == persistent_live_until(old)
}

/// One field of the global state, or the error that reading the state gives.
pub open spec fn state_field<T>(e: Env, f: spec_fn(VaultState) -> T) -> Result<T, VaultError> {
    match vault_state(e) {
        Ok(s) => Ok(f(s)),
        Err(err) => Err(err),
    }
}

/// The instance entries after `initialize_state`.
pub open spec fn initialized_entries(
    m: Map<Seq<char>, StoredValue>,
    admin: Address,
    deposit_token: Address,
    reward_token: Address,
    vesting_period: u64,
) -> Map<Seq<char>, StoredValue> {
    m.insert(DataKey::Initialized.spec_symbol(), StoredValue::Bool(true))
        .insert(DataKey::Admin.spec_symbol(), StoredValue::Addr(admin))
        .remove(DataKey::PendingAdmin.spec_symbol())
        .insert(DataKey::DepositToken.spec_symbol(), StoredValue::Addr(deposit_token))
        .insert(DataKey::RewardToken.spec_symbol(), StoredValue::Addr(reward_token))
        .insert(DataKey::VestingPeriod.spec_symbol(), StoredValue::U64(vesting_period))
        .insert(DataKey::TotalDeposits.spec_symbol(), StoredValue::I128(0))
        .insert(DataKey::RewardIndex.spec_symbol(), StoredValue::I128(0))
        .insert(DataKey::ReentrancyGuard.spec_symbol(), StoredValue::Bool(false))
        .insert(DataKey::IsPaused.spec_symbol(), StoredValue::Bool(false))
}

fn bump_instance_ttl(e: &mut Env)
    requires
        contract_running(*old(e)),
    ensures
        entries_kept(*old(e), *final(e)),
        host_kept(*old(e), *final(e)),
        instance_kept_live(*old(e), *final(e)),
        persistent_live_until(*final(e)) == persistent_live_until(*old(e)),
        kinds_kept(*old(e), *final(e)),
{
    instance_extend_ttl(e, INSTANCE_TTL_THRESHOLD, INSTANCE_TTL_EXTEND_TO);
}

fn bump_persistent_ttl(e: &mut Env, key: &DataKey)
    requires
        key_readable(*old(e), *key),
        key.spec_user() is Some,
        stored(*old(e), *key) is Some,
    ensures
        entries_kept(*old(e), *final(e)),
        kinds_kept(*old(e), *final(e)),
        host_kept(*old(e), *final(e)),
        instance_live_until(*final(e)) == instance_live_until(*old(e)),
        persistent_live_until(*final(e)) == persistent_live_until(*old(e)).insert(
            (key.spec_symbol(), key.spec_user().unwrap()),
            vault_extended(*old(e), persistent_live_until(*old(e))[(key.spec_symbol(), key.spec_user().unwrap())]),
        ),
{
    match key {
        DataKey::UserBalance(u)
        | DataKey::UserRewardIndex(u)
        | DataKey::UserAccruedRewards(u)
        | DataKey::UserLastRewardTimestamp(u) => {
            persistent_extend_ttl(e, key.symbol(), u, PERSISTENT_TTL_THRESHOLD, PERSISTENT_TTL_EXTEND_TO)
        },
        _ => {},
    }
}

// ---------------------------------------------------------------------------
// Init
// ---------------------------------------------------------------------------

/// Whether the vault has been initialized.
pub fn is_initialized(e: &Env) -> (r: bool)
    requires
        key_usable(*e, DataKey::Initialized),
    ensures
        r == vault_initialized(*e),
{
    match read_flag(e, &DataKey::Initialized) {
        Some(b) => b,
        None => false,
    }
}

/// Refuses with `NotInitialized` unless the vault has been initialized.
pub fn require_initialized(e: &Env) -> (r: Result<(), VaultError>)
    requires
        key_usable(*e, DataKey::Initialized),
    ensures
        r == if vault_initialized(*e) { Ok(()) } else { Err(VaultError::NotInitialized) },
{
    if is_initialized(e) {
        Ok(())
    } else {
        Err(VaultError::NotInitialized)
    }
}

/// Refuses with `Unauthorized` while the vault is paused.
pub fn require_not_paused(e: &Env) -> (r: Result<(), VaultError>)
    requires
        key_usable(*e, DataKey::IsPaused),
    ensures
        r == if stored_flag(*e, DataKey::IsPaused) { Err(VaultError::Unauthorized) } else { Ok(()) },
{
    let paused = match read_flag(e, &DataKey::IsPaused) {
        Some(b) => b,
        None => false,
    };
    if paused {
        Err(VaultError::Unauthorized)
    } else {
        Ok(())
    }
}

/// Records the configuration of a new vault: initialized, with the given
/// admin, tokens and vesting period, no pending admin, no deposits, a zero
/// reward index, and neither the reentrancy guard nor the pause flag set.
pub fn initialize_state(
    e: &mut Env,
    admin: &Address,
    deposit_token: &Address,
    reward_token: &Address,
    vesting_period: u64,
)
    requires
        instance_storable(*old(e)),
    ensures
        host_kept(*old(e), *final(e)),
        instance_lives_extended(*old(e), *final(e)),
        instance_entries(*final(e)) == initialized_entries(
            instance_entries(*old(e)),
            *admin,
            *deposit_token,
            *reward_token,
            vesting_period,
        ),
        persistent_entries(*final(e)) == persistent_entries(*old(e)),
        kinds_kept(*old(e), *final(e)),
{
    write_flag(e, &DataKey::Initialized, true);
    write_address(e, &DataKey::Admin, admin);
    erase(e, &DataKey::PendingAdmin);
    write_address(e, &DataKey::DepositToken, deposit_token);
    write_address(e, &DataKey::RewardToken, reward_token);
    write_seconds(e, &DataKey::VestingPeriod, vesting_period);
    write_amount(e, &DataKey::TotalDeposits, 0);
    write_amount(e, &DataKey::RewardIndex, 0);
    write_flag(e, &DataKey::ReentrancyGuard, false);
    write_flag(e, &DataKey::IsPaused, false);
    bump_instance_ttl(e);
}

// ---------------------------------------------------------------------------
// State (global)
// ---------------------------------------------------------------------------

/// Reads the global state.
pub fn get_state(e: &mut Env) -> (r: Result<VaultState, VaultError>)
    requires
        state_usable(*old(e)),
    ensures
        r == vault_state(*old(e)),
        state_read(*old(e), *final(e), r is Ok),
{
    match require_initialized(e) {
        Ok(()) => {},
        Err(err) => return Err(err),
    }
    let admin = match read_address(e, &DataKey::Admin) {
        Some(a) => a,
        None => return Err(VaultError::InvalidState),
    };
    let deposit_token = match read_address(e, &DataKey::DepositToken) {
        Some(a) => a,
        None => return Err(VaultError::InvalidState),
    };
    let reward_token = match read_address(e, &DataKey::RewardToken) {
        Some(a) => a,
        None => return Err(VaultError::InvalidState),
    };
    let total_deposits = read_amount(e, &DataKey::TotalDeposits).unwrap_or(0);
    let reward_index = read_amount(e, &DataKey::RewardIndex).unwrap_or(0);
    let vesting_period = read_seconds(e, &DataKey::VestingPeriod).unwrap_or(0);
    bump_instance_ttl(e);
    Ok(VaultState { admin, deposit_token, reward_token, total_deposits, reward_index, vesting_period })
}

/// Reads the admin address.
pub fn get_admin(e: &mut Env) -> (r: Result<Address, VaultError>)
    requires
        state_usable(*old(e)),
    ensures
        r == state_field(*old(e), |s: VaultState| s.admin),
        state_read(*old(e), *final(e), r is Ok),
{
    match get_state(e) {
        Ok(s) => Ok(s.admin),
        Err(err) => Err(err),
    }
}

/// Records a new admin address.
pub fn set_admin(e: &mut Env, admin: &Address)
    requires
        instance_storable(*old(e)),
    ensures
        host_kept(*old(e), *final(e)),
        instance_lives_extended(*old(e), *final(e)),
        raw_written(*old(e), *final(e), DataKey::Admin, Some(StoredValue::Addr(*admin))),
        kinds_kept(*old(e), *final(e)),
{
    write_address(e, &DataKey::Admin, admin);
    bump_instance_ttl(e);
}

/// Reads the pending admin address, if one is recorded.
pub fn get_pending_admin(e: &mut Env) -> (r: Result<Option<Address>, VaultError>)
    requires
        key_usable(*old(e), DataKey::Initialized),
        key_usable(*old(e), DataKey::PendingAdmin),
    ensures
        r == if vault_initialized(*old(e)) {
            Ok(as_address(stored(*old(e), DataKey::PendingAdmin)))
        } else {
            Err(VaultError::NotInitialized)
        },
        state_read(*old(e), *final(e), r is Ok),
{
    match require_initialized(e) {
        Ok(()) => {},
        Err(err) => return Err(err),
    }
    let pending = read_address(e, &DataKey::PendingAdmin);
    bump_instance_ttl(e);
    Ok(pending)
}

/// Records a pending admin address.
pub fn set_pending_admin(e: &mut Env, pending_admin: &Address)
    requires
        instance_storable(*old(e)),
    ensures
        host_kept(*old(e), *final(e)),
        instance_lives_extended(*old(e), *final(e)),
        raw_written(*old(e), *final(e), DataKey::PendingAdmin, Some(StoredValue::Addr(*pending_admin))),
        kinds_kept(*old(e), *final(e)),
{
    write_address(e, &DataKey::PendingAdmin, pending_admin);
    bump_instance_ttl(e);
}

/// Forgets the pending admin address.
pub fn clear_pending_admin(e: &mut Env)
    requires
        instance_storable(*old(e)),
    ensures
        host_kept(*old(e), *final(e)),
        instance_lives_extended(*old(e), *final(e)),
        raw_written(*old(e), *final(e), DataKey::PendingAdmin, None),
        kinds_kept(*old(e), *final(e)),
{
    erase(e, &DataKey::PendingAdmin);
    bump_instance_ttl(e);
}

/// Reads the deposit token address.
pub fn get_deposit_token(e: &mut Env) -> (r: Result<Address, VaultError>)
    requires
        state_usable(*old(e)),
    ensures
        r == state_field(*old(e), |s: VaultState| s.deposit_token),
        state_read(*old(e), *final(e), r is Ok),
{
    match get_state(e) {
        Ok(s) => Ok(s.deposit_token),
        Err(err) => Err(err),
    }
}

/// Reads the reward token address.
pub fn get_reward_token(e: &mut Env) -> (r: Result<Address, VaultError>)
    requires
        state_usable(*old(e)),
    ensures
        r == state_field(*old(e), |s: VaultState| s.reward_token),
        state_read(*old(e), *final(e), r is Ok),
{
    match get_state(e) {
        Ok(s) => Ok(s.reward_token),
        Err(err) => Err(err),
    }
}

/// Reads the total deposits.
pub fn get_total_deposits(e: &mut Env) -> (r: Result<i128, VaultError>)
    requires
        state_usable(*old(e)),
    ensures
        r == state_field(*old(e), |s: VaultState| s.total_deposits),
        state_read(*old(e), *final(e), r is Ok),
{
    match get_state(e) {
        Ok(s) => Ok(s.total_deposits),
        Err(err) => Err(err),
    }
}

/// Records the total deposits.
pub fn set_total_deposits(e: &mut Env, total: i128)
    requires
        instance_storable(*old(e)),
    ensures
        host_kept(*old(e), *final(e)),
        instance_lives_extended(*old(e), *final(e)),
        raw_written(*old(e), *final(e), DataKey::TotalDeposits, Some(StoredValue::I128(total))),
        kinds_kept(*old(e), *final(e)),
{
    write_amount(e, &DataKey::TotalDeposits, total);
    bump_instance_ttl(e);
}

/// Reads the global reward index.
pub fn get_reward_index(e: &mut Env) -> (r: Result<i128, VaultError>)
    requires
        state_usable(*old(e)),
    ensures
        r == state_field(*old(e), |s: VaultState| s.reward_index),
        state_read(*old(e), *final(e), r is Ok),
{
    match get_state(e) {
        Ok(s) => Ok(s.reward_index),
        Err(err) => Err(err),
    }
}

/// Records the global reward index.
pub fn set_reward_index(e: &mut Env, index: i128)
    requires
        instance_storable(*old(e)),
    ensures
        host_kept(*old(e), *final(e)),
        instance_lives_extended(*old(e), *final(e)),
        raw_written(*old(e), *final(e), DataKey::RewardIndex, Some(StoredValue::I128(index))),
        kinds_kept(*old(e), *final(e)),
{
    write_amount(e, &DataKey::RewardIndex, index);
    bump_instance_ttl(e);
}

/// Reads the vesting period.
pub fn get_vesting_period(e: &mut Env) -> (r: Result<u64, VaultError>)
    requires
        state_usable(*old(e)),
    ensures
        r == state_field(*old(e), |s: VaultState| s.vesting_period),
        state_read(*old(e), *final(e), r is Ok),
{
    match get_state(e) {
        Ok(s) => Ok(s.vesting_period),
        Err(err) => Err(err),
    }
}

/// Records whether the vault is paused.
pub fn set_paused(e: &mut Env, paused: bool)
    requires
        instance_storable(*old(e)),
    ensures
        host_kept(*old(e), *final(e)),
        instance_lives_extended(*old(e), *final(e)),
        raw_written(*old(e), *final(e), DataKey::IsPaused, Some(StoredValue::Bool(paused))),
        kinds_kept(*old(e), *final(e)),
{
    write_flag(e, &DataKey::IsPaused, paused);
    bump_instance_ttl(e);
}

// ---------------------------------------------------------------------------
// Reentrancy Guard
// ---------------------------------------------------------------------------

/// Takes the reentrancy guard, or refuses with `ReentrancyDetected` (and
/// changes nothing) when it is already held.
pub fn enter_non_reentrant(e: &mut Env) -> (r: Result<(), VaultError>)
    requires
        instance_storable(*old(e)),
        key_usable(*old(e), DataKey::ReentrancyGuard),
    ensures
        r == if stored_flag(*old(e), DataKey::ReentrancyGuard) {
            Err(VaultError::ReentrancyDetected)
        } else {
            Ok(())
        },
        r is Ok ==> {
            &&& raw_written(*old(e), *final(e), DataKey::ReentrancyGuard, Some(StoredValue::Bool(true)))
            &&& host_kept(*old(e), *final(e))
            &&& kinds_kept(*old(e), *final(e))
            &&& instance_lives_extended(*old(e), *final(e))
        },
        r is Err ==> *final(e) == *old(e),
{
    let held = match read_flag(e, &DataKey::ReentrancyGuard) {
        Some(b) => b,
        None => false,
    };
    if held {
        return Err(VaultError::ReentrancyDetected);
    }
    write_flag(e, &DataKey::ReentrancyGuard, true);
    bump_instance_ttl(e);
    Ok(())
}

/// Releases the reentrancy guard.
pub fn exit_non_reentrant(e: &mut Env)
    requires
        instance_storable(*old(e)),
    ensures
        host_kept(*old(e), *final(e)),
        instance_lives_extended(*old(e), *final(e)),
        raw_written(*old(e), *final(e), DataKey::ReentrancyGuard, Some(StoredValue::Bool(false))),
        kinds_kept(*old(e), *final(e)),
{
    write_flag(e, &DataKey::ReentrancyGuard, false);
    bump_instance_ttl(e);
}


// ---------------------------------------------------------------------------
// User Position
// ---------------------------------------------------------------------------

/// The position of `user` as storage holds it, each missing field being 0.
pub open spec fn user_position(e: Env, user: Address) -> UserPosition {
    UserPosition {
        balance: stored_amount(e, DataKey::UserBalance(user)),
        reward_index: stored_amount(e, DataKey::UserRewardIndex(user)),
        accrued_rewards: stored_amount(e, DataKey::UserAccruedRewards(user)),
        last_reward_timestamp: stored_seconds(e, DataKey::UserLastRewardTimestamp(user)),
    }
}

/// The keys of `user`'s position can be read and hold values of their kinds.
pub open spec fn position_usable(e: Env, user: Address) -> bool {
    &&& key_usable(e, DataKey::UserBalance(user))
    &&& key_usable(e, DataKey::UserRewardIndex(user))
    &&& key_usable(e, DataKey::UserAccruedRewards(user))
    &&& key_usable(e, DataKey::UserLastRewardTimestamp(user))
}

/// The keys of `user`'s position can be written, and read back.
pub open spec fn position_storable(e: Env, user: Address) -> bool {
    &&& key_writable(e, DataKey::UserBalance(user)) && key_readable(e, DataKey::UserBalance(user))
    &&& key_writable(e, DataKey::UserRewardIndex(user)) && key_readable(e, DataKey::UserRewardIndex(user))
    &&& key_writable(e, DataKey::UserAccruedRewards(user)) && key_readable(e, DataKey::UserAccruedRewards(user))
    &&& key_writable(e, DataKey::UserLastRewardTimestamp(user))
        && key_readable(e, DataKey::UserLastRewardTimestamp(user))
}

/// `m` with the amount `v` recorded under `slot`, or the entry removed when
/// `v` is 0.
pub open spec fn put_amount(
    m: Map<(Seq<char>, Address), StoredValue>,
    slot: (Seq<char>, Address),
    v: i128,
) -> Map<(Seq<char>, Address), StoredValue> {
    if v == 0 {
        m.remove(slot)
    } else {
        m.insert(slot, StoredValue::I128(v))
    }
}

/// The persistent entries after `p` is recorded as `user`'s position: zero
/// amounts are removed, the timestamp is always written.
pub open spec fn position_entries(
    m: Map<(Seq<char>, Address), StoredValue>,
    user: Address,
    p: UserPosition,
) -> Map<(Seq<char>, Address), StoredValue> {
    put_amount(
        put_amount(
            put_amount(m, (DataKey::UserBalance(user).spec_symbol(), user), p.balance),
            (DataKey::UserRewardIndex(user).spec_symbol(), user),
            p.reward_index,
        ),
        (DataKey::UserAccruedRewards(user).spec_symbol(), user),
        p.accrued_rewards,
    ).insert(
        (DataKey::UserLastRewardTimestamp(user).spec_symbol(), user),
        StoredValue::U64(p.last_reward_timestamp),
    )
}

/// Storage after `p` is recorded as `user`'s position.
pub open spec fn position_recorded(old: Env, new: Env, user: Address, p: UserPosition) -> bool {
    &&& persistent_entries(new) == position_entries(persistent_entries(old), user, p)
    &&& instance_entries(new) == instance_entries(old)
}

/// The storage slot of a per-user key.
pub open spec fn slot(key: DataKey) -> (Seq<char>, Address) {
    (key.spec_symbol(), key.spec_user().unwrap())
}

/// The lifetimes `m` after the per-user `key` was kept live when `cond` held.
pub open spec fn bump_if(
    e: Env,
    m: Map<(Seq<char>, Address), u32>,
    key: DataKey,
    cond: bool,
) -> Map<(Seq<char>, Address), u32> {
    if cond {
        m.insert(slot(key), vault_extended(e, m[slot(key)]))
    } else {
        m
    }
}

/// The persistent lifetimes after `user`'s position `p` was read from `e`:
/// the entry of each stored (non-zero) field was kept live.
pub open spec fn position_lives(e: Env, user: Address, p: UserPosition) -> Map<(Seq<char>, Address), u32> {
    bump_if(
        e,
        bump_if(
            e,
            bump_if(
                e,
                bump_if(e, persistent_live_until(e), DataKey::UserBalance(user), p.balance != 0),
                DataKey::UserRewardIndex(user),
                p.reward_index != 0,
            ),
            DataKey::UserAccruedRewards(user),
            p.accrued_rewards != 0,
        ),
        DataKey::UserLastRewardTimestamp(user),
        p.last_reward_timestamp != 0,
    )
}

/// Storage after `user`'s position `p` was read: nothing stored changed, and
/// the entries of its stored fields were kept live.
pub open spec fn position_read(old: Env, new: Env, user: Address, p: UserPosition) -> bool {
    &&& entries_kept(old, new)
    &&& host_kept(old, new)
    &&& instance_live_until(new) == instance_live_until(old)
    &&& persistent_live_until(new) == position_lives(old, user, p)
}

/// The least last-live ledger of an entry the vault has just kept live.
pub open spec fn live_floor(e: Env) -> int {
    let target = ledger_sequence(e) + PERSISTENT_TTL_EXTEND_TO;
    if target < max_live_until(e) { target } else { max_live_until(e) as int }
}

/// `m` without the slots of `user`'s position.
pub open spec fn user_slots_removed(m: Map<(Seq<char>, Address), u32>, user: Address) -> Map<(Seq<char>, Address), u32> {
    m.remove(slot(DataKey::UserBalance(user)))
        .remove(slot(DataKey::UserRewardIndex(user)))
        .remove(slot(DataKey::UserAccruedRewards(user)))
        .remove(slot(DataKey::UserLastRewardTimestamp(user)))
}

/// The persistent lifetimes after `p` was recorded as `user`'s position: other
/// slots' lifetimes are unchanged, and the entries written (the non-zero
/// amounts and the timestamp) live at least for the vault's extension period.
pub open spec fn position_lives_written(old: Env, new: Env, user: Address, p: UserPosition) -> bool {
    let m = persistent_live_until(new);
    &&& user_slots_removed(m, user) == user_slots_removed(persistent_live_until(old), user)
    &&& p.balance != 0 ==> m[slot(DataKey::UserBalance(user))] >= live_floor(old)
    &&& p.reward_index != 0 ==> m[slot(DataKey::UserRewardIndex(user))] >= live_floor(old)
    &&& p.accrued_rewards != 0 ==> m[slot(DataKey::UserAccruedRewards(user))] >= live_floor(old)
    &&& m[slot(DataKey::UserLastRewardTimestamp(user))] >= live_floor(old)
}

/// The vault's extension of an entry leaves it live at least up to the floor.
pub proof fn lemma_extension_floor(e: Env, live: u32)
    ensures
        vault_extended(e, live) >= live_floor(e),
{
}

/// Extending an entry a second time in the same ledger changes nothing.
pub proof fn lemma_extension_settles(seq: u32, max: u32, ttl: u32, live: u32)
    ensures
        extended_live_until(extended_live_until(live, seq, max, ttl, ttl), seq, max, ttl, ttl)
            == extended_live_until(live, seq, max, ttl, ttl),
{
}

/// Reading a position keeps live only the entries of that position.
pub proof fn lemma_position_lives_frame(e: Env, user: Address, p: UserPosition)
    ensures
        user_slots_removed(position_lives(e, user, p), user) == user_slots_removed(persistent_live_until(e), user),
{
    assert(user_slots_removed(position_lives(e, user, p), user) =~= user_slots_removed(persistent_live_until(e), user));
}

/// A change confined to one slot of `user`'s position leaves the lifetimes of
/// every other slot as they were.
proof fn lemma_user_slots_frame(
    a: Map<(Seq<char>, Address), u32>,
    b: Map<(Seq<char>, Address), u32>,
    key: DataKey,
    user: Address,
)
    requires
        key.spec_user() == Some(user),
        a.remove(slot(key)) == b.remove(slot(key)),
    ensures
        user_slots_removed(a, user) == user_slots_removed(b, user),
{
    let (sb, sr, sa, st) = (
        slot(DataKey::UserBalance(user)),
        slot(DataKey::UserRewardIndex(user)),
        slot(DataKey::UserAccruedRewards(user)),
        slot(DataKey::UserLastRewardTimestamp(user)),
    );
    assert(slot(key) == sb || slot(key) == sr || slot(key) == sa || slot(key) == st);
    let ra = user_slots_removed(a, user);
    let rb = user_slots_removed(b, user);
    assert forall|k: (Seq<char>, Address)| #[trigger] ra.contains_key(k) == rb.contains_key(k) by {
        if k != slot(key) {
            assert(a.remove(slot(key)).contains_key(k) == a.contains_key(k));
            assert(b.remove(slot(key)).contains_key(k) == b.contains_key(k));
        }
    }
    assert forall|k: (Seq<char>, Address)| ra.contains_key(k) implies #[trigger] ra[k] == rb[k] by {
        assert(k != slot(key));
        assert(a.remove(slot(key))[k] == a[k]);
        assert(b.remove(slot(key))[k] == b[k]);
    }
    assert(ra =~= rb);
}

fn read_user_amount(e: &mut Env, key: &DataKey) -> (r: i128)
    requires
        key_usable(*old(e), *key),
        key.kind() is I128,
        key.spec_user() is Some,
    ensures
        r == stored_amount(*old(e), *key),
        entries_kept(*old(e), *final(e)),
        host_kept(*old(e), *final(e)),
        instance_live_until(*final(e)) == instance_live_until(*old(e)),
        persistent_live_until(*final(e)) == bump_if(*old(e), persistent_live_until(*old(e)), *key, r != 0),
{
    let v = read_amount(e, key).unwrap_or(0);
    if v != 0 {
        bump_persistent_ttl(e, key);
    }
    v
}

/// Reads the position of `user`, once the vault is initialized.
pub fn get_user_position(e: &mut Env, user: &Address) -> (r: Result<UserPosition, VaultError>)
    requires
        key_usable(*old(e), DataKey::Initialized),
        position_usable(*old(e), *user),
    ensures
        r == if vault_initialized(*old(e)) {
            Ok(user_position(*old(e), *user))
        } else {
            Err(VaultError::NotInitialized)
        },
        match r {
            Ok(p) => position_read(*old(e), *final(e), *user, p),
            Err(_) => *final(e) == *old(e),
        },
{
    match require_initialized(e) {
        Ok(()) => {},
        Err(err) => return Err(err),
    }
    Ok(get_user_position_unchecked(e, user))
}

/// Reads the position of `user`, each missing field being 0, and keeps the
/// entries of the stored (non-zero) fields live.
pub fn get_user_position_unchecked(e: &mut Env, user: &Address) -> (p: UserPosition)
    requires
        position_usable(*old(e), *user),
    ensures
        p == user_position(*old(e), *user),
        position_read(*old(e), *final(e), *user, p),
{
    let balance_key = DataKey::UserBalance(user.clone());
    let reward_index_key = DataKey::UserRewardIndex(user.clone());
    let accrued_rewards_key = DataKey::UserAccruedRewards(user.clone());
    let last_reward_timestamp_key = DataKey::UserLastRewardTimestamp(user.clone());

    let balance = read_user_amount(e, &balance_key);
    let reward_index = read_user_amount(e, &reward_index_key);
    let accrued_rewards = read_user_amount(e, &accrued_rewards_key);
    let last_reward_timestamp = read_seconds(e, &last_reward_timestamp_key).unwrap_or(0);
    if last_reward_timestamp != 0 {
        bump_persistent_ttl(e, &last_reward_timestamp_key);
    }

    UserPosition { balance, reward_index, accrued_rewards, last_reward_timestamp }
}

fn write_user_amount(e: &mut Env, key: &DataKey, value: i128)
    requires
        key_writable(*old(e), *key),
        key_readable(*old(e), *key),
        key.kind() is I128,
        key.spec_user() is Some,
    ensures
        host_kept(*old(e), *final(e)),
        raw_written(*old(e), *final(e), *key, if value == 0 { None } else { Some(StoredValue::I128(value)) }),
        instance_live_until(*final(e)) == instance_live_until(*old(e)),
        persistent_live_until(*final(e)).remove(slot(*key)) == persistent_live_until(*old(e)).remove(slot(*key)),
        value != 0 ==> persistent_live_until(*final(e)).contains_key(slot(*key)),
        value != 0 ==> persistent_live_until(*final(e))[slot(*key)] >= live_floor(*old(e)),
        kinds_kept(*old(e), *final(e)),
{
    let ghost before = *e;
    if value == 0 {
        erase(e, key);
    } else {
        write_amount(e, key, value);
        let ghost mid = *e;
        bump_persistent_ttl(e, key);
        proof {
            lemma_kinds_kept_chain(before, mid, *e);
            lemma_extension_floor(mid, persistent_live_until(mid)[slot(*key)]);
            assert(persistent_live_until(*e).remove(slot(*key)) =~= persistent_live_until(mid).remove(slot(*key)));
        }
    }
}

/// Records `position` as `user`'s position: zero amounts are removed rather
/// than stored, the timestamp is always written; the entries written are
/// kept live.
pub fn set_user_position(e: &mut Env, user: &Address, position: &UserPosition)
    requires
        position_storable(*old(e), *user),
    ensures
        position_recorded(*old(e), *final(e), *user, *position),
        host_kept(*old(e), *final(e)),
        instance_live_until(*final(e)) == instance_live_until(*old(e)),
        position_lives_written(*old(e), *final(e), *user, *position),
        kinds_kept(*old(e), *final(e)),
{
    let balance_key = DataKey::UserBalance(user.clone());
    let reward_index_key = DataKey::UserRewardIndex(user.clone());
    let accrued_rewards_key = DataKey::UserAccruedRewards(user.clone());
    let last_reward_timestamp_key = DataKey::UserLastRewardTimestamp(user.clone());
    let ghost e0 = *e;
    proof {
        lemma_keys_distinct(balance_key, reward_index_key);
        lemma_keys_distinct(balance_key, accrued_rewards_key);
        lemma_keys_distinct(balance_key, last_reward_timestamp_key);
        lemma_keys_distinct(reward_index_key, accrued_rewards_key);
        lemma_keys_distinct(reward_index_key, last_reward_timestamp_key);
        lemma_keys_distinct(accrued_rewards_key, last_reward_timestamp_key);
    }

    write_user_amount(e, &balance_key, position.balance);
    let ghost e1 = *e;
    write_user_amount(e, &reward_index_key, position.reward_index);
    let ghost e2 = *e;
    write_user_amount(e, &accrued_rewards_key, position.accrued_rewards);
    let ghost e3 = *e;
    write_seconds(e, &last_reward_timestamp_key, position.last_reward_timestamp);
    let ghost e4 = *e;
    bump_persistent_ttl(e, &last_reward_timestamp_key);
    proof {
        lemma_extension_floor(e4, persistent_live_until(e4)[slot(last_reward_timestamp_key)]);
        let m0 = persistent_live_until(e0);
        let m1 = persistent_live_until(e1);
        let m2 = persistent_live_until(e2);
        let m3 = persistent_live_until(e3);
        let m4 = persistent_live_until(e4);
        let m5 = persistent_live_until(*e);
        let (sb, sr, sa, st) = (slot(balance_key), slot(reward_index_key), slot(accrued_rewards_key), slot(last_reward_timestamp_key));
        assert(m5.remove(st) =~= m4.remove(st));
        lemma_user_slots_frame(m1, m0, balance_key, *user);
        lemma_user_slots_frame(m2, m1, reward_index_key, *user);
        lemma_user_slots_frame(m3, m2, accrued_rewards_key, *user);
        lemma_user_slots_frame(m4, m3, last_reward_timestamp_key, *user);
        lemma_user_slots_frame(m5, m4, last_reward_timestamp_key, *user);
        if position.balance != 0 {
            assert(m2.remove(sr)[sb] == m1.remove(sr)[sb]);
            assert(m3.remove(sa)[sb] == m2.remove(sa)[sb]);
            assert(m4.remove(st)[sb] == m3.remove(st)[sb]);
            assert(m5.remove(st)[sb] == m4.remove(st)[sb]);
        }
        if position.reward_index != 0 {
            assert(m3.remove(sa)[sr] == m2.remove(sa)[sr]);
            assert(m4.remove(st)[sr] == m3.remove(st)[sr]);
            assert(m5.remove(st)[sr] == m4.remove(st)[sr]);
        }
        if position.accrued_rewards != 0 {
            assert(m4.remove(st)[sa] == m3.remove(st)[sa]);
            assert(m5.remove(st)[sa] == m4.remove(st)[sa]);
        }
    }
}

/// Reads the balance of `user`, once the vault is initialized.
pub fn get_user_balance(e: &mut Env, user: &Address) -> (r: Result<i128, VaultError>)
    requires
        key_usable(*old(e), DataKey::Initialized),
        position_usable(*old(e), *user),
    ensures
        r == if vault_initialized(*old(e)) {
            Ok(user_position(*old(e), *user).balance)
        } else {
            Err(VaultError::NotInitialized)
        },
        match r {
            Ok(_) => position_read(*old(e), *final(e), *user, user_position(*old(e), *user)),
            Err(_) => *final(e) == *old(e),
        },
{
    match get_user_position(e, user) {
        Ok(p) => Ok(p.balance),
        Err(err) => Err(err),
    }
}


// ---------------------------------------------------------------------------
// Rewards accrual
// ---------------------------------------------------------------------------

/// When rewards were last distributed, 0 when never.
pub open spec fn distribution_stamp(e: Env) -> u64 {
    stored_seconds(e, DataKey::LastDistributionTimestamp)
}

/// Brings `position` up to the global reward index; when rewards are newly
/// earned, the position is stamped with `stamp`, the time of the latest
/// distribution, so that all its accrued rewards vest from then. On failure
/// the position is unchanged.
fn accrue_position_rewards(state: &VaultState, stamp: u64, position: &mut UserPosition) -> (r: Result<(), VaultError>)
    ensures
        match r {
            Ok(()) => accrue(state.reward_index, *old(position), stamp) == Ok::<UserPosition, VaultError>(*final(position)),
            Err(err) => {
                &&& accrue(state.reward_index, *old(position), stamp) == Err::<UserPosition, VaultError>(err)
                &&& *final(position) == *old(position)
            },
        },
{
    if state.reward_index == position.reward_index || position.balance == 0 {
        position.reward_index = state.reward_index;
        return Ok(());
    }

    if position.balance > 0 {
        let delta = match state.reward_index.checked_sub(position.reward_index) {
            Some(d) => d,
            None => return Err(VaultError::Overflow),
        };
        let accrued = match checked_accrued_rewards(position.balance, delta) {
            Ok(a) => a,
            Err(err) => return Err(err),
        };

        if accrued > 0 {
            position.accrued_rewards = match position.accrued_rewards.checked_add(accrued) {
                Some(v) => v,
                None => return Err(VaultError::Overflow),
            };
            // The accrued rewards vest from the latest distribution.
            position.last_reward_timestamp = stamp;
        }
    }

    position.reward_index = state.reward_index;
    Ok(())
}

// ---------------------------------------------------------------------------
// Deposit/Withdraw Logic
// ---------------------------------------------------------------------------

/// A deposit of `amount` into position `p` under state `s`, new rewards being
/// stamped with `stamp`: rewards are accrued with the old balance, then the
/// balance and the total deposits both grow by `amount`.
pub open spec fn deposit_outcome(s: VaultState, p: UserPosition, amount: i128, stamp: u64) -> Result<(VaultState, UserPosition), VaultError> {
    match accrue(s.reward_index, p, stamp) {
        Err(err) => Err(err),
        Ok(q) => if !fits_i128(q.balance + amount) || !fits_i128(s.total_deposits + amount) {
            Err(VaultError::Overflow)
        } else {
            Ok(
                (
                    VaultState { total_deposits: (s.total_deposits + amount) as i128, ..s },
                    UserPosition { balance: (q.balance + amount) as i128, ..q },
                ),
            )
        },
    }
}

/// A withdrawal of `amount` from position `p` under state `s`: rewards are
/// accrued with the old balance, a balance below `amount` is refused, then the
/// balance and the total deposits both shrink by `amount`.
pub open spec fn withdraw_outcome(s: VaultState, p: UserPosition, amount: i128, stamp: u64) -> Result<(VaultState, UserPosition), VaultError> {
    match accrue(s.reward_index, p, stamp) {
        Err(err) => Err(err),
        Ok(q) => if q.balance < amount {
            Err(VaultError::InsufficientBalance)
        } else if !fits_i128(q.balance - amount) || !fits_i128(s.total_deposits - amount) {
            Err(VaultError::Overflow)
        } else {
            Ok(
                (
                    VaultState { total_deposits: (s.total_deposits - amount) as i128, ..s },
                    UserPosition { balance: (q.balance - amount) as i128, ..q },
                ),
            )
        },
    }
}

/// A deposit (`deposit` true) or withdrawal of `amount` by `user` against
/// storage `e`.
pub open spec fn transfer_result(e: Env, user: Address, amount: i128, deposit: bool) -> Result<(VaultState, UserPosition), VaultError> {
    match vault_state(e) {
        Err(err) => Err(err),
        Ok(s) => if deposit {
            deposit_outcome(s, user_position(e, user), amount, distribution_stamp(e))
        } else {
            withdraw_outcome(s, user_position(e, user), amount, distribution_stamp(e))
        },
    }
}

/// The instance lifetime after an operation that began by reading the
/// global state: kept live exactly when that read succeeded.
pub open spec fn instance_live_after_read(old: Env, new: Env) -> bool {
    if vault_state(old) is Ok {
        instance_kept_live(old, new)
    } else {
        instance_live_until(new) == instance_live_until(old)
    }
}

/// The lifetimes after an operation by `user` that wrote nothing: the
/// instance entry was kept live exactly when the global state could be read,
/// the entries of `user`'s position may have been kept live, and no other
/// lifetime changed.
pub open spec fn lives_extended_only(old: Env, new: Env, user: Address) -> bool {
    &&& instance_live_after_read(old, new)
    &&& user_slots_removed(persistent_live_until(new), user) == user_slots_removed(persistent_live_until(old), user)
}

/// Storage after an operation by `user` that recorded nothing: nothing stored
/// changed, and only lifetimes were extended.
pub open spec fn only_lives_extended(old: Env, new: Env, user: Address) -> bool {
    &&& entries_kept(old, new)
    &&& host_kept(old, new)
    &&& lives_extended_only(old, new, user)
}

/// What a deposit or withdrawal leaves in storage: on success the new total
/// and position are recorded and kept live; on failure nothing stored
/// changes.
pub open spec fn transfer_done(
    old: Env,
    new: Env,
    user: Address,
    amount: i128,
    deposit: bool,
    r: Result<(VaultState, UserPosition), VaultError>,
) -> bool {
    &&& r == transfer_result(old, user, amount, deposit)
    &&& kinds_kept(old, new)
    &&& match r {
        Ok((s, p)) => {
            &&& instance_entries(new) == instance_entries(old).insert(
                DataKey::TotalDeposits.spec_symbol(),
                StoredValue::I128(s.total_deposits),
            )
            &&& persistent_entries(new) == position_entries(persistent_entries(old), user, p)
            &&& host_kept(old, new)
            &&& instance_kept_live(old, new)
            &&& position_lives_written(old, new, user, p)
        },
        Err(_) => only_lives_extended(old, new, user),
    }
}

/// What a deposit, withdrawal or claim by `user` reads and writes can be
/// reached, and what it reads holds values of the right kinds.
pub open spec fn user_operation_usable(e: Env, user: Address) -> bool {
    &&& state_usable(e)
    &&& key_usable(e, DataKey::LastDistributionTimestamp)
    &&& instance_storable(e)
    &&& position_usable(e, user)
    &&& position_storable(e, user)
}

fn read_distribution_stamp(e: &Env) -> (r: u64)
    requires
        key_usable(*e, DataKey::LastDistributionTimestamp),
    ensures
        r == distribution_stamp(*e),
{
    read_seconds(e, &DataKey::LastDistributionTimestamp).unwrap_or(0)
}

/// Deposits `amount` for `user`: accrues the user's rewards with the old
/// balance, then adds `amount` to the balance and to the total deposits and
/// records both.
pub fn store_deposit(e: &mut Env, user: &Address, amount: i128) -> (r: Result<(VaultState, UserPosition), VaultError>)
    requires
        user_operation_usable(*old(e), *user),
    ensures
        transfer_done(*old(e), *final(e), *user, amount, true, r),
{
    let ghost e0 = *e;
    let state = match get_state(e) {
        Ok(s) => s,
        Err(err) => return Err(err),
    };
    let stamp = read_distribution_stamp(e);
    let ghost e1 = *e;
    let mut position = get_user_position_unchecked(e, user);
    let ghost position0 = position;
    let ghost e2 = *e;
    proof {
        assert(user_position(e1, *user) == user_position(e0, *user));
        lemma_position_lives_frame(e1, *user, position0);
    }

    // Accrue rewards earned up to this point using the old balance.
    match accrue_position_rewards(&state, stamp, &mut position) {
        Ok(()) => {},
        Err(err) => return Err(err),
    }

    // Update balance and total deposits.
    position.balance = match position.balance.checked_add(amount) {
        Some(b) => b,
        None => return Err(VaultError::Overflow),
    };
    let next_total = match state.total_deposits.checked_add(amount) {
        Some(t) => t,
        None => return Err(VaultError::Overflow),
    };

    // Persist changes.
    set_total_deposits(e, next_total);
    let ghost e3 = *e;
    set_user_position(e, user, &position);
    proof {
        lemma_extension_settles(ledger_sequence(e0), max_live_until(e0), INSTANCE_TTL_EXTEND_TO, instance_live_until(e0));
        assert(user_slots_removed(persistent_live_until(e3), *user) == user_slots_removed(persistent_live_until(e2), *user));
    }

    Ok((VaultState { total_deposits: next_total, ..state }, position))
}

/// Withdraws `amount` for `user`: accrues the user's rewards with the old
/// balance, refuses a balance below `amount`, then subtracts `amount` from the
/// balance and from the total deposits and records both.
pub fn store_withdraw(e: &mut Env, user: &Address, amount: i128) -> (r: Result<(VaultState, UserPosition), VaultError>)
    requires
        user_operation_usable(*old(e), *user),
    ensures
        transfer_done(*old(e), *final(e), *user, amount, false, r),
{
    let ghost e0 = *e;
    let state = match get_state(e) {
        Ok(s) => s,
        Err(err) => return Err(err),
    };
    let stamp = read_distribution_stamp(e);
    let ghost e1 = *e;
    let mut position = get_user_position_unchecked(e, user);
    let ghost position0 = position;
    let ghost e2 = *e;
    proof {
        assert(user_position(e1, *user) == user_position(e0, *user));
        lemma_position_lives_frame(e1, *user, position0);
    }

    // Accrue rewards earned up to this point using the old balance.
    match accrue_position_rewards(&state, stamp, &mut position) {
        Ok(()) => {},
        Err(err) => return Err(err),
    }

    if position.balance < amount {
        proof { lemma_position_lives_frame(e0, *user, position0); }
        return Err(VaultError::InsufficientBalance);
    }

    // Update balance and total deposits.
    position.balance = match position.balance.checked_sub(amount) {
        Some(b) => b,
        None => return Err(VaultError::Overflow),
    };
    let next_total = match state.total_deposits.checked_sub(amount) {
        Some(t) => t,
        None => return Err(VaultError::Overflow),
    };

    // Persist changes.
    set_total_deposits(e, next_total);
    let ghost e3 = *e;
    set_user_position(e, user, &position);
    proof {
        lemma_extension_settles(ledger_sequence(e0), max_live_until(e0), INSTANCE_TTL_EXTEND_TO, instance_live_until(e0));
        assert(user_slots_removed(persistent_live_until(e3), *user) == user_slots_removed(persistent_live_until(e2), *user));
    }

    Ok((VaultState { total_deposits: next_total, ..state }, position))
}

// ---------------------------------------------------------------------------
// Reward Distribution
// ---------------------------------------------------------------------------

/// A distribution of `amount` against storage `e`: the reward index grows by
/// the amount's share per deposited unit.
pub open spec fn distribution_result(e: Env, amount: i128) -> Result<VaultState, VaultError> {
    match vault_state(e) {
        Err(err) => Err(err),
        Ok(s) => match reward_index_increment(amount as int, s.total_deposits as int) {
            Err(err) => Err(err),
            Ok(increment) => if !fits_i128(s.reward_index + increment) {
                Err(VaultError::Overflow)
            } else {
                Ok(VaultState { reward_index: (s.reward_index + increment) as i128, ..s })
            },
        },
    }
}

/// What a distribution at time `now` leaves in storage: on success the new
/// reward index and `now` as the distribution time are recorded; on failure
/// nothing changes.
pub open spec fn distribution_done(old: Env, new: Env, amount: i128, now: u64, r: Result<VaultState, VaultError>) -> bool {
    &&& r == distribution_result(old, amount)
    &&& kinds_kept(old, new)
    &&& match r {
        Ok(s) => {
            &&& instance_entries(new) == instance_entries(old).insert(
                DataKey::RewardIndex.spec_symbol(),
                StoredValue::I128(s.reward_index),
            ).insert(DataKey::LastDistributionTimestamp.spec_symbol(), StoredValue::U64(now))
            &&& persistent_entries(new) == persistent_entries(old)
            &&& host_kept(old, new)
            &&& instance_lives_extended(old, new)
        },
        Err(_) => {
            &&& entries_kept(old, new)
            &&& host_kept(old, new)
            &&& persistent_live_until(new) == persistent_live_until(old)
            &&& instance_live_after_read(old, new)
        },
    }
}

/// Distributes `amount` of rewards over the deposits at time `now`: raises
/// the global reward index and records it with the distribution time.
pub fn store_reward_distribution_at(e: &mut Env, amount: i128, now: u64) -> (r: Result<VaultState, VaultError>)
    requires
        state_usable(*old(e)),
        instance_storable(*old(e)),
    ensures
        distribution_done(*old(e), *final(e), amount, now, r),
{
    let ghost e0 = *e;
    let state = match get_state(e) {
        Ok(s) => s,
        Err(err) => return Err(err),
    };
    let increment = match checked_reward_index_increment(amount, state.total_deposits) {
        Ok(i) => i,
        Err(err) => return Err(err),
    };

    let next_reward_index = match state.reward_index.checked_add(increment) {
        Some(i) => i,
        None => return Err(VaultError::Overflow),
    };

    set_reward_index(e, next_reward_index);
    write_seconds(e, &DataKey::LastDistributionTimestamp, now);
    proof {
        lemma_extension_settles(ledger_sequence(e0), max_live_until(e0), INSTANCE_TTL_EXTEND_TO, instance_live_until(e0));
    }

    Ok(VaultState { reward_index: next_reward_index, ..state })
}

/// Distributes `amount` of rewards over the deposits at the ledger time.
pub fn store_reward_distribution(e: &mut Env, amount: i128) -> (r: Result<VaultState, VaultError>)
    requires
        state_usable(*old(e)),
        instance_storable(*old(e)),
    ensures
        distribution_done(*old(e), *final(e), amount, ledger_time(*old(e)), r),
{
    let now = ledger_timestamp(e);
    store_reward_distribution_at(e, amount, now)
}

// ---------------------------------------------------------------------------
// Claim Rewards
// ---------------------------------------------------------------------------

/// A claim at time `now` by position `p` under state `s`, new rewards being
/// stamped with `stamp`: the part of the accrued rewards vested at `now` is
/// paid out and the rest stays accrued.
pub open spec fn claim_outcome(s: VaultState, p: UserPosition, stamp: u64, now: u64) -> Result<(i128, UserPosition), VaultError> {
    match accrue(s.reward_index, p, stamp) {
        Err(err) => Err(err),
        Ok(q) => match vested_rewards(now, q, s.vesting_period) {
            Err(err) => Err(err),
            Ok(vested) => if !fits_i128(q.accrued_rewards - vested) {
                Err(VaultError::Overflow)
            } else {
                Ok((vested, UserPosition { accrued_rewards: (q.accrued_rewards - vested) as i128, ..q }))
            },
        },
    }
}

/// A claim by `user` at time `now` against storage `e`.
pub open spec fn claim_result(e: Env, user: Address, now: u64) -> Result<(i128, UserPosition), VaultError> {
    match vault_state(e) {
        Err(err) => Err(err),
        Ok(s) => claim_outcome(s, user_position(e, user), distribution_stamp(e), now),
    }
}

/// What a claim at time `now` leaves in storage and returns: on success the
/// vested amount, with the new position recorded and kept live; on failure
/// the error, with nothing stored changed.
pub open spec fn claim_done(old: Env, new: Env, user: Address, now: u64, r: Result<i128, VaultError>) -> bool {
    &&& kinds_kept(old, new)
    &&& match claim_result(old, user, now) {
        Ok((vested, q)) => {
            &&& r == Ok::<i128, VaultError>(vested)
            &&& position_recorded(old, new, user, q)
            &&& host_kept(old, new)
            &&& instance_kept_live(old, new)
            &&& position_lives_written(old, new, user, q)
        },
        Err(err) => r == Err::<i128, VaultError>(err) && only_lives_extended(old, new, user),
    }
}

/// Pays out `user`'s rewards vested at time `now`: accrues the user's rewards,
/// keeps the unvested part accrued, and records the position.
pub fn store_claimable_rewards_at(e: &mut Env, user: &Address, now: u64) -> (r: Result<i128, VaultError>)
    requires
        user_operation_usable(*old(e), *user),
    ensures
        claim_done(*old(e), *final(e), *user, now, r),
{
    let ghost e0 = *e;
    let state = match get_state(e) {
        Ok(s) => s,
        Err(err) => return Err(err),
    };
    let stamp = read_distribution_stamp(e);
    let ghost e1 = *e;
    let mut position = get_user_position_unchecked(e, user);
    let ghost position0 = position;
    let ghost e2 = *e;
    proof {
        assert(user_position(e1, *user) == user_position(e0, *user));
        lemma_position_lives_frame(e1, *user, position0);
    }

    // Accrue all rewards earned up to the current global index.
    match accrue_position_rewards(&state, stamp, &mut position) {
        Ok(()) => {},
        Err(err) => return Err(err),
    }

    // Calculate vested rewards
    let vested = match calculate_vested_rewards(now, &position, state.vesting_period) {
        Ok(v) => v,
        Err(err) => return Err(err),
    };

    // Update position with remaining accrued rewards
    position.accrued_rewards = match position.accrued_rewards.checked_sub(vested) {
        Some(v) => v,
        None => return Err(VaultError::Overflow),
    };

    set_user_position(e, user, &position);

    Ok(vested)
}

/// Pays out `user`'s rewards vested at the ledger time.
pub fn store_claimable_rewards(e: &mut Env, user: &Address) -> (r: Result<i128, VaultError>)
    requires
        user_operation_usable(*old(e), *user),
    ensures
        claim_done(*old(e), *final(e), *user, ledger_time(*old(e)), r),
{
    let now = ledger_timestamp(e);
    store_claimable_rewards_at(e, user, now)
}

// ---------------------------------------------------------------------------
// Read-only reward preview
// ---------------------------------------------------------------------------

/// The reward snapshot at time `now` of position `p` under state `s`, new
/// rewards being stamped with `stamp`.
pub open spec fn preview_outcome(s: VaultState, p: UserPosition, stamp: u64, now: u64) -> Result<UserRewardSnapshot, VaultError> {
    match accrue(s.reward_index, p, stamp) {
        Err(err) => Err(err),
        Ok(q) => match vested_rewards(now, q, s.vesting_period) {
            Err(err) => Err(err),
            Ok(vested) => Ok(
                UserRewardSnapshot {
                    reward_index: q.reward_index,
                    rewards: q.accrued_rewards,
                    vested_rewards: vested,
                },
            ),
        },
    }
}

/// The reward snapshot of `user` at time `now` against storage `e`.
pub open spec fn preview_result(e: Env, user: Address, now: u64) -> Result<UserRewardSnapshot, VaultError> {
    match vault_state(e) {
        Err(err) => Err(err),
        Ok(s) => preview_outcome(s, user_position(e, user), distribution_stamp(e), now),
    }
}

/// The rewards of a snapshot, or the error.
pub open spec fn rewards_of(r: Result<UserRewardSnapshot, VaultError>) -> Result<i128, VaultError> {
    match r {
        Ok(s) => Ok(s.rewards),
        Err(err) => Err(err),
    }
}

/// The vested rewards of a snapshot, or the error.
pub open spec fn vested_of(r: Result<UserRewardSnapshot, VaultError>) -> Result<i128, VaultError> {
    match r {
        Ok(s) => Ok(s.vested_rewards),
        Err(err) => Err(err),
    }
}

/// What a preview of `user` reads can be reached and holds values of the
/// right kinds.
pub open spec fn preview_usable(e: Env, user: Address) -> bool {
    &&& state_usable(e)
    &&& key_usable(e, DataKey::LastDistributionTimestamp)
    &&& position_usable(e, user)
}

/// Reports `user`'s rewards as they would be after accrual, with the part
/// vested at time `now`; nothing stored changes.
pub fn preview_user_rewards_at(e: &mut Env, user: &Address, now: u64) -> (r: Result<UserRewardSnapshot, VaultError>)
    requires
        preview_usable(*old(e), *user),
    ensures
        r == preview_result(*old(e), *user, now),
        only_lives_extended(*old(e), *final(e), *user),
{
    let ghost e0 = *e;
    match require_initialized(e) {
        Ok(()) => {},
        Err(err) => return Err(err),
    }
    let state = match get_state(e) {
        Ok(s) => s,
        Err(err) => return Err(err),
    };
    let stamp = read_distribution_stamp(e);
    let ghost e1 = *e;
    let mut position = get_user_position_unchecked(e, user);
    let ghost position0 = position;
    proof {
        assert(user_position(e1, *user) == user_position(e0, *user));
        lemma_position_lives_frame(e1, *user, position0);
    }

    // Calculate accrued rewards without modifying state
    match accrue_position_rewards(&state, stamp, &mut position) {
        Ok(()) => {},
        Err(err) => return Err(err),
    }

    let vested = match calculate_vested_rewards(now, &position, state.vesting_period) {
        Ok(v) => v,
        Err(err) => return Err(err),
    };

    Ok(UserRewardSnapshot {
        reward_index: position.reward_index,
        rewards: position.accrued_rewards,
        vested_rewards: vested,
    })
}

/// Reports `user`'s rewards as they would be after accrual, with the part
/// vested at the ledger time, without recording anything.
pub fn preview_user_rewards(e: &mut Env, user: &Address) -> (r: Result<UserRewardSnapshot, VaultError>)
    requires
        preview_usable(*old(e), *user),
    ensures
        only_lives_extended(*old(e), *final(e), *user),
        r == preview_result(*old(e), *user, ledger_time(*old(e))),
{
    let now = ledger_timestamp(e);
    preview_user_rewards_at(e, user, now)
}

/// Reports `user`'s rewards, accrued and newly earned.
pub fn pending_user_rewards_view(e: &mut Env, user: &Address) -> (r: Result<i128, VaultError>)
    requires
        preview_usable(*old(e), *user),
    ensures
        only_lives_extended(*old(e), *final(e), *user),
        r == rewards_of(preview_result(*old(e), *user, ledger_time(*old(e)))),
{
    let now = ledger_timestamp(e);
    match preview_user_rewards_at(e, user, now) {
        Ok(s) => Ok(s.rewards),
        Err(err) => Err(err),
    }
}

/// Reports the part of `user`'s rewards that has vested at the ledger time.
pub fn vested_user_rewards_view(e: &mut Env, user: &Address) -> (r: Result<i128, VaultError>)
    requires
        preview_usable(*old(e), *user),
    ensures
        only_lives_extended(*old(e), *final(e), *user),
        r == vested_of(preview_result(*old(e), *user, ledger_time(*old(e)))),
{
    let now = ledger_timestamp(e);
    match preview_user_rewards_at(e, user, now) {
        Ok(s) => Ok(s.vested_rewards),
        Err(err) => Err(err),
    }
}

} // verus!
