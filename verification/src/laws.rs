//! Properties of the vault that span its operations.

use crate::host::{instance_entries, persistent_entries, StoredValue};
use crate::keys::{lemma_keys_distinct, lemma_symbols_distinct, stored, DataKey};
use crate::rewards::{accrue, accrued_rewards, reward_index_increment, trunc_div, vested_rewards};
use vstd::arithmetic::div_mod::{
    lemma_div_is_ordered, lemma_div_multiples_vanish, lemma_div_of0, lemma_div_pos_is_pos,
    lemma_fundamental_div_mod, lemma_mod_pos_bound,
};
use vstd::arithmetic::mul::{
    lemma_mul_by_zero_is_zero, lemma_mul_inequality, lemma_mul_is_commutative,
    lemma_mul_is_distributive_add, lemma_mul_nonnegative,
};
use crate::storage::{
    claim_done, claim_outcome, claim_result, preview_result, rewards_of, distribution_done, distribution_stamp, deposit_outcome, withdraw_outcome, initialized_entries, lemma_read_after_write, position_entries, position_recorded, raw_written,
    stored_flag, transfer_done, user_position, vault_state, VaultState,
};
use crate::types::{UserPosition, UserRewardSnapshot, VaultError, PRECISION_FACTOR};
use soroban_sdk::{Address, Env};
use vstd::prelude::*;

verus! {

proof fn lemma_position_entries_read_back(old: Env, new: Env, user: Address, p: UserPosition)
    requires
        persistent_entries(new) == position_entries(persistent_entries(old), user, p),
    ensures
        user_position(new, user) == p,
        forall|other: Address| other != user ==> #[trigger] user_position(new, other) == user_position(old, other),
{
    lemma_keys_distinct(DataKey::UserBalance(user), DataKey::UserRewardIndex(user));
    lemma_keys_distinct(DataKey::UserBalance(user), DataKey::UserAccruedRewards(user));
    lemma_keys_distinct(DataKey::UserBalance(user), DataKey::UserLastRewardTimestamp(user));
    lemma_keys_distinct(DataKey::UserRewardIndex(user), DataKey::UserAccruedRewards(user));
    lemma_keys_distinct(DataKey::UserRewardIndex(user), DataKey::UserLastRewardTimestamp(user));
    lemma_keys_distinct(DataKey::UserAccruedRewards(user), DataKey::UserLastRewardTimestamp(user));
    assert(user_position(new, user) == p);
}

/// Recording a user's position and reading it back gives the position that
/// was recorded; the positions of other users and the global state are left
/// as they were.
pub proof fn lemma_position_read_back(old: Env, new: Env, user: Address, p: UserPosition)
    requires
        position_recorded(old, new, user, p),
    ensures
        user_position(new, user) == p,
        forall|other: Address| other != user ==> #[trigger] user_position(new, other) == user_position(old, other),
        vault_state(new) == vault_state(old),
{
    lemma_position_entries_read_back(old, new, user, p);
}

/// After initialization the vault reads as initialized with the given
/// addresses and vesting period, no deposits and a zero reward index, with no
/// pending admin, not paused and the reentrancy guard free; users' positions
/// are left as they were.
pub proof fn lemma_initialize_read_back(
    old: Env,
    new: Env,
    admin: Address,
    deposit_token: Address,
    reward_token: Address,
    vesting_period: u64,
)
    requires
        instance_entries(new) == initialized_entries(
            instance_entries(old),
            admin,
            deposit_token,
            reward_token,
            vesting_period,
        ),
        persistent_entries(new) == persistent_entries(old),
    ensures
        vault_state(new) == Ok::<VaultState, VaultError>(
            VaultState {
                admin,
                deposit_token,
                reward_token,
                total_deposits: 0,
                reward_index: 0,
                vesting_period,
            },
        ),
        stored(new, DataKey::PendingAdmin) is None,
        !stored_flag(new, DataKey::IsPaused),
        !stored_flag(new, DataKey::ReentrancyGuard),
        forall|u: Address| #[trigger] user_position(new, u) == user_position(old, u),
{
    lemma_symbols_distinct();
}

/// A successful deposit or withdrawal is read back from storage: the global
/// state reads as the state it returned and the user's position as the
/// position it returned; other users' positions are left as they were.
pub proof fn lemma_transfer_read_back(
    old: Env,
    new: Env,
    user: Address,
    amount: i128,
    deposit: bool,
    s: VaultState,
    p: UserPosition,
)
    requires
        transfer_done(old, new, user, amount, deposit, Ok((s, p))),
    ensures
        vault_state(new) == Ok::<VaultState, VaultError>(s),
        user_position(new, user) == p,
        forall|other: Address| other != user ==> #[trigger] user_position(new, other) == user_position(old, other),
{
    lemma_symbols_distinct();
    lemma_position_entries_read_back(old, new, user, p);
}


/// A successful distribution is read back from storage: the global state
/// reads as the state it returned, which differs from the previous one only
/// by a higher reward index, and the distribution time is recorded; users'
/// positions are left as they were.
pub proof fn lemma_distribution_read_back(old: Env, new: Env, amount: i128, now: u64, s: VaultState)
    requires
        distribution_done(old, new, amount, now, Ok(s)),
    ensures
        vault_state(new) == Ok::<VaultState, VaultError>(s),
        distribution_stamp(new) == now,
        s.reward_index > vault_state(old).unwrap().reward_index,
        s == (VaultState { reward_index: s.reward_index, ..vault_state(old).unwrap() }),
        forall|u: Address| #[trigger] user_position(new, u) == user_position(old, u),
{
    lemma_symbols_distinct();
}

/// Recording the total deposits, the reward index or the admin address and
/// reading the global state back gives the state with that field replaced.
pub proof fn lemma_state_setters_read_back(old: Env, new: Env, key: DataKey, v: StoredValue, s: VaultState)
    requires
        vault_state(old) == Ok::<VaultState, VaultError>(s),
        raw_written(old, new, key, Some(v)),
        match (key, v) {
            (DataKey::TotalDeposits, StoredValue::I128(_)) => true,
            (DataKey::RewardIndex, StoredValue::I128(_)) => true,
            (DataKey::Admin, StoredValue::Addr(_)) => true,
            _ => false,
        },
    ensures
        vault_state(new) == Ok::<VaultState, VaultError>(
            match v {
                StoredValue::I128(x) => if key == DataKey::TotalDeposits {
                    VaultState { total_deposits: x, ..s }
                } else {
                    VaultState { reward_index: x, ..s }
                },
                StoredValue::Addr(a) => VaultState { admin: a, ..s },
                _ => s,
            },
        ),
        forall|u: Address| #[trigger] user_position(new, u) == user_position(old, u),
{
    lemma_symbols_distinct();
}

/// Taking the reentrancy guard makes it held, so that taking it again is
/// refused; releasing it makes it free again. Nothing else changes.
pub proof fn lemma_guard_cycle(e0: Env, e1: Env, e2: Env)
    requires
        raw_written(e0, e1, DataKey::ReentrancyGuard, Some(StoredValue::Bool(true))),
        raw_written(e1, e2, DataKey::ReentrancyGuard, Some(StoredValue::Bool(false))),
    ensures
        stored_flag(e1, DataKey::ReentrancyGuard),
        !stored_flag(e2, DataKey::ReentrancyGuard),
        forall|k: DataKey| k != DataKey::ReentrancyGuard ==> #[trigger] stored(e2, k) == stored(e0, k),
{
    lemma_read_after_write(e0, e1, DataKey::ReentrancyGuard, Some(StoredValue::Bool(true)));
    lemma_read_after_write(e1, e2, DataKey::ReentrancyGuard, Some(StoredValue::Bool(false)));
    assert(stored(e1, DataKey::ReentrancyGuard) == Some(StoredValue::Bool(true)));
}


/// A deposit moves the user's balance and the total deposits by the same
/// amount, brings the position up to the global reward index without ever
/// lowering its accrued rewards, and leaves the rest of the state as it was.
pub proof fn lemma_deposit_moves_balance_and_total(s: VaultState, p: UserPosition, amount: i128, now: u64)
    requires
        deposit_outcome(s, p, amount, now) is Ok,
    ensures
        ({
            let (s2, p2) = deposit_outcome(s, p, amount, now).unwrap();
            &&& s2 == VaultState { total_deposits: s2.total_deposits, ..s }
            &&& s2.total_deposits == s.total_deposits + amount
            &&& p2.balance == p.balance + amount
            &&& s2.total_deposits - p2.balance == s.total_deposits - p.balance
            &&& p2.reward_index == s.reward_index
            &&& p2.accrued_rewards >= p.accrued_rewards
        }),
{
}

/// A withdrawal moves the user's balance and the total deposits by the same
/// amount, never below zero for the balance when it was not negative, brings
/// the position up to the global reward index without ever lowering its
/// accrued rewards, and leaves the rest of the state as it was.
pub proof fn lemma_withdraw_moves_balance_and_total(s: VaultState, p: UserPosition, amount: i128, now: u64)
    requires
        withdraw_outcome(s, p, amount, now) is Ok,
    ensures
        ({
            let (s2, p2) = withdraw_outcome(s, p, amount, now).unwrap();
            &&& s2 == VaultState { total_deposits: s2.total_deposits, ..s }
            &&& s2.total_deposits == s.total_deposits - amount
            &&& p2.balance == p.balance - amount
            &&& amount <= p.balance
            &&& s2.total_deposits - p2.balance == s.total_deposits - p.balance
            &&& p2.reward_index == s.reward_index
            &&& p2.accrued_rewards >= p.accrued_rewards
        }),
{
}

/// Withdrawing what was just deposited succeeds and restores the balance and
/// the total deposits; the position keeps the rewards the deposit accrued.
pub proof fn lemma_withdraw_undoes_deposit(s: VaultState, p: UserPosition, amount: i128, t1: u64, t2: u64)
    requires
        deposit_outcome(s, p, amount, t1) is Ok,
        p.balance >= 0,
    ensures
        ({
            let (s2, p2) = deposit_outcome(s, p, amount, t1).unwrap();
            withdraw_outcome(s2, p2, amount, t2) == Ok::<(VaultState, UserPosition), VaultError>(
                (s, UserPosition { balance: p.balance, ..p2 }),
            )
        }),
{
}

/// Depositing what was just withdrawn succeeds and restores the balance and
/// the total deposits; the position keeps the rewards the withdrawal accrued.
pub proof fn lemma_deposit_undoes_withdraw(s: VaultState, p: UserPosition, amount: i128, t1: u64, t2: u64)
    requires
        withdraw_outcome(s, p, amount, t1) is Ok,
    ensures
        ({
            let (s2, p2) = withdraw_outcome(s, p, amount, t1).unwrap();
            deposit_outcome(s2, p2, amount, t2) == Ok::<(VaultState, UserPosition), VaultError>(
                (s, UserPosition { balance: p.balance, ..p2 }),
            )
        }),
{
}

/// Accrual brings a position up to the index and changes nothing more when
/// repeated at the same index; it keeps the balance and never lowers the
/// accrued rewards; newly earned rewards carry the stamp they were accrued
/// with, and otherwise the position keeps its stamp; whether it fails does not
/// depend on the stamp.
pub proof fn lemma_accrue_settles(index: i128, p: UserPosition, t1: u64, t2: u64)
    ensures
        accrue(index, p, t1) is Ok <==> accrue(index, p, t2) is Ok,
        accrue(index, p, t1) matches Ok(q) ==> {
            &&& q.reward_index == index
            &&& q.balance == p.balance
            &&& q.accrued_rewards >= p.accrued_rewards
            &&& q.last_reward_timestamp == if q.accrued_rewards > p.accrued_rewards { t1 } else { p.last_reward_timestamp }
            &&& accrue(index, q, t2) == Ok::<UserPosition, VaultError>(q)
        },
{
}


/// The vested part of non-negative accrued rewards lies between zero and the
/// accrued rewards.
pub proof fn lemma_vested_within_accrued(now: u64, p: UserPosition, vesting_period: u64)
    requires
        p.accrued_rewards >= 0,
        vested_rewards(now, p, vesting_period) is Ok,
    ensures
        0 <= vested_rewards(now, p, vesting_period).unwrap() <= p.accrued_rewards,
{
    if vesting_period != 0 && p.last_reward_timestamp != 0 {
        let a = p.accrued_rewards as int;
        let elapsed: int = if now >= p.last_reward_timestamp { now - p.last_reward_timestamp } else { 0 };
        if elapsed < vesting_period {
            let d = vesting_period as int;
            assert((p.accrued_rewards as u128) as int == a);
            lemma_mul_inequality(elapsed, d, a);
            lemma_mul_nonnegative(a, elapsed);
            lemma_mul_is_commutative(a, elapsed);
            lemma_mul_is_commutative(a, d);
            lemma_div_is_ordered(a * elapsed, d * a, d);
            lemma_div_multiples_vanish(a, d);
            lemma_div_pos_is_pos(a * elapsed, d);
        }
    }
}

/// Vested rewards, of non-negative accrued rewards, never shrink as time
/// passes.
pub proof fn lemma_vesting_monotone(t1: u64, t2: u64, p: UserPosition, vesting_period: u64)
    requires
        p.accrued_rewards >= 0,
        t1 <= t2,
        vested_rewards(t1, p, vesting_period) is Ok,
        vested_rewards(t2, p, vesting_period) is Ok,
    ensures
        vested_rewards(t1, p, vesting_period).unwrap() <= vested_rewards(t2, p, vesting_period).unwrap(),
{
    lemma_vested_within_accrued(t1, p, vesting_period);
    lemma_vested_within_accrued(t2, p, vesting_period);
    if vesting_period != 0 && p.last_reward_timestamp != 0 {
        let a = p.accrued_rewards as int;
        let d = vesting_period as int;
        let e1: int = if t1 >= p.last_reward_timestamp { t1 - p.last_reward_timestamp } else { 0 };
        let e2: int = if t2 >= p.last_reward_timestamp { t2 - p.last_reward_timestamp } else { 0 };
        if e2 < vesting_period {
            assert((p.accrued_rewards as u128) as int == a);
            lemma_mul_inequality(e1, e2, a);
            lemma_mul_is_commutative(a, e1);
            lemma_mul_is_commutative(a, e2);
            lemma_div_is_ordered(a * e1, a * e2, d);
            lemma_mul_inequality(e2, d, a);
            lemma_mul_is_commutative(a, d);
            lemma_div_is_ordered(a * e2, d * a, d);
            lemma_div_multiples_vanish(a, d);
            lemma_mul_nonnegative(a, e1);
            lemma_div_pos_is_pos(a * e1, d);
        }
    }
}

/// Rewards start vesting at the moment they are stamped and have all vested
/// once the vesting period has passed; without a vesting period they vest at
/// once, and unstamped rewards have not vested.
pub proof fn lemma_vesting_endpoints(now: u64, p: UserPosition, vesting_period: u64)
    ensures
        vesting_period == 0 ==> vested_rewards(now, p, vesting_period) == Ok::<i128, VaultError>(p.accrued_rewards),
        vesting_period > 0 && p.last_reward_timestamp == 0 ==> vested_rewards(now, p, vesting_period) == Ok::<i128, VaultError>(0),
        vesting_period > 0 && p.last_reward_timestamp != 0 && now <= p.last_reward_timestamp
            ==> vested_rewards(now, p, vesting_period) == Ok::<i128, VaultError>(0),
        vesting_period > 0 && p.last_reward_timestamp != 0 && now >= p.last_reward_timestamp + vesting_period
            ==> vested_rewards(now, p, vesting_period) == Ok::<i128, VaultError>(p.accrued_rewards),
{
    if vesting_period > 0 {
        lemma_mul_by_zero_is_zero((p.accrued_rewards as u128) as int);
        lemma_div_of0(vesting_period as int);
    }
}

/// A claim pays out the vested part of the rewards accrued up to the global
/// index and keeps the rest accrued: the two add up to the accrued rewards,
/// and neither is negative when the accrued rewards were not.
pub proof fn lemma_claim_splits_rewards(s: VaultState, p: UserPosition, stamp: u64, now: u64)
    requires
        claim_outcome(s, p, stamp, now) is Ok,
    ensures
        ({
            let (vested, q) = claim_outcome(s, p, stamp, now).unwrap();
            let accrued = accrue(s.reward_index, p, stamp).unwrap();
            &&& vested + q.accrued_rewards == accrued.accrued_rewards
            &&& q == UserPosition { accrued_rewards: q.accrued_rewards, ..accrued }
            &&& p.accrued_rewards >= 0 ==> 0 <= vested && 0 <= q.accrued_rewards
        }),
{
    let accrued = accrue(s.reward_index, p, stamp).unwrap();
    if p.accrued_rewards >= 0 {
        lemma_vested_within_accrued(now, accrued, s.vesting_period);
    }
}


/// The sum of a sequence of balances.
pub open spec fn balances_sum(balances: Seq<int>) -> int
    decreases balances.len(),
{
    if balances.len() == 0 {
        0
    } else {
        balances_sum(balances.drop_last()) + balances.last()
    }
}

/// What the balances earn, summed, when the reward index rises by
/// `increment`: each earns `balance * increment / PRECISION_FACTOR`, rounded
/// toward zero (what `accrued_rewards` gives it).
pub open spec fn earned_sum(balances: Seq<int>, increment: int) -> int
    decreases balances.len(),
{
    if balances.len() == 0 {
        0
    } else {
        earned_sum(balances.drop_last(), increment) + trunc_div(balances.last() * increment, PRECISION_FACTOR as int)
    }
}

proof fn lemma_floor_add(x: int, y: int, d: int)
    requires
        0 <= x,
        0 <= y,
        0 < d,
    ensures
        x / d + y / d <= (x + y) / d,
{
    lemma_fundamental_div_mod(x, d);
    lemma_fundamental_div_mod(y, d);
    lemma_mod_pos_bound(x, d);
    lemma_mod_pos_bound(y, d);
    lemma_mul_is_distributive_add(d, x / d, y / d);
    lemma_div_is_ordered(d * (x / d + y / d), x + y, d);
    lemma_div_multiples_vanish(x / d + y / d, d);
}

proof fn lemma_earned_sum_bound(balances: Seq<int>, increment: int)
    requires
        0 <= increment,
        forall|i: int| 0 <= i < balances.len() ==> balances[i] >= 0,
    ensures
        0 <= balances_sum(balances),
        earned_sum(balances, increment) <= (balances_sum(balances) * increment) / (PRECISION_FACTOR as int),
    decreases balances.len(),
{
    let d = PRECISION_FACTOR as int;
    if balances.len() == 0 {
        lemma_mul_by_zero_is_zero(increment);
        lemma_div_of0(d);
    } else {
        let init = balances.drop_last();
        lemma_earned_sum_bound(init, increment);
        let b = balances.last();
        lemma_mul_nonnegative(balances_sum(init), increment);
        lemma_mul_nonnegative(b, increment);
        lemma_floor_add(balances_sum(init) * increment, b * increment, d);
        lemma_mul_is_commutative(balances_sum(init) + b, increment);
        lemma_mul_is_commutative(balances_sum(init), increment);
        lemma_mul_is_commutative(b, increment);
        lemma_mul_is_distributive_add(increment, balances_sum(init), b);
    }
}

proof fn lemma_balance_within_sum(balances: Seq<int>, i: int)
    requires
        forall|j: int| 0 <= j < balances.len() ==> balances[j] >= 0,
        0 <= i < balances.len(),
    ensures
        balances[i] <= balances_sum(balances),
    decreases balances.len(),
{
    let init = balances.drop_last();
    lemma_earned_sum_bound(init, 0);
    if i < balances.len() - 1 {
        lemma_balance_within_sum(init, i);
    }
}

/// A distribution never hands out more than its amount: whatever
/// non-negative balances share the deposits, each of them earns a
/// non-negative amount from the resulting index increment without overflow
/// (what `accrued_rewards` gives it), and these add up to at most the
/// distributed amount.
pub proof fn lemma_distribution_not_exceeded(amount: i128, total_deposits: i128, balances: Seq<int>)
    requires
        reward_index_increment(amount as int, total_deposits as int) is Ok,
        forall|i: int| 0 <= i < balances.len() ==> balances[i] >= 0,
        balances_sum(balances) <= total_deposits,
    ensures
        earned_sum(balances, reward_index_increment(amount as int, total_deposits as int).unwrap() as int) <= amount,
        forall|i: int| #![trigger balances[i]] 0 <= i < balances.len() ==> {
            let inc = reward_index_increment(amount as int, total_deposits as int).unwrap() as int;
            &&& accrued_rewards(balances[i], inc)
                == Ok::<i128, VaultError>(trunc_div(balances[i] * inc, PRECISION_FACTOR as int) as i128)
            &&& trunc_div(balances[i] * inc, PRECISION_FACTOR as int) >= 0
        },
{
    let d = PRECISION_FACTOR as int;
    let scaled = amount * d;
    let total = total_deposits as int;
    let increment = reward_index_increment(amount as int, total_deposits as int).unwrap() as int;
    assert(scaled > 0);
    assert(increment == scaled / total);
    lemma_earned_sum_bound(balances, increment);
    lemma_mul_inequality(balances_sum(balances), total, increment);
    lemma_fundamental_div_mod(scaled, total);
    lemma_mod_pos_bound(scaled, total);
    lemma_div_is_ordered(balances_sum(balances) * increment, scaled, d);
    lemma_mul_is_commutative(amount as int, d);
    lemma_div_multiples_vanish(amount as int, d);
    assert forall|i: int| #![trigger balances[i]] 0 <= i < balances.len() implies {
        &&& accrued_rewards(balances[i], increment)
            == Ok::<i128, VaultError>(trunc_div(balances[i] * increment, d) as i128)
        &&& trunc_div(balances[i] * increment, d) >= 0
    } by {
        lemma_balance_within_sum(balances, i);
        lemma_mul_inequality(balances[i], total, increment);
        lemma_mul_nonnegative(balances[i], increment);
        lemma_div_pos_is_pos(balances[i] * increment, d);
        lemma_div_is_ordered(balances[i] * increment, scaled, d);
    }
}


/// The balances of `users`, summed.
pub open spec fn balances_of(e: Env, users: Seq<Address>) -> int
    decreases users.len(),
{
    if users.len() == 0 {
        0
    } else {
        balances_of(e, users.drop_last()) + user_position(e, users.last()).balance
    }
}

proof fn lemma_balances_shift(old: Env, new: Env, user: Address, delta: int, users: Seq<Address>)
    requires
        users.no_duplicates(),
        user_position(new, user).balance == user_position(old, user).balance + delta,
        forall|other: Address| other != user ==> #[trigger] user_position(new, other) == user_position(old, other),
    ensures
        balances_of(new, users) == balances_of(old, users) + if users.contains(user) { delta } else { 0 },
    decreases users.len(),
{
    if users.len() > 0 {
        let init = users.drop_last();
        assert(init.no_duplicates());
        lemma_balances_shift(old, new, user, delta, init);
        assert(users =~= init.push(users.last()));
        if users.last() == user {
            assert(!init.contains(user)) by {
                if init.contains(user) {
                    let i = choose|i: int| 0 <= i < init.len() && init[i] == user;
                    assert(users[i] == users[users.len() - 1]);
                }
            }
        } else {
            assert(users.contains(user) == init.contains(user)) by {
                if users.contains(user) {
                    let i = choose|i: int| 0 <= i < users.len() && users[i] == user;
                    assert(init[i] == user);
                }
            }
        }
    }
}

/// Deposits and withdrawals keep the total deposits equal to the sum of the
/// balances: if the total equals the summed balances of a set of users that
/// includes the depositor, it still does afterwards.
pub proof fn lemma_transfer_keeps_total(
    old: Env,
    new: Env,
    user: Address,
    amount: i128,
    deposit: bool,
    s: VaultState,
    p: UserPosition,
    users: Seq<Address>,
)
    requires
        transfer_done(old, new, user, amount, deposit, Ok((s, p))),
        users.no_duplicates(),
        users.contains(user),
        vault_state(old) is Ok,
        vault_state(old).unwrap().total_deposits == balances_of(old, users),
    ensures
        vault_state(new) == Ok::<VaultState, VaultError>(s),
        s.total_deposits == balances_of(new, users),
{
    lemma_transfer_read_back(old, new, user, amount, deposit, s, p);
    let s0 = vault_state(old).unwrap();
    let p0 = user_position(old, user);
    if deposit {
        lemma_deposit_moves_balance_and_total(s0, p0, amount, distribution_stamp(old));
    } else {
        lemma_withdraw_moves_balance_and_total(s0, p0, amount, distribution_stamp(old));
    }
    let delta: int = p.balance - p0.balance;
    lemma_balances_shift(old, new, user, delta, users);
}


/// A claim at time `now` pays exactly the vested rewards that a preview at
/// that time reports, and a preview at that time afterwards reports the
/// rewards that the claim kept.
pub proof fn lemma_claim_matches_preview(old: Env, new: Env, user: Address, now: u64, r: Result<i128, VaultError>)
    requires
        claim_done(old, new, user, now, r),
        claim_result(old, user, now) is Ok,
    ensures
        ({
            let (vested, q) = claim_result(old, user, now).unwrap();
            &&& r == Ok::<i128, VaultError>(vested)
            &&& preview_result(old, user, now) == Ok::<UserRewardSnapshot, VaultError>(
                UserRewardSnapshot {
                    reward_index: q.reward_index,
                    rewards: (vested + q.accrued_rewards) as i128,
                    vested_rewards: vested,
                },
            )
            &&& rewards_of(preview_result(new, user, now)) == Ok::<i128, VaultError>(q.accrued_rewards)
        }),
{
    let (vested, q) = claim_result(old, user, now).unwrap();
    let s = vault_state(old).unwrap();
    let p = user_position(old, user);
    let stamp = distribution_stamp(old);
    let q0 = accrue(s.reward_index, p, stamp).unwrap();
    lemma_accrue_settles(s.reward_index, p, stamp, stamp);
    lemma_position_read_back(old, new, user, q);
    assert(distribution_stamp(new) == stamp);
    lemma_accrue_settles(s.reward_index, q, stamp, stamp);
    if s.vesting_period != 0 && q.last_reward_timestamp != 0 {
        let elapsed: int = if now >= q.last_reward_timestamp { now - q.last_reward_timestamp } else { 0 };
        if elapsed < s.vesting_period {
            lemma_claim_rest_within(q0.accrued_rewards, vested, elapsed, s.vesting_period as int);
            lemma_mul_inequality(
                (q.accrued_rewards as u128) as int,
                (q0.accrued_rewards as u128) as int,
                elapsed,
            );
        }
    }
}

/// An `i128` read as unsigned bits.
proof fn lemma_i128_bits(x: i128)
    ensures
        x >= 0 ==> (x as u128) as int == x as int,
        x < 0 ==> (x as u128) as int == x + 0x1_0000_0000_0000_0000_0000_0000_0000_0000int,
{
    assert(x >= 0 ==> (x as u128) == x) by (bit_vector);
    assert(x < 0 ==> (x as u128) == x + 0x1_0000_0000_0000_0000_0000_0000_0000_0000) by (bit_vector);
}

/// A `u128` read as signed bits.
proof fn lemma_u128_bits(w: u128)
    ensures
        w < 0x8000_0000_0000_0000_0000_0000_0000_0000 ==> (w as i128) as int == w as int,
        w >= 0x8000_0000_0000_0000_0000_0000_0000_0000 ==> (w as i128) as int == w - 0x1_0000_0000_0000_0000_0000_0000_0000_0000int,
{
    assert(w < 0x8000_0000_0000_0000_0000_0000_0000_0000 ==> (w as i128) == w) by (bit_vector);
    assert(w >= 0x8000_0000_0000_0000_0000_0000_0000_0000 ==> (w as i128) == w - 0x1_0000_0000_0000_0000_0000_0000_0000_0000)
        by (bit_vector);
}

/// What a claim keeps of accrued rewards `a`, after paying the part `v`
/// vested after `elapsed` of `period`, reads as no more unsigned bits than
/// `a` did.
proof fn lemma_claim_rest_within(a: i128, v: i128, elapsed: int, period: int)
    requires
        0 <= elapsed < period,
        (a as u128) * elapsed <= u128::MAX,
        v == (((((a as u128) * elapsed) / period) as u128) as i128),
        i128::MIN <= a - v <= i128::MAX,
    ensures
        (((a - v) as i128) as u128) as int <= (a as u128) as int,
{
    let big: int = (a as u128) as int;
    let vv: int = (big * elapsed) / period;
    lemma_mul_inequality(elapsed, period, big);
    lemma_mul_is_commutative(elapsed, big);
    lemma_mul_is_commutative(period, big);
    lemma_mul_nonnegative(big, elapsed);
    lemma_div_is_ordered(big * elapsed, big * period, period);
    lemma_div_multiples_vanish(big, period);
    lemma_div_pos_is_pos(big * elapsed, period);
    assert(0 <= vv <= big);
    assert((vv as u128) as int == vv);
    lemma_i128_bits(a);
    lemma_u128_bits(vv as u128);
    lemma_i128_bits((a - v) as i128);
}

/// Reading does not change what is read: with the stored values unchanged,
/// as every preview and view leaves them, a second preview of any user at
/// the same time reports the same snapshot, or the same error, as the first.
pub proof fn lemma_preview_repeatable(e0: Env, e1: Env, user: Address, now: u64)
    requires
        instance_entries(e1) == instance_entries(e0),
        persistent_entries(e1) == persistent_entries(e0),
    ensures
        preview_result(e1, user, now) == preview_result(e0, user, now),
{
    assert(vault_state(e1) == vault_state(e0));
    assert(user_position(e1, user) == user_position(e0, user));
    assert(distribution_stamp(e1) == distribution_stamp(e0));
}

/// A distribution of `amount` over `total_deposits` raises the reward index
/// by the largest increment `i` whose share of all deposits,
/// `i * total_deposits`, does not exceed the scaled amount
/// `amount * PRECISION_FACTOR`. It is refused exactly when there are no
/// deposits, when the scaled amount overflows, or when it is less than one
/// scaled unit per deposited unit.
pub proof fn lemma_increment_spreads_amount(amount: int, total_deposits: int)
    ensures
        reward_index_increment(amount, total_deposits) is Ok <==> {
            &&& total_deposits > 0
            &&& i128::MIN <= amount * PRECISION_FACTOR <= i128::MAX
            &&& amount * PRECISION_FACTOR >= total_deposits
        },
        reward_index_increment(amount, total_deposits) matches Ok(i) ==> {
            &&& i > 0
            &&& i * total_deposits <= amount * PRECISION_FACTOR
            &&& amount * PRECISION_FACTOR < (i + 1) * total_deposits
        },
{
    let scaled: int = amount * PRECISION_FACTOR;
    if total_deposits > 0 {
        if scaled >= 0 {
            lemma_fundamental_div_mod(scaled, total_deposits);
            lemma_mod_pos_bound(scaled, total_deposits);
            let q: int = scaled / total_deposits;
            lemma_mul_is_commutative(total_deposits, q);
            lemma_mul_is_distributive_add(total_deposits, q, 1);
            lemma_mul_is_commutative(total_deposits, q + 1);
            if scaled >= total_deposits {
                lemma_div_is_ordered(total_deposits, scaled, total_deposits);
                lemma_div_multiples_vanish(1, total_deposits);
            } else {
                assert(q == 0) by {
                    if q >= 1 {
                        lemma_mul_inequality(1, q, total_deposits);
                    }
                }
            }
        } else {
            lemma_div_pos_is_pos(-scaled, total_deposits);
        }
    }
}

/// A distribution of `amount` at time `now` succeeds exactly when the vault
/// state can be read, there are deposits, the scaled amount
/// `amount * PRECISION_FACTOR` fits and is at least one unit per deposited
/// unit, and the raised index fits. It then raises the reward index, and
/// nothing else of the state, by the largest `i` with
/// `i * total_deposits <= amount * PRECISION_FACTOR`, and the stored state
/// reads as the result.
pub proof fn lemma_distribution_spreads_amount(old: Env, new: Env, amount: i128, now: u64, r: Result<VaultState, VaultError>)
    requires
        distribution_done(old, new, amount, now, r),
    ensures
        r is Ok <==> {
            &&& vault_state(old) is Ok
            &&& vault_state(old).unwrap().total_deposits > 0
            &&& i128::MIN <= amount * PRECISION_FACTOR <= i128::MAX
            &&& amount * PRECISION_FACTOR >= vault_state(old).unwrap().total_deposits
            &&& vault_state(old).unwrap().reward_index
                + (amount * PRECISION_FACTOR) / (vault_state(old).unwrap().total_deposits as int) <= i128::MAX
        },
        r matches Ok(s2) ==> {
            let s = vault_state(old).unwrap();
            let i: int = s2.reward_index - s.reward_index;
            &&& s2 == VaultState { reward_index: s2.reward_index, ..s }
            &&& i > 0
            &&& i * s.total_deposits <= amount * PRECISION_FACTOR
            &&& amount * PRECISION_FACTOR < (i + 1) * s.total_deposits
            &&& vault_state(new) == Ok::<VaultState, VaultError>(s2)
        },
{
    if vault_state(old) is Ok {
        let s = vault_state(old).unwrap();
        lemma_increment_spreads_amount(amount as int, s.total_deposits as int);
        if reward_index_increment(amount as int, s.total_deposits as int) is Ok {
            let scaled: int = amount * PRECISION_FACTOR;
            assert(scaled >= 0);
            assert(trunc_div(scaled, s.total_deposits as int) == scaled / (s.total_deposits as int));
        }
    }
    if r is Ok {
        lemma_distribution_read_back(old, new, amount, now, r.unwrap());
    }
}

/// The rewards position `p` has earned when the reward index stands at
/// `index`: its balance times the index's rise since its last accrual,
/// unscaled and rounded toward zero, and nothing when its balance is not
/// positive or the amount is not positive.
pub open spec fn earned_since(index: i128, p: UserPosition) -> int {
    let raw: int = trunc_div(p.balance * (index - p.reward_index), PRECISION_FACTOR as int);
    if p.balance > 0 && raw > 0 {
        raw
    } else {
        0
    }
}

/// A deposit (`deposit`) or withdrawal of `amount` by `user` first credits
/// the rewards that the balance held before it earned since the position's
/// last accrual, and only then moves the balance and the total deposits by
/// `amount`; newly credited rewards are stamped with the latest distribution
/// time. It succeeds exactly when the vault state can be read, none of these
/// sums overflows and, for a withdrawal, the balance covers `amount`; the
/// stored state and position then read as the result.
pub proof fn lemma_transfer_credits_prior_balance(
    old: Env,
    new: Env,
    user: Address,
    amount: i128,
    deposit: bool,
    r: Result<(VaultState, UserPosition), VaultError>,
)
    requires
        transfer_done(old, new, user, amount, deposit, r),
    ensures
        ({
            let s = vault_state(old).unwrap();
            let p = user_position(old, user);
            let rise: int = s.reward_index - p.reward_index;
            let moved: int = if deposit { amount as int } else { -amount };
            r is Ok <==> {
                &&& vault_state(old) is Ok
                &&& p.balance > 0 && rise != 0 ==> i128::MIN <= rise <= i128::MAX
                    && i128::MIN <= p.balance * rise <= i128::MAX
                &&& p.accrued_rewards + earned_since(s.reward_index, p) <= i128::MAX
                &&& i128::MIN <= p.balance + moved <= i128::MAX
                &&& i128::MIN <= s.total_deposits + moved <= i128::MAX
                &&& !deposit ==> amount <= p.balance
            }
        }),
        r matches Ok((s2, p2)) ==> {
            let s = vault_state(old).unwrap();
            let p = user_position(old, user);
            let gain = earned_since(s.reward_index, p);
            let moved: int = if deposit { amount as int } else { -amount };
            &&& p2.accrued_rewards == p.accrued_rewards + gain
            &&& p2.balance == p.balance + moved
            &&& p2.reward_index == s.reward_index
            &&& p2.last_reward_timestamp == if gain > 0 { distribution_stamp(old) } else { p.last_reward_timestamp }
            &&& s2 == VaultState { total_deposits: (s.total_deposits + moved) as i128, ..s }
            &&& vault_state(new) == Ok::<VaultState, VaultError>(s2)
            &&& user_position(new, user) == p2
        },
{
    if r is Ok {
        lemma_transfer_read_back(old, new, user, amount, deposit, r.unwrap().0, r.unwrap().1);
    }
}

/// Whenever a preview at time `now` succeeds and what it reports as vested
/// can be taken from the rewards without overflow, a claim at that time
/// succeeds, whatever the user's balance: it pays the vested rewards, keeps
/// the rest accrued, and records the position at the previewed index with
/// the balance unchanged.
pub proof fn lemma_claim_owed_when_preview_succeeds(old: Env, new: Env, user: Address, now: u64, r: Result<i128, VaultError>)
    requires
        claim_done(old, new, user, now, r),
        preview_result(old, user, now) is Ok,
        i128::MIN <= preview_result(old, user, now).unwrap().rewards
            - preview_result(old, user, now).unwrap().vested_rewards <= i128::MAX,
    ensures
        ({
            let snap = preview_result(old, user, now).unwrap();
            let p = user_position(old, user);
            &&& r == Ok::<i128, VaultError>(snap.vested_rewards)
            &&& user_position(new, user).accrued_rewards == snap.rewards - snap.vested_rewards
            &&& user_position(new, user).balance == p.balance
            &&& user_position(new, user).reward_index == snap.reward_index
        }),
{
    let (vested, q) = claim_result(old, user, now).unwrap();
    lemma_position_read_back(old, new, user, q);
}

/// A claim by `user` at time `now` first credits the rewards the balance
/// earned since the position's last accrual (stamped with the latest
/// distribution time), then pays out the part of the accrued rewards vested
/// at `now` and keeps the rest; the balance is never consulted. It succeeds
/// exactly when the vault state can be read, the crediting does not
/// overflow, the vested part can be computed, and what is kept fits.
pub proof fn lemma_claim_credits_then_pays(old: Env, new: Env, user: Address, now: u64, r: Result<i128, VaultError>)
    requires
        claim_done(old, new, user, now, r),
    ensures
        ({
            let s = vault_state(old).unwrap();
            let p = user_position(old, user);
            let rise: int = s.reward_index - p.reward_index;
            let gain = earned_since(s.reward_index, p);
            let credited = UserPosition {
                accrued_rewards: (p.accrued_rewards + gain) as i128,
                reward_index: s.reward_index,
                last_reward_timestamp: if gain > 0 { distribution_stamp(old) } else { p.last_reward_timestamp },
                balance: p.balance,
            };
            &&& r is Ok <==> {
                &&& vault_state(old) is Ok
                &&& p.balance > 0 && rise != 0 ==> i128::MIN <= rise <= i128::MAX
                    && i128::MIN <= p.balance * rise <= i128::MAX
                &&& p.accrued_rewards + gain <= i128::MAX
                &&& vested_rewards(now, credited, s.vesting_period) is Ok
                &&& i128::MIN <= credited.accrued_rewards - vested_rewards(now, credited, s.vesting_period).unwrap() <= i128::MAX
            }
            &&& r matches Ok(paid) ==> {
                &&& paid == vested_rewards(now, credited, s.vesting_period).unwrap()
                &&& user_position(new, user) == UserPosition { accrued_rewards: (credited.accrued_rewards - paid) as i128, ..credited }
            }
        }),
{
    if r is Ok {
        let (vested, q) = claim_result(old, user, now).unwrap();
        lemma_position_read_back(old, new, user, q);
    }
}

/// Within the vesting period, non-negative accrued rewards vest in
/// proportion to the time elapsed since they were stamped: the vested part
/// `v` is the largest with `v * vesting_period <= accrued * elapsed`. It can
/// be computed exactly when `accrued * elapsed` fits in a `u128`.
pub proof fn lemma_vesting_is_linear(now: u64, p: UserPosition, vesting_period: u64)
    requires
        p.accrued_rewards >= 0,
        vesting_period > 0,
        p.last_reward_timestamp != 0,
        now < p.last_reward_timestamp + vesting_period,
    ensures
        ({
            let elapsed: int = if now >= p.last_reward_timestamp { now - p.last_reward_timestamp } else { 0 };
            &&& vested_rewards(now, p, vesting_period) is Ok <==> p.accrued_rewards * elapsed <= u128::MAX
            &&& vested_rewards(now, p, vesting_period) matches Ok(v) ==> {
                &&& v * vesting_period <= p.accrued_rewards * elapsed
                &&& p.accrued_rewards * elapsed < (v + 1) * vesting_period
            }
        }),
{
    let a = p.accrued_rewards as int;
    let d = vesting_period as int;
    let elapsed: int = if now >= p.last_reward_timestamp { now - p.last_reward_timestamp } else { 0 };
    assert((p.accrued_rewards as u128) as int == a);
    if a * elapsed <= u128::MAX {
        lemma_mul_nonnegative(a, elapsed);
        lemma_fundamental_div_mod(a * elapsed, d);
        lemma_mod_pos_bound(a * elapsed, d);
        let q: int = (a * elapsed) / d;
        lemma_mul_inequality(elapsed, d, a);
        lemma_mul_is_commutative(a, elapsed);
        lemma_mul_is_commutative(a, d);
        lemma_div_is_ordered(a * elapsed, d * a, d);
        lemma_div_multiples_vanish(a, d);
        assert(0 <= q <= a);
        assert((q as u128) as int == q);
        assert(((q as u128) as i128) as int == q);
        lemma_mul_is_commutative(d, q);
        lemma_mul_is_distributive_add(d, q, 1);
        lemma_mul_is_commutative(d, q + 1);
    }
}

} // verus!
