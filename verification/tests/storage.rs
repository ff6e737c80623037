use soroban_sdk::testutils::{Address as _, EnvTestConfig, Ledger as _};
use soroban_sdk::{Address, Env, Symbol};
use vault_contract::storage::{
    clear_pending_admin, enter_non_reentrant, exit_non_reentrant, get_admin, get_deposit_token,
    get_pending_admin, get_reward_index, get_reward_token, get_state, get_total_deposits,
    get_user_balance, get_user_position, get_user_position_unchecked, get_vesting_period,
    initialize_state, is_initialized, pending_user_rewards_view, preview_user_rewards,
    require_initialized, require_not_paused, set_admin, set_paused, set_pending_admin,
    set_reward_index, set_total_deposits, set_user_position, store_claimable_rewards,
    store_claimable_rewards_at, store_deposit, store_reward_distribution, store_reward_distribution_at,
    store_withdraw, vested_user_rewards_view, preview_user_rewards_at, VaultState,
};
use vault_contract::types::{UserPosition, UserRewardSnapshot, VaultError, PRECISION_FACTOR};

struct Vault {
    e: Env,
    contract: Address,
    admin: Address,
    deposit_token: Address,
    reward_token: Address,
}

impl Vault {
    fn new() -> Vault {
        let e = Env::new_with_config(EnvTestConfig { capture_snapshot_at_drop: false });
        let issuer = Address::generate(&e);
        let contract = e.register_stellar_asset_contract_v2(issuer).address();
        let admin = Address::generate(&e);
        let deposit_token = Address::generate(&e);
        let reward_token = Address::generate(&e);
        Vault { e, contract, admin, deposit_token, reward_token }
    }

    fn initialized(vesting_period: u64) -> Vault {
        let v = Vault::new();
        v.run(|e| initialize_state(e, &v.admin, &v.deposit_token, &v.reward_token, vesting_period));
        v
    }

    fn run<T>(&self, f: impl FnOnce(&mut Env) -> T) -> T {
        let mut env = self.e.clone();
        self.e.as_contract(&self.contract, || f(&mut env))
    }

    fn at(&self, timestamp: u64) {
        self.e.ledger().set_timestamp(timestamp);
    }

    fn state(&self, total_deposits: i128, reward_index: i128, vesting_period: u64) -> VaultState {
        VaultState {
            admin: self.admin.clone(),
            deposit_token: self.deposit_token.clone(),
            reward_token: self.reward_token.clone(),
            total_deposits,
            reward_index,
            vesting_period,
        }
    }
}

#[test]
fn uninitialized_vault_refuses_reads() {
    let v = Vault::new();
    let user = Address::generate(&v.e);
    assert!(!v.run(|e| is_initialized(e)));
    assert_eq!(v.run(|e| require_initialized(e)), Err(VaultError::NotInitialized));
    assert_eq!(v.run(|e| get_state(e)), Err(VaultError::NotInitialized));
    assert_eq!(v.run(|e| get_admin(e)), Err(VaultError::NotInitialized));
    assert_eq!(v.run(|e| get_pending_admin(e)), Err(VaultError::NotInitialized));
    assert_eq!(v.run(|e| get_user_position(e, &user)), Err(VaultError::NotInitialized));
    assert_eq!(v.run(|e| get_user_balance(e, &user)), Err(VaultError::NotInitialized));
    assert_eq!(v.run(|e| preview_user_rewards(e, &user)), Err(VaultError::NotInitialized));
    assert_eq!(v.run(|e| store_deposit(e, &user, 10)), Err(VaultError::NotInitialized));
    assert_eq!(v.run(|e| store_reward_distribution(e, 10)), Err(VaultError::NotInitialized));
}

#[test]
fn initialization_records_configuration() {
    let v = Vault::initialized(86_400);
    assert!(v.run(|e| is_initialized(e)));
    assert_eq!(v.run(|e| require_initialized(e)), Ok(()));
    assert_eq!(v.run(|e| get_state(e)), Ok(v.state(0, 0, 86_400)));
    assert_eq!(v.run(|e| get_admin(e)), Ok(v.admin.clone()));
    assert_eq!(v.run(|e| get_deposit_token(e)), Ok(v.deposit_token.clone()));
    assert_eq!(v.run(|e| get_reward_token(e)), Ok(v.reward_token.clone()));
    assert_eq!(v.run(|e| get_total_deposits(e)), Ok(0));
    assert_eq!(v.run(|e| get_reward_index(e)), Ok(0));
    assert_eq!(v.run(|e| get_vesting_period(e)), Ok(86_400));
    assert_eq!(v.run(|e| get_pending_admin(e)), Ok(None));
    assert_eq!(v.run(|e| require_not_paused(e)), Ok(()));
}

#[test]
fn reinitialization_clears_pending_admin() {
    let v = Vault::initialized(10);
    let pending = Address::generate(&v.e);
    v.run(|e| set_pending_admin(e, &pending));
    v.run(|e| initialize_state(e, &v.admin, &v.deposit_token, &v.reward_token, 20));
    assert_eq!(v.run(|e| get_pending_admin(e)), Ok(None));
    assert_eq!(v.run(|e| get_vesting_period(e)), Ok(20));
}

#[test]
fn admin_and_pending_admin_round_trip() {
    let v = Vault::initialized(0);
    let next = Address::generate(&v.e);
    v.run(|e| set_pending_admin(e, &next));
    assert_eq!(v.run(|e| get_pending_admin(e)), Ok(Some(next.clone())));
    v.run(|e| set_admin(e, &next));
    assert_eq!(v.run(|e| get_admin(e)), Ok(next.clone()));
    v.run(|e| clear_pending_admin(e));
    assert_eq!(v.run(|e| get_pending_admin(e)), Ok(None));
    assert_eq!(v.run(|e| get_deposit_token(e)), Ok(v.deposit_token.clone()));
}

#[test]
fn totals_and_reward_index_round_trip() {
    let v = Vault::initialized(0);
    v.run(|e| set_total_deposits(e, 42));
    v.run(|e| set_reward_index(e, -7));
    assert_eq!(v.run(|e| get_total_deposits(e)), Ok(42));
    assert_eq!(v.run(|e| get_reward_index(e)), Ok(-7));
    assert_eq!(v.run(|e| get_state(e)), Ok(v.state(42, -7, 0)));
}

#[test]
fn pause_flag_guards_operations() {
    let v = Vault::initialized(0);
    v.run(|e| set_paused(e, true));
    assert_eq!(v.run(|e| require_not_paused(e)), Err(VaultError::Unauthorized));
    v.run(|e| set_paused(e, false));
    assert_eq!(v.run(|e| require_not_paused(e)), Ok(()));
}

#[test]
fn reentrancy_guard_cycle() {
    let v = Vault::initialized(0);
    assert_eq!(v.run(|e| enter_non_reentrant(e)), Ok(()));
    assert_eq!(v.run(|e| enter_non_reentrant(e)), Err(VaultError::ReentrancyDetected));
    v.run(|e| exit_non_reentrant(e));
    assert_eq!(v.run(|e| enter_non_reentrant(e)), Ok(()));
}

#[test]
fn guard_is_free_before_initialization() {
    let v = Vault::new();
    assert_eq!(v.run(|e| enter_non_reentrant(e)), Ok(()));
    assert_eq!(v.run(|e| enter_non_reentrant(e)), Err(VaultError::ReentrancyDetected));
}

#[test]
fn user_position_round_trip() {
    let v = Vault::initialized(0);
    let alice = Address::generate(&v.e);
    let bob = Address::generate(&v.e);
    let p = UserPosition { balance: 5, reward_index: 9, accrued_rewards: -3, last_reward_timestamp: 77 };
    v.run(|e| set_user_position(e, &alice, &p));
    assert_eq!(v.run(|e| get_user_position_unchecked(e, &alice)), p);
    assert_eq!(v.run(|e| get_user_position(e, &alice)), Ok(p));
    assert_eq!(v.run(|e| get_user_balance(e, &alice)), Ok(5));
    let empty = UserPosition { balance: 0, reward_index: 0, accrued_rewards: 0, last_reward_timestamp: 0 };
    assert_eq!(v.run(|e| get_user_position_unchecked(e, &bob)), empty);
    v.run(|e| set_user_position(e, &alice, &empty));
    assert_eq!(v.run(|e| get_user_position_unchecked(e, &alice)), empty);
}

#[test]
fn deposit_and_withdraw_move_balance_and_total() {
    let v = Vault::initialized(0);
    let alice = Address::generate(&v.e);
    let bob = Address::generate(&v.e);
    let after = UserPosition { balance: 100, reward_index: 0, accrued_rewards: 0, last_reward_timestamp: 0 };
    assert_eq!(v.run(|e| store_deposit(e, &alice, 100)), Ok((v.state(100, 0, 0), after)));
    assert_eq!(v.run(|e| store_deposit(e, &bob, 30)).map(|(s, _)| s.total_deposits), Ok(130));
    assert_eq!(v.run(|e| get_total_deposits(e)), Ok(130));
    let after = UserPosition { balance: 60, ..after };
    assert_eq!(v.run(|e| store_withdraw(e, &alice, 40)), Ok((v.state(90, 0, 0), after)));
    assert_eq!(v.run(|e| get_user_balance(e, &alice)), Ok(60));
    assert_eq!(v.run(|e| get_user_balance(e, &bob)), Ok(30));
}

#[test]
fn withdrawal_beyond_balance_is_refused() {
    let v = Vault::initialized(0);
    let alice = Address::generate(&v.e);
    v.run(|e| store_deposit(e, &alice, 10)).unwrap();
    assert_eq!(v.run(|e| store_withdraw(e, &alice, 11)), Err(VaultError::InsufficientBalance));
    assert_eq!(v.run(|e| get_user_balance(e, &alice)), Ok(10));
    assert_eq!(v.run(|e| get_total_deposits(e)), Ok(10));
}

#[test]
fn withdraw_all_then_deposit_again() {
    let v = Vault::initialized(0);
    let alice = Address::generate(&v.e);
    v.run(|e| store_deposit(e, &alice, 25)).unwrap();
    v.run(|e| store_withdraw(e, &alice, 25)).unwrap();
    assert_eq!(v.run(|e| get_user_balance(e, &alice)), Ok(0));
    assert_eq!(v.run(|e| get_total_deposits(e)), Ok(0));
    v.run(|e| store_deposit(e, &alice, 25)).unwrap();
    assert_eq!(v.run(|e| get_user_balance(e, &alice)), Ok(25));
}

#[test]
fn deposit_overflow_is_refused() {
    let v = Vault::initialized(0);
    let alice = Address::generate(&v.e);
    v.run(|e| store_deposit(e, &alice, i128::MAX)).unwrap();
    assert_eq!(v.run(|e| store_deposit(e, &alice, 1)), Err(VaultError::Overflow));
    assert_eq!(v.run(|e| get_total_deposits(e)), Ok(i128::MAX));
}

#[test]
fn distribution_without_deposits_is_refused() {
    let v = Vault::initialized(0);
    assert_eq!(v.run(|e| store_reward_distribution(e, 1_000)), Err(VaultError::NoDeposits));
    assert_eq!(v.run(|e| get_reward_index(e)), Ok(0));
}

#[test]
fn distribution_raises_reward_index() {
    let v = Vault::initialized(0);
    let alice = Address::generate(&v.e);
    v.run(|e| store_deposit(e, &alice, 100)).unwrap();
    assert_eq!(v.run(|e| store_reward_distribution(e, 200_000)), Ok(v.state(100, 2_000 * PRECISION_FACTOR, 0)));
    assert_eq!(v.run(|e| store_reward_distribution(e, 100)), Ok(v.state(100, 2_001 * PRECISION_FACTOR, 0)));
    assert_eq!(v.run(|e| get_reward_index(e)), Ok(2_001 * PRECISION_FACTOR));
    assert_eq!(v.run(|e| store_reward_distribution(e, 0)), Err(VaultError::ZeroRewardIncrement));
}

#[test]
fn deposit_accrues_rewards_with_old_balance() {
    let v = Vault::initialized(0);
    let alice = Address::generate(&v.e);
    v.run(|e| store_deposit(e, &alice, 100)).unwrap();
    v.at(1_500);
    v.run(|e| store_reward_distribution(e, 200_000)).unwrap();
    v.at(2_000);
    let (_, p) = v.run(|e| store_deposit(e, &alice, 50)).unwrap();
    assert_eq!(
        p,
        UserPosition {
            balance: 150,
            reward_index: 2_000 * PRECISION_FACTOR,
            accrued_rewards: 200_000,
            last_reward_timestamp: 1_500,
        },
    );
    assert_eq!(v.run(|e| get_user_position(e, &alice)), Ok(p));
}

#[test]
fn rewards_split_by_balance() {
    let v = Vault::initialized(0);
    let alice = Address::generate(&v.e);
    let bob = Address::generate(&v.e);
    v.run(|e| store_deposit(e, &alice, 300)).unwrap();
    v.run(|e| store_deposit(e, &bob, 100)).unwrap();
    v.run(|e| store_reward_distribution(e, 1_000)).unwrap();
    assert_eq!(v.run(|e| pending_user_rewards_view(e, &alice)), Ok(750));
    assert_eq!(v.run(|e| pending_user_rewards_view(e, &bob)), Ok(250));
    // Without a vesting period everything is claimable at once.
    assert_eq!(v.run(|e| store_claimable_rewards(e, &alice)), Ok(750));
    assert_eq!(v.run(|e| pending_user_rewards_view(e, &alice)), Ok(0));
}

#[test]
fn test_vesting() {
    let v = Vault::initialized(86400);
    let user = Address::generate(&v.e);

    // User deposits tokens
    v.run(|e| store_deposit(e, &user, 100i128)).unwrap();

    // Set timestamp for distribution
    v.at(1000);

    // Admin distributes rewards
    v.run(|e| store_reward_distribution(e, 200000i128)).unwrap();

    // Check pending rewards
    let pending = v.run(|e| pending_user_rewards_view(e, &user));
    assert_eq!(pending, Ok(200000));

    // Check vested rewards immediately (should be 0)
    let vested = v.run(|e| vested_user_rewards_view(e, &user));
    assert_eq!(vested, Ok(0));

    // Advance time halfway through vesting period
    v.at(1000 + 43200);

    // Check vested rewards (should be half)
    let vested = v.run(|e| vested_user_rewards_view(e, &user));
    assert_eq!(vested, Ok(100000));

    // Advance time past vesting period
    v.at(1000 + 86400 + 1);

    // Check vested rewards (should be full)
    let vested = v.run(|e| vested_user_rewards_view(e, &user));
    assert_eq!(vested, Ok(200000));

    // Claim rewards
    let claimed = v.run(|e| store_claimable_rewards(e, &user));
    assert_eq!(claimed, Ok(200000));
}

#[test]
fn preview_and_claim_at_given_times() {
    let v = Vault::initialized(100);
    let user = Address::generate(&v.e);
    v.run(|e| store_deposit(e, &user, 10)).unwrap();
    assert_eq!(v.run(|e| store_reward_distribution_at(e, 1_000, 40)).map(|s| s.reward_index), Ok(100 * PRECISION_FACTOR));
    assert_eq!(
        v.run(|e| preview_user_rewards_at(e, &user, 90)),
        Ok(UserRewardSnapshot { reward_index: 100 * PRECISION_FACTOR, rewards: 1_000, vested_rewards: 500 }),
    );
    assert_eq!(v.run(|e| store_claimable_rewards_at(e, &user, 90)), Ok(500));
    assert_eq!(
        v.run(|e| preview_user_rewards_at(e, &user, 90)),
        Ok(UserRewardSnapshot { reward_index: 100 * PRECISION_FACTOR, rewards: 500, vested_rewards: 250 }),
    );
    assert_eq!(v.run(|e| store_claimable_rewards_at(e, &user, 140)), Ok(500));
}

#[test]
fn previews_at_one_time_agree() {
    let v = Vault::initialized(100);
    let user = Address::generate(&v.e);
    v.run(|e| store_deposit(e, &user, 10)).unwrap();
    v.run(|e| store_reward_distribution_at(e, 1_000, 40)).unwrap();
    v.at(65);
    let first = v.run(|e| preview_user_rewards(e, &user));
    let pending = v.run(|e| pending_user_rewards_view(e, &user));
    let second = v.run(|e| preview_user_rewards(e, &user));
    assert_eq!(first, Ok(UserRewardSnapshot { reward_index: 100 * PRECISION_FACTOR, rewards: 1_000, vested_rewards: 250 }));
    assert_eq!(second, first);
    assert_eq!(pending, Ok(1_000));
}

#[test]
fn claim_of_negative_rewards_matches_preview() {
    let v = Vault::initialized(10);
    let user = Address::generate(&v.e);
    let stored = UserPosition { balance: 0, reward_index: 0, accrued_rewards: -10, last_reward_timestamp: 1 };
    v.run(|e| set_user_position(e, &user, &stored));
    let preview = v.run(|e| preview_user_rewards_at(e, &user, 2)).unwrap();
    let claimed = v.run(|e| store_claimable_rewards_at(e, &user, 2));
    assert_eq!(claimed, Ok(preview.vested_rewards));
    let after = v.run(|e| preview_user_rewards_at(e, &user, 2)).unwrap();
    assert_eq!(after.rewards, preview.rewards - preview.vested_rewards);
}

#[test]
fn later_distribution_restamps_unclaimed_rewards() {
    let v = Vault::initialized(100);
    let user = Address::generate(&v.e);
    v.run(|e| store_deposit(e, &user, 10)).unwrap();
    v.run(|e| store_reward_distribution_at(e, 1_000, 40)).unwrap();
    v.run(|e| store_claimable_rewards_at(e, &user, 40)).unwrap();
    v.run(|e| store_reward_distribution_at(e, 1_000, 200)).unwrap();
    // Both distributions now vest together from the later one.
    assert_eq!(v.run(|e| preview_user_rewards_at(e, &user, 250)).map(|s| s.vested_rewards), Ok(1_000));
}

#[test]
fn partial_claim_keeps_the_rest_accrued() {
    let v = Vault::initialized(100);
    let user = Address::generate(&v.e);
    v.run(|e| store_deposit(e, &user, 10)).unwrap();
    v.at(50);
    v.run(|e| store_reward_distribution(e, 1_000)).unwrap();
    assert_eq!(v.run(|e| store_claimable_rewards(e, &user)), Ok(0));
    v.at(75);
    assert_eq!(v.run(|e| store_claimable_rewards(e, &user)), Ok(250));
    assert_eq!(
        v.run(|e| get_user_position_unchecked(e, &user)),
        UserPosition { balance: 10, reward_index: 100 * PRECISION_FACTOR, accrued_rewards: 750, last_reward_timestamp: 50 },
    );
}

#[test]
fn missing_token_address_is_invalid_state() {
    let v = Vault::new();
    v.e.as_contract(&v.contract, || {
        v.e.storage().instance().set(&(Symbol::new(&v.e, "Initialized"),), &true);
    });
    assert!(v.run(|e| is_initialized(e)));
    assert_eq!(v.run(|e| get_state(e)), Err(VaultError::InvalidState));
    assert_eq!(v.run(|e| get_reward_token(e)), Err(VaultError::InvalidState));
}

#[test]
fn missing_numbers_read_as_zero() {
    let v = Vault::new();
    v.e.as_contract(&v.contract, || {
        let instance = v.e.storage().instance();
        instance.set(&(Symbol::new(&v.e, "Initialized"),), &true);
        instance.set(&(Symbol::new(&v.e, "Admin"),), &v.admin);
        instance.set(&(Symbol::new(&v.e, "DepositToken"),), &v.deposit_token);
        instance.set(&(Symbol::new(&v.e, "RewardToken"),), &v.reward_token);
    });
    assert_eq!(v.run(|e| get_state(e)), Ok(v.state(0, 0, 0)));
}

#[test]
fn entries_live_under_symbol_keys() {
    let v = Vault::initialized(5);
    let user = Address::generate(&v.e);
    v.run(|e| store_deposit(e, &user, 9)).unwrap();
    v.e.as_contract(&v.contract, || {
        let admin: Option<Address> = v.e.storage().instance().get(&(Symbol::new(&v.e, "Admin"),));
        assert_eq!(admin, Some(v.admin.clone()));
        let period: Option<u64> = v.e.storage().instance().get(&(Symbol::new(&v.e, "VestingPeriod"),));
        assert_eq!(period, Some(5));
        let distributed: Option<u64> =
            v.e.storage().instance().get(&(Symbol::new(&v.e, "LastDistributionTimestamp"),));
        assert_eq!(distributed, None);
        let balance: Option<i128> =
            v.e.storage().persistent().get(&(Symbol::new(&v.e, "UserBalance"), user.clone()));
        assert_eq!(balance, Some(9));
        let accrued: Option<i128> =
            v.e.storage().persistent().get(&(Symbol::new(&v.e, "UserAccruedRewards"), user.clone()));
        assert_eq!(accrued, None);
        let stamp: Option<u64> =
            v.e.storage().persistent().get(&(Symbol::new(&v.e, "UserLastRewardTimestamp"), user.clone()));
        assert_eq!(stamp, Some(0));
    });
}

#[test]
fn accrual_is_settled_once() {
    let v = Vault::initialized(0);
    let alice = Address::generate(&v.e);
    v.run(|e| store_deposit(e, &alice, 100)).unwrap();
    v.at(1_500);
    v.run(|e| store_reward_distribution(e, 200_000)).unwrap();
    v.at(2_000);
    v.run(|e| store_deposit(e, &alice, 0)).unwrap();
    v.at(3_000);
    let (_, p) = v.run(|e| store_deposit(e, &alice, 0)).unwrap();
    assert_eq!(p.accrued_rewards, 200_000);
    assert_eq!(p.last_reward_timestamp, 1_500);
}

#[test]
fn distribution_records_the_ledger_time() {
    let v = Vault::initialized(100);
    let user = Address::generate(&v.e);
    v.run(|e| store_deposit(e, &user, 10)).unwrap();
    v.at(1_234);
    v.run(|e| store_reward_distribution(e, 1_000)).unwrap();
    v.e.as_contract(&v.contract, || {
        let distributed: Option<u64> =
            v.e.storage().instance().get(&(Symbol::new(&v.e, "LastDistributionTimestamp"),));
        assert_eq!(distributed, Some(1_234));
    });
    v.at(1_284);
    assert_eq!(v.run(|e| vested_user_rewards_view(e, &user)), Ok(500));
    assert_eq!(v.run(|e| pending_user_rewards_view(e, &user)), Ok(1_000));
    assert_eq!(v.run(|e| store_claimable_rewards(e, &user)), Ok(500));
}
