use std::collections::HashMap;

use manage_hub::staking::{StakeInfo, StakingConfig, StakingError, StakingModule, StakingTier};
use manage_hub::types::{tier_id, AccountId, TierId, Transfer};

const ADMIN: AccountId = 1;
const CONTRACT: AccountId = 2;
const TOKEN: AccountId = 3;
const STAKER: AccountId = 10;
const NON_ADMIN: AccountId = 11;
const START: u64 = 1_000;

/// Token balances, moved the way the token contract moves them.
struct Balances(HashMap<AccountId, i128>);

impl Balances {
    fn mint(&mut self, to: AccountId, amount: i128) {
        *self.0.entry(to).or_insert(0) += amount;
    }

    fn balance(&self, of: AccountId) -> i128 {
        *self.0.get(&of).unwrap_or(&0)
    }

    fn apply(&mut self, t: &Transfer) {
        assert_eq!(t.token, TOKEN);
        assert!(t.amount >= 0);
        assert!(self.balance(t.from) >= t.amount, "balance is not sufficient to spend");
        *self.0.entry(t.from).or_insert(0) -= t.amount;
        *self.0.entry(t.to).or_insert(0) += t.amount;
    }
}

/// The contract aborts with the error's message.
fn done<T>(r: Result<T, StakingError>) -> T {
    match r {
        Ok(v) => v,
        Err(e) => panic!("{}", e.message()),
    }
}

fn new_env() -> (StakingModule, Balances) {
    (StakingModule::new(ADMIN, CONTRACT, TOKEN), Balances(HashMap::new()))
}

fn setup_config_and_tier(m: &mut StakingModule) -> TierId {
    done(m.set_staking_config(StakingConfig::default_config()));
    let tid = tier_id(1);
    done(m.add_staking_tier(ADMIN, StakingTier::default_tier(tid)));
    tid
}

fn stake(m: &mut StakingModule, b: &mut Balances, staker: AccountId, amount: i128, tid: TierId, now: u64) {
    let t = done(m.stake(staker, amount, tid, now));
    b.apply(&t);
}

#[test]
fn test_set_staking_config_by_admin_succeeds() {
    let (mut m, _) = new_env();
    done(m.set_staking_config(StakingConfig::default_config()));
}

#[test]
fn test_set_staking_config_non_admin_fails() {
    let (mut m, _) = new_env();
    done(m.set_staking_config(StakingConfig::default_config()));
    let tid = tier_id(99);
    let result = m.add_staking_tier(NON_ADMIN, StakingTier::default_tier(tid));
    assert!(result.is_err());
}

#[test]
fn test_add_staking_tier_by_admin_succeeds() {
    let (mut m, _) = new_env();
    done(m.set_staking_config(StakingConfig::default_config()));
    let tid = tier_id(1);
    done(m.add_staking_tier(ADMIN, StakingTier::default_tier(tid)));
    let stored = done(m.get_staking_tier(tid));
    assert_eq!(stored.base_rate_bps, 1_000);
}

#[test]
fn test_add_staking_tier_duplicate_id_overwrites() {
    let (mut m, _) = new_env();
    done(m.set_staking_config(StakingConfig::default_config()));
    let tid = tier_id(1);
    done(m.add_staking_tier(ADMIN, StakingTier::default_tier(tid)));
    done(m.add_staking_tier(ADMIN, StakingTier::default_tier(tid)));
    let tiers = m.list_staking_tiers();
    assert_eq!(tiers.len(), 2);
}

#[test]
fn test_stake_transfers_tokens_and_creates_record() {
    let (mut m, mut b) = new_env();
    let tid = setup_config_and_tier(&mut m);
    b.mint(STAKER, 500);

    stake(&mut m, &mut b, STAKER, 200, tid, START);

    assert_eq!(b.balance(STAKER), 300);
    assert_eq!(b.balance(CONTRACT), 200);

    let info = done(m.get_stake(STAKER));
    assert_eq!(info.amount, 200);
    assert_eq!(info.claimed_rewards, 0);
    assert!(!info.emergency_unstaked);
}

#[test]
#[should_panic(expected = "below min stake")]
fn test_stake_below_min_stake_amount_returns_error() {
    let (mut m, mut b) = new_env();
    let tid = setup_config_and_tier(&mut m);
    b.mint(STAKER, 500);
    stake(&mut m, &mut b, STAKER, 50, tid, START);
}

#[test]
fn test_unstake_returns_principal_plus_rewards() {
    let (mut m, mut b) = new_env();
    let tid = setup_config_and_tier(&mut m);
    b.mint(STAKER, 1_000);

    stake(&mut m, &mut b, STAKER, 1_000, tid, START);
    assert_eq!(b.balance(STAKER), 0);

    b.mint(CONTRACT, 200);

    let payout = done(m.unstake(STAKER, START + 31_536_000));
    b.apply(&payout);

    let balance = b.balance(STAKER);
    assert!(balance >= 1_000, "should get at least principal back");
}

#[test]
#[should_panic(expected = "lock period not elapsed")]
fn test_unstake_before_lock_period_fails() {
    let (mut m, mut b) = new_env();
    done(m.set_staking_config(StakingConfig::default_config()));
    let tid = tier_id(2);
    let locked_tier = StakingTier {
        id: tid,
        name: String::from("Locked"),
        min_amount: 100,
        base_rate_bps: 500,
        reward_multiplier_bps: 10_000,
        lock_period_seconds: 86_400,
    };
    done(m.add_staking_tier(ADMIN, locked_tier));

    b.mint(STAKER, 500);
    stake(&mut m, &mut b, STAKER, 200, tid, START);
    done(m.unstake(STAKER, START));
}

#[test]
fn test_emergency_unstake_returns_principal_minus_penalty() {
    let (mut m, mut b) = new_env();
    let tid = setup_config_and_tier(&mut m);
    b.mint(STAKER, 1_000);

    stake(&mut m, &mut b, STAKER, 1_000, tid, START);
    let payout = done(m.emergency_unstake(STAKER));
    b.apply(&payout);

    assert_eq!(b.balance(STAKER), 950);
}

#[test]
fn test_emergency_unstake_no_rewards_paid() {
    let (mut m, mut b) = new_env();
    let tid = setup_config_and_tier(&mut m);
    b.mint(STAKER, 1_000);

    stake(&mut m, &mut b, STAKER, 1_000, tid, START);
    // A year may pass: an emergency unstake takes no time argument and pays no rewards.
    let pending = m.calculate_pending_rewards(&done(m.get_stake(STAKER)), START + 31_536_000).unwrap();
    assert!(pending > 0);
    let payout = done(m.emergency_unstake(STAKER));
    b.apply(&payout);

    assert_eq!(b.balance(STAKER), 950);
}

#[test]
fn test_calculate_pending_rewards_linear_after_elapsed_time() {
    let (mut m, mut b) = new_env();
    let tid = setup_config_and_tier(&mut m);
    b.mint(STAKER, 10_000);

    stake(&mut m, &mut b, STAKER, 10_000, tid, START);

    let half_year: u64 = 365 * 24 * 3600 / 2;
    let stake_info: StakeInfo = done(m.get_stake(STAKER));
    let pending = m.calculate_pending_rewards(&stake_info, START + half_year).unwrap();

    assert_eq!(pending, 500);
}

#[test]
fn test_calculate_pending_rewards_zero_for_emergency_unstaked() {
    let (mut m, mut b) = new_env();
    let tid = setup_config_and_tier(&mut m);
    b.mint(STAKER, 1_000);

    stake(&mut m, &mut b, STAKER, 1_000, tid, START);
    let mut stake_info = done(m.get_stake(STAKER));
    stake_info.emergency_unstaked = true;

    let pending = m.calculate_pending_rewards(&stake_info, START).unwrap();
    assert_eq!(pending, 0);
}

#[test]
fn test_claim_rewards_transfers_and_updates_claimed() {
    let (mut m, mut b) = new_env();
    let tid = setup_config_and_tier(&mut m);
    b.mint(STAKER, 10_000);
    b.mint(CONTRACT, 10_000);

    stake(&mut m, &mut b, STAKER, 10_000, tid, START);

    let claim = m.claim_rewards(STAKER, START + 365 * 24 * 3600).unwrap();
    b.apply(&claim);
    let claimed = claim.amount;

    assert_eq!(claimed, 1_000);
    assert_eq!(b.balance(STAKER), 1_000);

    let stake_info = done(m.get_stake(STAKER));
    assert_eq!(stake_info.claimed_rewards, 1_000);
}
