use manage_hub::rewards::{compute_accrued_rewards, compute_emergency_penalty, SECONDS_PER_YEAR};
use manage_hub::staking::{StakingConfig, StakingError, StakingModule, StakingTier};
use manage_hub::types::{AccountId, TierId, Transfer};

const ADMIN: AccountId = 1;
const CONTRACT: AccountId = 2;
const TOKEN: AccountId = 3;
const ALICE: AccountId = 10;
const BOB: AccountId = 11;

fn config(penalty_bps: u32) -> StakingConfig {
    StakingConfig { min_stake_amount: 100, max_stake_amount: 1_000_000, emergency_unstake_penalty_bps: penalty_bps }
}

fn tier(id: TierId, rate: u32, multiplier: u32, lock: u64, min_amount: i128) -> StakingTier {
    StakingTier {
        id,
        name: String::from("Tier"),
        min_amount,
        base_rate_bps: rate,
        reward_multiplier_bps: multiplier,
        lock_period_seconds: lock,
    }
}

fn module_with(penalty_bps: u32, t: StakingTier) -> StakingModule {
    let mut m = StakingModule::new(ADMIN, CONTRACT, TOKEN);
    m.set_staking_config(config(penalty_bps)).unwrap();
    m.add_staking_tier(ADMIN, t).unwrap();
    m
}

#[test]
fn accrued_rewards_exact_values() {
    assert_eq!(compute_accrued_rewards(1_000, 1_000, 10_000, SECONDS_PER_YEAR), Some(100));
    assert_eq!(compute_accrued_rewards(10_000, 1_000, 10_000, SECONDS_PER_YEAR / 2), Some(500));
    assert_eq!(compute_accrued_rewards(10_000, 1_000, 20_000, SECONDS_PER_YEAR), Some(2_000));
    // per-second accrual is truncated
    assert_eq!(compute_accrued_rewards(1, 1, 1, 1), Some(0));
    assert_eq!(compute_accrued_rewards(10_000, 1_000, 10_000, 0), Some(0));
}

#[test]
fn accrued_rewards_linear_in_whole_years() {
    for years in 0..5u64 {
        let r = compute_accrued_rewards(10_000, 1_000, 10_000, years * SECONDS_PER_YEAR).unwrap();
        assert_eq!(r, 1_000 * years as i128);
    }
}

#[test]
fn accrued_rewards_never_decrease_with_time() {
    let mut last = 0;
    for step in 0..50u64 {
        let r = compute_accrued_rewards(12_345, 777, 13_000, step * 1_000_003).unwrap();
        assert!(r >= last);
        last = r;
    }
}

#[test]
fn accrued_rewards_overflow_is_refused() {
    assert_eq!(compute_accrued_rewards(i128::MAX, 2, 1, 1), None);
    assert_eq!(compute_accrued_rewards(i128::MAX / 4, 2, 2, 2), None);
    assert_eq!(compute_accrued_rewards(i128::MAX, 1, 1, 1), Some(i128::MAX / 31_536_000 / 100_000_000));
}

#[test]
fn emergency_penalty_exact_values() {
    assert_eq!(compute_emergency_penalty(1_000, 500), Some(50));
    assert_eq!(compute_emergency_penalty(1_000, 0), Some(0));
    assert_eq!(compute_emergency_penalty(1_000, 10_000), Some(1_000));
    assert_eq!(compute_emergency_penalty(999, 1), Some(0));
    assert_eq!(compute_emergency_penalty(i128::MAX, 2), None);
}

#[test]
fn emergency_unstake_pays_principal_less_penalty() {
    for (bps, expected) in [(0u32, 1_000i128), (500, 950), (10_000, 0)] {
        let mut m = module_with(bps, tier(1, 1_000, 10_000, 86_400, 100));
        m.stake(ALICE, 1_000, 1, 0).unwrap();
        let t = m.emergency_unstake(ALICE).unwrap();
        assert_eq!(t, Transfer { token: TOKEN, from: CONTRACT, to: ALICE, amount: expected });
        assert_eq!(m.get_stake(ALICE), Err(StakingError::StakeNotFound));
    }
}

#[test]
fn unstake_pays_principal_and_rewards() {
    let mut m = module_with(500, tier(1, 1_000, 10_000, 0, 100));
    let t = m.stake(ALICE, 1_000, 1, 1_000).unwrap();
    assert_eq!(t, Transfer { token: TOKEN, from: ALICE, to: CONTRACT, amount: 1_000 });
    let payout = m.unstake(ALICE, 1_000 + SECONDS_PER_YEAR).unwrap();
    assert_eq!(payout, Transfer { token: TOKEN, from: CONTRACT, to: ALICE, amount: 1_100 });
    assert_eq!(m.get_stake(ALICE), Err(StakingError::StakeNotFound));
}

#[test]
fn unstake_after_claim_pays_only_unclaimed_rewards() {
    let mut m = module_with(500, tier(1, 1_000, 10_000, 0, 100));
    m.stake(ALICE, 10_000, 1, 0).unwrap();
    let claim = m.claim_rewards(ALICE, SECONDS_PER_YEAR).unwrap();
    assert_eq!(claim.amount, 1_000);
    let payout = m.unstake(ALICE, 2 * SECONDS_PER_YEAR).unwrap();
    assert_eq!(payout.amount, 10_000 + 1_000);
}

#[test]
fn claim_leaves_nothing_pending() {
    let mut m = module_with(500, tier(1, 1_000, 10_000, 0, 100));
    m.stake(ALICE, 10_000, 1, 0).unwrap();
    let now = SECONDS_PER_YEAR / 3;
    let before = m.calculate_pending_rewards(&m.get_stake(ALICE).unwrap(), now).unwrap();
    let claim = m.claim_rewards(ALICE, now).unwrap();
    assert_eq!(claim.amount, before);
    let info = m.get_stake(ALICE).unwrap();
    assert_eq!(info.claimed_rewards, before);
    assert_eq!(m.calculate_pending_rewards(&info, now).unwrap(), 0);
    assert_eq!(m.claim_rewards(ALICE, now), Err(StakingError::NoRewardsToClaim));
    // claimed plus pending is what accrued in all
    let later = SECONDS_PER_YEAR;
    let pending = m.calculate_pending_rewards(&info, later).unwrap();
    assert_eq!(info.claimed_rewards + pending, 1_000);
}

#[test]
fn pending_rewards_grow_with_time() {
    let mut m = module_with(500, tier(1, 250, 15_000, 0, 100));
    m.stake(ALICE, 50_000, 1, 100).unwrap();
    let info = m.get_stake(ALICE).unwrap();
    let mut last = 0;
    for k in 0..40u64 {
        let p = m.calculate_pending_rewards(&info, 100 + k * 2_000_000).unwrap();
        assert!(p >= last);
        last = p;
    }
    // before the stake began nothing is pending
    assert_eq!(m.calculate_pending_rewards(&info, 0).unwrap(), 0);
}

#[test]
fn added_tier_is_found_by_its_id() {
    let mut m = StakingModule::new(ADMIN, CONTRACT, TOKEN);
    m.add_staking_tier(ADMIN, tier(5, 100, 10_000, 0, 1)).unwrap();
    m.add_staking_tier(ADMIN, tier(6, 300, 10_000, 0, 1)).unwrap();
    m.add_staking_tier(ADMIN, tier(5, 200, 10_000, 0, 1)).unwrap();
    assert_eq!(m.get_staking_tier(5).unwrap().base_rate_bps, 200);
    assert_eq!(m.get_staking_tier(6).unwrap().base_rate_bps, 300);
    let rates: Vec<u32> = m.list_staking_tiers().iter().map(|t| t.base_rate_bps).collect();
    assert_eq!(rates, vec![100, 300, 200]);
    assert!(matches!(m.get_staking_tier(7), Err(StakingError::TierNotFound)));
}

#[test]
fn new_stake_record_fields() {
    let mut m = module_with(500, tier(3, 1_000, 10_000, 86_400, 100));
    m.stake(BOB, 250, 3, 5_000).unwrap();
    let info = m.get_stake(BOB).unwrap();
    assert_eq!(info.staker, BOB);
    assert_eq!(info.tier_id, 3);
    assert_eq!(info.amount, 250);
    assert_eq!(info.staked_at, 5_000);
    assert_eq!(info.unlock_at, 5_000 + 86_400);
    assert_eq!(info.claimed_rewards, 0);
    assert!(!info.emergency_unstaked);
    // unlocking is allowed exactly at the unlock time
    assert_eq!(m.unstake(BOB, 5_000 + 86_399), Err(StakingError::LockPeriodNotElapsed));
    assert!(m.unstake(BOB, 5_000 + 86_400).is_ok());
}

#[test]
fn module_accessors() {
    let m = StakingModule::new(ADMIN, CONTRACT, TOKEN);
    assert_eq!(m.admin(), ADMIN);
    assert_eq!(m.contract(), CONTRACT);
    assert_eq!(m.staking_token(), TOKEN);
    assert_eq!(m.staking_config(), None);
    assert!(m.list_staking_tiers().is_empty());
}

#[test]
fn staking_errors_each_variant() {
    let mut m = StakingModule::new(ADMIN, CONTRACT, TOKEN);
    // no configuration yet
    m.add_staking_tier(ADMIN, tier(1, 1_000, 10_000, 0, 500)).unwrap();
    assert_eq!(m.stake(ALICE, 1_000, 1, 0), Err(StakingError::ConfigNotSet));
    // invalid configurations leave the configuration unset
    let bad = [
        StakingConfig { min_stake_amount: 0, max_stake_amount: 10, emergency_unstake_penalty_bps: 0 },
        StakingConfig { min_stake_amount: 20, max_stake_amount: 10, emergency_unstake_penalty_bps: 0 },
        StakingConfig { min_stake_amount: 1, max_stake_amount: 10, emergency_unstake_penalty_bps: 10_001 },
    ];
    for c in bad {
        assert_eq!(m.set_staking_config(c), Err(StakingError::InvalidConfig));
        assert_eq!(m.staking_config(), None);
    }
    m.set_staking_config(config(500)).unwrap();
    assert_eq!(m.staking_config(), Some(config(500)));
    assert_eq!(m.add_staking_tier(BOB, tier(2, 1, 1, 0, 1)), Err(StakingError::Unauthorized));
    assert_eq!(m.stake(ALICE, 1_000, 9, 0), Err(StakingError::TierNotFound));
    assert_eq!(m.stake(ALICE, 99, 1, 0), Err(StakingError::BelowMinStake));
    assert_eq!(m.stake(ALICE, 1_000_001, 1, 0), Err(StakingError::AboveMaxStake));
    assert_eq!(m.stake(ALICE, 200, 1, 0), Err(StakingError::BelowTierMinimum));
    m.add_staking_tier(ADMIN, tier(4, 1, 1, u64::MAX, 100)).unwrap();
    assert_eq!(m.stake(ALICE, 200, 4, 1), Err(StakingError::ArithmeticOverflow));
    m.stake(ALICE, 600, 1, 0).unwrap();
    assert_eq!(m.stake(ALICE, 600, 1, 0), Err(StakingError::AlreadyStaked));
    assert_eq!(m.get_stake(BOB), Err(StakingError::StakeNotFound));
    assert_eq!(m.unstake(BOB, 0), Err(StakingError::StakeNotFound));
    assert_eq!(m.emergency_unstake(BOB), Err(StakingError::StakeNotFound));
    assert_eq!(m.claim_rewards(BOB, 0), Err(StakingError::StakeNotFound));
    assert_eq!(m.claim_rewards(ALICE, 0), Err(StakingError::NoRewardsToClaim));
    let mut info = m.get_stake(ALICE).unwrap();
    info.amount = -1;
    assert_eq!(m.calculate_pending_rewards(&info, 10), Err(StakingError::InvalidAmount));
    info.amount = i128::MAX;
    assert_eq!(m.calculate_pending_rewards(&info, 10), Err(StakingError::ArithmeticOverflow));
    info.tier_id = 99;
    assert_eq!(m.calculate_pending_rewards(&info, 10), Err(StakingError::TierNotFound));
}

#[test]
fn staking_error_messages() {
    assert_eq!(StakingError::BelowMinStake.message(), "below min stake");
    assert_eq!(StakingError::LockPeriodNotElapsed.message(), "lock period not elapsed");
    assert_eq!(StakingError::Unauthorized.message(), "unauthorized");
    assert_eq!(StakingError::NoRewardsToClaim.message(), "no rewards to claim");
}

#[test]
fn default_fixtures() {
    assert_eq!(
        StakingConfig::default_config(),
        StakingConfig { min_stake_amount: 100, max_stake_amount: 1_000_000, emergency_unstake_penalty_bps: 500 }
    );
    let t = StakingTier::default_tier(manage_hub::types::tier_id(7));
    assert_eq!(t.id, 7);
    assert_eq!(t.name, "Gold");
    assert_eq!((t.min_amount, t.base_rate_bps, t.reward_multiplier_bps, t.lock_period_seconds), (100, 1_000, 10_000, 0));
}
