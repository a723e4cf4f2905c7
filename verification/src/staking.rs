//! The staking contract: configuration, tiers, stakes, rewards and unstaking.

use std::collections::HashMap;
use vstd::prelude::*;

use crate::rewards::{
    accrued_rewards, compute_accrued_rewards, compute_emergency_penalty, elapsed_seconds,
    emergency_penalty, lemma_accrued_rewards_monotone, lemma_emergency_penalty_bounds,
    lemma_reward_product_nonneg, reward_product, reward_product_overflows, BPS_DENOMINATOR,
    REWARD_SCALE, SECONDS_PER_YEAR,
};
use vstd::arithmetic::div_mod::{lemma_div_is_ordered_by_denominator, lemma_div_pos_is_pos};
use crate::types::{AccountId, TierId, Transfer};

verus! {

broadcast use vstd::std_specs::hash::group_hash_axioms;

/// Limits that every stake must respect.
#[derive(Clone, Copy, Debug, PartialEq, Eq, Structural)]
pub struct StakingConfig {
    pub min_stake_amount: i128,
    pub max_stake_amount: i128,
    pub emergency_unstake_penalty_bps: u32,
}

impl StakingConfig {
    /// The default limits: stakes of 100 to 1_000_000, and a 5% emergency penalty.
    pub fn default_config() -> (c: StakingConfig)
        ensures
            c == (StakingConfig {
                min_stake_amount: 100,
                max_stake_amount: 1_000_000,
                emergency_unstake_penalty_bps: 500,
            }),
            c.is_valid(),
    {
        StakingConfig { min_stake_amount: 100, max_stake_amount: 1_000_000, emergency_unstake_penalty_bps: 500 }
    }

    /// A positive minimum no larger than the maximum, and a penalty of at most 100%.
    pub open spec fn is_valid(&self) -> bool {
        &&& 0 < self.min_stake_amount <= self.max_stake_amount
        &&& self.emergency_unstake_penalty_bps <= BPS_DENOMINATOR
    }
}

/// A staking tier: its minimum stake, annual rate, reward multiplier and lock period.
#[derive(Clone, Debug)]
pub struct StakingTier {
    pub id: TierId,
    pub name: String,
    pub min_amount: i128,
    pub base_rate_bps: u32,
    pub reward_multiplier_bps: u32,
    pub lock_period_seconds: u64,
}

impl StakingTier {
    /// The default "Gold" tier under `id`: minimum stake 100, 10% a year, a 1x
    /// multiplier and no lock period.
    pub fn default_tier(id: TierId) -> (t: StakingTier)
        ensures
            t.id == id,
            t.name@ == "Gold"@,
            t.min_amount == 100,
            t.base_rate_bps == 1_000,
            t.reward_multiplier_bps == 10_000,
            t.lock_period_seconds == 0,
    {
        StakingTier {
            id,
            name: "Gold".to_owned(),
            min_amount: 100,
            base_rate_bps: 1_000,
            reward_multiplier_bps: 10_000,
            lock_period_seconds: 0,
        }
    }
}

/// One staker's position.
#[derive(Clone, Copy, Debug, PartialEq, Eq, Structural)]
pub struct StakeInfo {
    pub staker: AccountId,
    pub tier_id: TierId,
    pub amount: i128,
    pub staked_at: u64,
    pub unlock_at: u64,
    pub claimed_rewards: i128,
    pub emergency_unstaked: bool,
}

/// Why the staking contract refuses a request.
#[derive(Clone, Copy, Debug, PartialEq, Eq, Structural)]
pub enum StakingError {
    Unauthorized,
    InvalidConfig,
    ConfigNotSet,
    TierNotFound,
    BelowMinStake,
    AboveMaxStake,
    BelowTierMinimum,
    AlreadyStaked,
    StakeNotFound,
    LockPeriodNotElapsed,
    NoRewardsToClaim,
    InvalidAmount,
    ArithmeticOverflow,
}

/// The text of the message for `e`.
pub open spec fn staking_error_text(e: StakingError) -> Seq<char> {
    match e {
        StakingError::Unauthorized => "unauthorized"@,
        StakingError::InvalidConfig => "invalid staking config"@,
        StakingError::ConfigNotSet => "staking config not set"@,
        StakingError::TierNotFound => "tier not found"@,
        StakingError::BelowMinStake => "below min stake"@,
        StakingError::AboveMaxStake => "above max stake"@,
        StakingError::BelowTierMinimum => "below tier minimum"@,
        StakingError::AlreadyStaked => "already staked"@,
        StakingError::StakeNotFound => "stake not found"@,
        StakingError::LockPeriodNotElapsed => "lock period not elapsed"@,
        StakingError::NoRewardsToClaim => "no rewards to claim"@,
        StakingError::InvalidAmount => "invalid amount"@,
        StakingError::ArithmeticOverflow => "arithmetic overflow"@,
    }
}

impl StakingError {
    /// The message with which the contract aborts on this error.
    pub fn message(&self) -> (r: &'static str)
        ensures
            r@ == staking_error_text(*self),
    {
        match self {
            StakingError::Unauthorized => "unauthorized",
            StakingError::InvalidConfig => "invalid staking config",
            StakingError::ConfigNotSet => "staking config not set",
            StakingError::TierNotFound => "tier not found",
            StakingError::BelowMinStake => "below min stake",
            StakingError::AboveMaxStake => "above max stake",
            StakingError::BelowTierMinimum => "below tier minimum",
            StakingError::AlreadyStaked => "already staked",
            StakingError::StakeNotFound => "stake not found",
            StakingError::LockPeriodNotElapsed => "lock period not elapsed",
            StakingError::NoRewardsToClaim => "no rewards to claim",
            StakingError::InvalidAmount => "invalid amount",
            StakingError::ArithmeticOverflow => "arithmetic overflow",
        }
    }
}

/// The tier stored last under `id`: tiers are kept in the order they were
/// added, and a later tier with the same id replaces the earlier one.
pub open spec fn find_tier(tiers: Seq<StakingTier>, id: TierId) -> Option<StakingTier>
    decreases tiers.len(),
{
    if tiers.len() == 0 {
        None
    } else if tiers.last().id == id {
        Some(tiers.last())
    } else {
        find_tier(tiers.drop_last(), id)
    }
}

/// Rewards owed to `info` at time `now` under `tier`: zero for a position closed by
/// emergency unstake, else what accrued since staking less what was already claimed
/// (never below zero).
pub open spec fn pending_rewards(info: StakeInfo, tier: StakingTier, now: u64) -> int {
    if info.emergency_unstaked {
        0
    } else {
        let accrued = accrued_rewards(
            info.amount as int,
            tier.base_rate_bps as int,
            tier.reward_multiplier_bps as int,
            elapsed_seconds(info.staked_at, now),
        );
        if accrued > info.claimed_rewards {
            accrued - info.claimed_rewards
        } else {
            0
        }
    }
}

/// What computing the pending rewards of `info` at `now` gives, against the tiers `tiers`.
pub open spec fn pending_outcome(tiers: Seq<StakingTier>, info: StakeInfo, now: u64) -> Result<int, StakingError> {
    if info.emergency_unstaked {
        Ok(0)
    } else {
        match find_tier(tiers, info.tier_id) {
            None => Err(StakingError::TierNotFound),
            Some(tier) => if info.amount < 0 || info.claimed_rewards < 0 {
                Err(StakingError::InvalidAmount)
            } else if reward_product_overflows(
                info.amount as int,
                tier.base_rate_bps as int,
                tier.reward_multiplier_bps as int,
                elapsed_seconds(info.staked_at, now),
            ) {
                Err(StakingError::ArithmeticOverflow)
            } else {
                Ok(pending_rewards(info, tier, now))
            },
        }
    }
}

/// A tier just added is the one found by its id, and every other id finds what it found before.
pub proof fn lemma_added_tier_is_found(tiers: Seq<StakingTier>, tier: StakingTier, other: TierId)
    ensures
        find_tier(tiers.push(tier), tier.id) == Some(tier),
        other != tier.id ==> find_tier(tiers.push(tier), other) == find_tier(tiers, other),
{
    assert(tiers.push(tier).drop_last() =~= tiers);
}

/// A new position holds the staked principal, starts at `now`, unlocks after the tier's
/// lock period, has claimed nothing and is open.
pub proof fn lemma_new_stake_record(m: StakingModule, staker: AccountId, amount: i128, tier_id: TierId, now: u64)
    ensures
        m.stake_outcome(staker, amount, tier_id, now) matches Ok(info) ==> {
            &&& info.staker == staker
            &&& info.amount == amount
            &&& info.tier_id == tier_id
            &&& info.staked_at == now
            &&& find_tier(m.tiers_view(), tier_id) matches Some(t)
            &&& info.unlock_at == now + t.lock_period_seconds
            &&& info.claimed_rewards == 0
            &&& !info.emergency_unstaked
            &&& m.config_view() matches Some(c)
            &&& c.min_stake_amount <= amount <= c.max_stake_amount
            &&& t.min_amount <= amount
        },
{
}

/// Pending rewards never shrink as time passes, as long as nothing is claimed.
pub proof fn lemma_pending_rewards_grow_with_time(info: StakeInfo, tier: StakingTier, t1: u64, t2: u64)
    requires
        info.amount >= 0,
        t1 <= t2,
    ensures
        pending_rewards(info, tier, t1) <= pending_rewards(info, tier, t2),
{
    lemma_accrued_rewards_monotone(
        info.amount as int,
        tier.base_rate_bps as int,
        tier.reward_multiplier_bps as int,
        elapsed_seconds(info.staked_at, t1),
        elapsed_seconds(info.staked_at, t2),
    );
}

/// Claiming takes everything that is pending: right after a claim nothing is pending,
/// and what was claimed in all is what accrued.
pub proof fn lemma_claim_leaves_nothing_pending(info: StakeInfo, tier: StakingTier, now: u64)
    requires
        !info.emergency_unstaked,
        info.amount >= 0,
        !reward_product_overflows(
            info.amount as int,
            tier.base_rate_bps as int,
            tier.reward_multiplier_bps as int,
            elapsed_seconds(info.staked_at, now),
        ),
        pending_rewards(info, tier, now) > 0,
    ensures
        ({
            let after = StakeInfo {
                claimed_rewards: (info.claimed_rewards + pending_rewards(info, tier, now)) as i128,
                ..info
            };
            &&& after.claimed_rewards == accrued_rewards(
                info.amount as int,
                tier.base_rate_bps as int,
                tier.reward_multiplier_bps as int,
                elapsed_seconds(info.staked_at, now),
            )
            &&& pending_rewards(after, tier, now) == 0
        }),
{
    let p = reward_product(
        info.amount as int,
        tier.base_rate_bps as int,
        tier.reward_multiplier_bps as int,
        elapsed_seconds(info.staked_at, now),
    );
    lemma_reward_product_nonneg(
        info.amount as int,
        tier.base_rate_bps as int,
        tier.reward_multiplier_bps as int,
        elapsed_seconds(info.staked_at, now),
    );
    lemma_div_is_ordered_by_denominator(p, 1, SECONDS_PER_YEAR as int);
    lemma_div_is_ordered_by_denominator(p / (SECONDS_PER_YEAR as int), 1, REWARD_SCALE as int);
    lemma_div_pos_is_pos(p, SECONDS_PER_YEAR as int);
}

impl StakingModule {
    /// Unstaking pays back at least the principal: exactly the principal plus the
    /// rewards pending under the position's tier.
    pub proof fn lemma_unstake_pays_principal_and_rewards(&self, staker: AccountId, now: u64)
        requires
            self.wf(),
        ensures
            self.unstake_outcome(staker, now) matches Ok(payout) ==> {
                let info = self.stakes_view()[staker];
                &&& find_tier(self.tiers_view(), info.tier_id) matches Some(t)
                &&& payout == info.amount + pending_rewards(info, t, now)
                &&& payout >= info.amount
            },
    {
        if self.stakes_view().contains_key(staker) {
            assert(stake_record_ok(staker, self.stakes_view()[staker]));
        }
    }

    /// An emergency unstake pays the principal less the configured penalty, whenever it
    /// happens: never more than the principal, never less than zero, and no rewards.
    pub proof fn lemma_emergency_unstake_pays_principal_less_penalty(&self, staker: AccountId)
        requires
            self.wf(),
        ensures
            self.emergency_unstake_outcome(staker) matches Ok(payout) ==> {
                let info = self.stakes_view()[staker];
                &&& self.config_view() matches Some(c)
                &&& payout == info.amount - info.amount * c.emergency_unstake_penalty_bps / 10_000
                &&& 0 <= payout <= info.amount
            },
            !self.stakes_view().contains_key(staker) ==> self.emergency_unstake_outcome(staker)
                == Err::<int, StakingError>(StakingError::StakeNotFound),
            self.stakes_view().contains_key(staker) ==> (self.config_view() matches Some(c) ==> {
                let info = self.stakes_view()[staker];
                &&& info.amount * c.emergency_unstake_penalty_bps <= i128::MAX ==> self.emergency_unstake_outcome(
                    staker,
                ) == Ok::<int, StakingError>(info.amount - info.amount * c.emergency_unstake_penalty_bps / 10_000)
                &&& info.amount * c.emergency_unstake_penalty_bps > i128::MAX ==> self.emergency_unstake_outcome(
                    staker,
                ) == Err::<int, StakingError>(StakingError::ArithmeticOverflow)
            }),
    {
        if self.stakes_view().contains_key(staker) {
            assert(stake_record_ok(staker, self.stakes_view()[staker]));
            if let Some(c) = self.config_view() {
                lemma_emergency_penalty_bounds(
                    self.stakes_view()[staker].amount as int,
                    c.emergency_unstake_penalty_bps as int,
                );
            }
        }
    }
}

/// Pending rewards are reckoned with the position's own tier, by the published formula:
/// principal × the tier's annual rate × the tier's multiplier × seconds since staking,
/// divided by the seconds of a year and by 10^8 (truncated), less what was already
/// claimed and never below zero. The reckoning is refused as an overflow exactly when
/// a partial product of principal, rate, multiplier and seconds leaves `i128`.
pub proof fn lemma_pending_rewards_formula(tiers: Seq<StakingTier>, info: StakeInfo, now: u64)
    requires
        !info.emergency_unstaked,
        info.amount >= 0,
        info.claimed_rewards >= 0,
    ensures
        find_tier(tiers, info.tier_id) is None ==> pending_outcome(tiers, info, now)
            == Err::<int, StakingError>(StakingError::TierNotFound),
        find_tier(tiers, info.tier_id) matches Some(t) ==> {
            let secs: int = if now > info.staked_at { now - info.staked_at } else { 0 };
            let p1: int = info.amount * t.base_rate_bps;
            let p2: int = p1 * t.reward_multiplier_bps;
            let p3: int = p2 * secs;
            let accrued: int = p3 / 31_536_000 / 100_000_000;
            &&& (p1 > i128::MAX || p2 > i128::MAX || p3 > i128::MAX) ==> pending_outcome(tiers, info, now)
                == Err::<int, StakingError>(StakingError::ArithmeticOverflow)
            &&& (p1 <= i128::MAX && p2 <= i128::MAX && p3 <= i128::MAX) ==> pending_outcome(tiers, info, now)
                == Ok::<int, StakingError>(
                if accrued > info.claimed_rewards {
                    accrued - info.claimed_rewards
                } else {
                    0
                },
            )
        },
{
}

/// Whether staking is admitted depends on other stakers' positions not at all: with a
/// configuration and the tier present, an amount within both the configured limits and
/// the tier's minimum, no position of the caller's own, and an unlock time that fits,
/// the stake is admitted and records exactly that position; it is refused as already
/// staked only when the caller holds a position.
impl StakingModule {
    pub proof fn lemma_stake_admission(&self, staker: AccountId, amount: i128, tier_id: TierId, now: u64)
        ensures
            ({
                &&& self.config_view() matches Some(c)
                &&& find_tier(self.tiers_view(), tier_id) matches Some(t)
                &&& c.min_stake_amount <= amount <= c.max_stake_amount
                &&& t.min_amount <= amount
                &&& !self.stakes_view().contains_key(staker)
                &&& now + t.lock_period_seconds <= u64::MAX
            }) ==> ({
                &&& self.stake_outcome(staker, amount, tier_id, now) matches Ok(info)
                &&& info.staker == staker
                &&& info.tier_id == tier_id
                &&& info.amount == amount
                &&& info.staked_at == now
                &&& find_tier(self.tiers_view(), tier_id) matches Some(t)
                &&& info.unlock_at == now + t.lock_period_seconds
                &&& info.claimed_rewards == 0
                &&& !info.emergency_unstaked
            }),
            self.stake_outcome(staker, amount, tier_id, now) == Err::<StakeInfo, StakingError>(
                StakingError::AlreadyStaked,
            ) ==> self.stakes_view().contains_key(staker),
            self.stake_outcome(staker, amount, tier_id, now) is Ok ==> !self.stakes_view().contains_key(staker),
    {
    }

    /// Unstaking a stored position once its lock has passed pays the principal plus the
    /// rewards by the published formula with the position's own tier (less what was
    /// claimed); it is refused as an overflow only when a partial reward product or the
    /// payout leaves `i128`, before the unlock time as locked, and without a position
    /// as not found.
    pub proof fn lemma_unstake_payout(&self, staker: AccountId, now: u64)
        requires
            self.wf(),
        ensures
            !self.stakes_view().contains_key(staker) ==> self.unstake_outcome(staker, now) == Err::<int, StakingError>(
                StakingError::StakeNotFound,
            ),
            self.stakes_view().contains_key(staker) ==> {
                let info = self.stakes_view()[staker];
                &&& now < info.unlock_at ==> self.unstake_outcome(staker, now) == Err::<int, StakingError>(
                    StakingError::LockPeriodNotElapsed,
                )
                &&& (now >= info.unlock_at && find_tier(self.tiers_view(), info.tier_id) is None)
                    ==> self.unstake_outcome(staker, now) == Err::<int, StakingError>(StakingError::TierNotFound)
                &&& now >= info.unlock_at ==> (find_tier(self.tiers_view(), info.tier_id) matches Some(t) ==> {
                    let secs: int = if now > info.staked_at { now - info.staked_at } else { 0 };
                    let p1: int = info.amount * t.base_rate_bps;
                    let p2: int = p1 * t.reward_multiplier_bps;
                    let p3: int = p2 * secs;
                    let accrued: int = p3 / 31_536_000 / 100_000_000;
                    let rewards: int = if accrued > info.claimed_rewards { accrued - info.claimed_rewards } else { 0 };
                    &&& (p1 > i128::MAX || p2 > i128::MAX || p3 > i128::MAX) ==> self.unstake_outcome(staker, now)
                        == Err::<int, StakingError>(StakingError::ArithmeticOverflow)
                    &&& (p1 <= i128::MAX && p2 <= i128::MAX && p3 <= i128::MAX && info.amount + rewards > i128::MAX)
                        ==> self.unstake_outcome(staker, now) == Err::<int, StakingError>(StakingError::ArithmeticOverflow)
                    &&& (p1 <= i128::MAX && p2 <= i128::MAX && p3 <= i128::MAX && info.amount + rewards <= i128::MAX)
                        ==> self.unstake_outcome(staker, now) == Ok::<int, StakingError>(info.amount + rewards)
                })
            },
    {
        if self.stakes_view().contains_key(staker) {
            let info = self.stakes_view()[staker];
            assert(stake_record_ok(staker, info));
            lemma_pending_rewards_formula(self.tiers_view(), info, now);
        }
    }

    /// A claim on a stored position pays exactly what accrued by the published formula
    /// with the position's own tier, less what was already claimed, so that what was
    /// claimed in all afterwards is what accrued in all; rewards already paid are never
    /// paid again. With nothing pending the claim is refused.
    pub proof fn lemma_claim_pays_unclaimed_accrual(&self, staker: AccountId, now: u64)
        requires
            self.wf(),
            self.stakes_view().contains_key(staker),
        ensures
            find_tier(self.tiers_view(), self.stakes_view()[staker].tier_id) is None ==> self.claim_outcome(
                staker,
                now,
            ) == Err::<int, StakingError>(StakingError::TierNotFound),
            find_tier(self.tiers_view(), self.stakes_view()[staker].tier_id) matches Some(t) ==> {
                let info = self.stakes_view()[staker];
                let secs: int = if now > info.staked_at { now - info.staked_at } else { 0 };
                let p1: int = info.amount * t.base_rate_bps;
                let p2: int = p1 * t.reward_multiplier_bps;
                let p3: int = p2 * secs;
                let accrued: int = p3 / 31_536_000 / 100_000_000;
                &&& (p1 > i128::MAX || p2 > i128::MAX || p3 > i128::MAX) ==> self.claim_outcome(staker, now)
                    == Err::<int, StakingError>(StakingError::ArithmeticOverflow)
                &&& (p1 <= i128::MAX && p2 <= i128::MAX && p3 <= i128::MAX && accrued > info.claimed_rewards)
                    ==> self.claim_outcome(staker, now) == Ok::<int, StakingError>(accrued - info.claimed_rewards)
                &&& (p1 <= i128::MAX && p2 <= i128::MAX && p3 <= i128::MAX && accrued <= info.claimed_rewards)
                    ==> self.claim_outcome(staker, now) == Err::<int, StakingError>(StakingError::NoRewardsToClaim)
            },
            self.claim_outcome(staker, now) matches Ok(paid) ==> {
                let info = self.stakes_view()[staker];
                &&& paid > 0
                &&& find_tier(self.tiers_view(), info.tier_id) matches Some(t)
                &&& info.claimed_rewards + paid == (info.amount * t.base_rate_bps * t.reward_multiplier_bps * (
                    if now > info.staked_at { now - info.staked_at } else { 0 })) / 31_536_000 / 100_000_000
            },
    {
        let info = self.stakes_view()[staker];
        assert(stake_record_ok(staker, info));
        lemma_pending_rewards_formula(self.tiers_view(), info, now);
    }
}

/// Two claims in turn: after a claim at `t1` pays what was pending, a claim at a later
/// `t2` is reckoned on the rewards accrued between `t1` and `t2` only.
pub proof fn lemma_second_claim_pays_only_new_accrual(tiers: Seq<StakingTier>, info: StakeInfo, t1: u64, t2: u64)
    requires
        !info.emergency_unstaked,
        info.amount >= 0,
        info.claimed_rewards >= 0,
        t1 <= t2,
        pending_outcome(tiers, info, t1) matches Ok(p) && p > 0,
        pending_outcome(tiers, info, t2) is Ok,
    ensures
        ({
            let paid1 = pending_outcome(tiers, info, t1)->Ok_0;
            let after = StakeInfo { claimed_rewards: (info.claimed_rewards + paid1) as i128, ..info };
            &&& find_tier(tiers, info.tier_id) matches Some(t)
            &&& ({
                let a1: int = info.amount * t.base_rate_bps * t.reward_multiplier_bps * (
                    if t1 > info.staked_at { t1 - info.staked_at } else { 0 }) / 31_536_000 / 100_000_000;
                let a2: int = info.amount * t.base_rate_bps * t.reward_multiplier_bps * (
                    if t2 > info.staked_at { t2 - info.staked_at } else { 0 }) / 31_536_000 / 100_000_000;
                &&& after.claimed_rewards == a1
                &&& pending_outcome(tiers, after, t2) == Ok::<int, StakingError>(a2 - a1)
            })
        }),
{
    lemma_pending_rewards_formula(tiers, info, t1);
    lemma_pending_rewards_formula(tiers, info, t2);
    let t = find_tier(tiers, info.tier_id)->Some_0;
    lemma_accrued_rewards_monotone(
        info.amount as int,
        t.base_rate_bps as int,
        t.reward_multiplier_bps as int,
        elapsed_seconds(info.staked_at, t1),
        elapsed_seconds(info.staked_at, t2),
    );
    let paid1 = pending_outcome(tiers, info, t1)->Ok_0;
    let after = StakeInfo { claimed_rewards: (info.claimed_rewards + paid1) as i128, ..info };
    lemma_pending_rewards_formula(tiers, after, t2);
}

/// A stored position: under its staker's key, with a positive principal, no negative
/// claim, and still open.
pub open spec fn stake_record_ok(key: AccountId, info: StakeInfo) -> bool {
    &&& info.staker == key
    &&& info.amount > 0
    &&& info.claimed_rewards >= 0
    &&& !info.emergency_unstaked
}

/// The staking contract's state.
pub struct StakingModule {
    admin: AccountId,
    contract: AccountId,
    staking_token: AccountId,
    config: Option<StakingConfig>,
    tiers: Vec<StakingTier>,
    stakes: HashMap<AccountId, StakeInfo>,
}

impl StakingModule {
    /// The account allowed to add tiers.
    pub closed spec fn admin_id(&self) -> AccountId {
        self.admin
    }

    /// The contract's own account, which holds staked tokens.
    pub closed spec fn contract_id(&self) -> AccountId {
        self.contract
    }

    /// The token that is staked and paid out.
    pub closed spec fn token_id(&self) -> AccountId {
        self.staking_token
    }

    /// The current configuration, if one was set.
    pub closed spec fn config_view(&self) -> Option<StakingConfig> {
        self.config
    }

    /// All tiers in the order they were added.
    pub closed spec fn tiers_view(&self) -> Seq<StakingTier> {
        self.tiers@
    }

    /// The open positions, by staker.
    pub closed spec fn stakes_view(&self) -> Map<AccountId, StakeInfo> {
        self.stakes@
    }

    /// The state's invariant.
    pub open spec fn wf(&self) -> bool {
        &&& (self.config_view() matches Some(c) ==> c.is_valid())
        &&& forall|k: AccountId| #[trigger]
            self.stakes_view().contains_key(k) ==> stake_record_ok(k, self.stakes_view()[k])
    }

    /// Everything but the positions is as in `other`.
    pub open spec fn same_except_stakes(&self, other: &Self) -> bool {
        &&& self.admin_id() == other.admin_id()
        &&& self.contract_id() == other.contract_id()
        &&& self.token_id() == other.token_id()
        &&& self.config_view() == other.config_view()
        &&& self.tiers_view() == other.tiers_view()
    }

    /// What staking `amount` in tier `tier_id` at `now` gives: the new position, or the refusal.
    pub open spec fn stake_outcome(&self, staker: AccountId, amount: i128, tier_id: TierId, now: u64) -> Result<StakeInfo, StakingError> {
        match self.config_view() {
            None => Err(StakingError::ConfigNotSet),
            Some(c) => match find_tier(self.tiers_view(), tier_id) {
                None => Err(StakingError::TierNotFound),
                Some(t) => if amount < c.min_stake_amount {
                    Err(StakingError::BelowMinStake)
                } else if amount > c.max_stake_amount {
                    Err(StakingError::AboveMaxStake)
                } else if amount < t.min_amount {
                    Err(StakingError::BelowTierMinimum)
                } else if self.stakes_view().contains_key(staker) {
                    Err(StakingError::AlreadyStaked)
                } else if now + t.lock_period_seconds > u64::MAX {
                    Err(StakingError::ArithmeticOverflow)
                } else {
                    Ok(StakeInfo {
                        staker,
                        tier_id,
                        amount,
                        staked_at: now,
                        unlock_at: (now + t.lock_period_seconds) as u64,
                        claimed_rewards: 0,
                        emergency_unstaked: false,
                    })
                },
            },
        }
    }

    /// What unstaking at `now` pays out (principal plus pending rewards), or the refusal.
    pub open spec fn unstake_outcome(&self, staker: AccountId, now: u64) -> Result<int, StakingError> {
        if !self.stakes_view().contains_key(staker) {
            Err(StakingError::StakeNotFound)
        } else {
            let info = self.stakes_view()[staker];
            if now < info.unlock_at {
                Err(StakingError::LockPeriodNotElapsed)
            } else {
                match pending_outcome(self.tiers_view(), info, now) {
                    Err(e) => Err(e),
                    Ok(p) => if info.amount + p > i128::MAX {
                        Err(StakingError::ArithmeticOverflow)
                    } else {
                        Ok(info.amount + p)
                    },
                }
            }
        }
    }

    /// What an emergency unstake pays out (principal less the penalty), or the refusal.
    pub open spec fn emergency_unstake_outcome(&self, staker: AccountId) -> Result<int, StakingError> {
        if !self.stakes_view().contains_key(staker) {
            Err(StakingError::StakeNotFound)
        } else {
            match self.config_view() {
                None => Err(StakingError::ConfigNotSet),
                Some(c) => {
                    let info = self.stakes_view()[staker];
                    if info.amount * c.emergency_unstake_penalty_bps > i128::MAX {
                        Err(StakingError::ArithmeticOverflow)
                    } else {
                        Ok(info.amount - emergency_penalty(info.amount as int, c.emergency_unstake_penalty_bps as int))
                    }
                },
            }
        }
    }

    /// What claiming at `now` pays out (the pending rewards), or the refusal.
    pub open spec fn claim_outcome(&self, staker: AccountId, now: u64) -> Result<int, StakingError> {
        if !self.stakes_view().contains_key(staker) {
            Err(StakingError::StakeNotFound)
        } else {
            match pending_outcome(self.tiers_view(), self.stakes_view()[staker], now) {
                Err(e) => Err(e),
                Ok(p) => if p == 0 {
                    Err(StakingError::NoRewardsToClaim)
                } else {
                    Ok(p)
                },
            }
        }
    }

    /// A fresh contract with no configuration, no tiers and no stakes.
    pub fn new(admin: AccountId, contract: AccountId, staking_token: AccountId) -> (s: Self)
        ensures
            s.wf(),
            s.admin_id() == admin,
            s.contract_id() == contract,
            s.token_id() == staking_token,
            s.config_view().is_none(),
            s.tiers_view() == Seq::<StakingTier>::empty(),
            s.stakes_view() == Map::<AccountId, StakeInfo>::empty(),
    {
        StakingModule {
            admin,
            contract,
            staking_token,
            config: None,
            tiers: Vec::new(),
            stakes: HashMap::new(),
        }
    }

    /// The admin account.
    pub fn admin(&self) -> (r: AccountId)
        ensures
            r == self.admin_id(),
    {
        self.admin
    }

    /// The contract's own account.
    pub fn contract(&self) -> (r: AccountId)
        ensures
            r == self.contract_id(),
    {
        self.contract
    }

    /// The staked token.
    pub fn staking_token(&self) -> (r: AccountId)
        ensures
            r == self.token_id(),
    {
        self.staking_token
    }

    /// The configuration, if set.
    pub fn staking_config(&self) -> (r: Option<StakingConfig>)
        ensures
            r == self.config_view(),
    {
        self.config
    }

    /// Replaces the configuration; refused, with nothing changed, when it is not valid.
    pub fn set_staking_config(&mut self, config: StakingConfig) -> (r: Result<(), StakingError>)
        requires
            old(self).wf(),
        ensures
            final(self).wf(),
            config.is_valid() ==> r is Ok && final(self).config_view() == Some(config),
            !config.is_valid() ==> r == Err::<(), StakingError>(StakingError::InvalidConfig)
                && final(self).config_view() == old(self).config_view(),
            final(self).admin_id() == old(self).admin_id(),
            final(self).contract_id() == old(self).contract_id(),
            final(self).token_id() == old(self).token_id(),
            final(self).tiers_view() == old(self).tiers_view(),
            final(self).stakes_view() == old(self).stakes_view(),
    {
        if 0 < config.min_stake_amount && config.min_stake_amount <= config.max_stake_amount
            && config.emergency_unstake_penalty_bps <= 10_000
        {
            self.config = Some(config);
            assert(self.stakes_view() == old(self).stakes_view());
            Ok(())
        } else {
            Err(StakingError::InvalidConfig)
        }
    }

    /// Appends `tier` to the list of tiers; only the admin may. A tier with an id
    /// already present is appended too and from then on is the one found by that id.
    pub fn add_staking_tier(&mut self, caller: AccountId, tier: StakingTier) -> (r: Result<(), StakingError>)
        requires
            old(self).wf(),
        ensures
            final(self).wf(),
            final(self).stakes_view() == old(self).stakes_view(),
            caller == old(self).admin_id() ==> r is Ok
                && final(self).tiers_view() == old(self).tiers_view().push(tier)
                && final(self).admin_id() == old(self).admin_id()
                && final(self).contract_id() == old(self).contract_id()
                && final(self).token_id() == old(self).token_id()
                && final(self).config_view() == old(self).config_view(),
            caller != old(self).admin_id() ==> r == Err::<(), StakingError>(StakingError::Unauthorized)
                && final(self).same_except_stakes(old(self)),
    {
        if caller != self.admin {
            return Err(StakingError::Unauthorized);
        }
        self.tiers.push(tier);
        assert(self.stakes_view() == old(self).stakes_view());
        Ok(())
    }

    /// Index of the tier found by `id`, if any.
    fn tier_index(&self, id: TierId) -> (r: Option<usize>)
        ensures
            match r {
                Some(i) => i < self.tiers_view().len() && find_tier(self.tiers_view(), id) == Some(
                    self.tiers_view()[i as int],
                ),
                None => find_tier(self.tiers_view(), id) is None,
            },
    {
        let mut i: usize = self.tiers.len();
        assert(self.tiers@.subrange(0, i as int) =~= self.tiers@);
        while i > 0
            invariant
                i <= self.tiers@.len(),
                find_tier(self.tiers@, id) == find_tier(self.tiers@.subrange(0, i as int), id),
            decreases i,
        {
            let ghost prefix = self.tiers@.subrange(0, i as int);
            assert(prefix.drop_last() =~= self.tiers@.subrange(0, i - 1));
            if self.tiers[i - 1].id == id {
                return Some(i - 1);
            }
            i = i - 1;
        }
        assert(self.tiers@.subrange(0, 0) =~= Seq::<StakingTier>::empty());
        None
    }

    /// The tier found by `id`.
    pub fn get_staking_tier(&self, id: TierId) -> (r: Result<&StakingTier, StakingError>)
        ensures
            match find_tier(self.tiers_view(), id) {
                Some(t) => r == Ok::<&StakingTier, StakingError>(&t),
                None => r == Err::<&StakingTier, StakingError>(StakingError::TierNotFound),
            },
    {
        match self.tier_index(id) {
            Some(i) => Ok(&self.tiers[i]),
            None => Err(StakingError::TierNotFound),
        }
    }

    /// All tiers, in the order they were added.
    pub fn list_staking_tiers(&self) -> (r: &Vec<StakingTier>)
        ensures
            r@ == self.tiers_view(),
    {
        &self.tiers
    }

    /// The position of `staker`.
    pub fn get_stake(&self, staker: AccountId) -> (r: Result<StakeInfo, StakingError>)
        ensures
            self.stakes_view().contains_key(staker) ==> r == Ok::<StakeInfo, StakingError>(
                self.stakes_view()[staker],
            ),
            !self.stakes_view().contains_key(staker) ==> r == Err::<StakeInfo, StakingError>(
                StakingError::StakeNotFound,
            ),
    {
        match self.stakes.get(&staker) {
            Some(info) => Ok(*info),
            None => Err(StakingError::StakeNotFound),
        }
    }

    /// Rewards pending on `info` at `now`, reckoned with the tier that `info.tier_id` finds.
    pub fn calculate_pending_rewards(&self, info: &StakeInfo, now: u64) -> (r: Result<i128, StakingError>)
        ensures
            r.is_ok() == pending_outcome(self.tiers_view(), *info, now).is_ok(),
            r matches Ok(v) ==> pending_outcome(self.tiers_view(), *info, now) == Ok::<int, StakingError>(v as int),
            r matches Err(e) ==> pending_outcome(self.tiers_view(), *info, now) == Err::<int, StakingError>(e),
            r matches Ok(v) ==> v >= 0,
    {
        if info.emergency_unstaked {
            return Ok(0);
        }
        let idx = match self.tier_index(info.tier_id) {
            Some(i) => i,
            None => return Err(StakingError::TierNotFound),
        };
        if info.amount < 0 || info.claimed_rewards < 0 {
            return Err(StakingError::InvalidAmount);
        }
        let tier = &self.tiers[idx];
        let elapsed: u64 = if now > info.staked_at { now - info.staked_at } else { 0 };
        match compute_accrued_rewards(info.amount, tier.base_rate_bps, tier.reward_multiplier_bps, elapsed) {
            None => Err(StakingError::ArithmeticOverflow),
            Some(accrued) => {
                if accrued > info.claimed_rewards {
                    Ok(accrued - info.claimed_rewards)
                } else {
                    Ok(0)
                }
            },
        }
    }

    /// Opens a position for `staker`; the staker owes the contract `amount` tokens.
    pub fn stake(&mut self, staker: AccountId, amount: i128, tier_id: TierId, now: u64) -> (r: Result<Transfer, StakingError>)
        requires
            old(self).wf(),
        ensures
            final(self).wf(),
            final(self).same_except_stakes(old(self)),
            match old(self).stake_outcome(staker, amount, tier_id, now) {
                Ok(info) => {
                    &&& r == Ok::<Transfer, StakingError>(Transfer {
                        token: old(self).token_id(),
                        from: staker,
                        to: old(self).contract_id(),
                        amount,
                    })
                    &&& final(self).stakes_view() == old(self).stakes_view().insert(staker, info)
                },
                Err(e) => {
                    &&& r == Err::<Transfer, StakingError>(e)
                    &&& final(self).stakes_view() == old(self).stakes_view()
                },
            },
    {
        let config = match self.config {
            Some(c) => c,
            None => return Err(StakingError::ConfigNotSet),
        };
        let idx = match self.tier_index(tier_id) {
            Some(i) => i,
            None => return Err(StakingError::TierNotFound),
        };
        if amount < config.min_stake_amount {
            return Err(StakingError::BelowMinStake);
        }
        if amount > config.max_stake_amount {
            return Err(StakingError::AboveMaxStake);
        }
        let tier_min = self.tiers[idx].min_amount;
        let lock = self.tiers[idx].lock_period_seconds;
        if amount < tier_min {
            return Err(StakingError::BelowTierMinimum);
        }
        if self.stakes.contains_key(&staker) {
            return Err(StakingError::AlreadyStaked);
        }
        let unlock_at = match now.checked_add(lock) {
            Some(u) => u,
            None => return Err(StakingError::ArithmeticOverflow),
        };
        let info = StakeInfo {
            staker,
            tier_id,
            amount,
            staked_at: now,
            unlock_at,
            claimed_rewards: 0,
            emergency_unstaked: false,
        };
        self.stakes.insert(staker, info);
        Ok(Transfer { token: self.staking_token, from: staker, to: self.contract, amount })
    }

    /// Closes the position of `staker` once its lock period has passed; the contract
    /// owes the staker the principal plus the pending rewards.
    pub fn unstake(&mut self, staker: AccountId, now: u64) -> (r: Result<Transfer, StakingError>)
        requires
            old(self).wf(),
        ensures
            final(self).wf(),
            final(self).same_except_stakes(old(self)),
            match old(self).unstake_outcome(staker, now) {
                Ok(payout) => {
                    &&& r == Ok::<Transfer, StakingError>(Transfer {
                        token: old(self).token_id(),
                        from: old(self).contract_id(),
                        to: staker,
                        amount: payout as i128,
                    })
                    &&& final(self).stakes_view() == old(self).stakes_view().remove(staker)
                },
                Err(e) => {
                    &&& r == Err::<Transfer, StakingError>(e)
                    &&& final(self).stakes_view() == old(self).stakes_view()
                },
            },
    {
        let info = match self.stakes.get(&staker) {
            Some(i) => *i,
            None => return Err(StakingError::StakeNotFound),
        };
        if now < info.unlock_at {
            return Err(StakingError::LockPeriodNotElapsed);
        }
        let pending = match self.calculate_pending_rewards(&info, now) {
            Ok(p) => p,
            Err(e) => return Err(e),
        };
        let payout = match info.amount.checked_add(pending) {
            Some(p) => p,
            None => return Err(StakingError::ArithmeticOverflow),
        };
        self.stakes.remove(&staker);
        Ok(Transfer { token: self.staking_token, from: self.contract, to: staker, amount: payout })
    }

    /// Closes the position of `staker` at once, lock or not: the contract owes the
    /// principal less the configured penalty, and no rewards.
    pub fn emergency_unstake(&mut self, staker: AccountId) -> (r: Result<Transfer, StakingError>)
        requires
            old(self).wf(),
        ensures
            final(self).wf(),
            final(self).same_except_stakes(old(self)),
            match old(self).emergency_unstake_outcome(staker) {
                Ok(payout) => {
                    &&& r == Ok::<Transfer, StakingError>(Transfer {
                        token: old(self).token_id(),
                        from: old(self).contract_id(),
                        to: staker,
                        amount: payout as i128,
                    })
                    &&& final(self).stakes_view() == old(self).stakes_view().remove(staker)
                },
                Err(e) => {
                    &&& r == Err::<Transfer, StakingError>(e)
                    &&& final(self).stakes_view() == old(self).stakes_view()
                },
            },
    {
        let info = match self.stakes.get(&staker) {
            Some(i) => *i,
            None => return Err(StakingError::StakeNotFound),
        };
        let config = match self.config {
            Some(c) => c,
            None => return Err(StakingError::ConfigNotSet),
        };
        assert(stake_record_ok(staker, self.stakes@[staker]));
        let penalty = match compute_emergency_penalty(info.amount, config.emergency_unstake_penalty_bps) {
            Some(p) => p,
            None => return Err(StakingError::ArithmeticOverflow),
        };
        let payout = info.amount - penalty;
        self.stakes.remove(&staker);
        Ok(Transfer { token: self.staking_token, from: self.contract, to: staker, amount: payout })
    }

    /// Pays `staker` the rewards pending at `now` and records them as claimed.
    pub fn claim_rewards(&mut self, staker: AccountId, now: u64) -> (r: Result<Transfer, StakingError>)
        requires
            old(self).wf(),
        ensures
            final(self).wf(),
            final(self).same_except_stakes(old(self)),
            match old(self).claim_outcome(staker, now) {
                Ok(paid) => {
                    &&& r == Ok::<Transfer, StakingError>(Transfer {
                        token: old(self).token_id(),
                        from: old(self).contract_id(),
                        to: staker,
                        amount: paid as i128,
                    })
                    &&& final(self).stakes_view() == old(self).stakes_view().insert(
                        staker,
                        StakeInfo {
                            claimed_rewards: (old(self).stakes_view()[staker].claimed_rewards + paid) as i128,
                            ..old(self).stakes_view()[staker]
                        },
                    )
                },
                Err(e) => {
                    &&& r == Err::<Transfer, StakingError>(e)
                    &&& final(self).stakes_view() == old(self).stakes_view()
                },
            },
    {
        let info = match self.stakes.get(&staker) {
            Some(i) => *i,
            None => return Err(StakingError::StakeNotFound),
        };
        let pending = match self.calculate_pending_rewards(&info, now) {
            Ok(p) => p,
            Err(e) => return Err(e),
        };
        if pending == 0 {
            return Err(StakingError::NoRewardsToClaim);
        }
        assert(stake_record_ok(staker, self.stakes@[staker]));
        let updated = StakeInfo { claimed_rewards: info.claimed_rewards + pending, ..info };
        self.stakes.insert(staker, updated);
        Ok(Transfer { token: self.staking_token, from: self.contract, to: staker, amount: pending })
    }
}

} // verus!
