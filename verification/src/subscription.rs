//! The subscription contract: tiers, and each user's subscription with its
//! pause, resume, cancel and renew steps.

use std::collections::HashMap;
use vstd::prelude::*;

use crate::rewards::elapsed_seconds;
use crate::types::{AccountId, TierId, Transfer};

verus! {

broadcast use vstd::std_specs::hash::group_hash_axioms;

/// How many times one subscription may be paused over its life.
pub const MAX_PAUSES: u32 = 3;

/// Seconds that must pass after a recorded pause before the next one (a week).
pub const MIN_PAUSE_INTERVAL: u64 = 604_800;

/// Where a subscription stands.
#[derive(Clone, Copy, Debug, PartialEq, Eq, Structural)]
pub enum SubscriptionStatus {
    Active,
    Paused,
    Cancelled,
}

/// The level of a subscription tier.
#[derive(Clone, Copy, Debug, PartialEq, Eq, Structural)]
pub enum TierLevel {
    Free,
    Basic,
    Pro,
    Enterprise,
}

/// A tier on offer: its price per billing cycle and what it includes.
#[derive(Clone, Debug)]
pub struct SubscriptionTier {
    pub id: TierId,
    pub name: String,
    pub level: TierLevel,
    pub price: i128,
    pub duration_days: u32,
    pub features: Vec<String>,
    pub is_active: bool,
    pub max_members: u32,
}

/// One user's subscription.
#[derive(Clone, Copy, Debug, PartialEq, Eq, Structural)]
pub struct Subscription {
    pub user: AccountId,
    pub payment_token: AccountId,
    pub tier_id: TierId,
    pub amount: i128,
    pub status: SubscriptionStatus,
    pub created_at: u64,
    pub expires_at: u64,
    pub billing_cycle: u64,
    pub paused_at: u64,
    pub pause_count: u32,
}

/// Why the subscription contract refuses a request.
#[derive(Clone, Copy, Debug, PartialEq, Eq, Structural)]
pub enum SubscriptionError {
    TierNotFound,
    TierNotActive,
    InvalidAmount,
    PaymentBelowTierPrice,
    SubscriptionNotFound,
    NotActive,
    MaxPausesReached,
    TooEarlyToPause,
    NotPaused,
    NotCancellable,
    CannotRenewCancelled,
    ArithmeticOverflow,
}

/// The text of the message for `e`.
pub open spec fn subscription_error_text(e: SubscriptionError) -> Seq<char> {
    match e {
        SubscriptionError::TierNotFound => "tier not found"@,
        SubscriptionError::TierNotActive => "tier not active"@,
        SubscriptionError::InvalidAmount => "invalid amount"@,
        SubscriptionError::PaymentBelowTierPrice => "payment amount below tier price"@,
        SubscriptionError::SubscriptionNotFound => "subscription not found"@,
        SubscriptionError::NotActive => "subscription not active"@,
        SubscriptionError::MaxPausesReached => "max pauses reached"@,
        SubscriptionError::TooEarlyToPause => "too early to pause"@,
        SubscriptionError::NotPaused => "subscription is not paused"@,
        SubscriptionError::NotCancellable => "subscription not cancellable"@,
        SubscriptionError::CannotRenewCancelled => "cannot renew cancelled subscription"@,
        SubscriptionError::ArithmeticOverflow => "arithmetic overflow"@,
    }
}

impl SubscriptionError {
    /// The message with which the contract aborts on this error.
    pub fn message(&self) -> (r: &'static str)
        ensures
            r@ == subscription_error_text(*self),
    {
        match self {
            SubscriptionError::TierNotFound => "tier not found",
            SubscriptionError::TierNotActive => "tier not active",
            SubscriptionError::InvalidAmount => "invalid amount",
            SubscriptionError::PaymentBelowTierPrice => "payment amount below tier price",
            SubscriptionError::SubscriptionNotFound => "subscription not found",
            SubscriptionError::NotActive => "subscription not active",
            SubscriptionError::MaxPausesReached => "max pauses reached",
            SubscriptionError::TooEarlyToPause => "too early to pause",
            SubscriptionError::NotPaused => "subscription is not paused",
            SubscriptionError::NotCancellable => "subscription not cancellable",
            SubscriptionError::CannotRenewCancelled => "cannot renew cancelled subscription",
            SubscriptionError::ArithmeticOverflow => "arithmetic overflow",
        }
    }
}

/// Pausing `s` at `now`: only an active subscription with pauses left, and (when a
/// pause time is on record) not within `MIN_PAUSE_INTERVAL` of it. A stored active
/// subscription never has a pause time on record (resuming clears it), so for stored
/// subscriptions the interval never refuses a pause: see `lemma_active_never_too_early`.
pub open spec fn pause_step(s: Subscription, now: u64) -> Result<Subscription, SubscriptionError> {
    if s.status != SubscriptionStatus::Active {
        Err(SubscriptionError::NotActive)
    } else if s.pause_count >= MAX_PAUSES {
        Err(SubscriptionError::MaxPausesReached)
    } else if s.paused_at > 0 && now < s.paused_at + MIN_PAUSE_INTERVAL {
        Err(SubscriptionError::TooEarlyToPause)
    } else {
        Ok(Subscription {
            status: SubscriptionStatus::Paused,
            paused_at: now,
            pause_count: (s.pause_count + 1) as u32,
            ..s
        })
    }
}

/// Resuming `s` at `now`: only a paused subscription; the expiry moves later by the
/// time spent paused.
pub open spec fn resume_step(s: Subscription, now: u64) -> Result<Subscription, SubscriptionError> {
    if s.status != SubscriptionStatus::Paused {
        Err(SubscriptionError::NotPaused)
    } else if s.expires_at + elapsed_seconds(s.paused_at, now) > u64::MAX {
        Err(SubscriptionError::ArithmeticOverflow)
    } else {
        Ok(Subscription {
            status: SubscriptionStatus::Active,
            paused_at: 0,
            expires_at: (s.expires_at + elapsed_seconds(s.paused_at, now)) as u64,
            ..s
        })
    }
}

/// Cancelling `s`: anything not already cancelled.
pub open spec fn cancel_step(s: Subscription) -> Result<Subscription, SubscriptionError> {
    if s.status == SubscriptionStatus::Cancelled {
        Err(SubscriptionError::NotCancellable)
    } else {
        Ok(Subscription { status: SubscriptionStatus::Cancelled, ..s })
    }
}

/// Renewing `s`: only an active subscription; the expiry moves later by one billing cycle.
pub open spec fn renew_step(s: Subscription) -> Result<Subscription, SubscriptionError> {
    if s.status == SubscriptionStatus::Cancelled {
        Err(SubscriptionError::CannotRenewCancelled)
    } else if s.status != SubscriptionStatus::Active {
        Err(SubscriptionError::NotActive)
    } else if s.expires_at + s.billing_cycle > u64::MAX {
        Err(SubscriptionError::ArithmeticOverflow)
    } else {
        Ok(Subscription { expires_at: (s.expires_at + s.billing_cycle) as u64, ..s })
    }
}

/// Pausing at `t1` and resuming at a later `t2` hands back an active subscription whose
/// expiry moved later by exactly `t2 - t1`, with one pause more spent and no pause time on
/// record, so that it may be paused again at once while pauses remain.
pub proof fn lemma_pause_then_resume(key: AccountId, s: Subscription, t1: u64, t2: u64, t3: u64)
    requires
        subscription_record_ok(key, s),
        s.status == SubscriptionStatus::Active,
        s.pause_count < MAX_PAUSES,
        t1 <= t2,
        s.expires_at + (t2 - t1) <= u64::MAX,
    ensures
        pause_step(s, t1) matches Ok(p) && resume_step(p, t2) == Ok::<Subscription, SubscriptionError>(
            Subscription {
                expires_at: (s.expires_at + (t2 - t1)) as u64,
                pause_count: (s.pause_count + 1) as u32,
                ..s
            },
        ),
        s.pause_count + 1 < MAX_PAUSES ==> (pause_step(s, t1) matches Ok(p) && resume_step(p, t2) matches Ok(r)
            && pause_step(r, t3) is Ok),
{
}

/// The pause interval is not enforced between pauses: a stored active subscription is
/// never refused as paused too early, and with pauses left its pause always succeeds,
/// at any time.
pub proof fn lemma_active_never_too_early(key: AccountId, s: Subscription, now: u64)
    requires
        subscription_record_ok(key, s),
        s.status == SubscriptionStatus::Active,
    ensures
        pause_step(s, now) != Err::<Subscription, SubscriptionError>(SubscriptionError::TooEarlyToPause),
        s.pause_count < MAX_PAUSES ==> (pause_step(s, now) is Ok),
{
}

/// One pause, step by step: an active subscription with pauses left and no pause time on
/// record becomes paused at `now`, with one more pause spent and nothing else changed.
pub proof fn lemma_pause_step_effect(key: AccountId, s: Subscription, now: u64)
    requires
        subscription_record_ok(key, s),
        s.status == SubscriptionStatus::Active,
        s.pause_count < MAX_PAUSES,
    ensures
        pause_step(s, now) == Ok::<Subscription, SubscriptionError>(
            Subscription {
                status: SubscriptionStatus::Paused,
                paused_at: now,
                pause_count: (s.pause_count + 1) as u32,
                ..s
            },
        ),
{
}

/// One resume, step by step: a paused subscription becomes active with no pause time on
/// record, and its expiry moves later by the seconds since it was paused (none if `now`
/// is not later), nothing else changed; refused as an overflow only when the new expiry
/// does not fit.
pub proof fn lemma_resume_step_effect(s: Subscription, now: u64)
    requires
        s.status == SubscriptionStatus::Paused,
    ensures
        ({
            let paused_for: int = if now > s.paused_at { now - s.paused_at } else { 0 };
            &&& s.expires_at + paused_for <= u64::MAX ==> resume_step(s, now) == Ok::<Subscription, SubscriptionError>(
                Subscription {
                    status: SubscriptionStatus::Active,
                    paused_at: 0,
                    expires_at: (s.expires_at + paused_for) as u64,
                    ..s
                },
            )
            &&& s.expires_at + paused_for > u64::MAX ==> resume_step(s, now) == Err::<Subscription, SubscriptionError>(
                SubscriptionError::ArithmeticOverflow,
            )
        }),
{
}

/// Cancelling an active or paused subscription marks it cancelled and changes nothing else.
pub proof fn lemma_cancel_step_effect(s: Subscription)
    requires
        s.status != SubscriptionStatus::Cancelled,
    ensures
        cancel_step(s) == Ok::<Subscription, SubscriptionError>(
            Subscription { status: SubscriptionStatus::Cancelled, ..s },
        ),
{
}

/// A cancelled subscription stays cancelled: pausing, resuming, cancelling again and
/// renewing are all refused.
pub proof fn lemma_cancelled_is_final(s: Subscription, now: u64)
    requires
        s.status == SubscriptionStatus::Cancelled,
    ensures
        pause_step(s, now) == Err::<Subscription, SubscriptionError>(SubscriptionError::NotActive),
        resume_step(s, now) == Err::<Subscription, SubscriptionError>(SubscriptionError::NotPaused),
        cancel_step(s) == Err::<Subscription, SubscriptionError>(SubscriptionError::NotCancellable),
        renew_step(s) == Err::<Subscription, SubscriptionError>(SubscriptionError::CannotRenewCancelled),
{
}

/// A subscription is paused at most `MAX_PAUSES` times: each pause spends one, and once
/// they are spent pausing is refused.
pub proof fn lemma_pause_allowance(key: AccountId, s: Subscription, now: u64)
    requires
        subscription_record_ok(key, s),
    ensures
        pause_step(s, now) matches Ok(p) ==> p.pause_count == s.pause_count + 1 && subscription_record_ok(key, p),
        s.status == SubscriptionStatus::Active && s.pause_count == MAX_PAUSES ==> pause_step(s, now)
            == Err::<Subscription, SubscriptionError>(SubscriptionError::MaxPausesReached),
        s.status != SubscriptionStatus::Active ==> pause_step(s, now) == Err::<Subscription, SubscriptionError>(
            SubscriptionError::NotActive,
        ),
{
}

/// Renewing moves the expiry later by one billing cycle and changes nothing else.
pub proof fn lemma_renew_extends_by_one_cycle(s: Subscription)
    ensures
        renew_step(s) matches Ok(r) ==> r == (Subscription {
            expires_at: (s.expires_at + s.billing_cycle) as u64,
            ..s
        }) && r.status == SubscriptionStatus::Active,
        s.status == SubscriptionStatus::Active && s.expires_at + s.billing_cycle <= u64::MAX ==> (renew_step(s) is Ok),
{
}

impl SubscriptionModule {
    /// A new subscription is active from `now`, expires one billing cycle later, has
    /// no pause spent and pays at least the tier's price.
    pub proof fn lemma_new_subscription(&self, user: AccountId, token: AccountId, amount: i128, tier_id: TierId, cycle: u64, now: u64)
        ensures
            self.create_outcome(user, token, amount, tier_id, cycle, now) matches Ok(s) ==> {
                &&& s.status == SubscriptionStatus::Active
                &&& s.created_at == now
                &&& s.expires_at == now + cycle
                &&& s.billing_cycle == cycle
                &&& s.payment_token == token
                &&& s.amount == amount
                &&& s.pause_count == 0
                &&& s.paused_at == 0
                &&& self.tiers_view().contains_key(tier_id)
                &&& self.tiers_view()[tier_id].is_active
                &&& amount >= self.tiers_view()[tier_id].price
                &&& subscription_record_ok(user, s)
            },
            ({
                &&& self.tiers_view().contains_key(tier_id)
                &&& self.tiers_view()[tier_id].is_active
                &&& 0 <= amount
                &&& self.tiers_view()[tier_id].price <= amount
                &&& now + cycle <= u64::MAX
            }) ==> self.create_outcome(user, token, amount, tier_id, cycle, now) == Ok::<Subscription, SubscriptionError>(
                Subscription {
                    user,
                    payment_token: token,
                    tier_id,
                    amount,
                    status: SubscriptionStatus::Active,
                    created_at: now,
                    expires_at: (now + cycle) as u64,
                    billing_cycle: cycle,
                    paused_at: 0,
                    pause_count: 0,
                },
            ),
            self.create_outcome(user, token, amount, tier_id, cycle, now) == Err::<Subscription, SubscriptionError>(
                SubscriptionError::PaymentBelowTierPrice,
            ) ==> self.tiers_view().contains_key(tier_id) && amount < self.tiers_view()[tier_id].price,
    {
    }
}

/// A stored subscription: under its user's key, paid with a non-negative amount,
/// within the pause allowance, and with no pause time on record while active.
pub open spec fn subscription_record_ok(key: AccountId, s: Subscription) -> bool {
    &&& s.user == key
    &&& s.amount >= 0
    &&& s.pause_count <= MAX_PAUSES
    &&& (s.status == SubscriptionStatus::Active ==> s.paused_at == 0)
}

/// The subscription contract's state.
pub struct SubscriptionModule {
    contract: AccountId,
    tiers: HashMap<TierId, SubscriptionTier>,
    subscriptions: HashMap<AccountId, Subscription>,
}

impl SubscriptionModule {
    /// The contract's own account, which receives payments.
    pub closed spec fn contract_id(&self) -> AccountId {
        self.contract
    }

    /// The tiers on offer, by id.
    pub closed spec fn tiers_view(&self) -> Map<TierId, SubscriptionTier> {
        self.tiers@
    }

    /// The subscriptions, by user.
    pub closed spec fn subscriptions_view(&self) -> Map<AccountId, Subscription> {
        self.subscriptions@
    }

    /// The state's invariant.
    pub open spec fn wf(&self) -> bool {
        forall|k: AccountId| #[trigger]
            self.subscriptions_view().contains_key(k) ==> subscription_record_ok(
                k,
                self.subscriptions_view()[k],
            )
    }

    /// What subscribing `user` gives: the new subscription, or the refusal.
    pub open spec fn create_outcome(
        &self,
        user: AccountId,
        payment_token: AccountId,
        amount: i128,
        tier_id: TierId,
        billing_cycle: u64,
        now: u64,
    ) -> Result<Subscription, SubscriptionError> {
        if !self.tiers_view().contains_key(tier_id) {
            Err(SubscriptionError::TierNotFound)
        } else if !self.tiers_view()[tier_id].is_active {
            Err(SubscriptionError::TierNotActive)
        } else if amount < 0 {
            Err(SubscriptionError::InvalidAmount)
        } else if amount < self.tiers_view()[tier_id].price {
            Err(SubscriptionError::PaymentBelowTierPrice)
        } else if now + billing_cycle > u64::MAX {
            Err(SubscriptionError::ArithmeticOverflow)
        } else {
            Ok(Subscription {
                user,
                payment_token,
                tier_id,
                amount,
                status: SubscriptionStatus::Active,
                created_at: now,
                expires_at: (now + billing_cycle) as u64,
                billing_cycle,
                paused_at: 0,
                pause_count: 0,
            })
        }
    }

    /// A fresh contract with no tiers and no subscriptions.
    pub fn new(contract: AccountId) -> (s: Self)
        ensures
            s.wf(),
            s.contract_id() == contract,
            s.tiers_view() == Map::<TierId, SubscriptionTier>::empty(),
            s.subscriptions_view() == Map::<AccountId, Subscription>::empty(),
    {
        SubscriptionModule { contract, tiers: HashMap::new(), subscriptions: HashMap::new() }
    }

    /// The contract's own account.
    pub fn contract(&self) -> (r: AccountId)
        ensures
            r == self.contract_id(),
    {
        self.contract
    }

    /// Stores `tier` under `tier_id`, replacing any tier stored there.
    pub fn set_tier(&mut self, tier_id: TierId, tier: SubscriptionTier)
        requires
            old(self).wf(),
        ensures
            final(self).wf(),
            final(self).contract_id() == old(self).contract_id(),
            final(self).tiers_view() == old(self).tiers_view().insert(tier_id, tier),
            final(self).subscriptions_view() == old(self).subscriptions_view(),
    {
        self.tiers.insert(tier_id, tier);
        assert(self.subscriptions_view() == old(self).subscriptions_view());
    }

    /// The tier stored under `tier_id`.
    pub fn get_tier(&self, tier_id: TierId) -> (r: Result<&SubscriptionTier, SubscriptionError>)
        ensures
            self.tiers_view().contains_key(tier_id) ==> r == Ok::<&SubscriptionTier, SubscriptionError>(
                &self.tiers_view()[tier_id],
            ),
            !self.tiers_view().contains_key(tier_id) ==> r == Err::<&SubscriptionTier, SubscriptionError>(
                SubscriptionError::TierNotFound,
            ),
    {
        match self.tiers.get(&tier_id) {
            Some(t) => Ok(t),
            None => Err(SubscriptionError::TierNotFound),
        }
    }

    /// The subscription of `user`.
    pub fn get_subscription(&self, user: AccountId) -> (r: Result<Subscription, SubscriptionError>)
        ensures
            self.subscriptions_view().contains_key(user) ==> r == Ok::<Subscription, SubscriptionError>(
                self.subscriptions_view()[user],
            ),
            !self.subscriptions_view().contains_key(user) ==> r == Err::<Subscription, SubscriptionError>(
                SubscriptionError::SubscriptionNotFound,
            ),
    {
        match self.subscriptions.get(&user) {
            Some(s) => Ok(*s),
            None => Err(SubscriptionError::SubscriptionNotFound),
        }
    }

    /// Subscribes `user` to the tier `tier_id`, paying `amount` of `payment_token` per
    /// billing cycle of `billing_cycle` seconds, from `now`. A subscription the user
    /// already has is replaced. The user owes the contract `amount`.
    pub fn create_subscription(
        &mut self,
        user: AccountId,
        payment_token: AccountId,
        amount: i128,
        tier_id: TierId,
        billing_cycle: u64,
        now: u64,
    ) -> (r: Result<(Subscription, Transfer), SubscriptionError>)
        requires
            old(self).wf(),
        ensures
            final(self).wf(),
            final(self).contract_id() == old(self).contract_id(),
            final(self).tiers_view() == old(self).tiers_view(),
            match old(self).create_outcome(user, payment_token, amount, tier_id, billing_cycle, now) {
                Ok(s) => {
                    &&& r == Ok::<(Subscription, Transfer), SubscriptionError>((
                        s,
                        Transfer { token: payment_token, from: user, to: old(self).contract_id(), amount },
                    ))
                    &&& final(self).subscriptions_view() == old(self).subscriptions_view().insert(user, s)
                },
                Err(e) => {
                    &&& r == Err::<(Subscription, Transfer), SubscriptionError>(e)
                    &&& final(self).subscriptions_view() == old(self).subscriptions_view()
                },
            },
    {
        let (price, active) = match self.tiers.get(&tier_id) {
            Some(t) => (t.price, t.is_active),
            None => return Err(SubscriptionError::TierNotFound),
        };
        if !active {
            return Err(SubscriptionError::TierNotActive);
        }
        if amount < 0 {
            return Err(SubscriptionError::InvalidAmount);
        }
        if amount < price {
            return Err(SubscriptionError::PaymentBelowTierPrice);
        }
        let expires_at = match now.checked_add(billing_cycle) {
            Some(e) => e,
            None => return Err(SubscriptionError::ArithmeticOverflow),
        };
        let sub = Subscription {
            user,
            payment_token,
            tier_id,
            amount,
            status: SubscriptionStatus::Active,
            created_at: now,
            expires_at,
            billing_cycle,
            paused_at: 0,
            pause_count: 0,
        };
        self.subscriptions.insert(user, sub);
        assert forall|k: AccountId| #[trigger] self.subscriptions_view().contains_key(k) implies subscription_record_ok(
            k,
            self.subscriptions_view()[k],
        ) by {
            if k != user {
                assert(old(self).subscriptions_view().contains_key(k));
            }
        }
        Ok((sub, Transfer { token: payment_token, from: user, to: self.contract, amount }))
    }

    /// Pauses the subscription of `user` at `now`.
    pub fn pause_subscription(&mut self, user: AccountId, now: u64) -> (r: Result<(), SubscriptionError>)
        requires
            old(self).wf(),
        ensures
            final(self).wf(),
            final(self).contract_id() == old(self).contract_id(),
            final(self).tiers_view() == old(self).tiers_view(),
            !old(self).subscriptions_view().contains_key(user) ==> r == Err::<(), SubscriptionError>(
                SubscriptionError::SubscriptionNotFound,
            ) && final(self).subscriptions_view() == old(self).subscriptions_view(),
            old(self).subscriptions_view().contains_key(user) ==> match pause_step(
                old(self).subscriptions_view()[user],
                now,
            ) {
                Ok(s) => r is Ok && final(self).subscriptions_view() == old(self).subscriptions_view().insert(user, s),
                Err(e) => r == Err::<(), SubscriptionError>(e) && final(self).subscriptions_view()
                    == old(self).subscriptions_view(),
            },
    {
        let sub = match self.subscriptions.get(&user) {
            Some(s) => *s,
            None => return Err(SubscriptionError::SubscriptionNotFound),
        };
        if sub.status != SubscriptionStatus::Active {
            return Err(SubscriptionError::NotActive);
        }
        if sub.pause_count >= MAX_PAUSES {
            return Err(SubscriptionError::MaxPausesReached);
        }
        if sub.paused_at > 0 && (now < sub.paused_at || now - sub.paused_at < MIN_PAUSE_INTERVAL) {
            return Err(SubscriptionError::TooEarlyToPause);
        }
        let paused = Subscription {
            status: SubscriptionStatus::Paused,
            paused_at: now,
            pause_count: sub.pause_count + 1,
            ..sub
        };
        self.subscriptions.insert(user, paused);
        Ok(())
    }

    /// Resumes the paused subscription of `user` at `now`.
    pub fn resume_subscription(&mut self, user: AccountId, now: u64) -> (r: Result<(), SubscriptionError>)
        requires
            old(self).wf(),
        ensures
            final(self).wf(),
            final(self).contract_id() == old(self).contract_id(),
            final(self).tiers_view() == old(self).tiers_view(),
            !old(self).subscriptions_view().contains_key(user) ==> r == Err::<(), SubscriptionError>(
                SubscriptionError::SubscriptionNotFound,
            ) && final(self).subscriptions_view() == old(self).subscriptions_view(),
            old(self).subscriptions_view().contains_key(user) ==> match resume_step(
                old(self).subscriptions_view()[user],
                now,
            ) {
                Ok(s) => r is Ok && final(self).subscriptions_view() == old(self).subscriptions_view().insert(user, s),
                Err(e) => r == Err::<(), SubscriptionError>(e) && final(self).subscriptions_view()
                    == old(self).subscriptions_view(),
            },
    {
        let sub = match self.subscriptions.get(&user) {
            Some(s) => *s,
            None => return Err(SubscriptionError::SubscriptionNotFound),
        };
        if sub.status != SubscriptionStatus::Paused {
            return Err(SubscriptionError::NotPaused);
        }
        let pause_duration: u64 = if now > sub.paused_at { now - sub.paused_at } else { 0 };
        let expires_at = match sub.expires_at.checked_add(pause_duration) {
            Some(e) => e,
            None => return Err(SubscriptionError::ArithmeticOverflow),
        };
        let resumed = Subscription {
            status: SubscriptionStatus::Active,
            paused_at: 0,
            expires_at,
            ..sub
        };
        self.subscriptions.insert(user, resumed);
        Ok(())
    }

    /// Cancels the subscription of `user`.
    pub fn cancel_subscription(&mut self, user: AccountId) -> (r: Result<(), SubscriptionError>)
        requires
            old(self).wf(),
        ensures
            final(self).wf(),
            final(self).contract_id() == old(self).contract_id(),
            final(self).tiers_view() == old(self).tiers_view(),
            !old(self).subscriptions_view().contains_key(user) ==> r == Err::<(), SubscriptionError>(
                SubscriptionError::SubscriptionNotFound,
            ) && final(self).subscriptions_view() == old(self).subscriptions_view(),
            old(self).subscriptions_view().contains_key(user) ==> match cancel_step(
                old(self).subscriptions_view()[user],
            ) {
                Ok(s) => r is Ok && final(self).subscriptions_view() == old(self).subscriptions_view().insert(user, s),
                Err(e) => r == Err::<(), SubscriptionError>(e) && final(self).subscriptions_view()
                    == old(self).subscriptions_view(),
            },
    {
        let sub = match self.subscriptions.get(&user) {
            Some(s) => *s,
            None => return Err(SubscriptionError::SubscriptionNotFound),
        };
        if sub.status == SubscriptionStatus::Cancelled {
            return Err(SubscriptionError::NotCancellable);
        }
        let cancelled = Subscription { status: SubscriptionStatus::Cancelled, ..sub };
        self.subscriptions.insert(user, cancelled);
        Ok(())
    }

    /// Renews the active subscription of `user` for one more billing cycle; the user
    /// owes the contract the subscription's amount.
    pub fn renew_subscription(&mut self, user: AccountId) -> (r: Result<Transfer, SubscriptionError>)
        requires
            old(self).wf(),
        ensures
            final(self).wf(),
            final(self).contract_id() == old(self).contract_id(),
            final(self).tiers_view() == old(self).tiers_view(),
            !old(self).subscriptions_view().contains_key(user) ==> r == Err::<Transfer, SubscriptionError>(
                SubscriptionError::SubscriptionNotFound,
            ) && final(self).subscriptions_view() == old(self).subscriptions_view(),
            old(self).subscriptions_view().contains_key(user) ==> match renew_step(
                old(self).subscriptions_view()[user],
            ) {
                Ok(s) => r == Ok::<Transfer, SubscriptionError>(Transfer {
                    token: s.payment_token,
                    from: user,
                    to: old(self).contract_id(),
                    amount: s.amount,
                }) && final(self).subscriptions_view() == old(self).subscriptions_view().insert(user, s),
                Err(e) => r == Err::<Transfer, SubscriptionError>(e) && final(self).subscriptions_view()
                    == old(self).subscriptions_view(),
            },
    {
        let sub = match self.subscriptions.get(&user) {
            Some(s) => *s,
            None => return Err(SubscriptionError::SubscriptionNotFound),
        };
        if sub.status == SubscriptionStatus::Cancelled {
            return Err(SubscriptionError::CannotRenewCancelled);
        }
        if sub.status != SubscriptionStatus::Active {
            return Err(SubscriptionError::NotActive);
        }
        let expires_at = match sub.expires_at.checked_add(sub.billing_cycle) {
            Some(e) => e,
            None => return Err(SubscriptionError::ArithmeticOverflow),
        };
        let renewed = Subscription { expires_at, ..sub };
        self.subscriptions.insert(user, renewed);
        Ok(Transfer { token: sub.payment_token, from: user, to: self.contract, amount: sub.amount })
    }
}

} // verus!
