# manage_hub

The staking and subscription contracts of the hub, as a Verus-verified library.

- `src/rewards.rs`: reward accrual (principal × annual rate × multiplier × seconds,
  per year, in basis points) and the emergency-unstake penalty, with their laws.
- `src/staking.rs`: `StakingModule` — configuration, tiers, stakes, pending rewards,
  claiming, unstaking and emergency unstaking.
- `src/subscription.rs`: `SubscriptionModule` — tiers and each user's subscription
  with its create, pause, resume, cancel and renew steps.
- `src/types.rs`: integer account and tier ids, and the `Transfer` an operation owes.
- `app/lib.rs`: the Soroban host side — authorisation, ledger time, address and
  tier-id interning, token transfers and events.

An operation that moves tokens (stake, unstake, emergency unstake, claim, create and
renew a subscription) returns the token transfer to perform; the others (configuring,
adding or setting tiers, pause, resume, cancel) return nothing on success. An operation
that refuses a request returns the error and leaves the state unchanged.
