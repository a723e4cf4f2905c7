//! Verified core of the hub's staking and subscription contracts.
//!
//! The library holds the contracts' state as plain values and decides every
//! operation: what is stored afterwards, which token transfer is owed, and
//! which error refuses a request. The host (authorisation, ledger time,
//! persistent storage and the token contracts) stays outside.

pub mod rewards;
pub mod staking;
pub mod subscription;
pub mod types;
