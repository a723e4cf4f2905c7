//! Identities and the token movements the contracts ask their host to make.

use vstd::prelude::*;

verus! {

/// An account or contract, held as the integer by which the host finds it again.
pub type AccountId = u64;

/// A tier identifier, held as the integer by which the host finds it again.
pub type TierId = u64;

/// The tier id made from a one-byte seed (the id whose 32 bytes all equal `seed`).
pub fn tier_id(seed: u8) -> (id: TierId)
    ensures
        id == seed as TierId,
{
    seed as TierId
}

/// A token transfer owed by an operation: `amount` units of the token
/// `token` move from `from` to `to`.
#[derive(Clone, Copy, Debug, PartialEq, Eq, Structural)]
pub struct Transfer {
    pub token: AccountId,
    pub from: AccountId,
    pub to: AccountId,
    pub amount: i128,
}

} // verus!
