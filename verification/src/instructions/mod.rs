//! The four operations of the protocol.

pub mod cancel_by_initializer;
pub mod cancel_by_taker;
pub mod exchange;
pub mod initialize;

use crate::state::{AccountSnapshot, Key};
use vstd::prelude::*;

verus! {

/// What the host hands to an operation: the address of the protocol's own
/// program, the accounts that the operation names, and the flat list of
/// asset references.
#[derive(Clone, Debug, PartialEq, Eq)]
pub struct Context<T> {
    pub program_id: Key,
    pub accounts: T,
    pub remaining_accounts: Vec<AccountSnapshot>,
}

/// The addresses that every operation names: the two parties, the escrow
/// account that holds the trade record, and the account handed over as the
/// vault authority.
#[derive(Clone, Copy, Debug, PartialEq, Eq)]
pub struct Parties {
    pub initializer: Key,
    pub taker: Key,
    pub escrow_account: Key,
    pub vault_authority: Key,
}

} // verus!
