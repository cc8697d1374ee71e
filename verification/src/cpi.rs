//! What the protocol asks of the token service and of the host: the account
//! sets of single requests, and the requests themselves in the order in which
//! an operation wants them performed.

use crate::state::Key;
use vstd::prelude::*;

verus! {

/// The accounts of a transfer of units between two token accounts.
#[derive(Clone, Copy, Debug, PartialEq, Eq)]
pub struct Transfer {
    pub from: Key,
    pub to: Key,
    pub authority: Key,
}

/// The accounts of the closing of a token account, whose storage deposit
/// goes to `destination`.
#[derive(Clone, Copy, Debug, PartialEq, Eq)]
pub struct CloseAccount {
    pub account: Key,
    pub destination: Key,
    pub authority: Key,
}

/// The accounts of a change of the party that owns a token account.
#[derive(Clone, Copy, Debug, PartialEq, Eq)]
pub struct SetAuthority {
    pub account_or_mint: Key,
    pub current_authority: Key,
}

/// One request. An operation hands back a list of them; the host performs
/// all of them in order or none.
#[derive(Clone, Copy, Debug, PartialEq, Eq)]
pub enum Action {
    /// Allocate `vault` at the address derived from the vault tag, `source`
    /// and `bump`, at the cost of `payer`, and make it an empty token account
    /// of `mint` that `payer` owns.
    CreateVault { payer: Key, vault: Key, mint: Key, source: Key, bump: u8 },
    /// Make `new_owner` the party that owns the token account.
    SetOwner { change: SetAuthority, new_owner: Key },
    /// Move one unit between two token accounts.
    Transfer { transfer: Transfer },
    /// Close an empty token account.
    Close { close: CloseAccount },
    /// Move native currency out of a party's own balance.
    SystemTransfer { from: Key, to: Key, lamports: u64 },
    /// Move native currency out of the escrow account's balance.
    ReleaseCurrency { escrow: Key, to: Key, lamports: u64 },
    /// Delete the trade record; what is left of the escrow account's
    /// balance goes to `destination`.
    CloseRecord { escrow: Key, destination: Key },
}

impl Action {
    /// The address whose holder must have signed for the request to be
    /// performed, if it needs a signature at all: the payer of a new vault,
    /// the authority over a token account, the payer of a transfer of
    /// currency. What leaves the escrow account needs no signature: the
    /// account belongs to the protocol's own program.
    pub open spec fn spec_signer(&self) -> Option<Key> {
        match *self {
            Action::CreateVault { payer, .. } => Some(payer),
            Action::SetOwner { change, .. } => Some(change.current_authority),
            Action::Transfer { transfer } => Some(transfer.authority),
            Action::Close { close } => Some(close.authority),
            Action::SystemTransfer { from, .. } => Some(from),
            Action::ReleaseCurrency { .. } => None,
            Action::CloseRecord { .. } => None,
        }
    }

    /// The address whose holder must have signed for the request to be
    /// performed, if it needs a signature at all.
    #[verifier::when_used_as_spec(spec_signer)]
    pub fn signer(&self) -> (r: Option<Key>)
        ensures
            r == self.spec_signer(),
    {
        match self {
            Action::CreateVault { payer, .. } => Some(*payer),
            Action::SetOwner { change, .. } => Some(change.current_authority),
            Action::Transfer { transfer } => Some(transfer.authority),
            Action::Close { close } => Some(close.authority),
            Action::SystemTransfer { from, .. } => Some(*from),
            Action::ReleaseCurrency { .. } => None,
            Action::CloseRecord { .. } => None,
        }
    }
}

} // verus!
