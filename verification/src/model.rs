//! A model of the ledger and of the token service as the protocol expects
//! them to behave: accounts by address, at most one open trade, and the
//! effect of every request. The operations themselves move nothing; what a
//! successful operation brings about is stated here, over this model.

use crate::cpi::Action;
use crate::errors::Refusal;
use crate::instructions::initialize::InitializedView;
use crate::state::{
    AccountFacts, AccountState, EscrowTerms, Key, TokenAccount, SYSTEM_PROGRAM_ID,
};
use crate::traits::SettlementView;
use crate::utils::token_program_key;
use vstd::prelude::*;

verus! {

/// The state of the ledger: every account that exists, by its address, and
/// the open trade, if there is one, with the address of its escrow account.
#[verifier::ext_equal]
pub struct World {
    pub accounts: Map<Key, AccountFacts>,
    pub record: Option<(Key, EscrowTerms)>,
}

/// The address of the program that controls plain wallets.
pub open spec fn system_program_key() -> Key {
    Key { bytes: SYSTEM_PROGRAM_ID }
}

/// What there is at an address at which no account exists.
pub open spec fn vacant(key: Key) -> AccountFacts {
    AccountFacts { key, owner: system_program_key(), lamports: 0, token: None }
}

/// A vault as it is right after its creation: an empty token account of
/// `mint` that `owner` owns, with no storage deposit.
pub open spec fn fresh_vault(vault: Key, mint: Key, owner: Key) -> AccountFacts {
    AccountFacts {
        key: vault,
        owner: token_program_key(),
        lamports: 0,
        token: Some(TokenAccount { mint, owner, amount: 0, state: AccountState::Initialized }),
    }
}

impl World {
    /// What the validator reads at an address.
    pub open spec fn facts(self, key: Key) -> AccountFacts {
        if self.accounts.contains_key(key) {
            self.accounts[key]
        } else {
            vacant(key)
        }
    }

    /// The token account at an address, if there is one in use.
    pub open spec fn token(self, key: Key) -> Option<TokenAccount> {
        match self.facts(key).token {
            Some(account) => if account.state == AccountState::Initialized {
                Some(account)
            } else {
                None
            },
            None => None,
        }
    }

    /// The native currency at an address.
    pub open spec fn lamports(self, key: Key) -> u64 {
        self.facts(key).lamports
    }

    /// The world with the token account at `key` replaced.
    pub open spec fn with_token(self, key: Key, account: TokenAccount) -> World {
        World {
            accounts: self.accounts.insert(
                key,
                AccountFacts { token: Some(account), ..self.accounts[key] },
            ),
            ..self
        }
    }

    /// The world with the balance at `key` replaced.
    pub open spec fn with_lamports(self, key: Key, lamports: u64) -> World {
        World {
            accounts: self.accounts.insert(key, AccountFacts { lamports, ..self.accounts[key] }),
            ..self
        }
    }
}

/// Native currency moves between two existing accounts, if the payer has it
/// and the receiver's balance can hold it.
pub open spec fn move_currency(w: World, from: Key, to: Key, lamports: u64) -> Option<World> {
    if from != to && w.accounts.contains_key(from) && w.accounts.contains_key(to) && w.lamports(from)
        >= lamports && w.lamports(to) + lamports <= u64::MAX {
        Some(
            w.with_lamports(from, (w.lamports(from) - lamports) as u64).with_lamports(
                to,
                (w.lamports(to) + lamports) as u64,
            ),
        )
    } else {
        None
    }
}

/// An account disappears and its balance goes to another existing account.
pub open spec fn reclaim(w: World, account: Key, destination: Key) -> Option<World> {
    if account != destination && w.accounts.contains_key(account) && w.accounts.contains_key(
        destination,
    ) && w.lamports(destination) + w.lamports(account) <= u64::MAX {
        Some(
            World {
                accounts: w.accounts.remove(account).insert(
                    destination,
                    AccountFacts {
                        lamports: (w.lamports(destination) + w.lamports(account)) as u64,
                        ..w.accounts[destination]
                    },
                ),
                ..w
            },
        )
    } else {
        None
    }
}

/// The effect of one request, or `None` where the service or the host
/// refuses it.
pub open spec fn step(w: World, action: Action) -> Option<World> {
    match action {
        Action::CreateVault { payer, vault, mint, source, bump } => {
            if !w.accounts.contains_key(vault) && w.accounts.contains_key(payer) {
                Some(World { accounts: w.accounts.insert(vault, fresh_vault(vault, mint, payer)), ..w })
            } else {
                None
            }
        },
        Action::SetOwner { change, new_owner } => {
            match w.token(change.account_or_mint) {
                Some(account) => if account.owner == change.current_authority {
                    Some(
                        w.with_token(
                            change.account_or_mint,
                            TokenAccount { owner: new_owner, ..account },
                        ),
                    )
                } else {
                    None
                },
                None => None,
            }
        },
        Action::Transfer { transfer } => {
            match (w.token(transfer.from), w.token(transfer.to)) {
                (Some(source), Some(target)) => if transfer.from != transfer.to && source.mint
                    == target.mint && source.owner == transfer.authority && source.amount >= 1
                    && target.amount < u64::MAX {
                    Some(
                        w.with_token(
                            transfer.from,
                            TokenAccount { amount: (source.amount - 1) as u64, ..source },
                        ).with_token(
                            transfer.to,
                            TokenAccount { amount: (target.amount + 1) as u64, ..target },
                        ),
                    )
                } else {
                    None
                },
                _ => None,
            }
        },
        Action::Close { close } => {
            match w.token(close.account) {
                Some(account) => if account.owner == close.authority && account.amount == 0 {
                    reclaim(w, close.account, close.destination)
                } else {
                    None
                },
                None => None,
            }
        },
        Action::SystemTransfer { from, to, lamports } => move_currency(w, from, to, lamports),
        Action::ReleaseCurrency { escrow, to, lamports } => {
            match w.record {
                Some((key, _)) => if key == escrow {
                    move_currency(w, escrow, to, lamports)
                } else {
                    None
                },
                None => None,
            }
        },
        Action::CloseRecord { escrow, destination } => {
            match w.record {
                Some((key, _)) => if key == escrow {
                    match reclaim(w, escrow, destination) {
                        Some(after) => Some(World { record: None, ..after }),
                        None => None,
                    }
                } else {
                    None
                },
                None => None,
            }
        },
    }
}

/// The effect of the requests in order, or `None` where one of them is
/// refused. A fault at position `fault` makes the request there fail
/// whatever the state.
pub open spec fn run(w: World, actions: Seq<Action>, fault: Option<int>) -> Option<World>
    decreases actions.len(),
{
    if actions.len() == 0 {
        Some(w)
    } else {
        match run(w, actions.drop_last(), fault) {
            Some(before) => if fault == Some(actions.len() - 1) {
                None
            } else {
                step(before, actions.last())
            },
            None => None,
        }
    }
}

/// What the host leaves behind: the effect of all requests, or the state
/// as it was.
pub open spec fn commit(w: World, actions: Seq<Action>, fault: Option<int>) -> World {
    match run(w, actions, fault) {
        Some(after) => after,
        None => w,
    }
}

/// The host allocates the escrow account for `program_id` and stores the
/// terms in it, if the address is unused and no trade is open.
pub open spec fn open_record(w: World, program_id: Key, escrow: Key, terms: EscrowTerms) -> Option<
    World,
> {
    if w.record is None && !w.accounts.contains_key(escrow) {
        Some(
            World {
                accounts: w.accounts.insert(
                    escrow,
                    AccountFacts { key: escrow, owner: program_id, lamports: 0, token: None },
                ),
                record: Some((escrow, terms)),
            },
        )
    } else {
        None
    }
}

/// What an exchange or a cancellation brings about: the requests of an
/// accepted call are performed, all of them or none; a refused call has no
/// requests.
pub open spec fn settled(w: World, decision: Result<SettlementView, Refusal>, fault: Option<int>) -> World {
    match decision {
        Ok(done) => commit(w, done.actions, fault),
        Err(_) => w,
    }
}

/// What opening a trade brings about: the record is stored, then the
/// requests are performed.
pub open spec fn opened(w: World, program_id: Key, escrow: Key, done: InitializedView) -> Option<
    World,
> {
    match open_record(w, program_id, escrow, done.escrow_account) {
        Some(stored) => run(stored, done.actions, None),
        None => None,
    }
}

} // verus!
