//! Cancelling a trade on the initializer's word.

use crate::errors::Refusal;
use crate::instructions::Context;
use crate::state::{AccountSnapshot, EscrowAccount, Key};
use crate::traits::{
    cancel, cancel_outcome, check_parties, parties_verdict, settlement_view, CancelContext,
    CancelContextAccounts, Settlement, SettlementView,
};
use crate::utils::{assert_signed, signature_verdict};
use vstd::prelude::*;

verus! {

/// The accounts that the operation names, with the record that the escrow
/// account holds. The initializer is the party that asks.
#[derive(Clone, Debug, PartialEq, Eq)]
pub struct CancelByInitializer {
    pub initializer: AccountSnapshot,
    pub taker: AccountSnapshot,
    pub vault_authority: Key,
    pub escrow_account: Key,
    pub escrow_record: EscrowAccount,
}

/// The call as the shared cancellation takes it.
pub open spec fn cancel_context(ctx: Context<CancelByInitializer>) -> CancelContext {
    CancelContext {
        program_id: ctx.program_id,
        accounts: CancelContextAccounts {
            initializer: ctx.accounts.initializer,
            taker: ctx.accounts.taker,
            vault_authority: ctx.accounts.vault_authority,
            escrow_account: ctx.accounts.escrow_account,
            escrow_record: ctx.accounts.escrow_record,
        },
        remaining_accounts: ctx.remaining_accounts,
    }
}

/// What the operation comes to: the initializer must have signed; the two
/// parties must be the recorded ones; the rest is the shared cancellation.
pub open spec fn outcome(ctx: Context<CancelByInitializer>) -> Result<SettlementView, Refusal> {
    match signature_verdict(ctx.accounts.initializer) {
        Err(e) => Err(e),
        Ok(_) => match parties_verdict(
            ctx.accounts.escrow_record@,
            ctx.accounts.initializer.key,
            ctx.accounts.taker.key,
        ) {
            Err(e) => Err(e),
            Ok(_) => cancel_outcome(cancel_context(ctx)),
        },
    }
}

/// Cancels a trade. The other party is not asked: nothing of what it owns
/// is moved.
pub fn handler(ctx: Context<CancelByInitializer>) -> (r: Result<Settlement, Refusal>)
    ensures
        settlement_view(r) == outcome(ctx),
{
    match assert_signed(&ctx.accounts.initializer) {
        Err(e) => { return Err(e); },
        Ok(_) => {},
    }
    match check_parties(
        &ctx.accounts.escrow_record,
        &ctx.accounts.initializer.key,
        &ctx.accounts.taker.key,
    ) {
        Err(e) => { return Err(e); },
        Ok(_) => {},
    }
    let cancel_context = CancelContext {
        program_id: ctx.program_id,
        accounts: CancelContextAccounts {
            initializer: ctx.accounts.initializer,
            taker: ctx.accounts.taker,
            vault_authority: ctx.accounts.vault_authority,
            escrow_account: ctx.accounts.escrow_account,
            escrow_record: ctx.accounts.escrow_record,
        },
        remaining_accounts: ctx.remaining_accounts,
    };
    cancel(&cancel_context)
}

} // verus!
