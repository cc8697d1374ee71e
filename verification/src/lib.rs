//! Escrow-mediated swap of non-fungible assets and native currency between
//! two parties.
//!
//! An operation reads the accounts that the host hands over, decides, and
//! gives back what is to be stored and requested. It moves nothing itself:
//! the host performs the requests, all of them or none.
//!
//! `state`, `errors` and `cpi` hold the values that the operations work on;
//! `host` what the platform's libraries compute; `utils` and `assets` the
//! checks on single accounts and on the list of asset references;
//! `instructions` and `traits` the four operations; `model` and `ledger` a
//! model of the ledger; `laws` what the decisions of the operations bring
//! about on it, and `outcomes` the same of what the operations return.

pub mod assets;
pub mod cpi;
pub mod errors;
pub mod host;
pub mod instructions;
pub mod laws;
pub mod ledger;
pub mod model;
pub mod outcomes;
pub mod state;
pub mod traits;
pub mod utils;

use crate::errors::Refusal;
use crate::instructions::cancel_by_initializer::CancelByInitializer;
use crate::instructions::cancel_by_taker::CancelByTaker;
use crate::instructions::exchange::Exchange;
use crate::instructions::initialize::{initialized_view, Initialize, Initialized};
use crate::instructions::Context;
use crate::traits::{settlement_view, Settlement};
use vstd::prelude::*;

verus! {

/// Opens a trade between the initializer and the taker.
pub fn initialize(
    ctx: &Context<Initialize>,
    initializer_additional_sol_amount: u64,
    taker_additional_sol_amount: u64,
    initializer_nft_amount: u8,
    taker_nft_amount: u8,
    vault_account_bumps: Vec<u8>,
) -> (r: Result<Initialized, Refusal>)
    ensures
        initialized_view(r) == instructions::initialize::outcome(
            *ctx,
            initializer_additional_sol_amount,
            taker_additional_sol_amount,
            initializer_nft_amount,
            taker_nft_amount,
            vault_account_bumps@,
        ),
{
    instructions::initialize::handler(
        ctx,
        initializer_additional_sol_amount,
        taker_additional_sol_amount,
        initializer_nft_amount,
        taker_nft_amount,
        vault_account_bumps,
    )
}

/// Settles the trade that the escrow account records.
pub fn exchange(
    ctx: &Context<Exchange>,
    initializer_additional_sol_amount: u64,
    taker_additional_sol_amount: u64,
) -> (r: Result<Settlement, Refusal>)
    ensures
        settlement_view(r) == instructions::exchange::outcome(
            *ctx,
            initializer_additional_sol_amount,
            taker_additional_sol_amount,
        ),
{
    instructions::exchange::handler(
        ctx,
        initializer_additional_sol_amount,
        taker_additional_sol_amount,
    )
}

/// Cancels the trade on the initializer's word.
pub fn cancel_by_initializer(ctx: Context<CancelByInitializer>) -> (r: Result<Settlement, Refusal>)
    ensures
        settlement_view(r) == instructions::cancel_by_initializer::outcome(ctx),
{
    instructions::cancel_by_initializer::handler(ctx)
}

/// Cancels the trade on the taker's word.
pub fn cancel_by_taker(ctx: Context<CancelByTaker>) -> (r: Result<Settlement, Refusal>)
    ensures
        settlement_view(r) == instructions::cancel_by_taker::outcome(ctx),
{
    instructions::cancel_by_taker::handler(ctx)
}

} // verus!
