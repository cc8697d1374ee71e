//! The laws once more, of what the public operations return: each statement
//! here speaks of the `outcome` of an operation on a call as the host hands
//! it over, and follows from the law of the same content on decisions.

use crate::assets::{
    account_keys, holding_verdict, lemma_triples, pairs, source_keys, triples, vault_keys,
    vault_verdict, AssetAccount, VaultedAsset,
};
use crate::instructions::cancel_by_initializer::CancelByInitializer;
use crate::instructions::cancel_by_taker::CancelByTaker;
use crate::instructions::exchange::{reference_count, Exchange};
use crate::instructions::initialize::Initialize;
use crate::instructions::{cancel_by_initializer, cancel_by_taker, exchange, initialize, Context};
use crate::laws::{
    cancel_ready, exchange_ready, holding, initialize_ready, is_vault, lemma_cancel_restores,
    lemma_exchange_accepts_exactly, lemma_exchange_swaps, lemma_fault_fails,
    lemma_initialize_establishes, lemma_round_trip, lemma_two_assets_for_five_units, seen,
    total_lamports, two_for_five,
};
use crate::model::{opened, run, settled, World};
use crate::state::{AccountState, Key, TokenAccount};
use crate::traits::{CancelContext, SettlementView};
use crate::errors::Refusal;
use crate::utils::{authority_verdict, token_program_key, vault_authority_of};
use vstd::prelude::*;

verus! {

/// The assets that a call to open a trade pledges, as its list of
/// references shows them.
pub open spec fn pledged(ctx: Context<Initialize>, bumps: Seq<u8>) -> Seq<VaultedAsset> {
    triples(ctx.remaining_accounts@, bumps, ctx.accounts.initializer.key, ctx.program_id)
}

/// After every accepted call of `initialize`, once its requests are
/// performed: the record exists and holds the parties, the pledges and the
/// salts of the call and the accounts at every third place of its list; there
/// is one vault for each pledged asset, at the address that the list names
/// after the asset's account, and it holds exactly one unit of the asset for
/// the vault authority derived for the two parties; the vaults and the escrow
/// account are the only new accounts; and the currency pledge has moved from
/// the initializer to the escrow account.
pub proof fn lemma_initialize_outcome_establishes(
    w: World,
    ctx: Context<Initialize>,
    initializer_additional_sol_amount: u64,
    taker_additional_sol_amount: u64,
    initializer_nft_amount: u8,
    taker_nft_amount: u8,
    vault_account_bumps: Seq<u8>,
)
    requires
        initialize::outcome(
            ctx,
            initializer_additional_sol_amount,
            taker_additional_sol_amount,
            initializer_nft_amount,
            taker_nft_amount,
            vault_account_bumps,
        ) is Ok,
        initialize_ready(w, ctx.accounts, pledged(ctx, vault_account_bumps)),
    ensures
        initialize::outcome(
            ctx,
            initializer_additional_sol_amount,
            taker_additional_sol_amount,
            initializer_nft_amount,
            taker_nft_amount,
            vault_account_bumps,
        ) matches Ok(done) && opened(w, ctx.program_id, ctx.accounts.escrow_account, done) matches Some(
            after,
        ) && {
            let assets = pledged(ctx, vault_account_bumps);
            &&& after.record == Some((ctx.accounts.escrow_account, done.escrow_account))
            &&& done.escrow_account.well_formed()
            &&& done.escrow_account.initializer_key == ctx.accounts.initializer.key
            &&& done.escrow_account.taker_key == ctx.accounts.taker.key
            &&& done.escrow_account.initializer_additional_sol_amount
                == initializer_additional_sol_amount
            &&& done.escrow_account.taker_additional_sol_amount == taker_additional_sol_amount
            &&& done.escrow_account.vault_account_bumps == vault_account_bumps
            &&& done.escrow_account.initializer_nft_token_accounts == Seq::new(
                vault_account_bumps.len(),
                |index: int| ctx.remaining_accounts@[3 * index].key,
            )
            &&& done.escrow_account.taker_nft_token_accounts.len() == taker_nft_amount
            &&& assets.len() == initializer_nft_amount
            &&& vault_authority_of(
                ctx.accounts.initializer.key,
                ctx.accounts.taker.key,
                ctx.program_id,
            ) matches Some((authority, bump))
            &&& authority == ctx.accounts.vault_authority
            &&& done.vault_authority.bump == bump
            &&& forall|i: int|
                0 <= i < assets.len() ==> (#[trigger] assets[i]).vault.key
                    == ctx.remaining_accounts@[3 * i + 1].key && assets[i].source.mint
                    == ctx.remaining_accounts@[3 * i + 2].key && after.token(assets[i].vault.key)
                    == Some(
                    TokenAccount {
                        mint: assets[i].source.mint,
                        owner: ctx.accounts.vault_authority,
                        amount: 1,
                        state: AccountState::Initialized,
                    },
                )
            &&& forall|key: Key| #[trigger]
                after.accounts.contains_key(key) <==> w.accounts.contains_key(key) || key
                    == ctx.accounts.escrow_account || is_vault(assets, key)
            &&& after.lamports(ctx.accounts.escrow_account) == initializer_additional_sol_amount
            &&& after.lamports(ctx.accounts.initializer.key) == w.lamports(
                ctx.accounts.initializer.key,
            ) - initializer_additional_sol_amount
        },
{
    let assets = pledged(ctx, vault_account_bumps);
    lemma_triples(
        ctx.remaining_accounts@,
        vault_account_bumps,
        ctx.accounts.initializer.key,
        ctx.program_id,
    );
    lemma_initialize_establishes(
        w,
        ctx.program_id,
        ctx.accounts,
        vault_authority_of(ctx.accounts.initializer.key, ctx.accounts.taker.key, ctx.program_id),
        token_program_key(),
        initializer_additional_sol_amount,
        taker_additional_sol_amount,
        assets,
        pairs(
            ctx.remaining_accounts@,
            3 * initializer_nft_amount,
            taker_nft_amount as int,
            ctx.accounts.taker.key,
        ),
    );
}

/// The four blocks of references of a call to exchange, as its list shows
/// them: the vaulted assets, the taker's sources, the taker's destinations
/// and the initializer's destinations.
pub open spec fn blocks(ctx: Context<Exchange>) -> (
    Seq<VaultedAsset>,
    Seq<AssetAccount>,
    Seq<AssetAccount>,
    Seq<AssetAccount>,
) {
    let terms = ctx.accounts.escrow_record@;
    let initializer = ctx.accounts.initializer.key;
    let taker = ctx.accounts.taker.key;
    let given = terms.initializer_nft_token_accounts.len() as int;
    let wanted = terms.taker_nft_token_accounts.len() as int;
    let offset = 3 * given + 2 * wanted;
    (
        triples(ctx.remaining_accounts@, terms.vault_account_bumps, initializer, ctx.program_id),
        pairs(ctx.remaining_accounts@, 3 * given, wanted, taker),
        pairs(ctx.remaining_accounts@, offset, given, taker),
        pairs(ctx.remaining_accounts@, offset + 2 * given, wanted, initializer),
    )
}

/// `exchange` on an open trade accepts a call exactly if the taker has
/// signed, the declared pledges are the recorded ones, the taker has its
/// currency pledge, the two parties are the recorded ones, the list has the
/// length that the record implies, the vault authority is the derived one,
/// the sources on both sides are the recorded accounts, and every vault and
/// every account passes its check. A refused call changes nothing on the
/// ledger.
pub proof fn lemma_exchange_outcome_accepts_exactly(
    w: World,
    fault: Option<int>,
    ctx: Context<Exchange>,
    initializer_additional_sol_amount: u64,
    taker_additional_sol_amount: u64,
)
    requires
        ctx.accounts.escrow_record@.well_formed(),
    ensures
        ({
            let terms = ctx.accounts.escrow_record@;
            let initializer = ctx.accounts.initializer.key;
            let taker = ctx.accounts.taker.key;
            let (vaulted, taker_sources, taker_destinations, initializer_destinations) = blocks(
                ctx,
            );
            let outcome = exchange::outcome(
                ctx,
                initializer_additional_sol_amount,
                taker_additional_sol_amount,
            );
            &&& outcome is Ok <==> {
                &&& ctx.accounts.taker.is_signer
                &&& initializer_additional_sol_amount == terms.initializer_additional_sol_amount
                &&& taker_additional_sol_amount == terms.taker_additional_sol_amount
                &&& ctx.accounts.taker.lamports >= taker_additional_sol_amount
                &&& terms.initializer_key == initializer
                &&& terms.taker_key == taker
                &&& ctx.remaining_accounts@.len() == reference_count(terms)
                &&& authority_verdict(
                    ctx.accounts.vault_authority,
                    vault_authority_of(initializer, taker, ctx.program_id),
                ) is Ok
                &&& source_keys(vaulted) == terms.initializer_nft_token_accounts
                &&& account_keys(taker_sources) == terms.taker_nft_token_accounts
                &&& forall|i: int|
                    0 <= i < vaulted.len() ==> vault_verdict(
                        #[trigger] vaulted[i],
                        token_program_key(),
                        initializer,
                        ctx.accounts.vault_authority,
                    ) is Ok
                &&& forall|i: int|
                    0 <= i < taker_sources.len() ==> holding_verdict(
                        #[trigger] taker_sources[i],
                        token_program_key(),
                        taker,
                        true,
                    ) is Ok
                &&& forall|i: int|
                    0 <= i < taker_destinations.len() ==> holding_verdict(
                        #[trigger] taker_destinations[i],
                        token_program_key(),
                        taker,
                        false,
                    ) is Ok
                &&& forall|i: int|
                    0 <= i < initializer_destinations.len() ==> holding_verdict(
                        #[trigger] initializer_destinations[i],
                        token_program_key(),
                        initializer,
                        false,
                    ) is Ok
            }
            &&& outcome is Err ==> settled(w, outcome, fault) == w
        }),
{
    let (vaulted, taker_sources, taker_destinations, initializer_destinations) = blocks(ctx);
    lemma_exchange_accepts_exactly(
        w,
        fault,
        ctx.accounts,
        vault_authority_of(ctx.accounts.initializer.key, ctx.accounts.taker.key, ctx.program_id),
        token_program_key(),
        initializer_additional_sol_amount,
        taker_additional_sol_amount,
        vaulted,
        taker_sources,
        taker_destinations,
        initializer_destinations,
    );
}

/// What `exchange`, `cancel_by_initializer` and `cancel_by_taker` return
/// takes effect as a whole or not at all: a fault at any request of an
/// accepted call leaves the ledger as it was before the first.
pub proof fn lemma_fault_leaves_outcome_without_effect(
    w: World,
    outcome: Result<SettlementView, Refusal>,
    position: int,
)
    requires
        outcome matches Ok(done) ==> 0 <= position < done.actions.len(),
    ensures
        settled(w, outcome, Some(position)) == w,
{
    if outcome is Ok {
        lemma_fault_fails(w, outcome->Ok_0.actions, position);
    }
}

/// A fault at any request of an accepted `exchange` leaves the ledger as
/// it was before the exchange.
pub proof fn lemma_exchange_outcome_is_atomic(
    w: World,
    ctx: Context<Exchange>,
    initializer_additional_sol_amount: u64,
    taker_additional_sol_amount: u64,
    position: int,
)
    requires
        exchange::outcome(
            ctx,
            initializer_additional_sol_amount,
            taker_additional_sol_amount,
        ) matches Ok(done) && 0 <= position < done.actions.len(),
    ensures
        settled(
            w,
            exchange::outcome(ctx, initializer_additional_sol_amount, taker_additional_sol_amount),
            Some(position),
        ) == w,
{
    lemma_fault_leaves_outcome_without_effect(
        w,
        exchange::outcome(ctx, initializer_additional_sol_amount, taker_additional_sol_amount),
        position,
    );
}

/// After every accepted call of `exchange`, once its requests are
/// performed: the initializer's destinations hold the taker's assets and the
/// taker's sources, which are the accounts that the record names, are empty;
/// the taker's destinations hold the vaulted assets and no vault is left; the
/// record and the escrow account are gone; the taker has paid its currency
/// pledge and received the initializer's; and the initializer has received
/// the taker's pledge and what the vaults and the escrow account held beside
/// the initializer's own pledge.
pub proof fn lemma_exchange_outcome_swaps(
    w: World,
    ctx: Context<Exchange>,
    initializer_additional_sol_amount: u64,
    taker_additional_sol_amount: u64,
)
    requires
        exchange::outcome(ctx, initializer_additional_sol_amount, taker_additional_sol_amount) is Ok,
        exchange_ready(w, ctx.accounts, blocks(ctx).0, blocks(ctx).1, blocks(ctx).2, blocks(ctx).3),
    ensures
        exchange::outcome(
            ctx,
            initializer_additional_sol_amount,
            taker_additional_sol_amount,
        ) matches Ok(done) && run(w, done.actions, None) matches Some(after) && {
            let (vaulted, taker_sources, taker_destinations, initializer_destinations) = blocks(
                ctx,
            );
            &&& after.record is None
            &&& source_keys(vaulted) == ctx.accounts.escrow_record@.initializer_nft_token_accounts
            &&& account_keys(taker_sources) == ctx.accounts.escrow_record@.taker_nft_token_accounts
            &&& forall|key: Key| #[trigger]
                after.accounts.contains_key(key) <==> w.accounts.contains_key(key) && !is_vault(
                    vaulted,
                    key,
                ) && key != ctx.accounts.escrow_account
            &&& forall|i: int|
                0 <= i < initializer_destinations.len() ==> after.accounts[(
                #[trigger] initializer_destinations[i]).account.key] == holding(
                    w.accounts[initializer_destinations[i].account.key],
                    1,
                )
            &&& forall|i: int|
                0 <= i < taker_sources.len() ==> after.accounts[(
                #[trigger] taker_sources[i]).account.key] == holding(
                    w.accounts[taker_sources[i].account.key],
                    0,
                )
            &&& forall|i: int|
                0 <= i < taker_destinations.len() ==> after.accounts[(
                #[trigger] taker_destinations[i]).account.key] == holding(
                    w.accounts[taker_destinations[i].account.key],
                    1,
                )
            &&& after.lamports(ctx.accounts.taker.key) == w.lamports(ctx.accounts.taker.key)
                - taker_additional_sol_amount + initializer_additional_sol_amount
            &&& after.lamports(ctx.accounts.initializer.key) == w.lamports(
                ctx.accounts.initializer.key,
            ) + taker_additional_sol_amount + total_lamports(w, vault_keys(vaulted)) + w.lamports(
                ctx.accounts.escrow_account,
            ) - initializer_additional_sol_amount
        },
{
    let (vaulted, taker_sources, taker_destinations, initializer_destinations) = blocks(ctx);
    lemma_exchange_swaps(
        w,
        ctx.accounts,
        vault_authority_of(ctx.accounts.initializer.key, ctx.accounts.taker.key, ctx.program_id),
        token_program_key(),
        initializer_additional_sol_amount,
        taker_additional_sol_amount,
        vaulted,
        taker_sources,
        taker_destinations,
        initializer_destinations,
    );
    crate::laws::lemma_total_lamports(w, vault_keys(vaulted));
}

/// The vaulted assets of a cancellation, as its list of references shows
/// them.
pub open spec fn vaulted(ctx: CancelContext) -> Seq<VaultedAsset> {
    triples(
        ctx.remaining_accounts@,
        ctx.accounts.escrow_record@.vault_account_bumps,
        ctx.accounts.initializer.key,
        ctx.program_id,
    )
}

/// What a cancellation has brought about: every vaulted asset is back in
/// the account it came from, which the record names and the initializer owns;
/// no vault is left; the record and the escrow account are gone; the
/// initializer has what the escrow account held, the currency pledge
/// included, and what the vaults held; and no account but these has changed.
pub open spec fn restored(w: World, after: World, ctx: CancelContext) -> bool {
    let assets = vaulted(ctx);
    let initializer = ctx.accounts.initializer.key;
    let escrow = ctx.accounts.escrow_account;
    &&& after.record is None
    &&& !after.accounts.contains_key(escrow)
    &&& source_keys(assets) == ctx.accounts.escrow_record@.initializer_nft_token_accounts
    &&& forall|i: int|
        0 <= i < assets.len() ==> {
            &&& (#[trigger] assets[i]).vault.key == ctx.remaining_accounts@[3 * i + 1].key
            &&& assets[i].source.account.key == ctx.remaining_accounts@[3 * i].key
            &&& !after.accounts.contains_key(assets[i].vault.key)
            &&& w.token(assets[i].source.account.key) matches Some(before)
            &&& before.owner == initializer
            &&& after.token(assets[i].source.account.key) == Some(
                TokenAccount { amount: 1, ..before },
            )
        }
    &&& w.lamports(escrow) >= ctx.accounts.escrow_record@.initializer_additional_sol_amount
    &&& after.lamports(initializer) == w.lamports(initializer) + total_lamports(
        w,
        vault_keys(assets),
    ) + w.lamports(escrow)
    &&& forall|key: Key|
        w.accounts.contains_key(key) && !is_vault(assets, key) && !crate::laws::is_source(
            assets,
            key,
        ) && key != initializer && key != escrow ==> after.accounts.contains_key(key)
            && #[trigger] after.accounts[key] == w.accounts[key]
}

/// The shared part of the two laws on cancellation.
proof fn lemma_cancel_outcome(w: World, ctx: CancelContext)
    requires
        crate::traits::cancel_outcome(ctx) is Ok,
        cancel_ready(w, ctx.accounts, vaulted(ctx)),
    ensures
        crate::traits::cancel_outcome(ctx) matches Ok(done) && run(
            w,
            done.actions,
            None,
        ) matches Some(after) && restored(w, after, ctx),
{
    let assets = vaulted(ctx);
    lemma_cancel_restores(
        w,
        ctx.accounts,
        vault_authority_of(ctx.accounts.initializer.key, ctx.accounts.taker.key, ctx.program_id),
        token_program_key(),
        assets,
    );
    crate::laws::lemma_total_lamports(w, vault_keys(assets));
    lemma_triples(
        ctx.remaining_accounts@,
        ctx.accounts.escrow_record@.vault_account_bumps,
        ctx.accounts.initializer.key,
        ctx.program_id,
    );
}

/// After every accepted call of `cancel_by_initializer`, once its requests
/// are performed, the trade is undone in favour of the initializer; the taker
/// has neither signed nor is any of its accounts touched.
pub proof fn lemma_cancel_by_initializer_outcome_restores(
    w: World,
    ctx: Context<CancelByInitializer>,
)
    requires
        cancel_by_initializer::outcome(ctx) is Ok,
        cancel_ready(
            w,
            cancel_by_initializer::cancel_context(ctx).accounts,
            vaulted(cancel_by_initializer::cancel_context(ctx)),
        ),
    ensures
        cancel_by_initializer::outcome(ctx) matches Ok(done) && run(
            w,
            done.actions,
            None,
        ) matches Some(after) && restored(w, after, cancel_by_initializer::cancel_context(ctx)),
{
    lemma_cancel_outcome(w, cancel_by_initializer::cancel_context(ctx));
}

/// After every accepted call of `cancel_by_taker`, once its requests are
/// performed, the trade is undone in favour of the initializer, who has
/// neither signed nor been asked.
pub proof fn lemma_cancel_by_taker_outcome_restores(w: World, ctx: Context<CancelByTaker>)
    requires
        cancel_by_taker::outcome(ctx) is Ok,
        cancel_ready(
            w,
            cancel_by_taker::cancel_context(ctx).accounts,
            vaulted(cancel_by_taker::cancel_context(ctx)),
        ),
    ensures
        cancel_by_taker::outcome(ctx) matches Ok(done) && run(
            w,
            done.actions,
            None,
        ) matches Some(after) && restored(w, after, cancel_by_taker::cancel_context(ctx)),
{
    lemma_cancel_outcome(w, cancel_by_taker::cancel_context(ctx));
}

/// `initialize` and then at once `cancel_by_initializer` or
/// `cancel_by_taker` gives back the ledger as it was: where the cancelling
/// call names the parties, the vault authority and the escrow account of the
/// opening call, carries the record that was stored, and shows in its list
/// the pledged accounts as the ledger has them after the opening, it is
/// accepted, and once its requests are performed every account holds what
/// it held before the trade was opened.
pub proof fn lemma_round_trip_of_outcomes(
    w: World,
    opening: Context<Initialize>,
    by_initializer: Context<CancelByInitializer>,
    by_taker: Context<CancelByTaker>,
    initializer_additional_sol_amount: u64,
    taker_additional_sol_amount: u64,
    initializer_nft_amount: u8,
    taker_nft_amount: u8,
    vault_account_bumps: Seq<u8>,
)
    requires
        initialize::outcome(
            opening,
            initializer_additional_sol_amount,
            taker_additional_sol_amount,
            initializer_nft_amount,
            taker_nft_amount,
            vault_account_bumps,
        ) matches Ok(done) && opened(
            w,
            opening.program_id,
            opening.accounts.escrow_account,
            done,
        ) matches Some(open) && {
            let first = cancel_by_initializer::cancel_context(by_initializer);
            let second = cancel_by_taker::cancel_context(by_taker);
            &&& first.accounts.escrow_record@ == done.escrow_account
            &&& second.accounts.escrow_record@ == done.escrow_account
            &&& vaulted(first) == seen(open, pledged(opening, vault_account_bumps))
            &&& vaulted(second) == seen(open, pledged(opening, vault_account_bumps))
        },
        initialize_ready(w, opening.accounts, pledged(opening, vault_account_bumps)),
        by_initializer.accounts.initializer.is_signer,
        by_initializer.program_id == opening.program_id,
        by_initializer.accounts.initializer.key == opening.accounts.initializer.key,
        by_initializer.accounts.taker.key == opening.accounts.taker.key,
        by_initializer.accounts.vault_authority == opening.accounts.vault_authority,
        by_initializer.accounts.escrow_account == opening.accounts.escrow_account,
        by_initializer.remaining_accounts@.len() == 3 * vault_account_bumps.len(),
        by_taker.accounts.taker.is_signer,
        by_taker.program_id == opening.program_id,
        by_taker.accounts.initializer.key == opening.accounts.initializer.key,
        by_taker.accounts.taker.key == opening.accounts.taker.key,
        by_taker.accounts.vault_authority == opening.accounts.vault_authority,
        by_taker.accounts.escrow_account == opening.accounts.escrow_account,
        by_taker.remaining_accounts@.len() == 3 * vault_account_bumps.len(),
    ensures
        initialize::outcome(
            opening,
            initializer_additional_sol_amount,
            taker_additional_sol_amount,
            initializer_nft_amount,
            taker_nft_amount,
            vault_account_bumps,
        ) matches Ok(done) && opened(
            w,
            opening.program_id,
            opening.accounts.escrow_account,
            done,
        ) matches Some(open) && {
            &&& cancel_by_initializer::outcome(by_initializer) matches Ok(first)
                && run(open, first.actions, None) == Some(w)
            &&& cancel_by_taker::outcome(by_taker) matches Ok(second)
                && run(open, second.actions, None) == Some(w)
        },
{
    let assets = pledged(opening, vault_account_bumps);
    let found = vault_authority_of(
        opening.accounts.initializer.key,
        opening.accounts.taker.key,
        opening.program_id,
    );
    let taker_assets = pairs(
        opening.remaining_accounts@,
        3 * initializer_nft_amount,
        taker_nft_amount as int,
        opening.accounts.taker.key,
    );
    lemma_triples(
        opening.remaining_accounts@,
        vault_account_bumps,
        opening.accounts.initializer.key,
        opening.program_id,
    );
    lemma_round_trip(
        w,
        opening.program_id,
        opening.accounts,
        cancel_by_initializer::cancel_context(by_initializer).accounts,
        found,
        initializer_additional_sol_amount,
        taker_additional_sol_amount,
        assets,
        taker_assets,
    );
    lemma_round_trip(
        w,
        opening.program_id,
        opening.accounts,
        cancel_by_taker::cancel_context(by_taker).accounts,
        found,
        initializer_additional_sol_amount,
        taker_additional_sol_amount,
        assets,
        taker_assets,
    );
}

/// Two assets against five units of currency, of what `exchange` returns:
/// on a record of two assets of the initializer and none of the taker, with
/// pledges of no currency and of five units, an accepted call, once its
/// requests are performed, leaves the taker with both assets and five units
/// less, the initializer with five units more, and neither a vault nor the
/// record nor the escrow account.
pub proof fn lemma_two_assets_for_five_units_of_outcome(w: World, ctx: Context<Exchange>)
    requires
        exchange::outcome(ctx, 0, 5) is Ok,
        exchange_ready(w, ctx.accounts, blocks(ctx).0, blocks(ctx).1, blocks(ctx).2, blocks(ctx).3),
        ctx.accounts.escrow_record@.initializer_nft_token_accounts.len() == 2,
        ctx.accounts.escrow_record@.taker_nft_token_accounts.len() == 0,
    ensures
        exchange::outcome(ctx, 0, 5) matches Ok(done) && run(
            w,
            done.actions,
            None,
        ) matches Some(after) && two_for_five(
            w,
            after,
            ctx.accounts,
            blocks(ctx).0,
            blocks(ctx).2,
            blocks(ctx).3,
        ) && ctx.remaining_accounts@.len() == 10,
{
    lemma_two_assets_for_five_units(
        w,
        ctx.accounts,
        vault_authority_of(ctx.accounts.initializer.key, ctx.accounts.taker.key, ctx.program_id),
        token_program_key(),
        blocks(ctx).0,
        blocks(ctx).1,
        blocks(ctx).2,
        blocks(ctx).3,
    );
}

} // verus!
