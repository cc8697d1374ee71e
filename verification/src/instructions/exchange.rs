//! Settling a trade: the taker's assets and currency go to the initializer,
//! the vaulted assets and the escrowed currency to the taker, and the record
//! is deleted.

use crate::assets::{
    account_keys, check_holdings, check_recorded, check_vaults, collect_account_keys,
    collect_source_keys, first_refusal, holding_verdicts, pairs, recorded_verdict, resolve_pairs,
    resolve_triples, source_keys, triples, vault_keys, vault_verdicts, AssetAccount,
    VaultedAsset,
};
use crate::cpi::{Action, Transfer};
use crate::errors::{MyError, Refusal};
use crate::host::token_program_id;
use crate::instructions::Context;
use crate::state::{AccountSnapshot, EscrowAccount, EscrowTerms, Key, VaultAuthority};
use crate::traits::{releases, settlement_view, Common, Settlement, SettlementView};
use crate::utils::{
    assert_signed, authority_verdict, check_vault_authority, derive_vault_authority,
    signature_verdict, token_program_key, vault_authority_of,
};
use vstd::prelude::*;

verus! {

/// The accounts that the operation names, with the record that the escrow
/// account holds.
#[derive(Clone, Debug, PartialEq, Eq)]
pub struct Exchange {
    pub taker: AccountSnapshot,
    pub initializer: AccountSnapshot,
    pub escrow_account: Key,
    pub escrow_record: EscrowAccount,
    pub vault_authority: Key,
}

impl Exchange {
    /// The accounts of the transfer that hands an asset of the taker to the
    /// initializer, on the taker's own authority.
    pub fn into_transfer_to_initializer_context(
        &self,
        taker_nft_token_account: &Key,
        initializer_nft_token_account: &Key,
    ) -> (accounts: Transfer)
        ensures
            accounts == (Transfer {
                from: *taker_nft_token_account,
                to: *initializer_nft_token_account,
                authority: self.taker.key,
            }),
    {
        Transfer {
            from: *taker_nft_token_account,
            to: *initializer_nft_token_account,
            authority: self.taker.key,
        }
    }

    /// The accounts of the transfer that hands a vaulted asset to the taker,
    /// on the vault authority's signature.
    pub fn into_transfer_to_taker_context(
        &self,
        vault_account: &Key,
        taker_nft_token_account: &Key,
    ) -> (accounts: Transfer)
        ensures
            accounts == (Transfer {
                from: *vault_account,
                to: *taker_nft_token_account,
                authority: self.vault_authority,
            }),
    {
        Transfer {
            from: *vault_account,
            to: *taker_nft_token_account,
            authority: self.vault_authority,
        }
    }
}

impl Common for Exchange {
    open spec fn closing_authority(&self) -> Key {
        self.vault_authority
    }

    open spec fn deposit_receiver(&self) -> Key {
        self.initializer.key
    }

    fn vault_authority(&self) -> (k: Key) {
        self.vault_authority
    }

    fn initializer(&self) -> (k: Key) {
        self.initializer.key
    }
}

/// The verdict on what the caller declares against the record and the
/// taker's balance. The checks come in this order: the taker has signed; the
/// taker pledges something; the taker can pay the declared currency pledge; the declared
/// pledge of the taker is the recorded one; the initializer pledges
/// something; the declared pledge of the initializer is the recorded one;
/// the two parties are the recorded ones; every recorded asset of the
/// initializer has a salt.
pub open spec fn terms_verdict(
    terms: EscrowTerms,
    initializer: Key,
    taker: AccountSnapshot,
    initializer_additional_sol_amount: u64,
    taker_additional_sol_amount: u64,
) -> Result<(), Refusal> {
    if !taker.is_signer {
        Err(Refusal::MissingSignature)
    } else if taker_additional_sol_amount + terms.taker_nft_token_accounts.len() == 0 {
        Err(Refusal::Check(MyError::NotProvidedTakerAssets))
    } else if taker.lamports < taker_additional_sol_amount {
        Err(Refusal::Check(MyError::TakerInsufficientFunds))
    } else if taker_additional_sol_amount != terms.taker_additional_sol_amount {
        Err(Refusal::Check(MyError::TakerAdditionalSolAmountMismatch))
    } else if initializer_additional_sol_amount + terms.initializer_nft_token_accounts.len() == 0 {
        Err(Refusal::Check(MyError::NotProvidedInitializerAssets))
    } else if initializer_additional_sol_amount != terms.initializer_additional_sol_amount {
        Err(Refusal::Check(MyError::InitializerAdditionalSolAmountMismatch))
    } else if terms.initializer_key != initializer {
        Err(Refusal::Check(MyError::InitializerPublicKeyMismatch))
    } else if terms.taker_key != taker.key {
        Err(Refusal::Check(MyError::TakerPublicKeyMismatch))
    } else if terms.vault_account_bumps.len() != terms.initializer_nft_token_accounts.len() {
        Err(Refusal::Check(MyError::VaultAccountBumpsMismatch))
    } else {
        Ok(())
    }
}

/// Checks what the caller declares against the record and the taker's
/// balance.
pub fn check_terms(
    accounts: &Exchange,
    initializer_additional_sol_amount: u64,
    taker_additional_sol_amount: u64,
) -> (r: Result<(), Refusal>)
    ensures
        r == terms_verdict(
            accounts.escrow_record@,
            accounts.initializer.key,
            accounts.taker,
            initializer_additional_sol_amount,
            taker_additional_sol_amount,
        ),
{
    let record = &accounts.escrow_record;
    match assert_signed(&accounts.taker) {
        Err(e) => { return Err(e); },
        Ok(_) => {},
    }
    if taker_additional_sol_amount == 0 && record.taker_nft_token_accounts.len() == 0 {
        return Err(Refusal::Check(MyError::NotProvidedTakerAssets));
    }
    if accounts.taker.lamports < taker_additional_sol_amount {
        return Err(Refusal::Check(MyError::TakerInsufficientFunds));
    }
    if taker_additional_sol_amount != record.taker_additional_sol_amount {
        return Err(Refusal::Check(MyError::TakerAdditionalSolAmountMismatch));
    }
    if initializer_additional_sol_amount == 0 && record.initializer_nft_token_accounts.len() == 0 {
        return Err(Refusal::Check(MyError::NotProvidedInitializerAssets));
    }
    if initializer_additional_sol_amount != record.initializer_additional_sol_amount {
        return Err(Refusal::Check(MyError::InitializerAdditionalSolAmountMismatch));
    }
    if !record.initializer_key.equals(&accounts.initializer.key) {
        return Err(Refusal::Check(MyError::InitializerPublicKeyMismatch));
    }
    if !record.taker_key.equals(&accounts.taker.key) {
        return Err(Refusal::Check(MyError::TakerPublicKeyMismatch));
    }
    if record.vault_account_bumps.len() != record.initializer_nft_token_accounts.len() {
        return Err(Refusal::Check(MyError::VaultAccountBumpsMismatch));
    }
    Ok(())
}

/// Whether the four blocks of references have the lengths that the record
/// implies: a vault and a destination for each asset of the initializer, a
/// source and a destination for each asset of the taker.
pub open spec fn blocks_fit(
    terms: EscrowTerms,
    vaulted: Seq<VaultedAsset>,
    taker_sources: Seq<AssetAccount>,
    taker_destinations: Seq<AssetAccount>,
    initializer_destinations: Seq<AssetAccount>,
) -> bool {
    &&& vaulted.len() == terms.initializer_nft_token_accounts.len()
    &&& taker_destinations.len() == terms.initializer_nft_token_accounts.len()
    &&& taker_sources.len() == terms.taker_nft_token_accounts.len()
    &&& initializer_destinations.len() == terms.taker_nft_token_accounts.len()
}

/// The verdict on an exchange. The checks come in this order: the declared
/// terms are in order; the blocks of references have the lengths that the
/// record implies; the vault authority is the derived one; the sources of
/// the vaulted assets are the accounts that the record names for the
/// initializer; every vaulted asset passes the vault checks; the sources of
/// the taker are the accounts that the record names for the taker; every
/// source of the taker is the taker's canonical account and holds its unit;
/// every destination of the taker is the taker's canonical account and is
/// empty; every destination of the initializer is the initializer's canonical
/// account and is empty. The first refusal in this order is the verdict.
pub open spec fn verdict(
    accounts: Exchange,
    found: Option<(Key, u8)>,
    token_program: Key,
    initializer_additional_sol_amount: u64,
    taker_additional_sol_amount: u64,
    vaulted: Seq<VaultedAsset>,
    taker_sources: Seq<AssetAccount>,
    taker_destinations: Seq<AssetAccount>,
    initializer_destinations: Seq<AssetAccount>,
) -> Result<VaultAuthority, Refusal> {
    let initializer = accounts.initializer.key;
    let taker = accounts.taker.key;
    match terms_verdict(
        accounts.escrow_record@,
        initializer,
        accounts.taker,
        initializer_additional_sol_amount,
        taker_additional_sol_amount,
    ) {
        Err(e) => Err(e),
        Ok(_) => if !blocks_fit(
            accounts.escrow_record@,
            vaulted,
            taker_sources,
            taker_destinations,
            initializer_destinations,
        ) {
            Err(Refusal::Check(MyError::NftAmountMismatch))
        } else {
            match authority_verdict(accounts.vault_authority, found) {
                Err(e) => Err(e),
                Ok(authority) => match assets_verdict(
                    accounts,
                    token_program,
                    vaulted,
                    taker_sources,
                    taker_destinations,
                    initializer_destinations,
                ) {
                    Err(e) => Err(e),
                    Ok(_) => Ok(authority),
                },
            }
        },
    }
}

/// The verdict on the four blocks of references of an exchange, block by
/// block.
pub open spec fn assets_verdict(
    accounts: Exchange,
    token_program: Key,
    vaulted: Seq<VaultedAsset>,
    taker_sources: Seq<AssetAccount>,
    taker_destinations: Seq<AssetAccount>,
    initializer_destinations: Seq<AssetAccount>,
) -> Result<(), Refusal> {
    let terms = accounts.escrow_record@;
    let initializer = accounts.initializer.key;
    let taker = accounts.taker.key;
    match recorded_verdict(source_keys(vaulted), terms.initializer_nft_token_accounts) {
        Err(e) => Err(e),
        Ok(_) => match first_refusal(
            vault_verdicts(vaulted, token_program, initializer, accounts.vault_authority),
        ) {
            Err(e) => Err(e),
            Ok(_) => match recorded_verdict(
                account_keys(taker_sources),
                terms.taker_nft_token_accounts,
            ) {
                Err(e) => Err(e),
                Ok(_) => match first_refusal(
                    holding_verdicts(taker_sources, token_program, taker, true),
                ) {
                    Err(e) => Err(e),
                    Ok(_) => match first_refusal(
                        holding_verdicts(taker_destinations, token_program, taker, false),
                    ) {
                        Err(e) => Err(e),
                        Ok(_) => first_refusal(
                            holding_verdicts(
                                initializer_destinations,
                                token_program,
                                initializer,
                                false,
                            ),
                        ),
                    },
                },
            },
        },
    }
}

/// The transfers that hand the taker's assets to the initializer, each from
/// the source to the destination at its position.
pub open spec fn receipts(sources: Seq<Key>, destinations: Seq<Key>, taker: Key) -> Seq<Action> {
    Seq::new(
        sources.len(),
        |i: int|
            Action::Transfer {
                transfer: Transfer { from: sources[i], to: destinations[i], authority: taker },
            },
    )
}

/// The requests of an exchange, in the order in which they are to be
/// performed: the taker's assets go to the initializer; the taker's currency
/// pledge goes to the initializer; every vaulted asset goes to the taker and
/// its vault is closed; the initializer's currency pledge leaves the escrow
/// account for the taker; the record is deleted.
pub open spec fn swap(
    accounts: Exchange,
    vaulted: Seq<VaultedAsset>,
    taker_sources: Seq<AssetAccount>,
    taker_destinations: Seq<AssetAccount>,
    initializer_destinations: Seq<AssetAccount>,
) -> Seq<Action> {
    let initializer = accounts.initializer.key;
    let taker = accounts.taker.key;
    receipts(account_keys(taker_sources), account_keys(initializer_destinations), taker) + seq![
        Action::SystemTransfer {
            from: taker,
            to: initializer,
            lamports: accounts.escrow_record.taker_additional_sol_amount,
        },
    ] + releases(
        vault_keys(vaulted),
        account_keys(taker_destinations),
        initializer,
        accounts.vault_authority,
    ) + seq![
        Action::ReleaseCurrency {
            escrow: accounts.escrow_account,
            to: taker,
            lamports: accounts.escrow_record.initializer_additional_sol_amount,
        },
        Action::CloseRecord { escrow: accounts.escrow_account, destination: initializer },
    ]
}

/// What an exchange decides once the references are read.
pub open spec fn decision(
    accounts: Exchange,
    found: Option<(Key, u8)>,
    token_program: Key,
    initializer_additional_sol_amount: u64,
    taker_additional_sol_amount: u64,
    vaulted: Seq<VaultedAsset>,
    taker_sources: Seq<AssetAccount>,
    taker_destinations: Seq<AssetAccount>,
    initializer_destinations: Seq<AssetAccount>,
) -> Result<SettlementView, Refusal> {
    match verdict(
        accounts,
        found,
        token_program,
        initializer_additional_sol_amount,
        taker_additional_sol_amount,
        vaulted,
        taker_sources,
        taker_destinations,
        initializer_destinations,
    ) {
        Err(e) => Err(e),
        Ok(authority) => Ok(
            SettlementView {
                vault_authority: authority,
                actions: swap(
                    accounts,
                    vaulted,
                    taker_sources,
                    taker_destinations,
                    initializer_destinations,
                ),
            },
        ),
    }
}

/// Decides an exchange on references that are already read: `found` is the
/// derived vault authority, `token_program` the token program's address.
pub fn decide(
    accounts: &Exchange,
    found: &Option<(Key, u8)>,
    token_program: &Key,
    initializer_additional_sol_amount: u64,
    taker_additional_sol_amount: u64,
    vaulted: &Vec<VaultedAsset>,
    taker_sources: &Vec<AssetAccount>,
    taker_destinations: &Vec<AssetAccount>,
    initializer_destinations: &Vec<AssetAccount>,
) -> (r: Result<Settlement, Refusal>)
    ensures
        settlement_view(r) == decision(
            *accounts,
            *found,
            *token_program,
            initializer_additional_sol_amount,
            taker_additional_sol_amount,
            vaulted@,
            taker_sources@,
            taker_destinations@,
            initializer_destinations@,
        ),
{
    let initializer = accounts.initializer.key;
    let taker = accounts.taker.key;
    match check_terms(accounts, initializer_additional_sol_amount, taker_additional_sol_amount) {
        Err(e) => { return Err(e); },
        Ok(_) => {},
    }
    let record = &accounts.escrow_record;
    if vaulted.len() != record.initializer_nft_token_accounts.len() || taker_destinations.len()
        != record.initializer_nft_token_accounts.len() || taker_sources.len()
        != record.taker_nft_token_accounts.len() || initializer_destinations.len()
        != record.taker_nft_token_accounts.len() {
        return Err(Refusal::Check(MyError::NftAmountMismatch));
    }
    let authority = match check_vault_authority(&accounts.vault_authority, found) {
        Err(e) => { return Err(e); },
        Ok(authority) => authority,
    };
    match check_recorded(&collect_source_keys(vaulted), &record.initializer_nft_token_accounts) {
        Err(e) => { return Err(e); },
        Ok(_) => {},
    }
    match check_vaults(vaulted, token_program, &initializer, &accounts.vault_authority) {
        Err(e) => { return Err(e); },
        Ok(_) => {},
    }
    match check_recorded(&collect_account_keys(taker_sources), &record.taker_nft_token_accounts) {
        Err(e) => { return Err(e); },
        Ok(_) => {},
    }
    match check_holdings(taker_sources, token_program, &taker, true) {
        Err(e) => { return Err(e); },
        Ok(_) => {},
    }
    match check_holdings(taker_destinations, token_program, &taker, false) {
        Err(e) => { return Err(e); },
        Ok(_) => {},
    }
    match check_holdings(initializer_destinations, token_program, &initializer, false) {
        Err(e) => { return Err(e); },
        Ok(_) => {},
    }
    let mut actions: Vec<Action> = Vec::new();
    let mut index: usize = 0;
    while index < taker_sources.len()
        invariant
            index <= taker_sources.len(),
            taker_sources.len() == initializer_destinations.len(),
            taker == accounts.taker.key,
            actions@ == receipts(
                account_keys(taker_sources@),
                account_keys(initializer_destinations@),
                taker,
            ).take(index as int),
        decreases taker_sources.len() - index,
    {
        actions.push(
            Action::Transfer {
                transfer: accounts.into_transfer_to_initializer_context(
                    &taker_sources[index].account.key,
                    &initializer_destinations[index].account.key,
                ),
            },
        );
        index += 1;
        assert(actions@ =~= receipts(
            account_keys(taker_sources@),
            account_keys(initializer_destinations@),
            taker,
        ).take(index as int));
    }
    actions.push(
        Action::SystemTransfer {
            from: taker,
            to: initializer,
            lamports: record.taker_additional_sol_amount,
        },
    );
    let ghost head = actions@;
    assert(head =~= receipts(
        account_keys(taker_sources@),
        account_keys(initializer_destinations@),
        taker,
    ) + seq![
        Action::SystemTransfer {
            from: taker,
            to: initializer,
            lamports: record.taker_additional_sol_amount,
        },
    ]);
    let mut index: usize = 0;
    while index < vaulted.len()
        invariant
            index <= vaulted.len(),
            vaulted.len() == taker_destinations.len(),
            initializer == accounts.initializer.key,
            actions@ == head + releases(
                vault_keys(vaulted@).take(index as int),
                account_keys(taker_destinations@),
                initializer,
                accounts.vault_authority,
            ),
        decreases vaulted.len() - index,
    {
        let vault = vaulted[index].vault.key;
        proof {
            assert(vault_keys(vaulted@).take(index + 1).drop_last() =~= vault_keys(vaulted@).take(
                index as int,
            ));
        }
        actions.push(
            Action::Transfer {
                transfer: accounts.into_transfer_to_taker_context(
                    &vault,
                    &taker_destinations[index].account.key,
                ),
            },
        );
        actions.push(Action::Close { close: accounts.into_close_context(&vault) });
        index += 1;
        assert(actions@ =~= head + releases(
            vault_keys(vaulted@).take(index as int),
            account_keys(taker_destinations@),
            initializer,
            accounts.vault_authority,
        ));
    }
    assert(vault_keys(vaulted@).take(vaulted.len() as int) =~= vault_keys(vaulted@));
    actions.push(
        Action::ReleaseCurrency {
            escrow: accounts.escrow_account,
            to: taker,
            lamports: record.initializer_additional_sol_amount,
        },
    );
    actions.push(Action::CloseRecord { escrow: accounts.escrow_account, destination: initializer });
    assert(actions@ =~= swap(
        *accounts,
        vaulted@,
        taker_sources@,
        taker_destinations@,
        initializer_destinations@,
    ));
    Ok(Settlement { vault_authority: authority, actions })
}

/// The number of references that an exchange on the record takes: three for
/// each vaulted asset and two for each asset of the taker, then two for the
/// destination of each asset of either side.
pub open spec fn reference_count(terms: EscrowTerms) -> nat {
    let initializer_assets = terms.initializer_nft_token_accounts.len();
    let taker_assets = terms.taker_nft_token_accounts.len();
    (3 * initializer_assets + 2 * taker_assets) + (initializer_assets + taker_assets) * 2
}

/// What an exchange comes to on a call as the host hands it over.
pub open spec fn outcome(
    ctx: Context<Exchange>,
    initializer_additional_sol_amount: u64,
    taker_additional_sol_amount: u64,
) -> Result<SettlementView, Refusal> {
    let terms = ctx.accounts.escrow_record@;
    let initializer = ctx.accounts.initializer.key;
    let taker = ctx.accounts.taker.key;
    let initializer_assets = terms.initializer_nft_token_accounts.len() as int;
    let taker_assets = terms.taker_nft_token_accounts.len() as int;
    let offset = 3 * initializer_assets + 2 * taker_assets;
    match terms_verdict(
        terms,
        initializer,
        ctx.accounts.taker,
        initializer_additional_sol_amount,
        taker_additional_sol_amount,
    ) {
        Err(e) => Err(e),
        Ok(_) => if ctx.remaining_accounts@.len() != reference_count(terms) {
            Err(Refusal::Check(MyError::NftAmountMismatch))
        } else {
            decision(
                ctx.accounts,
                vault_authority_of(initializer, taker, ctx.program_id),
                token_program_key(),
                initializer_additional_sol_amount,
                taker_additional_sol_amount,
                triples(
                    ctx.remaining_accounts@,
                    terms.vault_account_bumps,
                    initializer,
                    ctx.program_id,
                ),
                pairs(ctx.remaining_accounts@, 3 * initializer_assets, taker_assets, taker),
                pairs(ctx.remaining_accounts@, offset, initializer_assets, taker),
                pairs(
                    ctx.remaining_accounts@,
                    offset + 2 * initializer_assets,
                    taker_assets,
                    initializer,
                ),
            )
        },
    }
}

/// Settles a trade. Nothing is moved here: the result lists what is to be
/// requested.
pub fn handler(
    ctx: &Context<Exchange>,
    initializer_additional_sol_amount: u64,
    taker_additional_sol_amount: u64,
) -> (r: Result<Settlement, Refusal>)
    ensures
        settlement_view(r) == outcome(
            *ctx,
            initializer_additional_sol_amount,
            taker_additional_sol_amount,
        ),
{
    match check_terms(&ctx.accounts, initializer_additional_sol_amount, taker_additional_sol_amount) {
        Err(e) => { return Err(e); },
        Ok(_) => {},
    }
    let record = &ctx.accounts.escrow_record;
    let initializer_nft_amount = record.initializer_nft_token_accounts.len();
    let taker_nft_amount = record.taker_nft_token_accounts.len();
    let expected: u128 = 5 * (initializer_nft_amount as u128) + 4 * (taker_nft_amount as u128);
    if ctx.remaining_accounts.len() as u128 != expected {
        return Err(Refusal::Check(MyError::NftAmountMismatch));
    }
    let initializer = ctx.accounts.initializer.key;
    let taker = ctx.accounts.taker.key;
    let offset = 3 * initializer_nft_amount + 2 * taker_nft_amount;
    let found = derive_vault_authority(&initializer, &taker, &ctx.program_id);
    let token_program = token_program_id();
    let vaulted = match resolve_triples(
        &ctx.remaining_accounts,
        &record.vault_account_bumps,
        &initializer,
        &ctx.program_id,
    ) {
        Err(e) => { return Err(e); },
        Ok(assets) => assets,
    };
    let taker_sources = match resolve_pairs(
        &ctx.remaining_accounts,
        3 * initializer_nft_amount,
        taker_nft_amount,
        &taker,
    ) {
        Err(e) => { return Err(e); },
        Ok(assets) => assets,
    };
    let taker_destinations = match resolve_pairs(
        &ctx.remaining_accounts,
        offset,
        initializer_nft_amount,
        &taker,
    ) {
        Err(e) => { return Err(e); },
        Ok(assets) => assets,
    };
    let initializer_destinations = match resolve_pairs(
        &ctx.remaining_accounts,
        offset + 2 * initializer_nft_amount,
        taker_nft_amount,
        &initializer,
    ) {
        Err(e) => { return Err(e); },
        Ok(assets) => assets,
    };
    decide(
        &ctx.accounts,
        &found,
        &token_program,
        initializer_additional_sol_amount,
        taker_additional_sol_amount,
        &vaulted,
        &taker_sources,
        &taker_destinations,
        &initializer_destinations,
    )
}

} // verus!
