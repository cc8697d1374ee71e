//! Opening a trade: the initializer's assets go into vaults, the currency
//! pledge into the escrow account, and the terms into the trade record.

use crate::assets::{
    account_keys, check_deposits, check_holdings, collect_account_keys, collect_salts,
    collect_source_keys, deposit_verdicts, first_refusal, holding_verdicts, lemma_triples, pairs,
    resolve_pairs, resolve_triples, salts, source_keys, triples, AssetAccount, VaultedAsset,
};
use crate::cpi::{Action, SetAuthority, Transfer};
use crate::errors::{MyError, Refusal};
use crate::host::token_program_id;
use crate::instructions::{Context, Parties};
use crate::state::{AccountSnapshot, EscrowAccount, EscrowTerms, Key, VaultAuthority};
use crate::utils::{
    assert_signed, authority_verdict, check_vault_authority, derive_vault_authority,
    signature_verdict, token_program_key, vault_authority_of,
};
use vstd::prelude::*;

verus! {

/// The accounts that the operation names.
#[derive(Clone, Debug, PartialEq, Eq)]
pub struct Initialize {
    pub initializer: AccountSnapshot,
    pub taker: AccountSnapshot,
    pub escrow_account: Key,
    pub vault_authority: Key,
}

impl Initialize {
    /// The addresses that the call names.
    pub open spec fn spec_parties(&self) -> Parties {
        Parties {
            initializer: self.initializer.key,
            taker: self.taker.key,
            escrow_account: self.escrow_account,
            vault_authority: self.vault_authority,
        }
    }

    #[verifier::when_used_as_spec(spec_parties)]
    /// The addresses that the call names.
    pub fn parties(&self) -> (p: Parties)
        ensures
            p == self.spec_parties(),
    {
        Parties {
            initializer: self.initializer.key,
            taker: self.taker.key,
            escrow_account: self.escrow_account,
            vault_authority: self.vault_authority,
        }
    }

    /// The accounts of the transfer that moves a pledged asset into its
    /// vault, on the initializer's own authority.
    pub fn into_transfer_to_pda_context(
        &self,
        initializer_nft_token_account: &Key,
        vault_account: &Key,
    ) -> (accounts: Transfer)
        ensures
            accounts == (Transfer {
                from: *initializer_nft_token_account,
                to: *vault_account,
                authority: self.initializer.key,
            }),
    {
        Transfer {
            from: *initializer_nft_token_account,
            to: *vault_account,
            authority: self.initializer.key,
        }
    }

    /// The accounts of the request by which the initializer gives a vault
    /// away.
    pub fn into_set_authority_context(&self, vault_account: &Key) -> (accounts: SetAuthority)
        ensures
            accounts == (SetAuthority {
                account_or_mint: *vault_account,
                current_authority: self.initializer.key,
            }),
    {
        SetAuthority { account_or_mint: *vault_account, current_authority: self.initializer.key }
    }
}

/// What a trade that was opened leaves to be done: the record to store, the
/// salt of the vault authority, and the requests to the token service and to
/// the host.
#[derive(Clone, Debug, PartialEq, Eq)]
pub struct Initialized {
    pub escrow_account: EscrowAccount,
    pub vault_authority: VaultAuthority,
    pub actions: Vec<Action>,
}

/// An opened trade as mathematical values.
pub struct InitializedView {
    pub escrow_account: EscrowTerms,
    pub vault_authority: VaultAuthority,
    pub actions: Seq<Action>,
}

impl View for Initialized {
    type V = InitializedView;

    open spec fn view(&self) -> InitializedView {
        InitializedView {
            escrow_account: self.escrow_account@,
            vault_authority: self.vault_authority,
            actions: self.actions@,
        }
    }
}

/// The result of the operation as mathematical values.
pub open spec fn initialized_view(r: Result<Initialized, Refusal>) -> Result<
    InitializedView,
    Refusal,
> {
    match r {
        Ok(done) => Ok(done@),
        Err(e) => Err(e),
    }
}

/// The verdict on what the two sides pledge: each pledges something, and
/// the initializer can pay its currency pledge.
pub open spec fn pledges_verdict(
    initializer_lamports: u64,
    initializer_additional_sol_amount: u64,
    taker_additional_sol_amount: u64,
    initializer_assets: nat,
    taker_assets: nat,
) -> Result<(), Refusal> {
    if initializer_additional_sol_amount + initializer_assets == 0 {
        Err(Refusal::Check(MyError::NotProvidedInitializerAssets))
    } else if initializer_lamports < initializer_additional_sol_amount {
        Err(Refusal::Check(MyError::InitializerInsufficientFunds))
    } else if taker_additional_sol_amount + taker_assets == 0 {
        Err(Refusal::Check(MyError::NotProvidedTakerAssets))
    } else {
        Ok(())
    }
}

/// Checks what the two sides pledge.
pub fn check_pledges(
    initializer_lamports: u64,
    initializer_additional_sol_amount: u64,
    taker_additional_sol_amount: u64,
    initializer_assets: usize,
    taker_assets: usize,
) -> (r: Result<(), Refusal>)
    ensures
        r == pledges_verdict(
            initializer_lamports,
            initializer_additional_sol_amount,
            taker_additional_sol_amount,
            initializer_assets as nat,
            taker_assets as nat,
        ),
{
    if initializer_additional_sol_amount == 0 && initializer_assets == 0 {
        return Err(Refusal::Check(MyError::NotProvidedInitializerAssets));
    }
    if initializer_lamports < initializer_additional_sol_amount {
        return Err(Refusal::Check(MyError::InitializerInsufficientFunds));
    }
    if taker_additional_sol_amount == 0 && taker_assets == 0 {
        return Err(Refusal::Check(MyError::NotProvidedTakerAssets));
    }
    Ok(())
}

/// The verdict on the numbers of a call as the host hands it over: each
/// side pledges something, the initializer can pay its currency pledge,
/// every pledged asset has a salt, and the list of references has three
/// entries for each asset of the initializer and two for each of the taker.
pub open spec fn shape_verdict(
    initializer_lamports: u64,
    initializer_additional_sol_amount: u64,
    taker_additional_sol_amount: u64,
    initializer_nft_amount: u8,
    taker_nft_amount: u8,
    bumps: nat,
    references: nat,
) -> Result<(), Refusal> {
    if initializer_additional_sol_amount + initializer_nft_amount == 0 {
        Err(Refusal::Check(MyError::NotProvidedInitializerAssets))
    } else if initializer_lamports < initializer_additional_sol_amount {
        Err(Refusal::Check(MyError::InitializerInsufficientFunds))
    } else if initializer_nft_amount != bumps {
        Err(Refusal::Check(MyError::VaultAccountBumpsMismatch))
    } else if taker_additional_sol_amount + taker_nft_amount == 0 {
        Err(Refusal::Check(MyError::NotProvidedTakerAssets))
    } else if references != 3 * initializer_nft_amount + 2 * taker_nft_amount {
        Err(Refusal::Check(MyError::NftAmountMismatch))
    } else {
        Ok(())
    }
}

/// Checks the numbers of a call as the host hands it over.
pub fn check_shape(
    initializer_lamports: u64,
    initializer_additional_sol_amount: u64,
    taker_additional_sol_amount: u64,
    initializer_nft_amount: u8,
    taker_nft_amount: u8,
    bumps: usize,
    references: usize,
) -> (r: Result<(), Refusal>)
    ensures
        r == shape_verdict(
            initializer_lamports,
            initializer_additional_sol_amount,
            taker_additional_sol_amount,
            initializer_nft_amount,
            taker_nft_amount,
            bumps as nat,
            references as nat,
        ),
{
    if initializer_additional_sol_amount == 0 && initializer_nft_amount == 0 {
        return Err(Refusal::Check(MyError::NotProvidedInitializerAssets));
    }
    if initializer_lamports < initializer_additional_sol_amount {
        return Err(Refusal::Check(MyError::InitializerInsufficientFunds));
    }
    if initializer_nft_amount as usize != bumps {
        return Err(Refusal::Check(MyError::VaultAccountBumpsMismatch));
    }
    if taker_additional_sol_amount == 0 && taker_nft_amount == 0 {
        return Err(Refusal::Check(MyError::NotProvidedTakerAssets));
    }
    let expected: usize = 3 * (initializer_nft_amount as usize) + 2 * (taker_nft_amount as usize);
    if references != expected {
        return Err(Refusal::Check(MyError::NftAmountMismatch));
    }
    Ok(())
}

/// The requests that put one asset into its vault: create the vault as the
/// initializer's, hand it to the vault authority, move the unit.
pub open spec fn deposit_of(asset: VaultedAsset, initializer: Key, vault_authority: Key) -> Seq<
    Action,
> {
    seq![
        Action::CreateVault {
            payer: initializer,
            vault: asset.vault.key,
            mint: asset.source.mint,
            source: asset.source.account.key,
            bump: asset.bump,
        },
        Action::SetOwner {
            change: SetAuthority {
                account_or_mint: asset.vault.key,
                current_authority: initializer,
            },
            new_owner: vault_authority,
        },
        Action::Transfer {
            transfer: Transfer {
                from: asset.source.account.key,
                to: asset.vault.key,
                authority: initializer,
            },
        },
    ]
}

/// The requests that put the assets into their vaults, asset by asset.
pub open spec fn deposits(assets: Seq<VaultedAsset>, initializer: Key, vault_authority: Key) -> Seq<
    Action,
>
    decreases assets.len(),
{
    if assets.len() == 0 {
        Seq::empty()
    } else {
        deposits(assets.drop_last(), initializer, vault_authority) + deposit_of(
            assets.last(),
            initializer,
            vault_authority,
        )
    }
}

/// The request that escrows the currency pledge, if there is one.
pub open spec fn pledge_payment(parties: Parties, initializer_additional_sol_amount: u64) -> Seq<
    Action,
> {
    if initializer_additional_sol_amount > 0 {
        seq![
            Action::SystemTransfer {
                from: parties.initializer,
                to: parties.escrow_account,
                lamports: initializer_additional_sol_amount,
            },
        ]
    } else {
        Seq::empty()
    }
}

/// The terms that the call records.
pub open spec fn recorded_terms(
    parties: Parties,
    initializer_additional_sol_amount: u64,
    taker_additional_sol_amount: u64,
    initializer_assets: Seq<VaultedAsset>,
    taker_assets: Seq<AssetAccount>,
) -> EscrowTerms {
    EscrowTerms {
        initializer_key: parties.initializer,
        initializer_additional_sol_amount,
        initializer_nft_token_accounts: source_keys(initializer_assets),
        taker_key: parties.taker,
        taker_additional_sol_amount,
        taker_nft_token_accounts: account_keys(taker_assets),
        vault_account_bumps: salts(initializer_assets),
    }
}

/// The verdict on a call: the initializer has signed; the pledges are in
/// order; the vault authority is the derived one; each asset of the
/// initializer passes the deposit checks; each account of the taker is the
/// taker's canonical account for its asset and is still empty. The first
/// refusal in this order is the verdict.
pub open spec fn verdict(
    accounts: Initialize,
    found: Option<(Key, u8)>,
    token_program: Key,
    initializer_additional_sol_amount: u64,
    taker_additional_sol_amount: u64,
    initializer_assets: Seq<VaultedAsset>,
    taker_assets: Seq<AssetAccount>,
) -> Result<VaultAuthority, Refusal> {
    match signature_verdict(accounts.initializer) {
        Err(e) => Err(e),
        Ok(_) => signed_verdict(
            accounts,
            found,
            token_program,
            initializer_additional_sol_amount,
            taker_additional_sol_amount,
            initializer_assets,
            taker_assets,
        ),
    }
}

/// The verdict on a call that the initializer has signed.
pub open spec fn signed_verdict(
    accounts: Initialize,
    found: Option<(Key, u8)>,
    token_program: Key,
    initializer_additional_sol_amount: u64,
    taker_additional_sol_amount: u64,
    initializer_assets: Seq<VaultedAsset>,
    taker_assets: Seq<AssetAccount>,
) -> Result<VaultAuthority, Refusal> {
    match pledges_verdict(
        accounts.initializer.lamports,
        initializer_additional_sol_amount,
        taker_additional_sol_amount,
        initializer_assets.len(),
        taker_assets.len(),
    ) {
        Err(e) => Err(e),
        Ok(_) => match authority_verdict(accounts.vault_authority, found) {
            Err(e) => Err(e),
            Ok(authority) => match first_refusal(
                deposit_verdicts(initializer_assets, token_program, accounts.initializer.key),
            ) {
                Err(e) => Err(e),
                Ok(_) => match first_refusal(
                    holding_verdicts(taker_assets, token_program, accounts.taker.key, false),
                ) {
                    Err(e) => Err(e),
                    Ok(_) => Ok(authority),
                },
            },
        },
    }
}

/// What the operation decides once the references are read: the refusal,
/// or the record, the salt and the requests.
pub open spec fn decision(
    accounts: Initialize,
    found: Option<(Key, u8)>,
    token_program: Key,
    initializer_additional_sol_amount: u64,
    taker_additional_sol_amount: u64,
    initializer_assets: Seq<VaultedAsset>,
    taker_assets: Seq<AssetAccount>,
) -> Result<InitializedView, Refusal> {
    let parties = accounts.spec_parties();
    match verdict(
        accounts,
        found,
        token_program,
        initializer_additional_sol_amount,
        taker_additional_sol_amount,
        initializer_assets,
        taker_assets,
    ) {
        Err(e) => Err(e),
        Ok(authority) => Ok(
            InitializedView {
                escrow_account: recorded_terms(
                    parties,
                    initializer_additional_sol_amount,
                    taker_additional_sol_amount,
                    initializer_assets,
                    taker_assets,
                ),
                vault_authority: authority,
                actions: deposits(initializer_assets, parties.initializer, parties.vault_authority)
                    + pledge_payment(parties, initializer_additional_sol_amount),
            },
        ),
    }
}

/// Decides the operation on references that are already read: `found` is
/// the derived vault authority, `token_program` the token program's address.
pub fn decide(
    accounts: &Initialize,
    found: &Option<(Key, u8)>,
    token_program: &Key,
    initializer_additional_sol_amount: u64,
    taker_additional_sol_amount: u64,
    initializer_assets: &Vec<VaultedAsset>,
    taker_assets: &Vec<AssetAccount>,
) -> (r: Result<Initialized, Refusal>)
    ensures
        initialized_view(r) == decision(
            *accounts,
            *found,
            *token_program,
            initializer_additional_sol_amount,
            taker_additional_sol_amount,
            initializer_assets@,
            taker_assets@,
        ),
{
    let parties = accounts.parties();
    match assert_signed(&accounts.initializer) {
        Err(e) => { return Err(e); },
        Ok(_) => {},
    }
    match check_pledges(
        accounts.initializer.lamports,
        initializer_additional_sol_amount,
        taker_additional_sol_amount,
        initializer_assets.len(),
        taker_assets.len(),
    ) {
        Err(e) => { return Err(e); },
        Ok(_) => {},
    }
    let authority = match check_vault_authority(&parties.vault_authority, found) {
        Err(e) => { return Err(e); },
        Ok(authority) => authority,
    };
    match check_deposits(initializer_assets, token_program, &parties.initializer) {
        Err(e) => { return Err(e); },
        Ok(_) => {},
    }
    match check_holdings(taker_assets, token_program, &parties.taker, false) {
        Err(e) => { return Err(e); },
        Ok(_) => {},
    }
    let mut actions: Vec<Action> = Vec::new();
    let mut index: usize = 0;
    while index < initializer_assets.len()
        invariant
            index <= initializer_assets.len(),
            parties == accounts.spec_parties(),
            actions@ == deposits(
                initializer_assets@.take(index as int),
                parties.initializer,
                parties.vault_authority,
            ),
        decreases initializer_assets.len() - index,
    {
        let asset = &initializer_assets[index];
        proof {
            assert(initializer_assets@.take(index + 1).drop_last() =~= initializer_assets@.take(
                index as int,
            ));
        }
        actions.push(
            Action::CreateVault {
                payer: parties.initializer,
                vault: asset.vault.key,
                mint: asset.source.mint,
                source: asset.source.account.key,
                bump: asset.bump,
            },
        );
        actions.push(
            Action::SetOwner {
                change: accounts.into_set_authority_context(&asset.vault.key),
                new_owner: parties.vault_authority,
            },
        );
        actions.push(
            Action::Transfer {
                transfer: accounts.into_transfer_to_pda_context(
                    &asset.source.account.key,
                    &asset.vault.key,
                ),
            },
        );
        index += 1;
        assert(actions@ =~= deposits(
            initializer_assets@.take(index as int),
            parties.initializer,
            parties.vault_authority,
        ));
    }
    assert(initializer_assets@.take(initializer_assets.len() as int) =~= initializer_assets@);
    if initializer_additional_sol_amount > 0 {
        actions.push(
            Action::SystemTransfer {
                from: parties.initializer,
                to: parties.escrow_account,
                lamports: initializer_additional_sol_amount,
            },
        );
    }
    assert(actions@ =~= deposits(initializer_assets@, parties.initializer, parties.vault_authority)
        + pledge_payment(parties, initializer_additional_sol_amount));
    let escrow_account = EscrowAccount {
        initializer_key: parties.initializer,
        initializer_additional_sol_amount,
        initializer_nft_token_accounts: collect_source_keys(initializer_assets),
        taker_key: parties.taker,
        taker_additional_sol_amount,
        taker_nft_token_accounts: collect_account_keys(taker_assets),
        vault_account_bumps: collect_salts(initializer_assets),
    };
    Ok(Initialized { escrow_account, vault_authority: authority, actions })
}

/// What the operation comes to on a call as the host hands it over.
pub open spec fn outcome(
    ctx: Context<Initialize>,
    initializer_additional_sol_amount: u64,
    taker_additional_sol_amount: u64,
    initializer_nft_amount: u8,
    taker_nft_amount: u8,
    vault_account_bumps: Seq<u8>,
) -> Result<InitializedView, Refusal> {
    let parties = ctx.accounts.spec_parties();
    match signature_verdict(ctx.accounts.initializer) {
        Err(e) => Err(e),
        Ok(_) => match shape_verdict(
            ctx.accounts.initializer.lamports,
            initializer_additional_sol_amount,
            taker_additional_sol_amount,
            initializer_nft_amount,
            taker_nft_amount,
            vault_account_bumps.len(),
            ctx.remaining_accounts@.len(),
        ) {
            Err(e) => Err(e),
            Ok(_) => decision(
            ctx.accounts,
            vault_authority_of(parties.initializer, parties.taker, ctx.program_id),
            token_program_key(),
            initializer_additional_sol_amount,
            taker_additional_sol_amount,
            triples(
                ctx.remaining_accounts@,
                vault_account_bumps,
                parties.initializer,
                ctx.program_id,
            ),
            pairs(
                ctx.remaining_accounts@,
                3 * initializer_nft_amount,
                taker_nft_amount as int,
                parties.taker,
            ),
        ),
        },
    }
}

/// Opens a trade. Nothing is moved here: the result lists what is to be
/// stored and requested. The record of an accepted call holds the parties,
/// the pledges and the salts of the call.
pub fn handler(
    ctx: &Context<Initialize>,
    initializer_additional_sol_amount: u64,
    taker_additional_sol_amount: u64,
    initializer_nft_amount: u8,
    taker_nft_amount: u8,
    vault_account_bumps: Vec<u8>,
) -> (r: Result<Initialized, Refusal>)
    ensures
        initialized_view(r) == outcome(
            *ctx,
            initializer_additional_sol_amount,
            taker_additional_sol_amount,
            initializer_nft_amount,
            taker_nft_amount,
            vault_account_bumps@,
        ),
        r matches Ok(done) ==> {
            &&& done.escrow_account.initializer_key == ctx.accounts.initializer.key
            &&& done.escrow_account.taker_key == ctx.accounts.taker.key
            &&& done.escrow_account.initializer_additional_sol_amount
                == initializer_additional_sol_amount
            &&& done.escrow_account.taker_additional_sol_amount == taker_additional_sol_amount
            &&& done.escrow_account.vault_account_bumps@ == vault_account_bumps@
            &&& done.escrow_account.initializer_nft_token_accounts@.len() == initializer_nft_amount
            &&& done.escrow_account.taker_nft_token_accounts@.len() == taker_nft_amount
            &&& done.escrow_account@.well_formed()
        },
{
    proof {
        lemma_triples(
            ctx.remaining_accounts@,
            vault_account_bumps@,
            ctx.accounts.initializer.key,
            ctx.program_id,
        );
    }
    match assert_signed(&ctx.accounts.initializer) {
        Err(e) => { return Err(e); },
        Ok(_) => {},
    }
    match check_shape(
        ctx.accounts.initializer.lamports,
        initializer_additional_sol_amount,
        taker_additional_sol_amount,
        initializer_nft_amount,
        taker_nft_amount,
        vault_account_bumps.len(),
        ctx.remaining_accounts.len(),
    ) {
        Err(e) => { return Err(e); },
        Ok(_) => {},
    }
    let parties = ctx.accounts.parties();
    let found = derive_vault_authority(&parties.initializer, &parties.taker, &ctx.program_id);
    let token_program = token_program_id();
    let initializer_assets = match resolve_triples(
        &ctx.remaining_accounts,
        &vault_account_bumps,
        &parties.initializer,
        &ctx.program_id,
    ) {
        Err(e) => { return Err(e); },
        Ok(assets) => assets,
    };
    let taker_assets = match resolve_pairs(
        &ctx.remaining_accounts,
        3 * (initializer_nft_amount as usize),
        taker_nft_amount as usize,
        &parties.taker,
    ) {
        Err(e) => { return Err(e); },
        Ok(assets) => assets,
    };
    decide(
        &ctx.accounts,
        &found,
        &token_program,
        initializer_additional_sol_amount,
        taker_additional_sol_amount,
        &initializer_assets,
        &taker_assets,
    )
}

} // verus!
