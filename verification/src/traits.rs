//! What the two ways of cancelling share with each other and with the
//! exchange: giving a vaulted asset back and closing its vault.

use crate::assets::{
    check_recorded, check_vaults, collect_source_keys, first_refusal, recorded_verdict,
    resolve_triples, source_keys, triples, vault_keys, vault_verdicts, VaultedAsset,
};
use crate::cpi::{Action, CloseAccount, Transfer};
use crate::errors::{MyError, Refusal};
use crate::host::token_program_id;
use crate::state::{AccountSnapshot, EscrowAccount, EscrowTerms, Key, VaultAuthority};
use crate::utils::{
    authority_verdict, check_vault_authority, derive_vault_authority, token_program_key,
    vault_authority_of,
};
use vstd::prelude::*;

verus! {

/// What is left to be done once an exchange or a cancellation is decided:
/// the salt by which the vault authority signs, and the requests.
#[derive(Clone, Debug, PartialEq, Eq)]
pub struct Settlement {
    pub vault_authority: VaultAuthority,
    pub actions: Vec<Action>,
}

/// A settlement as mathematical values.
pub struct SettlementView {
    pub vault_authority: VaultAuthority,
    pub actions: Seq<Action>,
}

impl View for Settlement {
    type V = SettlementView;

    open spec fn view(&self) -> SettlementView {
        SettlementView { vault_authority: self.vault_authority, actions: self.actions@ }
    }
}

/// The result of an exchange or a cancellation as mathematical values.
pub open spec fn settlement_view(r: Result<Settlement, Refusal>) -> Result<SettlementView, Refusal> {
    match r {
        Ok(done) => Ok(done@),
        Err(e) => Err(e),
    }
}

/// The requests that hand one vaulted asset out and close its vault, whose
/// storage deposit goes to the initializer.
pub open spec fn release_of(vault: Key, destination: Key, initializer: Key, vault_authority: Key) -> Seq<
    Action,
> {
    seq![
        Action::Transfer { transfer: Transfer { from: vault, to: destination, authority: vault_authority } },
        Action::Close {
            close: CloseAccount { account: vault, destination: initializer, authority: vault_authority },
        },
    ]
}

/// The requests that hand the vaulted assets out, vault by vault, each to
/// the destination at its position.
pub open spec fn releases(
    vaults: Seq<Key>,
    destinations: Seq<Key>,
    initializer: Key,
    vault_authority: Key,
) -> Seq<Action>
    decreases vaults.len(),
{
    if vaults.len() == 0 {
        Seq::empty()
    } else {
        releases(vaults.drop_last(), destinations, initializer, vault_authority) + release_of(
            vaults.last(),
            destinations[vaults.len() - 1],
            initializer,
            vault_authority,
        )
    }
}

/// The verdict on the two parties that a call names against the record.
pub open spec fn parties_verdict(terms: EscrowTerms, initializer: Key, taker: Key) -> Result<
    (),
    Refusal,
> {
    if terms.initializer_key != initializer {
        Err(Refusal::Check(MyError::InitializerPublicKeyMismatch))
    } else if terms.taker_key != taker {
        Err(Refusal::Check(MyError::TakerPublicKeyMismatch))
    } else {
        Ok(())
    }
}

/// Checks the two parties that a call names against the record.
pub fn check_parties(escrow_account: &EscrowAccount, initializer: &Key, taker: &Key) -> (r: Result<
    (),
    Refusal,
>)
    ensures
        r == parties_verdict(escrow_account@, *initializer, *taker),
{
    if !escrow_account.initializer_key.equals(initializer) {
        return Err(Refusal::Check(MyError::InitializerPublicKeyMismatch));
    }
    if !escrow_account.taker_key.equals(taker) {
        return Err(Refusal::Check(MyError::TakerPublicKeyMismatch));
    }
    Ok(())
}

/// The accounts that know who gives a vaulted asset back.
pub trait Cancel {
    spec fn cancel_authority(&self) -> Key;

    fn vault_authority(&self) -> (k: Key)
        ensures
            k == self.cancel_authority(),
    ;

    /// The accounts of the transfer that takes an asset out of its vault
    /// and back to the initializer's account, on the vault authority's
    /// signature.
    fn into_transfer_to_initializer_context(
        &self,
        vault_account: &Key,
        initializer_nft_token_account: &Key,
    ) -> (accounts: Transfer)
        ensures
            accounts == (Transfer {
                from: *vault_account,
                to: *initializer_nft_token_account,
                authority: self.cancel_authority(),
            }),
    {
        Transfer {
            from: *vault_account,
            to: *initializer_nft_token_account,
            authority: self.vault_authority(),
        }
    }
}

/// The accounts that know who closes a vault and who gets its storage
/// deposit.
pub trait Common {
    spec fn closing_authority(&self) -> Key;

    spec fn deposit_receiver(&self) -> Key;

    fn vault_authority(&self) -> (k: Key)
        ensures
            k == self.closing_authority(),
    ;

    fn initializer(&self) -> (k: Key)
        ensures
            k == self.deposit_receiver(),
    ;

    /// The accounts of the closing of a vault: the deposit goes back to the
    /// initializer.
    fn into_close_context(&self, vault_account: &Key) -> (accounts: CloseAccount)
        ensures
            accounts == (CloseAccount {
                account: *vault_account,
                destination: self.deposit_receiver(),
                authority: self.closing_authority(),
            }),
    {
        CloseAccount {
            account: *vault_account,
            destination: self.initializer(),
            authority: self.vault_authority(),
        }
    }
}

/// The accounts that a cancellation names, with the record that the escrow
/// account holds.
#[derive(Clone, Debug, PartialEq, Eq)]
pub struct CancelContextAccounts {
    pub initializer: AccountSnapshot,
    pub taker: AccountSnapshot,
    pub vault_authority: Key,
    pub escrow_account: Key,
    pub escrow_record: EscrowAccount,
}

impl Cancel for CancelContextAccounts {
    open spec fn cancel_authority(&self) -> Key {
        self.vault_authority
    }

    fn vault_authority(&self) -> (k: Key) {
        self.vault_authority
    }
}

impl Common for CancelContextAccounts {
    open spec fn closing_authority(&self) -> Key {
        self.vault_authority
    }

    open spec fn deposit_receiver(&self) -> Key {
        self.initializer.key
    }

    fn vault_authority(&self) -> (k: Key) {
        self.vault_authority
    }

    fn initializer(&self) -> (k: Key) {
        self.initializer.key
    }
}

/// What the host hands to a cancellation.
#[derive(Clone, Debug, PartialEq, Eq)]
pub struct CancelContext {
    pub program_id: Key,
    pub accounts: CancelContextAccounts,
    pub remaining_accounts: Vec<AccountSnapshot>,
}

/// The requests of a cancellation: every vaulted asset goes back to the
/// account it came from and its vault is closed; the currency pledge leaves
/// the escrow account for the initializer; the record is deleted.
pub open spec fn restitution(accounts: CancelContextAccounts, assets: Seq<VaultedAsset>) -> Seq<
    Action,
> {
    releases(
        vault_keys(assets),
        source_keys(assets),
        accounts.initializer.key,
        accounts.vault_authority,
    ) + seq![
        Action::ReleaseCurrency {
            escrow: accounts.escrow_account,
            to: accounts.initializer.key,
            lamports: accounts.escrow_record.initializer_additional_sol_amount,
        },
        Action::CloseRecord {
            escrow: accounts.escrow_account,
            destination: accounts.initializer.key,
        },
    ]
}

/// The verdict on a cancellation: there is one reference triple for each
/// recorded salt; the vault authority is the derived one; the sources of the
/// vaulted assets are the accounts that the record names for the
/// initializer; every vaulted asset passes the vault checks. The first
/// refusal in this order is the verdict.
pub open spec fn release_verdict(
    accounts: CancelContextAccounts,
    found: Option<(Key, u8)>,
    token_program: Key,
    assets: Seq<VaultedAsset>,
) -> Result<VaultAuthority, Refusal> {
    if assets.len() != accounts.escrow_record@.vault_account_bumps.len() {
        Err(Refusal::Check(MyError::NftAmountMismatch))
    } else {
        match authority_verdict(accounts.vault_authority, found) {
            Err(e) => Err(e),
            Ok(authority) => match recorded_verdict(
                source_keys(assets),
                accounts.escrow_record@.initializer_nft_token_accounts,
            ) {
                Err(e) => Err(e),
                Ok(_) => match first_refusal(
                    vault_verdicts(
                        assets,
                        token_program,
                        accounts.initializer.key,
                        accounts.vault_authority,
                    ),
                ) {
                    Err(e) => Err(e),
                    Ok(_) => Ok(authority),
                },
            },
        }
    }
}

/// What a cancellation decides once the references are read.
pub open spec fn release_decision(
    accounts: CancelContextAccounts,
    found: Option<(Key, u8)>,
    token_program: Key,
    assets: Seq<VaultedAsset>,
) -> Result<SettlementView, Refusal> {
    match release_verdict(accounts, found, token_program, assets) {
        Err(e) => Err(e),
        Ok(authority) => Ok(
            SettlementView { vault_authority: authority, actions: restitution(accounts, assets) },
        ),
    }
}

/// Decides a cancellation on references that are already read: `found` is
/// the derived vault authority, `token_program` the token program's address.
pub fn release(
    accounts: &CancelContextAccounts,
    found: &Option<(Key, u8)>,
    token_program: &Key,
    assets: &Vec<VaultedAsset>,
) -> (r: Result<Settlement, Refusal>)
    ensures
        settlement_view(r) == release_decision(*accounts, *found, *token_program, assets@),
{
    if assets.len() != accounts.escrow_record.vault_account_bumps.len() {
        return Err(Refusal::Check(MyError::NftAmountMismatch));
    }
    let authority = match check_vault_authority(&accounts.vault_authority, found) {
        Err(e) => { return Err(e); },
        Ok(authority) => authority,
    };
    match check_recorded(
        &collect_source_keys(assets),
        &accounts.escrow_record.initializer_nft_token_accounts,
    ) {
        Err(e) => { return Err(e); },
        Ok(_) => {},
    }
    match check_vaults(assets, token_program, &accounts.initializer.key, &accounts.vault_authority) {
        Err(e) => { return Err(e); },
        Ok(_) => {},
    }
    let mut actions: Vec<Action> = Vec::new();
    let mut index: usize = 0;
    while index < assets.len()
        invariant
            index <= assets.len(),
            actions@ == releases(
                vault_keys(assets@).take(index as int),
                source_keys(assets@),
                accounts.initializer.key,
                accounts.vault_authority,
            ),
        decreases assets.len() - index,
    {
        let asset = &assets[index];
        proof {
            assert(vault_keys(assets@).take(index + 1).drop_last() =~= vault_keys(assets@).take(
                index as int,
            ));
        }
        actions.push(
            Action::Transfer {
                transfer: accounts.into_transfer_to_initializer_context(
                    &asset.vault.key,
                    &asset.source.account.key,
                ),
            },
        );
        actions.push(Action::Close { close: accounts.into_close_context(&asset.vault.key) });
        index += 1;
        assert(actions@ =~= releases(
            vault_keys(assets@).take(index as int),
            source_keys(assets@),
            accounts.initializer.key,
            accounts.vault_authority,
        ));
    }
    assert(vault_keys(assets@).take(assets.len() as int) =~= vault_keys(assets@));
    actions.push(
        Action::ReleaseCurrency {
            escrow: accounts.escrow_account,
            to: accounts.initializer.key,
            lamports: accounts.escrow_record.initializer_additional_sol_amount,
        },
    );
    actions.push(
        Action::CloseRecord {
            escrow: accounts.escrow_account,
            destination: accounts.initializer.key,
        },
    );
    assert(actions@ =~= restitution(*accounts, assets@));
    Ok(Settlement { vault_authority: authority, actions })
}

/// What a cancellation comes to on a call as the host hands it over: the
/// list of references must hold exactly one triple for each recorded salt.
pub open spec fn cancel_outcome(ctx: CancelContext) -> Result<SettlementView, Refusal> {
    let bumps = ctx.accounts.escrow_record@.vault_account_bumps;
    if ctx.remaining_accounts@.len() != 3 * bumps.len() {
        Err(Refusal::Check(MyError::NftAmountMismatch))
    } else {
        release_decision(
            ctx.accounts,
            vault_authority_of(ctx.accounts.initializer.key, ctx.accounts.taker.key, ctx.program_id),
            token_program_key(),
            triples(ctx.remaining_accounts@, bumps, ctx.accounts.initializer.key, ctx.program_id),
        )
    }
}

/// Cancels a trade: pure restitution to the initializer. Nothing is moved
/// here: the result lists what is to be requested.
pub fn cancel(cancel_context: &CancelContext) -> (r: Result<Settlement, Refusal>)
    ensures
        settlement_view(r) == cancel_outcome(*cancel_context),
{
    let ctx = cancel_context;
    let bumps = &ctx.accounts.escrow_record.vault_account_bumps;
    let references = ctx.remaining_accounts.len();
    if references % 3 != 0 || references / 3 != bumps.len() {
        return Err(Refusal::Check(MyError::NftAmountMismatch));
    }
    let found = derive_vault_authority(
        &ctx.accounts.initializer.key,
        &ctx.accounts.taker.key,
        &ctx.program_id,
    );
    let token_program = token_program_id();
    let assets = match resolve_triples(
        &ctx.remaining_accounts,
        bumps,
        &ctx.accounts.initializer.key,
        &ctx.program_id,
    ) {
        Err(e) => { return Err(e); },
        Ok(assets) => assets,
    };
    release(&ctx.accounts, &found, &token_program, &assets)
}

} // verus!
