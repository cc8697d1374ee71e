//! The checks that an account must pass before the protocol relies on it.
//!
//! Each check exists twice. The function that takes `AccountFacts` decides
//! on values that are already decoded and derived; the function that takes
//! an `AccountSnapshot` decodes and derives, then decides in the same way.

use crate::errors::{MyError, Refusal};
use crate::host::{
    associated_address, create_program_address, find_program_address, found_program_address,
    get_associated_token_address, program_address, seed_bytes, token_program_id,
    unpack_token_account, unpacked_token_account,
};
use crate::state::{
    AccountFacts, AccountSnapshot, Key, TokenAccount, VaultAuthority, TOKEN_PROGRAM_ID,
    VAULT_ACCOUNT_PDA_SEED, VAULT_AUTHORITY_PDA_SEED,
};
use vstd::prelude::*;

verus! {

/// The token program's address as a key.
pub open spec fn token_program_key() -> Key {
    Key { bytes: TOKEN_PROGRAM_ID }
}

/// The verdict on two parties' balances against what they pledge: the
/// initializer's shortfall is reported before the taker's.
pub open spec fn funds_verdict(
    initializer_lamports: u64,
    taker_lamports: u64,
    initializer_additional_sol_amount: u64,
    taker_additional_sol_amount: u64,
) -> Result<(), Refusal> {
    if initializer_lamports < initializer_additional_sol_amount {
        Err(Refusal::Check(MyError::InitializerInsufficientFunds))
    } else if taker_lamports < taker_additional_sol_amount {
        Err(Refusal::Check(MyError::TakerInsufficientFunds))
    } else {
        Ok(())
    }
}

/// Checks that each party holds the currency that it pledges.
pub fn has_sufficient_funds(
    initializer_account_info: &AccountSnapshot,
    taker_account_info: &AccountSnapshot,
    initializer_additional_sol_amount: u64,
    taker_additional_sol_amount: u64,
) -> (r: Result<(), Refusal>)
    ensures
        r == funds_verdict(
            initializer_account_info.lamports,
            taker_account_info.lamports,
            initializer_additional_sol_amount,
            taker_additional_sol_amount,
        ),
{
    if initializer_account_info.lamports < initializer_additional_sol_amount {
        return Err(Refusal::Check(MyError::InitializerInsufficientFunds));
    }
    if taker_account_info.lamports < taker_additional_sol_amount {
        return Err(Refusal::Check(MyError::TakerInsufficientFunds));
    }
    Ok(())
}

/// The verdict on the party on whose word an operation acts: it must have
/// signed the call.
pub open spec fn signature_verdict(account_info: AccountSnapshot) -> Result<(), Refusal> {
    if account_info.is_signer {
        Ok(())
    } else {
        Err(Refusal::MissingSignature)
    }
}

/// Checks that the holder of the account has signed the call.
pub fn assert_signed(account_info: &AccountSnapshot) -> (r: Result<(), Refusal>)
    ensures
        r == signature_verdict(*account_info),
{
    if account_info.is_signer {
        Ok(())
    } else {
        Err(Refusal::MissingSignature)
    }
}

/// The verdict on two keys that must be the same.
pub open spec fn keys_verdict(key1: Key, key2: Key, error_code: MyError) -> Result<(), Refusal> {
    if key1 == key2 {
        Ok(())
    } else {
        Err(Refusal::Check(error_code))
    }
}

/// Checks that two keys are the same and reports `error_code` if they
/// are not.
pub fn assert_keys_equal(key1: &Key, key2: &Key, error_code: MyError) -> (r: Result<(), Refusal>)
    ensures
        r == keys_verdict(*key1, *key2, error_code),
{
    if key1.equals(key2) {
        Ok(())
    } else {
        Err(Refusal::Check(error_code))
    }
}

/// Checks that the given program controls the account.
pub fn assert_owned_by(account_info: &AccountSnapshot, owner: &Key) -> (r: Result<(), Refusal>)
    ensures
        r == keys_verdict(account_info.owner, *owner, MyError::IncorrectAccountInfoOwner),
{
    assert_keys_equal(&account_info.owner, owner, MyError::IncorrectAccountInfoOwner)
}

/// The verdict on what decoding an account's data gave: the record, if there
/// is one and it is initialized.
pub open spec fn initialized_record(record: Option<TokenAccount>) -> Result<TokenAccount, Refusal> {
    match record {
        None => Err(Refusal::InvalidAccountData),
        Some(account) => if account.initialized() {
            Ok(account)
        } else {
            Err(Refusal::Check(MyError::UninitializedAssociatedToken))
        },
    }
}

/// Judges what decoding an account's data gave.
pub fn check_initialized(record: Option<TokenAccount>) -> (r: Result<TokenAccount, Refusal>)
    ensures
        r == initialized_record(record),
{
    match record {
        None => Err(Refusal::InvalidAccountData),
        Some(account) => if account.is_initialized() {
            Ok(account)
        } else {
            Err(Refusal::Check(MyError::UninitializedAssociatedToken))
        },
    }
}

/// Decodes the account's data and gives the token account record in it, if
/// it is initialized.
pub fn assert_initialized(account_info: &AccountSnapshot) -> (r: Result<TokenAccount, Refusal>)
    ensures
        r == initialized_record(unpacked_token_account(account_info.data@)),
{
    check_initialized(unpack_token_account(account_info.data.as_slice()))
}

/// What decoding makes of an account.
pub open spec fn decoded(account_info: AccountSnapshot) -> AccountFacts {
    AccountFacts {
        key: account_info.key,
        owner: account_info.owner,
        lamports: account_info.lamports,
        token: unpacked_token_account(account_info.data@),
    }
}

/// Decodes an account.
pub fn decode(account_info: &AccountSnapshot) -> (facts: AccountFacts)
    ensures
        facts == decoded(*account_info),
{
    AccountFacts {
        key: account_info.key,
        owner: account_info.owner,
        lamports: account_info.lamports,
        token: unpack_token_account(account_info.data.as_slice()),
    }
}

/// The units that an account must hold in a phase.
pub open spec fn expected_amount(has_nft: bool) -> u64 {
    if has_nft {
        1
    } else {
        0
    }
}

/// The verdict on an account that should be the canonical holding account of
/// `wallet` for an asset, `canonical` being the address derived for the two.
/// The checks come in this order: the token program controls the account;
/// its data holds an initialized record; `wallet` owns it; it lies at the
/// canonical address; it holds the units that the phase expects.
pub open spec fn ata_verdict(
    ata: AccountFacts,
    token_program: Key,
    wallet: Key,
    canonical: Key,
    has_nft: bool,
) -> Result<TokenAccount, Refusal> {
    if ata.owner != token_program {
        Err(Refusal::Check(MyError::IncorrectAccountInfoOwner))
    } else {
        match initialized_record(ata.token) {
            Err(e) => Err(e),
            Ok(ata_account) => if ata_account.owner != wallet {
                Err(Refusal::Check(MyError::AssociatedAuthorityMismatch))
            } else if canonical != ata.key {
                Err(Refusal::Check(MyError::AssociatedTokenPublicKeyMismatch))
            } else if ata_account.amount != expected_amount(has_nft) {
                Err(Refusal::Check(MyError::NotFoundNft))
            } else {
                Ok(ata_account)
            },
        }
    }
}

/// Judges a decoded account against the canonical address that was derived
/// for `wallet` and the asset.
pub fn check_ata(
    ata: &AccountFacts,
    token_program: &Key,
    wallet: &Key,
    canonical: &Key,
    has_nft: bool,
) -> (r: Result<TokenAccount, Refusal>)
    ensures
        r == ata_verdict(*ata, *token_program, *wallet, *canonical, has_nft),
{
    if !ata.owner.equals(token_program) {
        return Err(Refusal::Check(MyError::IncorrectAccountInfoOwner));
    }
    let ata_account = match check_initialized(ata.token) {
        Err(e) => { return Err(e); },
        Ok(account) => account,
    };
    if !ata_account.owner.equals(wallet) {
        return Err(Refusal::Check(MyError::AssociatedAuthorityMismatch));
    }
    if !canonical.equals(&ata.key) {
        return Err(Refusal::Check(MyError::AssociatedTokenPublicKeyMismatch));
    }
    let expected: u64 = if has_nft { 1 } else { 0 };
    if ata_account.amount != expected {
        return Err(Refusal::Check(MyError::NotFoundNft));
    }
    Ok(ata_account)
}

/// Checks that `ata` is the canonical holding account of `wallet` for the
/// asset of `mint` and holds one unit (`has_nft`) or none.
pub fn assert_is_ata(
    ata: &AccountSnapshot,
    wallet: &Key,
    mint: &AccountSnapshot,
    has_nft: bool,
) -> (r: Result<TokenAccount, Refusal>)
    ensures
        r == ata_verdict(
            decoded(*ata),
            token_program_key(),
            *wallet,
            associated_address(*wallet, mint.key),
            has_nft,
        ),
{
    let token_program = token_program_id();
    let canonical = get_associated_token_address(wallet, &mint.key);
    let facts = decode(ata);
    check_ata(&facts, &token_program, wallet, &canonical, has_nft)
}

/// The seeds from which the vault of a pledged asset is derived: the tag,
/// the address of the account that held the asset, and the salt.
pub open spec fn vault_seeds(token_account: Key, bump: u8) -> Seq<Seq<u8>> {
    seq![VAULT_ACCOUNT_PDA_SEED@, token_account.bytes@, seq![bump]]
}

/// The address of the vault for the asset held in `token_account`, if the
/// salt gives one.
pub open spec fn vault_address(token_account: Key, bump: u8, program_id: Key) -> Option<Key> {
    program_address(vault_seeds(token_account, bump), program_id)
}

/// A copy of the bytes.
pub fn bytes_to_vec(bytes: &[u8]) -> (v: Vec<u8>)
    ensures
        v@ == bytes@,
{
    let mut v: Vec<u8> = Vec::new();
    let mut i: usize = 0;
    while i < bytes.len()
        invariant
            i <= bytes.len(),
            v@ == bytes@.take(i as int),
        decreases bytes.len() - i,
    {
        v.push(bytes[i]);
        i += 1;
    }
    v
}

/// Derives the address of the vault for the asset held in `token_account`.
pub fn derive_vault_address(token_account: &Key, bump: u8, program_id: &Key) -> (r: Option<Key>)
    ensures
        r == vault_address(*token_account, bump, *program_id),
{
    let mut seeds: Vec<Vec<u8>> = Vec::new();
    seeds.push(bytes_to_vec(VAULT_ACCOUNT_PDA_SEED.as_slice()));
    seeds.push(bytes_to_vec(token_account.bytes.as_slice()));
    let mut salt: Vec<u8> = Vec::new();
    salt.push(bump);
    seeds.push(salt);
    proof {
        assert(seed_bytes(seeds@) =~~= vault_seeds(*token_account, bump));
    }
    create_program_address(&seeds, program_id)
}

/// The seeds from which the vault authority of two parties is derived,
/// before the salt: the tag and the two addresses.
pub open spec fn vault_authority_seeds(initializer: Key, taker: Key) -> Seq<Seq<u8>> {
    seq![VAULT_AUTHORITY_PDA_SEED@, initializer.bytes@, taker.bytes@]
}

/// The vault authority of two parties under a program, with its salt, if
/// the search finds one.
pub open spec fn vault_authority_of(initializer: Key, taker: Key, program_id: Key) -> Option<
    (Key, u8),
> {
    found_program_address(vault_authority_seeds(initializer, taker), program_id)
}

/// Derives the vault authority of two parties.
pub fn derive_vault_authority(initializer: &Key, taker: &Key, program_id: &Key) -> (r: Option<
    (Key, u8),
>)
    ensures
        r == vault_authority_of(*initializer, *taker, *program_id),
{
    let mut seeds: Vec<Vec<u8>> = Vec::new();
    seeds.push(bytes_to_vec(VAULT_AUTHORITY_PDA_SEED.as_slice()));
    seeds.push(bytes_to_vec(initializer.bytes.as_slice()));
    seeds.push(bytes_to_vec(taker.bytes.as_slice()));
    proof {
        assert(seed_bytes(seeds@) =~~= vault_authority_seeds(*initializer, *taker));
    }
    find_program_address(&seeds, program_id)
}

/// The verdict on the account that is handed over as the vault authority,
/// `found` being what the derivation gave: the salt, if the account is the
/// derived one.
pub open spec fn authority_verdict(supplied: Key, found: Option<(Key, u8)>) -> Result<
    VaultAuthority,
    Refusal,
> {
    match found {
        Some((authority, bump)) => if authority == supplied {
            Ok(VaultAuthority { bump })
        } else {
            Err(Refusal::Check(MyError::PdaPublicKeyMismatch))
        },
        None => Err(Refusal::Check(MyError::PdaPublicKeyMismatch)),
    }
}

/// Judges the account that is handed over as the vault authority against
/// what the derivation gave.
pub fn check_vault_authority(supplied: &Key, found: &Option<(Key, u8)>) -> (r: Result<
    VaultAuthority,
    Refusal,
>)
    ensures
        r == authority_verdict(*supplied, *found),
{
    match found {
        Some((authority, bump)) => if authority.equals(supplied) {
            Ok(VaultAuthority { bump: *bump })
        } else {
            Err(Refusal::Check(MyError::PdaPublicKeyMismatch))
        },
        None => Err(Refusal::Check(MyError::PdaPublicKeyMismatch)),
    }
}

/// The verdict on a vault and the account that its asset came from,
/// `derived` being the address derived for the vault. The checks come in
/// this order: the token program controls the vault; its data holds an
/// initialized record; the vault authority owns it; it lies at the derived
/// address; the source account holds an initialized record of the same
/// asset; the source is empty; the vault holds one unit. A vault that does
/// not lie at its derived address, or whose salt derives none, is a
/// derivation mismatch, as it is when a trade is opened.
pub open spec fn pda_verdict(
    token_account: AccountFacts,
    vault: AccountFacts,
    token_program: Key,
    vault_authority: Key,
    derived: Option<Key>,
) -> Result<TokenAccount, Refusal> {
    if vault.owner != token_program {
        Err(Refusal::Check(MyError::IncorrectAccountInfoOwner))
    } else {
        match initialized_record(vault.token) {
            Err(e) => Err(e),
            Ok(vault_account) => if vault_account.owner != vault_authority {
                Err(Refusal::Check(MyError::AssociatedAuthorityMismatch))
            } else if derived != Some(vault.key) {
                Err(Refusal::Check(MyError::PdaPublicKeyMismatch))
            } else {
                match initialized_record(token_account.token) {
                    Err(e) => Err(e),
                    Ok(source) => if source.mint != vault_account.mint {
                        Err(Refusal::Check(MyError::MintPublicKeyMismatch))
                    } else if source.amount != 0 || vault_account.amount != 1 {
                        Err(Refusal::Check(MyError::NotFoundNft))
                    } else {
                        Ok(vault_account)
                    },
                }
            },
        }
    }
}

/// A vault that the token program controls and the vault authority owns,
/// but that does not lie at the address that its salt derives, is refused
/// as a derivation mismatch, whatever its source holds.
pub proof fn lemma_vault_off_its_address(
    token_account: AccountFacts,
    vault: AccountFacts,
    token_program: Key,
    vault_authority: Key,
    derived: Option<Key>,
)
    requires
        vault.owner == token_program,
        initialized_record(vault.token) matches Ok(vault_account) && vault_account.owner
            == vault_authority,
        derived != Some(vault.key),
    ensures
        pda_verdict(token_account, vault, token_program, vault_authority, derived) == Err::<
            TokenAccount,
            Refusal,
        >(Refusal::Check(MyError::PdaPublicKeyMismatch)),
{
}

/// Judges a decoded vault and its decoded source against the address that
/// was derived for the vault.
pub fn check_pda(
    token_account: &AccountFacts,
    vault: &AccountFacts,
    token_program: &Key,
    vault_authority: &Key,
    derived: &Option<Key>,
) -> (r: Result<TokenAccount, Refusal>)
    ensures
        r == pda_verdict(*token_account, *vault, *token_program, *vault_authority, *derived),
{
    if !vault.owner.equals(token_program) {
        return Err(Refusal::Check(MyError::IncorrectAccountInfoOwner));
    }
    let vault_account = match check_initialized(vault.token) {
        Err(e) => { return Err(e); },
        Ok(account) => account,
    };
    if !vault_account.owner.equals(vault_authority) {
        return Err(Refusal::Check(MyError::AssociatedAuthorityMismatch));
    }
    let at_derived = match derived {
        Some(vault_pda) => vault_pda.equals(&vault.key),
        None => false,
    };
    if !at_derived {
        return Err(Refusal::Check(MyError::PdaPublicKeyMismatch));
    }
    let source = match check_initialized(token_account.token) {
        Err(e) => { return Err(e); },
        Ok(account) => account,
    };
    if !source.mint.equals(&vault_account.mint) {
        return Err(Refusal::Check(MyError::MintPublicKeyMismatch));
    }
    if source.amount != 0 || vault_account.amount != 1 {
        return Err(Refusal::Check(MyError::NotFoundNft));
    }
    Ok(vault_account)
}

/// Checks that `vault_account_info` is the vault of the asset that came from
/// `token_account_info`: derived with `bump`, owned by `vault_authority`, and
/// holding the unit that the source no longer holds.
pub fn assert_is_pda(
    token_account_info: &AccountSnapshot,
    bump: u8,
    vault_account_info: &AccountSnapshot,
    vault_authority: &Key,
    program_id: &Key,
) -> (r: Result<TokenAccount, Refusal>)
    ensures
        r == pda_verdict(
            decoded(*token_account_info),
            decoded(*vault_account_info),
            token_program_key(),
            *vault_authority,
            vault_address(token_account_info.key, bump, *program_id),
        ),
{
    let token_program = token_program_id();
    let derived = derive_vault_address(&token_account_info.key, bump, program_id);
    let source = decode(token_account_info);
    let vault = decode(vault_account_info);
    check_pda(&source, &vault, &token_program, vault_authority, &derived)
}

} // verus!
