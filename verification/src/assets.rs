//! The flat list of asset references that comes with every operation: how it
//! is read position by position, and how a sequence of verdicts becomes one.

use crate::errors::{MyError, Refusal};
use crate::host::{associated_address, get_associated_token_address};
use crate::state::{AccountFacts, AccountSnapshot, Key};
use crate::utils::{
    ata_verdict, check_ata, check_pda, decode, decoded, derive_vault_address, pda_verdict,
    vault_address,
};
use vstd::prelude::*;

verus! {

/// A token account that an operation refers to, with the asset it is for and
/// the canonical address of the expected party's account for that asset.
#[derive(Clone, Copy, Debug, PartialEq, Eq)]
pub struct AssetAccount {
    pub account: AccountFacts,
    pub mint: Key,
    pub canonical: Key,
}

/// A pledged asset of the initializer: the account it came from, its vault,
/// the salt of the vault and the address that the salt derives, if any.
#[derive(Clone, Copy, Debug, PartialEq, Eq)]
pub struct VaultedAsset {
    pub source: AssetAccount,
    pub vault: AccountFacts,
    pub bump: u8,
    pub derived: Option<Key>,
}

/// The addresses of the accounts of a block, in its order.
pub open spec fn account_keys(assets: Seq<AssetAccount>) -> Seq<Key> {
    Seq::new(assets.len(), |i: int| assets[i].account.key)
}

/// The addresses of the accounts that the pledged assets came from, in
/// their order.
pub open spec fn source_keys(assets: Seq<VaultedAsset>) -> Seq<Key> {
    Seq::new(assets.len(), |i: int| assets[i].source.account.key)
}

/// The salts of the vaults, in the order of the pledged assets.
pub open spec fn salts(assets: Seq<VaultedAsset>) -> Seq<u8> {
    Seq::new(assets.len(), |i: int| assets[i].bump)
}

/// The addresses of the vaults, in the order of the pledged assets.
pub open spec fn vault_keys(assets: Seq<VaultedAsset>) -> Seq<Key> {
    Seq::new(assets.len(), |i: int| assets[i].vault.key)
}

/// Collects the addresses of the accounts of a block.
pub fn collect_account_keys(assets: &Vec<AssetAccount>) -> (keys: Vec<Key>)
    ensures
        keys@ == account_keys(assets@),
{
    let mut keys: Vec<Key> = Vec::new();
    let mut index: usize = 0;
    while index < assets.len()
        invariant
            index <= assets.len(),
            keys@ == account_keys(assets@.take(index as int)),
        decreases assets.len() - index,
    {
        keys.push(assets[index].account.key);
        index += 1;
        assert(keys@ =~= account_keys(assets@.take(index as int)));
    }
    assert(assets@.take(assets.len() as int) =~= assets@);
    keys
}

/// Collects the addresses of the accounts that the pledged assets came from.
pub fn collect_source_keys(assets: &Vec<VaultedAsset>) -> (keys: Vec<Key>)
    ensures
        keys@ == source_keys(assets@),
{
    let mut keys: Vec<Key> = Vec::new();
    let mut index: usize = 0;
    while index < assets.len()
        invariant
            index <= assets.len(),
            keys@ == source_keys(assets@.take(index as int)),
        decreases assets.len() - index,
    {
        keys.push(assets[index].source.account.key);
        index += 1;
        assert(keys@ =~= source_keys(assets@.take(index as int)));
    }
    assert(assets@.take(assets.len() as int) =~= assets@);
    keys
}

/// Collects the salts of the vaults.
pub fn collect_salts(assets: &Vec<VaultedAsset>) -> (bumps: Vec<u8>)
    ensures
        bumps@ == salts(assets@),
{
    let mut bumps: Vec<u8> = Vec::new();
    let mut index: usize = 0;
    while index < assets.len()
        invariant
            index <= assets.len(),
            bumps@ == salts(assets@.take(index as int)),
        decreases assets.len() - index,
    {
        bumps.push(assets[index].bump);
        index += 1;
        assert(bumps@ =~= salts(assets@.take(index as int)));
    }
    assert(assets@.take(assets.len() as int) =~= assets@);
    bumps
}

/// The verdict on the accounts that a call refers to against the accounts
/// that the record names: they must be the same, in the same order.
pub open spec fn recorded_verdict(supplied: Seq<Key>, recorded: Seq<Key>) -> Result<(), Refusal> {
    if supplied == recorded {
        Ok(())
    } else {
        Err(Refusal::Check(MyError::AssociatedTokenPublicKeyMismatch))
    }
}

/// Compares the accounts that a call refers to with those that the record
/// names.
pub fn check_recorded(supplied: &Vec<Key>, recorded: &Vec<Key>) -> (r: Result<(), Refusal>)
    ensures
        r == recorded_verdict(supplied@, recorded@),
{
    if supplied.len() != recorded.len() {
        return Err(Refusal::Check(MyError::AssociatedTokenPublicKeyMismatch));
    }
    let mut index: usize = 0;
    while index < supplied.len()
        invariant
            index <= supplied.len(),
            supplied.len() == recorded.len(),
            forall|i: int| 0 <= i < index ==> supplied@[i] == recorded@[i],
        decreases supplied.len() - index,
    {
        if !supplied[index].equals(&recorded[index]) {
            return Err(Refusal::Check(MyError::AssociatedTokenPublicKeyMismatch));
        }
        index += 1;
    }
    assert(supplied@ =~= recorded@);
    Ok(())
}

/// The first refusal in a sequence of verdicts, if there is one.
pub open spec fn first_refusal(verdicts: Seq<Result<(), Refusal>>) -> Result<(), Refusal>
    decreases verdicts.len(),
{
    if verdicts.len() == 0 {
        Ok(())
    } else if first_refusal(verdicts.drop_last()) is Err {
        first_refusal(verdicts.drop_last())
    } else {
        verdicts.last()
    }
}

/// A refusal among the first `k` verdicts is the refusal of the whole.
pub proof fn lemma_refusal_persists(verdicts: Seq<Result<(), Refusal>>, k: int)
    requires
        0 <= k <= verdicts.len(),
    ensures
        first_refusal(verdicts.take(k)) is Err ==> first_refusal(verdicts) == first_refusal(
            verdicts.take(k),
        ),
    decreases verdicts.len() - k,
{
    if k == verdicts.len() {
        assert(verdicts.take(k) =~= verdicts);
    } else if first_refusal(verdicts.take(k)) is Err {
        assert(verdicts.take(k + 1).drop_last() =~= verdicts.take(k));
        lemma_refusal_persists(verdicts, k + 1);
    }
}

/// One more verdict after a prefix without refusal decides the longer prefix.
pub proof fn lemma_refusal_step(verdicts: Seq<Result<(), Refusal>>, k: int)
    requires
        0 <= k < verdicts.len(),
        first_refusal(verdicts.take(k)) is Ok,
    ensures
        first_refusal(verdicts.take(k + 1)) == verdicts[k],
{
    assert(verdicts.take(k + 1).drop_last() =~= verdicts.take(k));
}

/// No refusal comes out exactly when no verdict is one; a refusal that comes
/// out is the first in the sequence.
pub proof fn lemma_first_refusal(verdicts: Seq<Result<(), Refusal>>)
    ensures
        first_refusal(verdicts) is Ok <==> forall|i: int|
            0 <= i < verdicts.len() ==> verdicts[i] is Ok,
        first_refusal(verdicts) is Err ==> exists|i: int|
            0 <= i < verdicts.len() && verdicts[i] == first_refusal(verdicts) && forall|j: int|
                0 <= j < i ==> verdicts[j] is Ok,
    decreases verdicts.len(),
{
    if verdicts.len() > 0 {
        let front = verdicts.drop_last();
        lemma_first_refusal(front);
        if first_refusal(front) is Err {
            let i = choose|i: int|
                0 <= i < front.len() && front[i] == first_refusal(front) && forall|j: int|
                    0 <= j < i ==> front[j] is Ok;
            assert(verdicts[i] == first_refusal(verdicts));
            assert(forall|j: int| 0 <= j < i ==> front[j] == verdicts[j]);
        } else {
            assert(forall|j: int| 0 <= j < front.len() ==> front[j] == verdicts[j]);
            if verdicts.last() is Err {
                let i = verdicts.len() - 1;
                assert(verdicts[i] == first_refusal(verdicts));
            }
        }
    }
}

/// The verdict on an account that `wallet` should hold for an asset.
pub open spec fn holding_verdict(
    asset: AssetAccount,
    token_program: Key,
    wallet: Key,
    has_nft: bool,
) -> Result<(), Refusal> {
    match ata_verdict(asset.account, token_program, wallet, asset.canonical, has_nft) {
        Err(e) => Err(e),
        Ok(_) => Ok(()),
    }
}

/// The verdicts on a block of accounts, in the order of the block.
pub open spec fn holding_verdicts(
    assets: Seq<AssetAccount>,
    token_program: Key,
    wallet: Key,
    has_nft: bool,
) -> Seq<Result<(), Refusal>> {
    Seq::new(assets.len(), |i: int| holding_verdict(assets[i], token_program, wallet, has_nft))
}

/// Checks a block of accounts in order and stops at the first refusal.
pub fn check_holdings(
    assets: &Vec<AssetAccount>,
    token_program: &Key,
    wallet: &Key,
    has_nft: bool,
) -> (r: Result<(), Refusal>)
    ensures
        r == first_refusal(holding_verdicts(assets@, *token_program, *wallet, has_nft)),
{
    let ghost verdicts = holding_verdicts(assets@, *token_program, *wallet, has_nft);
    let mut index: usize = 0;
    while index < assets.len()
        invariant
            index <= assets.len(),
            verdicts == holding_verdicts(assets@, *token_program, *wallet, has_nft),
            first_refusal(verdicts.take(index as int)) is Ok,
        decreases assets.len() - index,
    {
        let asset = &assets[index];
        proof {
            lemma_refusal_step(verdicts, index as int);
        }
        match check_ata(&asset.account, token_program, wallet, &asset.canonical, has_nft) {
            Err(e) => {
                proof {
                    lemma_refusal_persists(verdicts, index + 1);
                }
                return Err(e);
            },
            Ok(_) => {},
        }
        index += 1;
    }
    assert(verdicts.take(assets.len() as int) =~= verdicts);
    Ok(())
}

/// The verdict on an asset that the initializer is about to pledge: the
/// source is the initializer's canonical account and holds the unit, and the
/// vault lies at the address that its salt derives.
pub open spec fn deposit_verdict(
    asset: VaultedAsset,
    token_program: Key,
    initializer: Key,
) -> Result<(), Refusal> {
    match ata_verdict(asset.source.account, token_program, initializer, asset.source.canonical, true) {
        Err(e) => Err(e),
        Ok(_) => if asset.derived != Some(asset.vault.key) {
            Err(Refusal::Check(MyError::PdaPublicKeyMismatch))
        } else {
            Ok(())
        },
    }
}

/// The verdicts on the assets about to be pledged, in their order.
pub open spec fn deposit_verdicts(
    assets: Seq<VaultedAsset>,
    token_program: Key,
    initializer: Key,
) -> Seq<Result<(), Refusal>> {
    Seq::new(assets.len(), |i: int| deposit_verdict(assets[i], token_program, initializer))
}

/// Checks the assets about to be pledged in order and stops at the first
/// refusal.
pub fn check_deposits(assets: &Vec<VaultedAsset>, token_program: &Key, initializer: &Key) -> (r:
    Result<(), Refusal>)
    ensures
        r == first_refusal(deposit_verdicts(assets@, *token_program, *initializer)),
{
    let ghost verdicts = deposit_verdicts(assets@, *token_program, *initializer);
    let mut index: usize = 0;
    while index < assets.len()
        invariant
            index <= assets.len(),
            verdicts == deposit_verdicts(assets@, *token_program, *initializer),
            first_refusal(verdicts.take(index as int)) is Ok,
        decreases assets.len() - index,
    {
        let asset = &assets[index];
        proof {
            lemma_refusal_step(verdicts, index as int);
            lemma_refusal_persists(verdicts, index + 1);
        }
        match check_ata(&asset.source.account, token_program, initializer, &asset.source.canonical, true) {
            Err(e) => {
                return Err(e);
            },
            Ok(_) => {},
        }
        let at_derived = match asset.derived {
            Some(vault_pda) => vault_pda.equals(&asset.vault.key),
            None => false,
        };
        if !at_derived {
            return Err(Refusal::Check(MyError::PdaPublicKeyMismatch));
        }
        index += 1;
    }
    assert(verdicts.take(assets.len() as int) =~= verdicts);
    Ok(())
}

/// The verdict on a vaulted asset: the source is the initializer's canonical
/// account and is empty, and the vault passes the vault checks.
pub open spec fn vault_verdict(
    asset: VaultedAsset,
    token_program: Key,
    initializer: Key,
    vault_authority: Key,
) -> Result<(), Refusal> {
    match ata_verdict(asset.source.account, token_program, initializer, asset.source.canonical, false) {
        Err(e) => Err(e),
        Ok(_) => match pda_verdict(
            asset.source.account,
            asset.vault,
            token_program,
            vault_authority,
            asset.derived,
        ) {
            Err(e) => Err(e),
            Ok(_) => Ok(()),
        },
    }
}

/// The verdicts on the vaulted assets, in their order.
pub open spec fn vault_verdicts(
    assets: Seq<VaultedAsset>,
    token_program: Key,
    initializer: Key,
    vault_authority: Key,
) -> Seq<Result<(), Refusal>> {
    Seq::new(
        assets.len(),
        |i: int| vault_verdict(assets[i], token_program, initializer, vault_authority),
    )
}

/// Checks the vaulted assets in order and stops at the first refusal.
pub fn check_vaults(
    assets: &Vec<VaultedAsset>,
    token_program: &Key,
    initializer: &Key,
    vault_authority: &Key,
) -> (r: Result<(), Refusal>)
    ensures
        r == first_refusal(vault_verdicts(assets@, *token_program, *initializer, *vault_authority)),
{
    let ghost verdicts = vault_verdicts(assets@, *token_program, *initializer, *vault_authority);
    let mut index: usize = 0;
    while index < assets.len()
        invariant
            index <= assets.len(),
            verdicts == vault_verdicts(assets@, *token_program, *initializer, *vault_authority),
            first_refusal(verdicts.take(index as int)) is Ok,
        decreases assets.len() - index,
    {
        let asset = &assets[index];
        proof {
            lemma_refusal_step(verdicts, index as int);
            lemma_refusal_persists(verdicts, index + 1);
        }
        match check_ata(&asset.source.account, token_program, initializer, &asset.source.canonical, false) {
            Err(e) => {
                return Err(e);
            },
            Ok(_) => {},
        }
        match check_pda(&asset.source.account, &asset.vault, token_program, vault_authority, &asset.derived) {
            Err(e) => {
                return Err(e);
            },
            Ok(_) => {},
        }
        index += 1;
    }
    assert(verdicts.take(assets.len() as int) =~= verdicts);
    Ok(())
}

/// The pair at position `index` of a block of (account, mint) pairs that
/// starts at `start`, read for the party `wallet`.
pub open spec fn pair_at(
    remaining_accounts: Seq<AccountSnapshot>,
    start: int,
    index: int,
    wallet: Key,
) -> AssetAccount {
    let mint = remaining_accounts[start + 2 * index + 1].key;
    AssetAccount {
        account: decoded(remaining_accounts[start + 2 * index]),
        mint,
        canonical: associated_address(wallet, mint),
    }
}

/// The block of `count` pairs that starts at `start`.
pub open spec fn pairs(
    remaining_accounts: Seq<AccountSnapshot>,
    start: int,
    count: int,
    wallet: Key,
) -> Seq<AssetAccount> {
    Seq::new(count as nat, |index: int| pair_at(remaining_accounts, start, index, wallet))
}

/// Reads a block of (account, mint) pairs for the party `wallet`, or
/// refuses a block that reaches beyond the list.
pub fn resolve_pairs(
    remaining_accounts: &Vec<AccountSnapshot>,
    start: usize,
    count: usize,
    wallet: &Key,
) -> (r: Result<Vec<AssetAccount>, Refusal>)
    ensures
        match r {
            Ok(assets) => start + 2 * count <= remaining_accounts.len() && assets@ == pairs(
                remaining_accounts@,
                start as int,
                count as int,
                *wallet,
            ),
            Err(e) => start + 2 * count > remaining_accounts.len() && e == Refusal::Check(
                MyError::NftAmountMismatch,
            ),
        },
{
    if start > remaining_accounts.len() || count > (remaining_accounts.len() - start) / 2 {
        return Err(Refusal::Check(MyError::NftAmountMismatch));
    }
    let mut assets: Vec<AssetAccount> = Vec::new();
    let mut index: usize = 0;
    while index < count
        invariant
            index <= count,
            start + 2 * count <= remaining_accounts.len(),
            assets@ == pairs(remaining_accounts@, start as int, index as int, *wallet),
        decreases count - index,
    {
        let token_account = &remaining_accounts[start + 2 * index];
        let mint = remaining_accounts[start + 2 * index + 1].key;
        assets.push(
            AssetAccount {
                account: decode(token_account),
                mint,
                canonical: get_associated_token_address(wallet, &mint),
            },
        );
        index += 1;
        assert(assets@ =~= pairs(remaining_accounts@, start as int, index as int, *wallet));
    }
    Ok(assets)
}

/// The triple at position `index` of the leading block of (account, vault,
/// mint) triples, read for the party `wallet` with the salt `bump`.
pub open spec fn triple_at(
    remaining_accounts: Seq<AccountSnapshot>,
    index: int,
    wallet: Key,
    bump: u8,
    program_id: Key,
) -> VaultedAsset {
    let token_account = remaining_accounts[3 * index];
    let mint = remaining_accounts[3 * index + 2].key;
    VaultedAsset {
        source: AssetAccount {
            account: decoded(token_account),
            mint,
            canonical: associated_address(wallet, mint),
        },
        vault: decoded(remaining_accounts[3 * index + 1]),
        bump,
        derived: vault_address(token_account.key, bump, program_id),
    }
}

/// The leading block of triples, one for each salt.
pub open spec fn triples(
    remaining_accounts: Seq<AccountSnapshot>,
    bumps: Seq<u8>,
    wallet: Key,
    program_id: Key,
) -> Seq<VaultedAsset> {
    Seq::new(
        bumps.len(),
        |index: int| triple_at(remaining_accounts, index, wallet, bumps[index], program_id),
    )
}

/// The triples carry the salts that they were read with, and their sources
/// are the accounts at every third position of the list.
pub proof fn lemma_triples(
    remaining_accounts: Seq<AccountSnapshot>,
    bumps: Seq<u8>,
    wallet: Key,
    program_id: Key,
)
    ensures
        salts(triples(remaining_accounts, bumps, wallet, program_id)) == bumps,
        source_keys(triples(remaining_accounts, bumps, wallet, program_id)) == Seq::new(
            bumps.len(),
            |index: int| remaining_accounts[3 * index].key,
        ),
        vault_keys(triples(remaining_accounts, bumps, wallet, program_id)) == Seq::new(
            bumps.len(),
            |index: int| remaining_accounts[3 * index + 1].key,
        ),
{
    let assets = triples(remaining_accounts, bumps, wallet, program_id);
    assert(salts(assets) =~= bumps);
    assert(source_keys(assets) =~= Seq::new(
        bumps.len(),
        |index: int| remaining_accounts[3 * index].key,
    ));
    assert(vault_keys(assets) =~= Seq::new(
        bumps.len(),
        |index: int| remaining_accounts[3 * index + 1].key,
    ));
}

/// Reads the leading block of (account, vault, mint) triples for the party
/// `wallet`, one triple for each salt, or refuses a block that reaches beyond
/// the list.
pub fn resolve_triples(
    remaining_accounts: &Vec<AccountSnapshot>,
    bumps: &Vec<u8>,
    wallet: &Key,
    program_id: &Key,
) -> (r: Result<Vec<VaultedAsset>, Refusal>)
    ensures
        match r {
            Ok(assets) => 3 * bumps.len() <= remaining_accounts.len() && assets@ == triples(
                remaining_accounts@,
                bumps@,
                *wallet,
                *program_id,
            ),
            Err(e) => 3 * bumps.len() > remaining_accounts.len() && e == Refusal::Check(
                MyError::NftAmountMismatch,
            ),
        },
{
    if bumps.len() > remaining_accounts.len() / 3 {
        return Err(Refusal::Check(MyError::NftAmountMismatch));
    }
    let mut assets: Vec<VaultedAsset> = Vec::new();
    let mut index: usize = 0;
    while index < bumps.len()
        invariant
            index <= bumps.len(),
            3 * bumps.len() <= remaining_accounts.len(),
            assets@ == triples(remaining_accounts@, bumps@.take(index as int), *wallet, *program_id),
        decreases bumps.len() - index,
    {
        let token_account = &remaining_accounts[3 * index];
        let vault_account = &remaining_accounts[3 * index + 1];
        let mint = remaining_accounts[3 * index + 2].key;
        let bump = bumps[index];
        assets.push(
            VaultedAsset {
                source: AssetAccount {
                    account: decode(token_account),
                    mint,
                    canonical: get_associated_token_address(wallet, &mint),
                },
                vault: decode(vault_account),
                bump,
                derived: derive_vault_address(&token_account.key, bump, program_id),
            },
        );
        index += 1;
        assert(assets@ =~= triples(
            remaining_accounts@,
            bumps@.take(index as int),
            *wallet,
            *program_id,
        ));
    }
    assert(bumps@.take(bumps.len() as int) =~= bumps@);
    Ok(assets)
}

} // verus!
