//! What the operations bring about, stated over the model of the ledger and
//! proved from the contracts of the operations.

use crate::assets::{
    account_keys, deposit_verdicts, holding_verdict, holding_verdicts, lemma_first_refusal,
    source_keys, vault_keys, vault_verdict, vault_verdicts, AssetAccount, VaultedAsset,
};
use crate::cpi::Action;
use crate::instructions::cancel_by_initializer::CancelByInitializer;
use crate::instructions::cancel_by_taker::CancelByTaker;
use crate::instructions::exchange::{blocks_fit, receipts, swap, Exchange};
use crate::instructions::initialize::{
    decision, deposit_of, deposits, pledge_payment, recorded_terms, Initialize,
};
use crate::instructions::Context;
use crate::model::{commit, fresh_vault, open_record, opened, run, settled, step, World};
use crate::state::{AccountFacts, AccountState, Key, TokenAccount};
use crate::traits::{
    cancel_outcome, release_decision, release_of, releases, restitution, CancelContext,
    CancelContextAccounts,
};
use crate::utils::{authority_verdict, token_program_key};
use vstd::prelude::*;

verus! {

/// Performing two lists of requests one after the other is performing their
/// concatenation.
pub proof fn lemma_run_append(w: World, first: Seq<Action>, second: Seq<Action>)
    ensures
        run(w, first + second, None) == match run(w, first, None) {
            Some(between) => run(between, second, None),
            None => None,
        },
    decreases second.len(),
{
    if second.len() == 0 {
        assert(first + second =~= first);
    } else {
        assert((first + second).drop_last() =~= first + second.drop_last());
        assert((first + second).last() == second.last());
        lemma_run_append(w, first, second.drop_last());
    }
}

/// Performing one request is taking its step.
pub proof fn lemma_run_one(w: World, action: Action)
    ensures
        run(w, seq![action], None) == step(w, action),
{
    assert(seq![action].drop_last() =~= Seq::<Action>::empty());
    assert(run(w, seq![action].drop_last(), None) == Some(w));
}

/// A fault at any position makes the whole list fail.
pub proof fn lemma_fault_fails(w: World, actions: Seq<Action>, position: int)
    requires
        0 <= position < actions.len(),
    ensures
        run(w, actions, Some(position)) is None,
    decreases actions.len(),
{
    if position < actions.len() - 1 {
        lemma_fault_fails(w, actions.drop_last(), position);
    }
}

/// The requests of an operation take effect together or not at all: a fault
/// at any one of them leaves the ledger as it was before the first.
pub proof fn lemma_fault_leaves_ledger_intact(w: World, actions: Seq<Action>, position: int)
    requires
        0 <= position < actions.len(),
    ensures
        commit(w, actions, Some(position)) == w,
{
    lemma_fault_fails(w, actions, position);
}

/// A vault that holds its unit for the vault authority.
pub open spec fn held_vault(vault: Key, mint: Key, vault_authority: Key) -> AccountFacts {
    AccountFacts {
        token: Some(
            TokenAccount { mint, owner: vault_authority, amount: 1, state: AccountState::Initialized },
        ),
        ..fresh_vault(vault, mint, vault_authority)
    }
}

/// A token account with another number of units.
pub open spec fn holding(facts: AccountFacts, amount: u64) -> AccountFacts {
    match facts.token {
        Some(account) => AccountFacts { token: Some(TokenAccount { amount, ..account }), ..facts },
        None => facts,
    }
}

/// Whether the ledger lets an asset be put into its vault: the initializer
/// exists, the vault's address is unused, and the source is a token account
/// in use that the initializer owns and that holds the unit of the asset.
pub open spec fn deposit_ready(w: World, asset: VaultedAsset, initializer: Key) -> bool {
    &&& w.accounts.contains_key(initializer)
    &&& !w.accounts.contains_key(asset.vault.key)
    &&& w.token(asset.source.account.key) matches Some(source)
    &&& source.owner == initializer
    &&& source.amount == 1
    &&& source.mint == asset.source.mint
}

/// The ledger after an asset was put into its vault.
pub open spec fn deposited(w: World, asset: VaultedAsset, vault_authority: Key) -> World {
    let source = asset.source.account.key;
    World {
        accounts: w.accounts.insert(
            asset.vault.key,
            held_vault(asset.vault.key, asset.source.mint, vault_authority),
        ).insert(source, holding(w.accounts[source], 0)),
        ..w
    }
}

/// The three requests of a deposit do what a deposit is.
pub proof fn lemma_deposit(w: World, asset: VaultedAsset, initializer: Key, vault_authority: Key)
    requires
        deposit_ready(w, asset, initializer),
    ensures
        run(w, deposit_of(asset, initializer, vault_authority), None) == Some(
            deposited(w, asset, vault_authority),
        ),
{
    let requests = deposit_of(asset, initializer, vault_authority);
    let source = asset.source.account.key;
    let vault = asset.vault.key;
    assert(requests =~= seq![requests[0]] + seq![requests[1]] + seq![requests[2]]);
    lemma_run_append(w, seq![requests[0]] + seq![requests[1]], seq![requests[2]]);
    lemma_run_append(w, seq![requests[0]], seq![requests[1]]);
    lemma_run_one(w, requests[0]);
    let created = step(w, requests[0])->0;
    lemma_run_one(created, requests[1]);
    assert(created.token(vault) == fresh_vault(vault, asset.source.mint, initializer).token);
    let handed = step(created, requests[1])->0;
    lemma_run_one(handed, requests[2]);
    assert(handed.token(source) == w.token(source));
    let moved = step(handed, requests[2])->0;
    assert(moved.accounts =~= deposited(w, asset, vault_authority).accounts);
}

/// The ledger after the assets were put into their vaults, one after the
/// other.
pub open spec fn deposited_all(w: World, assets: Seq<VaultedAsset>, vault_authority: Key) -> World
    decreases assets.len(),
{
    if assets.len() == 0 {
        w
    } else {
        deposited(
            deposited_all(w, assets.drop_last(), vault_authority),
            assets.last(),
            vault_authority,
        )
    }
}

/// Whether `key` is the address of one of the vaults.
pub open spec fn is_vault(assets: Seq<VaultedAsset>, key: Key) -> bool {
    exists|i: int| 0 <= i < assets.len() && (#[trigger] assets[i]).vault.key == key
}

/// Whether `key` is the address of one of the accounts that the assets
/// came from.
pub open spec fn is_source(assets: Seq<VaultedAsset>, key: Key) -> bool {
    exists|i: int| 0 <= i < assets.len() && (#[trigger] assets[i]).source.account.key == key
}

/// No two assets share a vault or a source.
pub open spec fn distinct_assets(assets: Seq<VaultedAsset>) -> bool {
    forall|i: int, j: int|
        0 <= i < j < assets.len() ==> (#[trigger] assets[i]).vault.key != (
        #[trigger] assets[j]).vault.key && assets[i].source.account.key
            != assets[j].source.account.key
}

/// Whether the ledger lets all the assets be put into their vaults.
pub open spec fn deposits_ready(w: World, assets: Seq<VaultedAsset>, initializer: Key) -> bool {
    &&& forall|i: int|
        0 <= i < assets.len() ==> deposit_ready(w, #[trigger] assets[i], initializer)
    &&& distinct_assets(assets)
}

/// What the ledger looks like after the deposits: every vault holds its
/// unit for the vault authority, every source is empty, and nothing else
/// has changed.
pub open spec fn deposits_done(
    w: World,
    after: World,
    assets: Seq<VaultedAsset>,
    vault_authority: Key,
) -> bool {
    &&& after.record == w.record
    &&& forall|i: int|
        0 <= i < assets.len() ==> after.accounts.contains_key((#[trigger] assets[i]).vault.key)
            && after.accounts[assets[i].vault.key] == held_vault(
            assets[i].vault.key,
            assets[i].source.mint,
            vault_authority,
        )
    &&& forall|i: int|
        0 <= i < assets.len() ==> after.accounts.contains_key(
            (#[trigger] assets[i]).source.account.key,
        ) && after.accounts[assets[i].source.account.key] == holding(
            w.accounts[assets[i].source.account.key],
            0,
        )
    &&& forall|key: Key| #[trigger]
        after.accounts.contains_key(key) <==> w.accounts.contains_key(key) || is_vault(assets, key)
    &&& forall|key: Key|
        w.accounts.contains_key(key) && !is_source(assets, key) ==> #[trigger] after.accounts[key]
            == w.accounts[key]
}

/// The requests of the deposits succeed on a ledger that is ready for them,
/// and leave every vault with its unit.
pub proof fn lemma_deposits(
    w: World,
    assets: Seq<VaultedAsset>,
    initializer: Key,
    vault_authority: Key,
)
    requires
        deposits_ready(w, assets, initializer),
    ensures
        run(w, deposits(assets, initializer, vault_authority), None) == Some(
            deposited_all(w, assets, vault_authority),
        ),
        deposits_done(w, deposited_all(w, assets, vault_authority), assets, vault_authority),
    decreases assets.len(),
{
    if assets.len() == 0 {
    } else {
        let front = assets.drop_last();
        let last = assets.last();
        assert(forall|i: int| 0 <= i < front.len() ==> front[i] == assets[i]);
        lemma_deposits(w, front, initializer, vault_authority);
        let mid = deposited_all(w, front, vault_authority);
        let after = deposited_all(w, assets, vault_authority);
        assert(deposit_ready(w, assets[assets.len() - 1], initializer));
        assert(!is_vault(front, last.vault.key));
        assert(!is_vault(front, initializer));
        assert(!is_vault(front, last.source.account.key));
        assert(!is_source(front, last.source.account.key));
        assert(mid.accounts[last.source.account.key] == w.accounts[last.source.account.key]);
        assert(deposit_ready(mid, last, initializer));
        lemma_deposit(mid, last, initializer, vault_authority);
        lemma_run_append(
            w,
            deposits(front, initializer, vault_authority),
            deposit_of(last, initializer, vault_authority),
        );
        assert forall|i: int| 0 <= i < assets.len() implies after.accounts.contains_key(
            (#[trigger] assets[i]).vault.key,
        ) && after.accounts[assets[i].vault.key] == held_vault(
            assets[i].vault.key,
            assets[i].source.mint,
            vault_authority,
        ) by {
            if i < front.len() {
                assert(front[i] == assets[i]);
                assert(is_vault(front, assets[i].vault.key));
            }
        }
        assert forall|i: int| 0 <= i < assets.len() implies after.accounts.contains_key(
            (#[trigger] assets[i]).source.account.key,
        ) && after.accounts[assets[i].source.account.key] == holding(
            w.accounts[assets[i].source.account.key],
            0,
        ) by {
            if i < front.len() {
                assert(front[i] == assets[i]);
                assert(deposit_ready(w, assets[i], initializer));
            }
        }
        assert forall|key: Key| #[trigger]
            after.accounts.contains_key(key) <==> w.accounts.contains_key(key) || is_vault(
                assets,
                key,
            ) by {
            if is_vault(front, key) {
                let i = choose|i: int| 0 <= i < front.len() && (#[trigger] front[i]).vault.key == key;
                assert(assets[i].vault.key == key);
            }
            if key == last.vault.key {
                assert(assets[assets.len() - 1].vault.key == key);
            }
            if is_vault(assets, key) {
                let i = choose|i: int|
                    0 <= i < assets.len() && (#[trigger] assets[i]).vault.key == key;
                if i < front.len() {
                    assert(front[i].vault.key == key);
                }
            }
        }
        assert forall|key: Key|
            w.accounts.contains_key(key) && !is_source(assets, key) implies #[trigger] after.accounts[key]
            == w.accounts[key] by {
            assert(key != last.source.account.key) by {
                assert(assets[assets.len() - 1].source.account.key == last.source.account.key);
            }
            if is_source(front, key) {
                let i = choose|i: int|
                    0 <= i < front.len() && (#[trigger] front[i]).source.account.key == key;
                assert(assets[i].source.account.key == key);
            }
        }
    }
}

/// Whether the ledger lets a vaulted asset be handed out: the vault holds
/// its unit for the vault authority, the destination is an empty token
/// account of the same asset, and the initializer is a plain account whose
/// balance can take the vault's storage deposit.
pub open spec fn release_ready(
    w: World,
    vault: Key,
    destination: Key,
    initializer: Key,
    vault_authority: Key,
) -> bool {
    &&& w.token(vault) matches Some(held)
    &&& held.owner == vault_authority
    &&& held.amount == 1
    &&& w.token(destination) matches Some(target)
    &&& target.mint == held.mint
    &&& target.amount == 0
    &&& w.accounts.contains_key(initializer)
    &&& w.facts(initializer).token is None
    &&& w.lamports(initializer) + w.lamports(vault) <= u64::MAX
}

/// The ledger after a vaulted asset was handed out and its vault closed.
pub open spec fn released(w: World, vault: Key, destination: Key, initializer: Key) -> World {
    World {
        accounts: w.accounts.remove(vault).insert(
            destination,
            holding(w.accounts[destination], 1),
        ).insert(
            initializer,
            AccountFacts {
                lamports: (w.lamports(initializer) + w.lamports(vault)) as u64,
                ..w.accounts[initializer]
            },
        ),
        ..w
    }
}

/// The two requests of a release do what a release is.
pub proof fn lemma_release(
    w: World,
    vault: Key,
    destination: Key,
    initializer: Key,
    vault_authority: Key,
)
    requires
        release_ready(w, vault, destination, initializer, vault_authority),
    ensures
        run(w, release_of(vault, destination, initializer, vault_authority), None) == Some(
            released(w, vault, destination, initializer),
        ),
{
    let requests = release_of(vault, destination, initializer, vault_authority);
    assert(requests =~= seq![requests[0]] + seq![requests[1]]);
    lemma_run_append(w, seq![requests[0]], seq![requests[1]]);
    lemma_run_one(w, requests[0]);
    let moved = step(w, requests[0])->0;
    lemma_run_one(moved, requests[1]);
    assert(moved.token(vault) == Some(TokenAccount { amount: 0, ..w.token(vault)->0 }));
    let closed = step(moved, requests[1])->0;
    assert(closed.accounts =~= released(w, vault, destination, initializer).accounts);
}

/// The ledger after the vaulted assets were handed out, one after the
/// other, each to the destination at its position.
pub open spec fn released_all(
    w: World,
    vaults: Seq<Key>,
    destinations: Seq<Key>,
    initializer: Key,
) -> World
    decreases vaults.len(),
{
    if vaults.len() == 0 {
        w
    } else {
        released(
            released_all(w, vaults.drop_last(), destinations, initializer),
            vaults.last(),
            destinations[vaults.len() - 1],
            initializer,
        )
    }
}

/// The native currency that the accounts at the addresses hold together.
pub open spec fn total_lamports(w: World, keys: Seq<Key>) -> int
    decreases keys.len(),
{
    if keys.len() == 0 {
        0
    } else {
        total_lamports(w, keys.drop_last()) + w.lamports(keys.last())
    }
}

/// A total of balances is not negative.
pub proof fn lemma_total_lamports(w: World, keys: Seq<Key>)
    ensures
        total_lamports(w, keys) >= 0,
    decreases keys.len(),
{
    if keys.len() > 0 {
        lemma_total_lamports(w, keys.drop_last());
    }
}

/// No address occurs twice.
pub open spec fn distinct_keys(keys: Seq<Key>) -> bool {
    forall|i: int, j: int| 0 <= i < j < keys.len() ==> keys[i] != keys[j]
}

/// Whether the ledger lets all the vaulted assets be handed out.
pub open spec fn releases_ready(
    w: World,
    vaults: Seq<Key>,
    destinations: Seq<Key>,
    initializer: Key,
    vault_authority: Key,
) -> bool {
    &&& vaults.len() == destinations.len()
    &&& distinct_keys(vaults)
    &&& distinct_keys(destinations)
    &&& w.accounts.contains_key(initializer)
    &&& w.facts(initializer).token is None
    &&& w.lamports(initializer) + total_lamports(w, vaults) <= u64::MAX
    &&& forall|i: int|
        0 <= i < vaults.len() ==> {
            &&& w.token(#[trigger] vaults[i]) matches Some(held)
            &&& held.owner == vault_authority
            &&& held.amount == 1
            &&& w.token(destinations[i]) matches Some(target)
            &&& target.mint == held.mint
            &&& target.amount == 0
        }
}

/// What the ledger looks like after the releases: no vault is left, every
/// destination holds its unit, the initializer has the storage deposits, and
/// nothing else has changed.
pub open spec fn releases_done(
    w: World,
    after: World,
    vaults: Seq<Key>,
    destinations: Seq<Key>,
    initializer: Key,
) -> bool {
    &&& after.record == w.record
    &&& forall|i: int|
        0 <= i < destinations.len() ==> after.accounts.contains_key(#[trigger] destinations[i])
            && after.accounts[destinations[i]] == holding(w.accounts[destinations[i]], 1)
    &&& after.accounts.contains_key(initializer)
    &&& after.accounts[initializer] == (AccountFacts {
        lamports: (w.lamports(initializer) + total_lamports(w, vaults)) as u64,
        ..w.accounts[initializer]
    })
    &&& forall|key: Key| #[trigger]
        after.accounts.contains_key(key) <==> w.accounts.contains_key(key) && !vaults.contains(key)
    &&& forall|key: Key|
        w.accounts.contains_key(key) && !vaults.contains(key) && !destinations.contains(key) && key
            != initializer ==> #[trigger] after.accounts[key] == w.accounts[key]
}

/// The requests of the releases succeed on a ledger that is ready for them,
/// and leave every destination with its unit.
pub proof fn lemma_releases(
    w: World,
    vaults: Seq<Key>,
    destinations: Seq<Key>,
    initializer: Key,
    vault_authority: Key,
)
    requires
        releases_ready(w, vaults, destinations, initializer, vault_authority),
    ensures
        run(w, releases(vaults, destinations, initializer, vault_authority), None) == Some(
            released_all(w, vaults, destinations, initializer),
        ),
        releases_done(
            w,
            released_all(w, vaults, destinations, initializer),
            vaults,
            destinations,
            initializer,
        ),
    decreases vaults.len(),
{
    if vaults.len() == 0 {
        assert(forall|key: Key| !vaults.contains(key));
    } else {
        let n = vaults.len() - 1;
        let front = vaults.drop_last();
        let front_destinations = destinations.drop_last();
        let vault = vaults[n];
        let destination = destinations[n];
        assert(forall|i: int| 0 <= i < n ==> front[i] == vaults[i]);
        assert(forall|i: int| 0 <= i < n ==> front_destinations[i] == destinations[i]);
        lemma_releases_prefix(w, front, front_destinations, destinations, initializer, vault_authority);
        assert(total_lamports(w, vaults) == total_lamports(w, front) + w.lamports(vault));
        lemma_total_lamports(w, front);
        lemma_releases(w, front, front_destinations, initializer, vault_authority);
        let mid = released_all(w, front, front_destinations, initializer);
        let after = released_all(w, vaults, destinations, initializer);
        assert(w.token(vaults[n]) is Some);
        assert(w.token(destinations[n]) is Some);
        assert(!front.contains(vault));
        assert(!front_destinations.contains(destination));
        assert(!front.contains(destination)) by {
            if front.contains(destination) {
                let i = choose|i: int| 0 <= i < front.len() && front[i] == destination;
                assert(w.token(vaults[i]) is Some);
            }
        }
        assert(!front_destinations.contains(vault)) by {
            if front_destinations.contains(vault) {
                let i = choose|i: int|
                    0 <= i < front_destinations.len() && front_destinations[i] == vault;
                assert(w.token(vaults[i]) is Some);
                assert(destinations[i] == vault);
            }
        }
        assert(vault != initializer && destination != initializer);
        assert(mid.accounts[vault] == w.accounts[vault]);
        assert(mid.accounts[destination] == w.accounts[destination]);
        assert(total_lamports(w, vaults) == total_lamports(w, front) + w.lamports(vault));
        assert(release_ready(mid, vault, destination, initializer, vault_authority));
        lemma_release(mid, vault, destination, initializer, vault_authority);
        lemma_run_append(
            w,
            releases(front, destinations, initializer, vault_authority),
            release_of(vault, destination, initializer, vault_authority),
        );
        assert forall|i: int| 0 <= i < destinations.len() implies after.accounts.contains_key(
            #[trigger] destinations[i],
        ) && after.accounts[destinations[i]] == holding(w.accounts[destinations[i]], 1) by {
            assert(w.token(vaults[i]) is Some);
            if i < n {
                assert(front_destinations[i] == destinations[i]);
            }
        }
        assert forall|key: Key| #[trigger]
            after.accounts.contains_key(key) <==> w.accounts.contains_key(key) && !vaults.contains(
                key,
            ) by {
            if front.contains(key) {
                let i = choose|i: int| 0 <= i < front.len() && front[i] == key;
                assert(vaults[i] == key);
            }
            if vaults.contains(key) {
                let i = choose|i: int| 0 <= i < vaults.len() && vaults[i] == key;
                if i < n {
                    assert(front[i] == key);
                }
            }
        }
        assert forall|key: Key|
            w.accounts.contains_key(key) && !vaults.contains(key) && !destinations.contains(key)
                && key != initializer implies #[trigger] after.accounts[key]
            == w.accounts[key] by {
            if front.contains(key) {
                let i = choose|i: int| 0 <= i < front.len() && front[i] == key;
                assert(vaults[i] == key);
            }
            if front_destinations.contains(key) {
                let i = choose|i: int|
                    0 <= i < front_destinations.len() && front_destinations[i] == key;
                assert(destinations[i] == key);
            }
            assert(vaults[n] == vault);
            assert(destinations[n] == destination);
        }
    }
}

/// The requests of the releases read no destination beyond the last vault.
pub proof fn lemma_releases_prefix(
    w: World,
    vaults: Seq<Key>,
    destinations: Seq<Key>,
    longer: Seq<Key>,
    initializer: Key,
    vault_authority: Key,
)
    requires
        vaults.len() <= destinations.len() <= longer.len(),
        forall|i: int| 0 <= i < destinations.len() ==> destinations[i] == longer[i],
    ensures
        releases(vaults, destinations, initializer, vault_authority) == releases(
            vaults,
            longer,
            initializer,
            vault_authority,
        ),
        released_all(w, vaults, destinations, initializer) == released_all(
            w,
            vaults,
            longer,
            initializer,
        ),
    decreases vaults.len(),
{
    if vaults.len() > 0 {
        lemma_releases_prefix(
            w,
            vaults.drop_last(),
            destinations,
            longer,
            initializer,
            vault_authority,
        );
    }
}

/// Whether a call to open a trade describes the ledger, and the ledger has
/// room for the trade: no trade is open; the escrow account and the vaults
/// lie at unused addresses; the initializer is a plain account with the
/// balance that the call shows; every source is shown as it is, is in use
/// and holds the asset that the call names for it; no two assets share a
/// vault or a source.
pub open spec fn initialize_ready(w: World, accounts: Initialize, assets: Seq<VaultedAsset>) -> bool {
    let initializer = accounts.initializer.key;
    &&& w.record is None
    &&& !w.accounts.contains_key(accounts.escrow_account)
    &&& w.accounts.contains_key(initializer)
    &&& w.facts(initializer).token is None
    &&& w.lamports(initializer) == accounts.initializer.lamports
    &&& distinct_assets(assets)
    &&& forall|i: int|
        0 <= i < assets.len() ==> {
            &&& (#[trigger] assets[i]).source.account == w.facts(assets[i].source.account.key)
            &&& !w.accounts.contains_key(assets[i].vault.key)
            &&& assets[i].vault.key != accounts.escrow_account
            &&& w.token(assets[i].source.account.key) matches Some(source)
            &&& source.mint == assets[i].source.mint
        }
}

/// After every accepted call to open a trade, once its requests are
/// performed: the record exists and holds the parties and pledges of the
/// call; every pledged asset has its vault, which holds exactly one unit of
/// the asset and is owned by the vault authority derived for the two parties;
/// the vaults and the escrow account are the only new accounts; and the
/// currency pledge has moved from the initializer to the escrow account.
pub proof fn lemma_initialize_establishes(
    w: World,
    program_id: Key,
    accounts: Initialize,
    found: Option<(Key, u8)>,
    token_program: Key,
    initializer_additional_sol_amount: u64,
    taker_additional_sol_amount: u64,
    initializer_assets: Seq<VaultedAsset>,
    taker_assets: Seq<AssetAccount>,
)
    requires
        decision(
            accounts,
            found,
            token_program,
            initializer_additional_sol_amount,
            taker_additional_sol_amount,
            initializer_assets,
            taker_assets,
        ) is Ok,
        initialize_ready(w, accounts, initializer_assets),
    ensures
        decision(
            accounts,
            found,
            token_program,
            initializer_additional_sol_amount,
            taker_additional_sol_amount,
            initializer_assets,
            taker_assets,
        ) matches Ok(done) && opened(w, program_id, accounts.escrow_account, done) matches Some(
            after,
        ) && {
            &&& found matches Some((authority, bump))
            &&& authority == accounts.vault_authority
            &&& done.vault_authority.bump == bump
            &&& after.record == Some((accounts.escrow_account, done.escrow_account))
            &&& done.escrow_account.well_formed()
            &&& done.escrow_account == recorded_terms(
                accounts.spec_parties(),
                initializer_additional_sol_amount,
                taker_additional_sol_amount,
                initializer_assets,
                taker_assets,
            )
            &&& forall|i: int|
                0 <= i < initializer_assets.len() ==> after.token(
                    (#[trigger] initializer_assets[i]).vault.key,
                ) == Some(
                    TokenAccount {
                        mint: initializer_assets[i].source.mint,
                        owner: accounts.vault_authority,
                        amount: 1,
                        state: AccountState::Initialized,
                    },
                )
            &&& forall|i: int|
                0 <= i < initializer_assets.len() ==> after.accounts[(
                #[trigger] initializer_assets[i]).vault.key] == held_vault(
                    initializer_assets[i].vault.key,
                    initializer_assets[i].source.mint,
                    accounts.vault_authority,
                )
            &&& forall|key: Key| #[trigger]
                after.accounts.contains_key(key) <==> w.accounts.contains_key(key) || key
                    == accounts.escrow_account || is_vault(initializer_assets, key)
            &&& after.accounts[accounts.escrow_account] == (AccountFacts {
                key: accounts.escrow_account,
                owner: program_id,
                lamports: initializer_additional_sol_amount,
                token: None,
            })
            &&& after.accounts[accounts.initializer.key] == (AccountFacts {
                lamports: (w.lamports(accounts.initializer.key)
                    - initializer_additional_sol_amount) as u64,
                ..w.accounts[accounts.initializer.key]
            })
            &&& w.lamports(accounts.initializer.key) >= initializer_additional_sol_amount
            &&& forall|i: int|
                0 <= i < initializer_assets.len() ==> after.accounts[(
                #[trigger] initializer_assets[i]).source.account.key] == holding(
                    w.accounts[initializer_assets[i].source.account.key],
                    0,
                )
            &&& forall|key: Key|
                w.accounts.contains_key(key) && !is_source(initializer_assets, key) && key
                    != accounts.initializer.key ==> #[trigger] after.accounts[key]
                    == w.accounts[key]
        },
{
    let initializer = accounts.initializer.key;
    let escrow = accounts.escrow_account;
    let authority = accounts.vault_authority;
    let assets = initializer_assets;
    let done = decision(
        accounts,
        found,
        token_program,
        initializer_additional_sol_amount,
        taker_additional_sol_amount,
        initializer_assets,
        taker_assets,
    )->Ok_0;
    let stored = open_record(w, program_id, escrow, done.escrow_account)->0;
    let verdicts = deposit_verdicts(assets, token_program, initializer);
    lemma_first_refusal(verdicts);
    assert forall|i: int| 0 <= i < assets.len() implies deposit_ready(
        stored,
        #[trigger] assets[i],
        initializer,
    ) by {
        assert(verdicts[i] is Ok);
        assert(stored.facts(assets[i].source.account.key) == w.facts(assets[i].source.account.key));
    }
    lemma_deposits(stored, assets, initializer, authority);
    let vaulted = deposited_all(stored, assets, authority);
    let payment = pledge_payment(accounts.spec_parties(), initializer_additional_sol_amount);
    lemma_run_append(stored, deposits(assets, initializer, authority), payment);
    assert(!is_source(assets, initializer)) by {
        if is_source(assets, initializer) {
            let i = choose|i: int|
                0 <= i < assets.len() && (#[trigger] assets[i]).source.account.key == initializer;
            assert(w.token(assets[i].source.account.key) is Some);
        }
    }
    assert(!is_source(assets, escrow)) by {
        if is_source(assets, escrow) {
            let i = choose|i: int|
                0 <= i < assets.len() && (#[trigger] assets[i]).source.account.key == escrow;
            assert(w.token(assets[i].source.account.key) is Some);
        }
    }
    assert(!is_vault(assets, initializer));
    assert(!is_vault(assets, escrow));
    assert(vaulted.accounts[initializer] == w.accounts[initializer]);
    assert(vaulted.accounts[escrow] == stored.accounts[escrow]);
    if initializer_additional_sol_amount > 0 {
        lemma_run_one(vaulted, payment[0]);
    }
    let after = run(vaulted, payment, None)->0;
    assert forall|i: int| 0 <= i < assets.len() implies after.accounts[(
    #[trigger] assets[i]).source.account.key] == holding(
        w.accounts[assets[i].source.account.key],
        0,
    ) by {
        assert(w.token(assets[i].source.account.key) is Some);
        assert(vaulted.accounts[assets[i].source.account.key] == holding(
            stored.accounts[assets[i].source.account.key],
            0,
        ));
    }
    assert forall|key: Key|
        w.accounts.contains_key(key) && !is_source(assets, key) && key
            != initializer implies #[trigger] after.accounts[key] == w.accounts[key] by {
        assert(vaulted.accounts[key] == stored.accounts[key]);
    }
    assert forall|i: int| 0 <= i < assets.len() implies after.token(
        (#[trigger] assets[i]).vault.key,
    ) == Some(
        TokenAccount {
            mint: assets[i].source.mint,
            owner: authority,
            amount: 1,
            state: AccountState::Initialized,
        },
    ) by {
        assert(vaulted.accounts[assets[i].vault.key] == held_vault(
            assets[i].vault.key,
            assets[i].source.mint,
            authority,
        ));
    }
}

/// Whether a call to cancel describes the ledger: the open trade is the one
/// that the call shows, with its escrow account; the initializer is a plain
/// account; every source and every vault is shown as it is and is in use; no
/// two assets share a vault or a source; and the initializer's balance can
/// take what comes back.
pub open spec fn cancel_ready(w: World, accounts: CancelContextAccounts, assets: Seq<VaultedAsset>) -> bool {
    let initializer = accounts.initializer.key;
    let escrow = accounts.escrow_account;
    &&& w.record == Some((escrow, accounts.escrow_record@))
    &&& w.accounts.contains_key(escrow)
    &&& w.facts(escrow).token is None
    &&& escrow != initializer
    &&& w.lamports(escrow) >= accounts.escrow_record.initializer_additional_sol_amount
    &&& w.accounts.contains_key(initializer)
    &&& w.facts(initializer).token is None
    &&& w.lamports(initializer) + total_lamports(w, vault_keys(assets)) + w.lamports(escrow)
        <= u64::MAX
    &&& distinct_assets(assets)
    &&& forall|i: int|
        0 <= i < assets.len() ==> {
            &&& (#[trigger] assets[i]).source.account == w.facts(assets[i].source.account.key)
            &&& assets[i].vault == w.facts(assets[i].vault.key)
            &&& w.token(assets[i].source.account.key) is Some
            &&& w.token(assets[i].vault.key) is Some
        }
}

/// After every accepted cancellation, once its requests are performed: every
/// vaulted asset is back in the account it came from, which the record
/// names and the initializer owns; no vault is left; the record and the escrow account are gone; and
/// the initializer has what the escrow account held, the currency pledge
/// included, and the storage deposits of the vaults. Nothing in the call
/// comes from the taker but its address.
pub proof fn lemma_cancel_restores(
    w: World,
    accounts: CancelContextAccounts,
    found: Option<(Key, u8)>,
    token_program: Key,
    assets: Seq<VaultedAsset>,
)
    requires
        release_decision(accounts, found, token_program, assets) is Ok,
        cancel_ready(w, accounts, assets),
    ensures
        release_decision(accounts, found, token_program, assets) matches Ok(done) && run(
            w,
            done.actions,
            None,
        ) matches Some(after) && {
            &&& after.record is None
            &&& source_keys(assets) == accounts.escrow_record@.initializer_nft_token_accounts
            &&& !after.accounts.contains_key(accounts.escrow_account)
            &&& forall|i: int|
                0 <= i < assets.len() ==> !after.accounts.contains_key(
                    (#[trigger] assets[i]).vault.key,
                )
            &&& forall|i: int|
                0 <= i < assets.len() ==> after.token((#[trigger] assets[i]).source.account.key)
                    == Some(
                    TokenAccount { amount: 1, ..w.token(assets[i].source.account.key)->0 },
                ) && w.token(assets[i].source.account.key)->0.owner == accounts.initializer.key
            &&& after.accounts[accounts.initializer.key] == (AccountFacts {
                lamports: (w.lamports(accounts.initializer.key) + total_lamports(
                    w,
                    vault_keys(assets),
                ) + w.lamports(accounts.escrow_account)) as u64,
                ..w.accounts[accounts.initializer.key]
            })
            &&& forall|i: int|
                0 <= i < assets.len() ==> after.accounts[(
                #[trigger] assets[i]).source.account.key] == holding(
                    w.accounts[assets[i].source.account.key],
                    1,
                )
            &&& forall|key: Key| #[trigger]
                after.accounts.contains_key(key) <==> w.accounts.contains_key(key) && !is_vault(
                    assets,
                    key,
                ) && key != accounts.escrow_account
            &&& forall|key: Key|
                w.accounts.contains_key(key) && !is_vault(assets, key) && !is_source(assets, key)
                    && key != accounts.initializer.key && key != accounts.escrow_account
                    ==> #[trigger] after.accounts[key] == w.accounts[key]
        },
{
    let initializer = accounts.initializer.key;
    let escrow = accounts.escrow_account;
    let authority = accounts.vault_authority;
    let vaults = vault_keys(assets);
    let sources = source_keys(assets);
    let done = release_decision(accounts, found, token_program, assets)->Ok_0;
    let verdicts = vault_verdicts(assets, token_program, initializer, authority);
    lemma_first_refusal(verdicts);
    lemma_total_lamports(w, vaults);
    assert forall|i: int| 0 <= i < vaults.len() implies {
        &&& w.token(#[trigger] vaults[i]) matches Some(held)
        &&& held.owner == authority
        &&& held.amount == 1
        &&& w.token(sources[i]) matches Some(target)
        &&& target.mint == held.mint
        &&& target.amount == 0
        &&& target.owner == initializer
    } by {
        assert(verdicts[i] is Ok);
        assert(assets[i].vault == w.facts(assets[i].vault.key));
    }
    assert(distinct_keys(vaults));
    assert(distinct_keys(sources));
    assert(releases_ready(w, vaults, sources, initializer, authority));
    lemma_releases(w, vaults, sources, initializer, authority);
    let mid = released_all(w, vaults, sources, initializer);
    let tail = seq![
        Action::ReleaseCurrency {
            escrow,
            to: initializer,
            lamports: accounts.escrow_record.initializer_additional_sol_amount,
        },
        Action::CloseRecord { escrow, destination: initializer },
    ];
    lemma_run_append(w, releases(vaults, sources, initializer, authority), tail);
    assert(tail =~= seq![tail[0]] + seq![tail[1]]);
    lemma_run_append(mid, seq![tail[0]], seq![tail[1]]);
    lemma_run_one(mid, tail[0]);
    assert(!vaults.contains(escrow)) by {
        if vaults.contains(escrow) {
            let i = choose|i: int| 0 <= i < vaults.len() && vaults[i] == escrow;
            assert(w.token(vaults[i]) is Some);
        }
    }
    assert(!sources.contains(escrow)) by {
        if sources.contains(escrow) {
            let i = choose|i: int| 0 <= i < sources.len() && sources[i] == escrow;
            assert(w.token(vaults[i]) is Some);
        }
    }
    assert(mid.accounts[escrow] == w.accounts[escrow]);
    let paid = step(mid, tail[0])->0;
    lemma_run_one(paid, tail[1]);
    let after = step(paid, tail[1])->0;
    assert forall|i: int| 0 <= i < assets.len() implies !after.accounts.contains_key(
        (#[trigger] assets[i]).vault.key,
    ) by {
        assert(vaults[i] == assets[i].vault.key);
        assert(vaults.contains(assets[i].vault.key));
    }
    assert forall|i: int| 0 <= i < assets.len() implies after.token(
        (#[trigger] assets[i]).source.account.key,
    ) == Some(TokenAccount { amount: 1, ..w.token(assets[i].source.account.key)->0 }) && w.token(
        assets[i].source.account.key,
    )->0.owner == initializer by {
        assert(sources[i] == assets[i].source.account.key);
        assert(w.token(vaults[i]) is Some);
        assert(mid.accounts[sources[i]] == holding(w.accounts[sources[i]], 1));
    }
    assert(!sources.contains(initializer)) by {
        if sources.contains(initializer) {
            let i = choose|i: int| 0 <= i < sources.len() && sources[i] == initializer;
            assert(w.token(vaults[i]) is Some);
        }
    }
    assert forall|i: int| 0 <= i < assets.len() implies after.accounts[(
    #[trigger] assets[i]).source.account.key] == holding(
        w.accounts[assets[i].source.account.key],
        1,
    ) by {
        assert(sources[i] == assets[i].source.account.key);
        assert(sources.contains(assets[i].source.account.key));
        assert(mid.accounts[sources[i]] == holding(w.accounts[sources[i]], 1));
    }
    assert forall|key: Key| #[trigger]
        after.accounts.contains_key(key) <==> w.accounts.contains_key(key) && !is_vault(
            assets,
            key,
        ) && key != escrow by {
        if vaults.contains(key) {
            let i = choose|i: int| 0 <= i < vaults.len() && vaults[i] == key;
            assert(assets[i].vault.key == key);
        }
        if is_vault(assets, key) {
            let i = choose|i: int|
                0 <= i < assets.len() && (#[trigger] assets[i]).vault.key == key;
            assert(vaults[i] == key);
        }
    }
    assert forall|key: Key|
        w.accounts.contains_key(key) && !is_vault(assets, key) && !is_source(assets, key) && key
            != initializer && key != escrow implies #[trigger] after.accounts[key]
        == w.accounts[key] by {
        if vaults.contains(key) {
            let i = choose|i: int| 0 <= i < vaults.len() && vaults[i] == key;
            assert(assets[i].vault.key == key);
        }
        if sources.contains(key) {
            let i = choose|i: int| 0 <= i < sources.len() && sources[i] == key;
            assert(assets[i].source.account.key == key);
        }
    }
}

/// The assets of a call with their sources and vaults as the ledger shows
/// them.
pub open spec fn seen(w: World, assets: Seq<VaultedAsset>) -> Seq<VaultedAsset> {
    Seq::new(
        assets.len(),
        |i: int|
            VaultedAsset {
                source: AssetAccount {
                    account: w.facts(assets[i].source.account.key),
                    ..assets[i].source
                },
                vault: w.facts(assets[i].vault.key),
                ..assets[i]
            },
    )
}

/// Accounts without balance hold nothing together.
pub proof fn lemma_total_of_nothing(w: World, keys: Seq<Key>)
    requires
        forall|i: int| 0 <= i < keys.len() ==> w.lamports(#[trigger] keys[i]) == 0,
    ensures
        total_lamports(w, keys) == 0,
    decreases keys.len(),
{
    if keys.len() > 0 {
        let front = keys.drop_last();
        assert(forall|i: int| 0 <= i < front.len() ==> front[i] == keys[i]);
        lemma_total_of_nothing(w, front);
        assert(w.lamports(keys[keys.len() - 1]) == 0);
    }
}

/// Opening a trade and cancelling it right away gives back the ledger as it
/// was: the cancellation of the trade that was just opened, on the accounts
/// as the ledger then shows them, is accepted, and once its requests are
/// performed every account holds what it held before the trade was opened.
/// (The model charges nothing for storage.)
pub proof fn lemma_round_trip(
    w: World,
    program_id: Key,
    opening: Initialize,
    cancelling: CancelContextAccounts,
    found: Option<(Key, u8)>,
    initializer_additional_sol_amount: u64,
    taker_additional_sol_amount: u64,
    initializer_assets: Seq<VaultedAsset>,
    taker_assets: Seq<AssetAccount>,
)
    requires
        decision(
            opening,
            found,
            token_program_key(),
            initializer_additional_sol_amount,
            taker_additional_sol_amount,
            initializer_assets,
            taker_assets,
        ) is Ok,
        initialize_ready(w, opening, initializer_assets),
        cancelling.initializer.key == opening.initializer.key,
        cancelling.taker.key == opening.taker.key,
        cancelling.vault_authority == opening.vault_authority,
        cancelling.escrow_account == opening.escrow_account,
        cancelling.escrow_record@ == recorded_terms(
            opening.spec_parties(),
            initializer_additional_sol_amount,
            taker_additional_sol_amount,
            initializer_assets,
            taker_assets,
        ),
    ensures
        decision(
            opening,
            found,
            token_program_key(),
            initializer_additional_sol_amount,
            taker_additional_sol_amount,
            initializer_assets,
            taker_assets,
        ) matches Ok(done) && opened(w, program_id, opening.escrow_account, done) matches Some(
            open,
        ) && release_decision(
            cancelling,
            found,
            token_program_key(),
            seen(open, initializer_assets),
        ) matches Ok(settled) && run(open, settled.actions, None) == Some(w),
{
    let token_program = token_program_key();
    let initializer = opening.initializer.key;
    let escrow = opening.escrow_account;
    let authority = opening.vault_authority;
    let assets = initializer_assets;
    lemma_initialize_establishes(
        w,
        program_id,
        opening,
        found,
        token_program,
        initializer_additional_sol_amount,
        taker_additional_sol_amount,
        initializer_assets,
        taker_assets,
    );
    let done = decision(
        opening,
        found,
        token_program,
        initializer_additional_sol_amount,
        taker_additional_sol_amount,
        initializer_assets,
        taker_assets,
    )->Ok_0;
    let open = opened(w, program_id, escrow, done)->0;
    let shown = seen(open, assets);
    let before = deposit_verdicts(assets, token_program, initializer);
    lemma_first_refusal(before);
    let verdicts = vault_verdicts(shown, token_program, initializer, authority);
    assert forall|i: int| 0 <= i < verdicts.len() implies verdicts[i] is Ok by {
        assert(before[i] is Ok);
        assert(w.token(assets[i].source.account.key) is Some);
        assert(open.accounts[assets[i].source.account.key] == holding(
            w.accounts[assets[i].source.account.key],
            0,
        ));
        assert(is_vault(assets, assets[i].vault.key));
        assert(open.accounts[assets[i].vault.key] == held_vault(
            assets[i].vault.key,
            assets[i].source.mint,
            authority,
        ));
    }
    lemma_first_refusal(verdicts);
    assert forall|i: int| 0 <= i < assets.len() implies (#[trigger] shown[i]).vault.key
        == assets[i].vault.key && shown[i].source.account.key
        == assets[i].source.account.key by {
        assert(is_vault(assets, assets[i].vault.key));
        assert(open.accounts[assets[i].vault.key] == held_vault(
            assets[i].vault.key,
            assets[i].source.mint,
            authority,
        ));
        assert(w.token(assets[i].source.account.key) is Some);
        assert(open.accounts[assets[i].source.account.key] == holding(
            w.accounts[assets[i].source.account.key],
            0,
        ));
    }
    assert(vault_keys(shown) =~= vault_keys(assets));
    assert(source_keys(shown) =~= source_keys(assets));
    assert(release_decision(cancelling, found, token_program, shown) is Ok);
    assert forall|i: int| 0 <= i < vault_keys(shown).len() implies open.lamports(
        #[trigger] vault_keys(shown)[i],
    ) == 0 by {
        assert(is_vault(assets, assets[i].vault.key));
        assert(open.token(assets[i].vault.key) is Some);
    }
    lemma_total_of_nothing(open, vault_keys(shown));
    assert forall|i: int| 0 <= i < shown.len() implies {
        &&& (#[trigger] shown[i]).source.account == open.facts(shown[i].source.account.key)
        &&& shown[i].vault == open.facts(shown[i].vault.key)
        &&& open.token(shown[i].source.account.key) is Some
        &&& open.token(shown[i].vault.key) is Some
    } by {
        assert(w.token(assets[i].source.account.key) is Some);
        assert(open.accounts[assets[i].source.account.key] == holding(
            w.accounts[assets[i].source.account.key],
            0,
        ));
        assert(is_vault(assets, assets[i].vault.key));
        assert(open.token(assets[i].vault.key) is Some);
    }
    assert(distinct_assets(shown));
    assert(cancel_ready(open, cancelling, shown));
    lemma_cancel_restores(open, cancelling, found, token_program, shown);
    let settled = release_decision(cancelling, found, token_program, shown)->Ok_0;
    let after = run(open, settled.actions, None)->0;
    assert forall|key: Key| after.accounts.contains_key(key) == w.accounts.contains_key(
        key,
    ) by {
        if is_vault(assets, key) {
            let i = choose|i: int|
                0 <= i < assets.len() && (#[trigger] assets[i]).vault.key == key;
            assert(shown[i].vault.key == key);
        }
        if is_vault(shown, key) {
            let i = choose|i: int| 0 <= i < shown.len() && (#[trigger] shown[i]).vault.key == key;
            assert(assets[i].vault.key == key);
        }
    }
    assert forall|key: Key| w.accounts.contains_key(key) implies after.accounts[key]
        == w.accounts[key] by {
        if is_source(assets, key) {
            let i = choose|i: int|
                0 <= i < assets.len() && (#[trigger] assets[i]).source.account.key == key;
            assert(shown[i].source.account.key == key);
            assert(before[i] is Ok);
            assert(w.token(assets[i].source.account.key) is Some);
        } else if key != initializer {
            if is_source(shown, key) {
                let i = choose|i: int|
                    0 <= i < shown.len() && (#[trigger] shown[i]).source.account.key == key;
                assert(assets[i].source.account.key == key);
            }
            if is_vault(shown, key) {
                let i = choose|i: int|
                    0 <= i < shown.len() && (#[trigger] shown[i]).vault.key == key;
                assert(assets[i].vault.key == key);
            }
            assert(open.accounts[key] == w.accounts[key]);
        }
    }
    assert(after.accounts =~= w.accounts);
}

/// Whether the ledger lets the taker's assets be handed to the initializer:
/// every source is a token account in use that the taker owns and that holds
/// its unit; every destination is an empty token account of the same asset;
/// no account occurs twice among the sources or among the destinations.
pub open spec fn receipts_ready(w: World, sources: Seq<Key>, destinations: Seq<Key>, taker: Key) -> bool {
    &&& sources.len() == destinations.len()
    &&& distinct_keys(sources)
    &&& distinct_keys(destinations)
    &&& forall|i: int|
        0 <= i < sources.len() ==> {
            &&& w.token(#[trigger] sources[i]) matches Some(held)
            &&& held.owner == taker
            &&& held.amount == 1
            &&& w.token(destinations[i]) matches Some(target)
            &&& target.mint == held.mint
            &&& target.amount == 0
        }
}

/// The ledger after the first `count` of the taker's assets were handed
/// over.
pub open spec fn received(w: World, sources: Seq<Key>, destinations: Seq<Key>, count: int) -> World
    decreases count,
{
    if count <= 0 {
        w
    } else {
        let before = received(w, sources, destinations, count - 1);
        World {
            accounts: before.accounts.insert(
                sources[count - 1],
                holding(before.accounts[sources[count - 1]], 0),
            ).insert(destinations[count - 1], holding(before.accounts[destinations[count - 1]], 1)),
            ..before
        }
    }
}

/// What the ledger looks like after the first `count` assets were handed
/// over: their sources are empty, their destinations hold a unit each, and
/// nothing else has changed.
pub open spec fn receipts_done(
    w: World,
    after: World,
    sources: Seq<Key>,
    destinations: Seq<Key>,
    count: int,
) -> bool {
    &&& after.record == w.record
    &&& forall|key: Key| #[trigger] after.accounts.contains_key(key) <==> w.accounts.contains_key(key)
    &&& forall|i: int|
        0 <= i < count ==> after.accounts[#[trigger] sources[i]] == holding(
            w.accounts[sources[i]],
            0,
        )
    &&& forall|i: int|
        0 <= i < count ==> after.accounts[#[trigger] destinations[i]] == holding(
            w.accounts[destinations[i]],
            1,
        )
    &&& forall|key: Key|
        (forall|i: int| 0 <= i < count ==> sources[i] != key && destinations[i] != key)
            ==> #[trigger] after.accounts[key] == w.accounts[key]
}

/// The transfers of the taker's assets succeed on a ledger that is ready
/// for them, and leave every destination with its unit.
pub proof fn lemma_receipts(
    w: World,
    sources: Seq<Key>,
    destinations: Seq<Key>,
    taker: Key,
    count: int,
)
    requires
        receipts_ready(w, sources, destinations, taker),
        0 <= count <= sources.len(),
    ensures
        run(w, receipts(sources, destinations, taker).take(count), None) == Some(
            received(w, sources, destinations, count),
        ),
        receipts_done(w, received(w, sources, destinations, count), sources, destinations, count),
    decreases count,
{
    let requests = receipts(sources, destinations, taker);
    if count == 0 {
        assert(requests.take(0) =~= Seq::<Action>::empty());
    } else {
        let n = count - 1;
        lemma_receipts(w, sources, destinations, taker, n);
        let mid = received(w, sources, destinations, n);
        assert(requests.take(count).drop_last() =~= requests.take(n));
        assert(requests.take(count).last() == requests[n]);
        assert(w.token(sources[n]) is Some);
        assert forall|i: int| 0 <= i < n implies sources[i] != sources[n] && destinations[i]
            != sources[n] && sources[i] != destinations[n] && destinations[i]
            != destinations[n] by {
            assert(w.token(sources[i]) is Some);
        }
        assert(mid.accounts[sources[n]] == w.accounts[sources[n]]);
        assert(mid.accounts[destinations[n]] == w.accounts[destinations[n]]);
        let after = received(w, sources, destinations, count);
        assert(step(mid, requests[n]) is Some);
        assert(step(mid, requests[n])->0.accounts =~= after.accounts);
        assert forall|i: int| 0 <= i < count implies after.accounts[#[trigger] sources[i]]
            == holding(w.accounts[sources[i]], 0) by {
            assert(w.token(sources[i]) is Some);
        }
        assert forall|i: int| 0 <= i < count implies after.accounts[#[trigger] destinations[i]]
            == holding(w.accounts[destinations[i]], 1) by {
            assert(w.token(sources[i]) is Some);
        }
    }
}

/// Balances that are the same on two ledgers add up to the same.
pub proof fn lemma_total_same(w: World, other: World, keys: Seq<Key>)
    requires
        forall|i: int| 0 <= i < keys.len() ==> w.lamports(#[trigger] keys[i]) == other.lamports(keys[i]),
    ensures
        total_lamports(w, keys) == total_lamports(other, keys),
    decreases keys.len(),
{
    if keys.len() > 0 {
        let front = keys.drop_last();
        assert(forall|i: int| 0 <= i < front.len() ==> front[i] == keys[i]);
        lemma_total_same(w, other, front);
        assert(w.lamports(keys[keys.len() - 1]) == other.lamports(keys[keys.len() - 1]));
    }
}

/// Whether every account of a block is shown as the ledger has it, is in
/// use, and occurs once.
pub open spec fn block_shown(w: World, block: Seq<AssetAccount>) -> bool {
    &&& distinct_keys(account_keys(block))
    &&& forall|i: int|
        0 <= i < block.len() ==> (#[trigger] block[i]).account == w.facts(block[i].account.key)
            && w.token(block[i].account.key) is Some
}

/// Whether a call to exchange describes the ledger: the open trade is the
/// one that the call shows, with its escrow account, which holds at least
/// the initializer's currency pledge; the two parties are different plain
/// accounts, neither of them the vault authority, and the taker has the
/// balance that the call shows; every account of the four blocks is shown as
/// it is, is in use and occurs once in its block; every destination is for
/// the asset that it is to receive; and the balances can take what they are
/// to receive.
pub open spec fn exchange_ready(
    w: World,
    accounts: Exchange,
    vaulted: Seq<VaultedAsset>,
    taker_sources: Seq<AssetAccount>,
    taker_destinations: Seq<AssetAccount>,
    initializer_destinations: Seq<AssetAccount>,
) -> bool {
    let initializer = accounts.initializer.key;
    let taker = accounts.taker.key;
    let escrow = accounts.escrow_account;
    let terms = accounts.escrow_record@;
    &&& w.record == Some((escrow, terms))
    &&& w.accounts.contains_key(escrow)
    &&& w.facts(escrow).token is None
    &&& w.lamports(escrow) >= terms.initializer_additional_sol_amount
    &&& w.accounts.contains_key(initializer)
    &&& w.facts(initializer).token is None
    &&& w.accounts.contains_key(taker)
    &&& w.facts(taker).token is None
    &&& w.lamports(taker) == accounts.taker.lamports
    &&& initializer != taker
    &&& initializer != escrow
    &&& taker != escrow
    &&& accounts.vault_authority != taker
    &&& w.lamports(initializer) + terms.taker_additional_sol_amount + total_lamports(
        w,
        vault_keys(vaulted),
    ) + w.lamports(escrow) <= u64::MAX
    &&& w.lamports(taker) + terms.initializer_additional_sol_amount <= u64::MAX
    &&& distinct_assets(vaulted)
    &&& forall|i: int|
        0 <= i < vaulted.len() ==> {
            &&& (#[trigger] vaulted[i]).source.account == w.facts(vaulted[i].source.account.key)
            &&& vaulted[i].vault == w.facts(vaulted[i].vault.key)
            &&& w.token(vaulted[i].vault.key) is Some
        }
    &&& block_shown(w, taker_sources)
    &&& block_shown(w, taker_destinations)
    &&& block_shown(w, initializer_destinations)
    &&& forall|i: int|
        0 <= i < vaulted.len() && i < taker_destinations.len() ==> w.token(
            (#[trigger] taker_destinations[i]).account.key,
        )->0.mint == w.token(vaulted[i].vault.key)->0.mint
    &&& forall|i: int|
        0 <= i < taker_sources.len() && i < initializer_destinations.len() ==> w.token(
            (#[trigger] initializer_destinations[i]).account.key,
        )->0.mint == w.token(taker_sources[i].account.key)->0.mint
}

/// Whether the taker can pay the initializer an amount: both are plain
/// accounts, different from each other, the taker has the amount and the
/// initializer's balance can take it.
pub open spec fn payment_ready(w: World, taker: Key, initializer: Key, amount: u64) -> bool {
    &&& w.accounts.contains_key(taker)
    &&& w.facts(taker).token is None
    &&& w.accounts.contains_key(initializer)
    &&& w.facts(initializer).token is None
    &&& taker != initializer
    &&& w.lamports(taker) >= amount
    &&& w.lamports(initializer) + amount <= u64::MAX
}

/// What the ledger looks like after the taker's assets and currency pledge
/// went to the initializer.
pub open spec fn received_and_paid(
    w: World,
    after: World,
    sources: Seq<Key>,
    destinations: Seq<Key>,
    taker: Key,
    initializer: Key,
    amount: u64,
) -> bool {
    &&& after.record == w.record
    &&& forall|key: Key| #[trigger] after.accounts.contains_key(key) <==> w.accounts.contains_key(key)
    &&& forall|i: int|
        0 <= i < sources.len() ==> after.accounts[#[trigger] sources[i]] == holding(
            w.accounts[sources[i]],
            0,
        )
    &&& forall|i: int|
        0 <= i < destinations.len() ==> after.accounts[#[trigger] destinations[i]] == holding(
            w.accounts[destinations[i]],
            1,
        )
    &&& after.accounts[taker] == (AccountFacts {
        lamports: (w.lamports(taker) - amount) as u64,
        ..w.accounts[taker]
    })
    &&& after.accounts[initializer] == (AccountFacts {
        lamports: (w.lamports(initializer) + amount) as u64,
        ..w.accounts[initializer]
    })
    &&& forall|key: Key|
        !sources.contains(key) && !destinations.contains(key) && key != taker && key != initializer
            ==> #[trigger] after.accounts[key] == w.accounts[key]
}

/// The first half of an exchange: the taker's assets and currency pledge go
/// to the initializer.
pub proof fn lemma_receive_and_pay(
    w: World,
    sources: Seq<Key>,
    destinations: Seq<Key>,
    taker: Key,
    initializer: Key,
    amount: u64,
)
    requires
        receipts_ready(w, sources, destinations, taker),
        payment_ready(w, taker, initializer, amount),
    ensures
        run(
            w,
            receipts(sources, destinations, taker) + seq![
                Action::SystemTransfer { from: taker, to: initializer, lamports: amount },
            ],
            None,
        ) matches Some(after) && received_and_paid(
            w,
            after,
            sources,
            destinations,
            taker,
            initializer,
            amount,
        ),
{
    let count = sources.len() as int;
    let first = receipts(sources, destinations, taker);
    let payment = Action::SystemTransfer { from: taker, to: initializer, lamports: amount };
    lemma_receipts(w, sources, destinations, taker, count);
    assert(first.take(count) =~= first);
    let mid = received(w, sources, destinations, count);
    assert forall|i: int| 0 <= i < count implies sources[i] != taker && destinations[i] != taker
        && sources[i] != initializer && destinations[i] != initializer by {
        assert(w.token(sources[i]) is Some);
    }
    assert(mid.accounts[taker] == w.accounts[taker]);
    assert(mid.accounts[initializer] == w.accounts[initializer]);
    lemma_run_append(w, first, seq![payment]);
    lemma_run_one(mid, payment);
    let after = step(mid, payment)->0;
    assert forall|key: Key|
        !sources.contains(key) && !destinations.contains(key) && key != taker && key
            != initializer implies #[trigger] after.accounts[key] == w.accounts[key] by {
        assert(forall|i: int| 0 <= i < count ==> sources[i] != key && destinations[i] != key);
        assert(mid.accounts[key] == w.accounts[key]);
    }
}

/// Whether the ledger lets an exchange be completed: the vaulted assets can
/// be handed out; the open trade lies in the escrow account, which holds at
/// least the amount that is to go to the taker; the taker is a plain account
/// other than the initializer; and the balances can take what they are to
/// receive.
pub open spec fn completion_ready(
    w: World,
    vaults: Seq<Key>,
    destinations: Seq<Key>,
    initializer: Key,
    vault_authority: Key,
    escrow: Key,
    taker: Key,
    amount: u64,
) -> bool {
    &&& releases_ready(w, vaults, destinations, initializer, vault_authority)
    &&& w.record matches Some((key, _))
    &&& key == escrow
    &&& w.accounts.contains_key(escrow)
    &&& w.facts(escrow).token is None
    &&& w.lamports(escrow) >= amount
    &&& w.accounts.contains_key(taker)
    &&& w.facts(taker).token is None
    &&& taker != escrow
    &&& taker != initializer
    &&& initializer != escrow
    &&& w.lamports(taker) + amount <= u64::MAX
    &&& w.lamports(initializer) + total_lamports(w, vaults) + w.lamports(escrow) - amount
        <= u64::MAX
}

/// What the ledger looks like after an exchange was completed.
pub open spec fn completed(
    w: World,
    after: World,
    vaults: Seq<Key>,
    destinations: Seq<Key>,
    initializer: Key,
    escrow: Key,
    taker: Key,
    amount: u64,
) -> bool {
    &&& after.record is None
    &&& forall|key: Key| #[trigger]
        after.accounts.contains_key(key) <==> w.accounts.contains_key(key) && !vaults.contains(key)
            && key != escrow
    &&& forall|i: int|
        0 <= i < destinations.len() ==> after.accounts[#[trigger] destinations[i]] == holding(
            w.accounts[destinations[i]],
            1,
        )
    &&& after.accounts[taker] == (AccountFacts {
        lamports: (w.lamports(taker) + amount) as u64,
        ..w.accounts[taker]
    })
    &&& after.accounts[initializer] == (AccountFacts {
        lamports: (w.lamports(initializer) + total_lamports(w, vaults) + w.lamports(escrow)
            - amount) as u64,
        ..w.accounts[initializer]
    })
    &&& forall|key: Key|
        w.accounts.contains_key(key) && !vaults.contains(key) && !destinations.contains(key) && key
            != initializer && key != taker && key != escrow ==> #[trigger] after.accounts[key]
            == w.accounts[key]
}

/// The second half of an exchange: the vaulted assets and the initializer's
/// currency pledge go to the taker, and the record is deleted.
pub proof fn lemma_complete(
    w: World,
    vaults: Seq<Key>,
    destinations: Seq<Key>,
    initializer: Key,
    vault_authority: Key,
    escrow: Key,
    taker: Key,
    amount: u64,
)
    requires
        completion_ready(w, vaults, destinations, initializer, vault_authority, escrow, taker, amount),
    ensures
        run(
            w,
            releases(vaults, destinations, initializer, vault_authority) + seq![
                Action::ReleaseCurrency { escrow, to: taker, lamports: amount },
                Action::CloseRecord { escrow, destination: initializer },
            ],
            None,
        ) matches Some(after) && completed(
            w,
            after,
            vaults,
            destinations,
            initializer,
            escrow,
            taker,
            amount,
        ),
{
    let release = Action::ReleaseCurrency { escrow, to: taker, lamports: amount };
    let close = Action::CloseRecord { escrow, destination: initializer };
    let first = releases(vaults, destinations, initializer, vault_authority);
    lemma_total_lamports(w, vaults);
    lemma_releases(w, vaults, destinations, initializer, vault_authority);
    let mid = released_all(w, vaults, destinations, initializer);
    assert forall|i: int| 0 <= i < vaults.len() implies vaults[i] != taker && destinations[i]
        != taker && vaults[i] != escrow && destinations[i] != escrow by {
        assert(w.token(vaults[i]) is Some);
    }
    assert(!vaults.contains(taker) && !destinations.contains(taker));
    assert(!vaults.contains(escrow) && !destinations.contains(escrow));
    assert(mid.accounts[taker] == w.accounts[taker]);
    assert(mid.accounts[escrow] == w.accounts[escrow]);
    assert(seq![release, close] =~= seq![release] + seq![close]);
    lemma_run_append(w, first, seq![release, close]);
    lemma_run_append(mid, seq![release], seq![close]);
    lemma_run_one(mid, release);
    let paid = step(mid, release)->0;
    lemma_run_one(paid, close);
    let after = step(paid, close)->0;
    assert forall|i: int| 0 <= i < destinations.len() implies after.accounts[
    #[trigger] destinations[i]] == holding(w.accounts[destinations[i]], 1) by {
        assert(w.token(vaults[i]) is Some);
        assert(mid.accounts[destinations[i]] == holding(w.accounts[destinations[i]], 1));
    }
}

/// No address of the first sequence occurs in the second.
pub open spec fn apart(first: Seq<Key>, second: Seq<Key>) -> bool {
    forall|i: int| 0 <= i < first.len() ==> !second.contains(#[trigger] first[i])
}

/// What an accepted exchange on a ledger that it describes says of the
/// ledger: each of its three groups of requests finds what it needs, and the
/// accounts of the first half are apart from those of the second.
pub proof fn lemma_exchange_finds(
    w: World,
    accounts: Exchange,
    found: Option<(Key, u8)>,
    token_program: Key,
    initializer_additional_sol_amount: u64,
    taker_additional_sol_amount: u64,
    vaulted: Seq<VaultedAsset>,
    taker_sources: Seq<AssetAccount>,
    taker_destinations: Seq<AssetAccount>,
    initializer_destinations: Seq<AssetAccount>,
)
    requires
        crate::instructions::exchange::decision(
            accounts,
            found,
            token_program,
            initializer_additional_sol_amount,
            taker_additional_sol_amount,
            vaulted,
            taker_sources,
            taker_destinations,
            initializer_destinations,
        ) is Ok,
        exchange_ready(
            w,
            accounts,
            vaulted,
            taker_sources,
            taker_destinations,
            initializer_destinations,
        ),
    ensures
        receipts_ready(
            w,
            account_keys(taker_sources),
            account_keys(initializer_destinations),
            accounts.taker.key,
        ),
        payment_ready(
            w,
            accounts.taker.key,
            accounts.initializer.key,
            accounts.escrow_record@.taker_additional_sol_amount,
        ),
        releases_ready(
            w,
            vault_keys(vaulted),
            account_keys(taker_destinations),
            accounts.initializer.key,
            accounts.vault_authority,
        ),
        apart(vault_keys(vaulted), account_keys(taker_sources)),
        apart(vault_keys(vaulted), account_keys(initializer_destinations)),
        apart(account_keys(taker_destinations), account_keys(taker_sources)),
        apart(account_keys(taker_destinations), account_keys(initializer_destinations)),
{
    let initializer = accounts.initializer.key;
    let taker = accounts.taker.key;
    let authority = accounts.vault_authority;
    let vaults = vault_keys(vaulted);
    let sources = account_keys(taker_sources);
    let gains = account_keys(initializer_destinations);
    let targets = account_keys(taker_destinations);
    lemma_first_refusal(vault_verdicts(vaulted, token_program, initializer, authority));
    lemma_first_refusal(holding_verdicts(taker_sources, token_program, taker, true));
    lemma_first_refusal(holding_verdicts(taker_destinations, token_program, taker, false));
    lemma_first_refusal(holding_verdicts(initializer_destinations, token_program, initializer, false));
    lemma_total_lamports(w, vaults);
    assert forall|i: int| 0 <= i < sources.len() implies {
        &&& w.token(#[trigger] sources[i]) matches Some(held)
        &&& held.owner == taker
        &&& held.amount == 1
        &&& w.token(gains[i]) matches Some(target)
        &&& target.mint == held.mint
        &&& target.amount == 0
        &&& target.owner == initializer
    } by {
        assert(holding_verdicts(taker_sources, token_program, taker, true)[i] is Ok);
        assert(holding_verdicts(initializer_destinations, token_program, initializer, false)[i] is Ok);
        assert(taker_sources[i].account == w.facts(taker_sources[i].account.key));
        assert(initializer_destinations[i].account == w.facts(
            initializer_destinations[i].account.key,
        ));
    }
    assert forall|i: int| 0 <= i < vaults.len() implies {
        &&& w.token(#[trigger] vaults[i]) matches Some(held)
        &&& held.owner == authority
        &&& held.amount == 1
        &&& w.token(targets[i]) matches Some(target)
        &&& target.mint == held.mint
        &&& target.amount == 0
        &&& target.owner == taker
    } by {
        assert(vault_verdicts(vaulted, token_program, initializer, authority)[i] is Ok);
        assert(holding_verdicts(taker_destinations, token_program, taker, false)[i] is Ok);
        assert(vaulted[i].vault == w.facts(vaulted[i].vault.key));
        assert(taker_destinations[i].account == w.facts(taker_destinations[i].account.key));
    }
    assert(distinct_keys(vaults));
    assert forall|i: int| 0 <= i < vaults.len() implies !sources.contains(#[trigger] vaults[i])
        && !gains.contains(vaults[i]) by {
        assert(w.token(vaults[i]) is Some);
        if sources.contains(vaults[i]) {
            let j = choose|j: int| 0 <= j < sources.len() && sources[j] == vaults[i];
            assert(w.token(sources[j]) is Some);
        }
        if gains.contains(vaults[i]) {
            let j = choose|j: int| 0 <= j < gains.len() && gains[j] == vaults[i];
            assert(w.token(sources[j]) is Some);
        }
    }
    assert forall|i: int| 0 <= i < targets.len() implies !sources.contains(#[trigger] targets[i])
        && !gains.contains(targets[i]) by {
        assert(w.token(vaults[i]) is Some);
        if sources.contains(targets[i]) {
            let j = choose|j: int| 0 <= j < sources.len() && sources[j] == targets[i];
            assert(w.token(sources[j]) is Some);
        }
        if gains.contains(targets[i]) {
            let j = choose|j: int| 0 <= j < gains.len() && gains[j] == targets[i];
            assert(w.token(sources[j]) is Some);
        }
    }
}

/// What the second half of an exchange needs is still there after the first
/// half, which touches none of its accounts but the initializer's balance.
pub proof fn lemma_completion_still_ready(
    w: World,
    paid: World,
    sources: Seq<Key>,
    gains: Seq<Key>,
    vaults: Seq<Key>,
    targets: Seq<Key>,
    initializer: Key,
    vault_authority: Key,
    escrow: Key,
    taker: Key,
    paid_amount: u64,
    amount: u64,
)
    requires
        received_and_paid(w, paid, sources, gains, taker, initializer, paid_amount),
        payment_ready(w, taker, initializer, paid_amount),
        releases_ready(w, vaults, targets, initializer, vault_authority),
        apart(vaults, sources),
        apart(vaults, gains),
        apart(targets, sources),
        apart(targets, gains),
        w.record matches Some((key, _)) && key == escrow,
        w.accounts.contains_key(escrow),
        w.facts(escrow).token is None,
        w.lamports(escrow) >= amount,
        taker != escrow,
        initializer != escrow,
        !sources.contains(escrow),
        !gains.contains(escrow),
        w.lamports(initializer) + paid_amount + total_lamports(w, vaults) + w.lamports(escrow)
            <= u64::MAX,
        w.lamports(taker) + amount <= u64::MAX,
    ensures
        completion_ready(paid, vaults, targets, initializer, vault_authority, escrow, taker, amount),
        total_lamports(paid, vaults) == total_lamports(w, vaults),
{
    assert forall|i: int| 0 <= i < vaults.len() implies paid.accounts[#[trigger] vaults[i]]
        == w.accounts[vaults[i]] && paid.accounts[targets[i]] == w.accounts[targets[i]] by {
        assert(w.token(vaults[i]) is Some);
        assert(!sources.contains(vaults[i]));
        assert(!sources.contains(targets[i]));
    }
    assert forall|i: int| 0 <= i < vaults.len() implies paid.lamports(#[trigger] vaults[i])
        == w.lamports(vaults[i]) by {
        assert(paid.accounts[vaults[i]] == w.accounts[vaults[i]]);
        assert(w.token(vaults[i]) is Some);
    }
    lemma_total_same(paid, w, vaults);
    lemma_total_lamports(w, vaults);
    assert(paid.accounts[escrow] == w.accounts[escrow]);
    assert forall|i: int| 0 <= i < vaults.len() implies {
        &&& paid.token(#[trigger] vaults[i]) matches Some(held)
        &&& held.owner == vault_authority
        &&& held.amount == 1
        &&& paid.token(targets[i]) matches Some(target)
        &&& target.mint == held.mint
        &&& target.amount == 0
    } by {
        assert(paid.accounts[vaults[i]] == w.accounts[vaults[i]]);
        assert(w.token(vaults[i]) is Some);
    }
}

/// After every accepted exchange, once its requests are performed: the
/// initializer's destinations hold the taker's assets and the taker's
/// sources, which are the accounts that the record names, are empty; the
/// taker's destinations hold the vaulted assets of the recorded sources and no
/// vault is left; the record and the escrow account are gone; the taker has
/// paid its currency pledge and received the initializer's; the initializer
/// has received the taker's pledge, the storage deposits of the vaults, and
/// what the escrow account held beyond the initializer's own pledge; and no
/// other account has changed.
pub proof fn lemma_exchange_swaps(
    w: World,
    accounts: Exchange,
    found: Option<(Key, u8)>,
    token_program: Key,
    initializer_additional_sol_amount: u64,
    taker_additional_sol_amount: u64,
    vaulted: Seq<VaultedAsset>,
    taker_sources: Seq<AssetAccount>,
    taker_destinations: Seq<AssetAccount>,
    initializer_destinations: Seq<AssetAccount>,
)
    requires
        crate::instructions::exchange::decision(
            accounts,
            found,
            token_program,
            initializer_additional_sol_amount,
            taker_additional_sol_amount,
            vaulted,
            taker_sources,
            taker_destinations,
            initializer_destinations,
        ) is Ok,
        exchange_ready(
            w,
            accounts,
            vaulted,
            taker_sources,
            taker_destinations,
            initializer_destinations,
        ),
    ensures
        crate::instructions::exchange::decision(
            accounts,
            found,
            token_program,
            initializer_additional_sol_amount,
            taker_additional_sol_amount,
            vaulted,
            taker_sources,
            taker_destinations,
            initializer_destinations,
        ) matches Ok(done) && run(w, done.actions, None) matches Some(after) && {
            let terms = accounts.escrow_record@;
            &&& after.record is None
            &&& source_keys(vaulted) == terms.initializer_nft_token_accounts
            &&& account_keys(taker_sources) == terms.taker_nft_token_accounts
            &&& forall|key: Key| #[trigger]
                after.accounts.contains_key(key) <==> w.accounts.contains_key(key) && !is_vault(
                    vaulted,
                    key,
                ) && key != accounts.escrow_account
            &&& forall|i: int|
                0 <= i < initializer_destinations.len() ==> after.accounts[(
                #[trigger] initializer_destinations[i]).account.key] == holding(
                    w.accounts[initializer_destinations[i].account.key],
                    1,
                )
            &&& forall|i: int|
                0 <= i < taker_sources.len() ==> after.accounts[(
                #[trigger] taker_sources[i]).account.key] == holding(
                    w.accounts[taker_sources[i].account.key],
                    0,
                )
            &&& forall|i: int|
                0 <= i < taker_destinations.len() ==> after.accounts[(
                #[trigger] taker_destinations[i]).account.key] == holding(
                    w.accounts[taker_destinations[i].account.key],
                    1,
                )
            &&& w.lamports(accounts.taker.key) >= terms.taker_additional_sol_amount
            &&& after.accounts[accounts.taker.key] == (AccountFacts {
                lamports: (w.lamports(accounts.taker.key) - terms.taker_additional_sol_amount
                    + terms.initializer_additional_sol_amount) as u64,
                ..w.accounts[accounts.taker.key]
            })
            &&& after.accounts[accounts.initializer.key] == (AccountFacts {
                lamports: (w.lamports(accounts.initializer.key) + terms.taker_additional_sol_amount
                    + total_lamports(w, vault_keys(vaulted)) + w.lamports(accounts.escrow_account)
                    - terms.initializer_additional_sol_amount) as u64,
                ..w.accounts[accounts.initializer.key]
            })
            &&& forall|key: Key|
                w.accounts.contains_key(key) && !is_vault(vaulted, key) && !account_keys(
                    taker_sources,
                ).contains(key) && !account_keys(taker_destinations).contains(key) && !account_keys(
                    initializer_destinations,
                ).contains(key) && key != accounts.initializer.key && key != accounts.taker.key
                    && key != accounts.escrow_account ==> #[trigger] after.accounts[key]
                    == w.accounts[key]
        },
{
    let initializer = accounts.initializer.key;
    let taker = accounts.taker.key;
    let escrow = accounts.escrow_account;
    let authority = accounts.vault_authority;
    let terms = accounts.escrow_record@;
    let taken = terms.taker_additional_sol_amount;
    let given = terms.initializer_additional_sol_amount;
    let vaults = vault_keys(vaulted);
    let sources = account_keys(taker_sources);
    let gains = account_keys(initializer_destinations);
    let targets = account_keys(taker_destinations);
    lemma_exchange_finds(
        w,
        accounts,
        found,
        token_program,
        initializer_additional_sol_amount,
        taker_additional_sol_amount,
        vaulted,
        taker_sources,
        taker_destinations,
        initializer_destinations,
    );
    let payment = Action::SystemTransfer { from: taker, to: initializer, lamports: taken };
    let release = Action::ReleaseCurrency { escrow, to: taker, lamports: given };
    let close = Action::CloseRecord { escrow, destination: initializer };
    let first = receipts(sources, gains, taker) + seq![payment];
    let second = releases(vaults, targets, initializer, authority) + seq![release, close];
    lemma_receive_and_pay(w, sources, gains, taker, initializer, taken);
    let paid = run(w, first, None)->0;
    assert(!sources.contains(escrow) && !gains.contains(escrow)) by {
        if sources.contains(escrow) {
            let j = choose|j: int| 0 <= j < sources.len() && sources[j] == escrow;
            assert(w.token(sources[j]) is Some);
        }
        if gains.contains(escrow) {
            let j = choose|j: int| 0 <= j < gains.len() && gains[j] == escrow;
            assert(w.token(sources[j]) is Some);
        }
    }
    lemma_total_lamports(w, vaults);
    lemma_completion_still_ready(
        w,
        paid,
        sources,
        gains,
        vaults,
        targets,
        initializer,
        authority,
        escrow,
        taker,
        taken,
        given,
    );
    lemma_complete(paid, vaults, targets, initializer, authority, escrow, taker, given);
    let after = run(paid, second, None)->0;
    let done = crate::instructions::exchange::decision(
        accounts,
        found,
        token_program,
        initializer_additional_sol_amount,
        taker_additional_sol_amount,
        vaulted,
        taker_sources,
        taker_destinations,
        initializer_destinations,
    )->Ok_0;
    assert(done.actions =~= first + second);
    lemma_run_append(w, first, second);
    assert(run(w, done.actions, None) == Some(after));
    assert forall|key: Key| #[trigger]
        after.accounts.contains_key(key) <==> w.accounts.contains_key(key) && !is_vault(
            vaulted,
            key,
        ) && key != escrow by {
        if vaults.contains(key) {
            let i = choose|i: int| 0 <= i < vaults.len() && vaults[i] == key;
            assert(vaulted[i].vault.key == key);
        }
        if is_vault(vaulted, key) {
            let i = choose|i: int|
                0 <= i < vaulted.len() && (#[trigger] vaulted[i]).vault.key == key;
            assert(vaults[i] == key);
        }
    }
    assert forall|i: int| 0 <= i < initializer_destinations.len() implies after.accounts[(
    #[trigger] initializer_destinations[i]).account.key] == holding(
        w.accounts[initializer_destinations[i].account.key],
        1,
    ) by {
        let key = gains[i];
        assert(w.token(sources[i]) is Some);
        assert(paid.accounts[gains[i]] == holding(w.accounts[gains[i]], 1));
        lemma_apart_other_way(vaults, gains, key);
        lemma_apart_other_way(targets, gains, key);
        assert(after.accounts[key] == paid.accounts[key]);
    }
    assert forall|i: int| 0 <= i < taker_sources.len() implies after.accounts[(
    #[trigger] taker_sources[i]).account.key] == holding(
        w.accounts[taker_sources[i].account.key],
        0,
    ) by {
        let key = sources[i];
        assert(w.token(sources[i]) is Some);
        assert(paid.accounts[sources[i]] == holding(w.accounts[sources[i]], 0));
        lemma_apart_other_way(vaults, sources, key);
        lemma_apart_other_way(targets, sources, key);
        assert(after.accounts[key] == paid.accounts[key]);
    }
    assert forall|i: int| 0 <= i < taker_destinations.len() implies after.accounts[(
    #[trigger] taker_destinations[i]).account.key] == holding(
        w.accounts[taker_destinations[i].account.key],
        1,
    ) by {
        assert(w.token(vaults[i]) is Some);
        assert(targets[i] == taker_destinations[i].account.key);
        assert(!sources.contains(targets[i]) && !gains.contains(targets[i]));
        assert(after.accounts[targets[i]] == holding(paid.accounts[targets[i]], 1));
        assert(paid.accounts[targets[i]] == w.accounts[targets[i]]);
    }
    assert forall|key: Key|
        w.accounts.contains_key(key) && !is_vault(vaulted, key) && !sources.contains(key)
            && !targets.contains(key) && !gains.contains(key) && key != initializer && key != taker
            && key != escrow implies #[trigger] after.accounts[key] == w.accounts[key] by {
        if vaults.contains(key) {
            let i = choose|i: int| 0 <= i < vaults.len() && vaults[i] == key;
            assert(vaulted[i].vault.key == key);
        }
        assert(paid.accounts[key] == w.accounts[key]);
        assert(after.accounts[key] == paid.accounts[key]);
    }
}

/// An address of the second of two sequences that are apart does not occur
/// in the first.
pub proof fn lemma_apart_other_way(first: Seq<Key>, second: Seq<Key>, key: Key)
    requires
        apart(first, second),
        second.contains(key),
    ensures
        !first.contains(key),
{
    if first.contains(key) {
        let i = choose|i: int| 0 <= i < first.len() && first[i] == key;
        assert(!second.contains(first[i]));
    }
}

/// An exchange on an open trade is accepted exactly if the taker has
/// signed, the declared pledges are the recorded ones, the taker has its currency pledge, the two
/// parties are the recorded ones, the references come in blocks of the
/// recorded lengths, the vault authority is the derived one, the sources on
/// both sides are the recorded accounts, and every vault and every account
/// passes its check. A refused exchange changes nothing on the ledger.
pub proof fn lemma_exchange_accepts_exactly(
    w: World,
    fault: Option<int>,
    accounts: Exchange,
    found: Option<(Key, u8)>,
    token_program: Key,
    initializer_additional_sol_amount: u64,
    taker_additional_sol_amount: u64,
    vaulted: Seq<VaultedAsset>,
    taker_sources: Seq<AssetAccount>,
    taker_destinations: Seq<AssetAccount>,
    initializer_destinations: Seq<AssetAccount>,
)
    requires
        accounts.escrow_record@.well_formed(),
    ensures
        ({
            let terms = accounts.escrow_record@;
            let initializer = accounts.initializer.key;
            let taker = accounts.taker.key;
            let outcome = crate::instructions::exchange::decision(
                accounts,
                found,
                token_program,
                initializer_additional_sol_amount,
                taker_additional_sol_amount,
                vaulted,
                taker_sources,
                taker_destinations,
                initializer_destinations,
            );
            &&& outcome is Ok <==> {
                &&& accounts.taker.is_signer
                &&& initializer_additional_sol_amount == terms.initializer_additional_sol_amount
                &&& taker_additional_sol_amount == terms.taker_additional_sol_amount
                &&& accounts.taker.lamports >= taker_additional_sol_amount
                &&& terms.initializer_key == initializer
                &&& terms.taker_key == taker
                &&& blocks_fit(
                    terms,
                    vaulted,
                    taker_sources,
                    taker_destinations,
                    initializer_destinations,
                )
                &&& authority_verdict(accounts.vault_authority, found) is Ok
                &&& source_keys(vaulted) == terms.initializer_nft_token_accounts
                &&& account_keys(taker_sources) == terms.taker_nft_token_accounts
                &&& forall|i: int|
                    0 <= i < vaulted.len() ==> vault_verdict(
                        #[trigger] vaulted[i],
                        token_program,
                        initializer,
                        accounts.vault_authority,
                    ) is Ok
                &&& forall|i: int|
                    0 <= i < taker_sources.len() ==> holding_verdict(
                        #[trigger] taker_sources[i],
                        token_program,
                        taker,
                        true,
                    ) is Ok
                &&& forall|i: int|
                    0 <= i < taker_destinations.len() ==> holding_verdict(
                        #[trigger] taker_destinations[i],
                        token_program,
                        taker,
                        false,
                    ) is Ok
                &&& forall|i: int|
                    0 <= i < initializer_destinations.len() ==> holding_verdict(
                        #[trigger] initializer_destinations[i],
                        token_program,
                        initializer,
                        false,
                    ) is Ok
            }
            &&& outcome is Err ==> settled(w, outcome, fault) == w
        }),
{
    let initializer = accounts.initializer.key;
    let taker = accounts.taker.key;
    let vaults = vault_verdicts(vaulted, token_program, initializer, accounts.vault_authority);
    let held = holding_verdicts(taker_sources, token_program, taker, true);
    let targets = holding_verdicts(taker_destinations, token_program, taker, false);
    let gains = holding_verdicts(initializer_destinations, token_program, initializer, false);
    lemma_first_refusal(vaults);
    lemma_first_refusal(held);
    lemma_first_refusal(targets);
    lemma_first_refusal(gains);
    assert(forall|i: int| 0 <= i < vaulted.len() ==> vaults[i] == vault_verdict(
        #[trigger] vaulted[i],
        token_program,
        initializer,
        accounts.vault_authority,
    ));
    assert(forall|i: int| 0 <= i < taker_sources.len() ==> held[i] == holding_verdict(
        #[trigger] taker_sources[i],
        token_program,
        taker,
        true,
    ));
    assert(forall|i: int| 0 <= i < taker_destinations.len() ==> targets[i] == holding_verdict(
        #[trigger] taker_destinations[i],
        token_program,
        taker,
        false,
    ));
    assert(forall|i: int| 0 <= i < initializer_destinations.len() ==> gains[i] == holding_verdict(
        #[trigger] initializer_destinations[i],
        token_program,
        initializer,
        false,
    ));
}

/// A cancellation reads nothing of the two parties' own accounts but their
/// addresses: whatever the accounts hold, and whoever of the two has signed,
/// the shared decision is the same.
pub proof fn lemma_cancel_reads_addresses_only(first: CancelContext, second: CancelContext)
    requires
        first.program_id == second.program_id,
        first.remaining_accounts == second.remaining_accounts,
        first.accounts.initializer.key == second.accounts.initializer.key,
        first.accounts.taker.key == second.accounts.taker.key,
        first.accounts.vault_authority == second.accounts.vault_authority,
        first.accounts.escrow_account == second.accounts.escrow_account,
        first.accounts.escrow_record == second.accounts.escrow_record,
    ensures
        cancel_outcome(first) == cancel_outcome(second),
{
}

/// Either party cancels on its own: with the signature of the initializer
/// alone the one operation decides what the other decides with the signature
/// of the taker alone, and neither looks at what the other party's account
/// holds.
pub proof fn lemma_either_party_cancels(
    by_initializer: Context<CancelByInitializer>,
    by_taker: Context<CancelByTaker>,
)
    requires
        by_initializer.accounts.initializer.is_signer,
        by_taker.accounts.taker.is_signer,
        by_initializer.program_id == by_taker.program_id,
        by_initializer.remaining_accounts == by_taker.remaining_accounts,
        by_initializer.accounts.initializer.key == by_taker.accounts.initializer.key,
        by_initializer.accounts.taker.key == by_taker.accounts.taker.key,
        by_initializer.accounts.vault_authority == by_taker.accounts.vault_authority,
        by_initializer.accounts.escrow_account == by_taker.accounts.escrow_account,
        by_initializer.accounts.escrow_record == by_taker.accounts.escrow_record,
    ensures
        crate::instructions::cancel_by_initializer::outcome(by_initializer)
            == crate::instructions::cancel_by_taker::outcome(by_taker),
{
    lemma_cancel_reads_addresses_only(
        crate::instructions::cancel_by_initializer::cancel_context(by_initializer),
        crate::instructions::cancel_by_taker::cancel_context(by_taker),
    );
}

/// Whether the open trade of the ledger lies in the escrow account.
pub open spec fn trade_open_at(w: World, escrow: Key) -> bool {
    w.record matches Some((key, _)) && key == escrow
}

/// No request opens a trade: a trade that is not open before a list of
/// requests is not open after it.
pub proof fn lemma_no_request_opens(w: World, actions: Seq<Action>, escrow: Key)
    requires
        !trade_open_at(w, escrow),
    ensures
        run(w, actions, None) matches Some(after) ==> !trade_open_at(after, escrow),
    decreases actions.len(),
{
    if actions.len() > 0 {
        lemma_no_request_opens(w, actions.drop_last(), escrow);
    }
}

/// A trade can be cancelled once: the requests of a cancellation fail as a
/// whole, and change nothing, on a ledger on which their trade is no longer
/// open.
pub proof fn lemma_cancellation_needs_its_trade(
    w: World,
    accounts: CancelContextAccounts,
    assets: Seq<VaultedAsset>,
)
    requires
        !trade_open_at(w, accounts.escrow_account),
    ensures
        commit(w, restitution(accounts, assets), None) == w,
{
    let requests = restitution(accounts, assets);
    lemma_no_request_opens(w, requests.drop_last().drop_last(), accounts.escrow_account);
    assert(requests.drop_last().last() is ReleaseCurrency);
    assert(run(w, requests.drop_last(), None) is None);
}

/// A trade can be exchanged once: the requests of an exchange fail as a
/// whole, and change nothing, on a ledger on which their trade is no longer
/// open.
pub proof fn lemma_exchange_needs_its_trade(
    w: World,
    accounts: Exchange,
    vaulted: Seq<VaultedAsset>,
    taker_sources: Seq<AssetAccount>,
    taker_destinations: Seq<AssetAccount>,
    initializer_destinations: Seq<AssetAccount>,
)
    requires
        !trade_open_at(w, accounts.escrow_account),
    ensures
        commit(
            w,
            swap(accounts, vaulted, taker_sources, taker_destinations, initializer_destinations),
            None,
        ) == w,
{
    let requests = swap(
        accounts,
        vaulted,
        taker_sources,
        taker_destinations,
        initializer_destinations,
    );
    lemma_no_request_opens(w, requests.drop_last().drop_last(), accounts.escrow_account);
    assert(requests.drop_last().last() is ReleaseCurrency);
    assert(run(w, requests.drop_last(), None) is None);
}

/// Whether every request of the list that needs a signature needs that of
/// one of the two addresses.
pub open spec fn signed_by(actions: Seq<Action>, first: Key, second: Key) -> bool {
    forall|i: int|
        0 <= i < actions.len() ==> match (#[trigger] actions[i]).spec_signer() {
            Some(signer) => signer == first || signer == second,
            None => true,
        }
}

/// Two lists that are signed by two addresses are so together.
pub proof fn lemma_signed_by_append(
    front: Seq<Action>,
    back: Seq<Action>,
    first: Key,
    second: Key,
)
    requires
        signed_by(front, first, second),
        signed_by(back, first, second),
    ensures
        signed_by(front + back, first, second),
{
    assert forall|i: int| 0 <= i < (front + back).len() implies match (
    #[trigger] (front + back)[i]).spec_signer() {
        Some(signer) => signer == first || signer == second,
        None => true,
    } by {
        if i < front.len() {
            assert((front + back)[i] == front[i]);
        } else {
            assert((front + back)[i] == back[i - front.len()]);
        }
    }
}

/// The requests of the deposits need the initializer's signature only.
pub proof fn lemma_deposits_signed(assets: Seq<VaultedAsset>, initializer: Key, vault_authority: Key)
    ensures
        signed_by(deposits(assets, initializer, vault_authority), initializer, initializer),
    decreases assets.len(),
{
    if assets.len() > 0 {
        lemma_deposits_signed(assets.drop_last(), initializer, vault_authority);
        lemma_signed_by_append(
            deposits(assets.drop_last(), initializer, vault_authority),
            deposit_of(assets.last(), initializer, vault_authority),
            initializer,
            initializer,
        );
    }
}

/// The requests of the releases need the vault authority's signature only.
pub proof fn lemma_releases_signed(
    vaults: Seq<Key>,
    destinations: Seq<Key>,
    initializer: Key,
    vault_authority: Key,
)
    ensures
        signed_by(
            releases(vaults, destinations, initializer, vault_authority),
            vault_authority,
            vault_authority,
        ),
    decreases vaults.len(),
{
    if vaults.len() > 0 {
        lemma_releases_signed(vaults.drop_last(), destinations, initializer, vault_authority);
        lemma_signed_by_append(
            releases(vaults.drop_last(), destinations, initializer, vault_authority),
            release_of(
                vaults.last(),
                destinations[vaults.len() - 1],
                initializer,
                vault_authority,
            ),
            vault_authority,
            vault_authority,
        );
    }
}

/// Who has to sign for what an operation asks: opening a trade moves
/// nothing but on the initializer's signature; a cancellation moves nothing on
/// the signature of either party, only on that of the vault authority, which
/// the protocol gives by derivation; an exchange moves nothing on the
/// initializer's signature, only on the taker's and the vault authority's.
pub proof fn lemma_who_signs(
    opening: Initialize,
    initializer_additional_sol_amount: u64,
    initializer_assets: Seq<VaultedAsset>,
    cancelling: CancelContextAccounts,
    assets: Seq<VaultedAsset>,
    exchanging: Exchange,
    vaulted: Seq<VaultedAsset>,
    taker_sources: Seq<AssetAccount>,
    taker_destinations: Seq<AssetAccount>,
    initializer_destinations: Seq<AssetAccount>,
)
    ensures
        signed_by(
            deposits(initializer_assets, opening.initializer.key, opening.vault_authority)
                + pledge_payment(opening.spec_parties(), initializer_additional_sol_amount),
            opening.initializer.key,
            opening.initializer.key,
        ),
        signed_by(
            restitution(cancelling, assets),
            cancelling.vault_authority,
            cancelling.vault_authority,
        ),
        signed_by(
            swap(exchanging, vaulted, taker_sources, taker_destinations, initializer_destinations),
            exchanging.taker.key,
            exchanging.vault_authority,
        ),
{
    let initializer = opening.initializer.key;
    lemma_deposits_signed(initializer_assets, initializer, opening.vault_authority);
    lemma_signed_by_append(
        deposits(initializer_assets, initializer, opening.vault_authority),
        pledge_payment(opening.spec_parties(), initializer_additional_sol_amount),
        initializer,
        initializer,
    );
    let authority = cancelling.vault_authority;
    lemma_releases_signed(
        vault_keys(assets),
        source_keys(assets),
        cancelling.initializer.key,
        authority,
    );
    let back = seq![
        Action::ReleaseCurrency {
            escrow: cancelling.escrow_account,
            to: cancelling.initializer.key,
            lamports: cancelling.escrow_record.initializer_additional_sol_amount,
        },
        Action::CloseRecord {
            escrow: cancelling.escrow_account,
            destination: cancelling.initializer.key,
        },
    ];
    lemma_signed_by_append(
        releases(vault_keys(assets), source_keys(assets), cancelling.initializer.key, authority),
        back,
        authority,
        authority,
    );
    let taker = exchanging.taker.key;
    let keeper = exchanging.vault_authority;
    let first = receipts(account_keys(taker_sources), account_keys(initializer_destinations), taker);
    let payment = seq![
        Action::SystemTransfer {
            from: taker,
            to: exchanging.initializer.key,
            lamports: exchanging.escrow_record.taker_additional_sol_amount,
        },
    ];
    let second = releases(
        vault_keys(vaulted),
        account_keys(taker_destinations),
        exchanging.initializer.key,
        keeper,
    );
    let last = seq![
        Action::ReleaseCurrency {
            escrow: exchanging.escrow_account,
            to: taker,
            lamports: exchanging.escrow_record.initializer_additional_sol_amount,
        },
        Action::CloseRecord {
            escrow: exchanging.escrow_account,
            destination: exchanging.initializer.key,
        },
    ];
    lemma_releases_signed(
        vault_keys(vaulted),
        account_keys(taker_destinations),
        exchanging.initializer.key,
        keeper,
    );
    assert(signed_by(second, taker, keeper));
    lemma_signed_by_append(first, payment, taker, keeper);
    lemma_signed_by_append(first + payment, second, taker, keeper);
    lemma_signed_by_append(first + payment + second, last, taker, keeper);
}

/// What the exchange of two assets against five units of currency has
/// brought about: the taker has five units less and the initializer five
/// more, beside what the two vaults and the escrow account held; each vault
/// held one unit and is gone; each destination of the taker was empty and now
/// holds the unit of its vault's asset; the two accounts of the initializer
/// that the assets came from are as empty as before; the record and the
/// escrow account are gone; and no other account has come or gone.
pub open spec fn two_for_five(
    w: World,
    after: World,
    accounts: Exchange,
    vaulted: Seq<VaultedAsset>,
    taker_destinations: Seq<AssetAccount>,
    initializer_destinations: Seq<AssetAccount>,
) -> bool {
    let initializer = accounts.initializer.key;
    let taker = accounts.taker.key;
    let escrow = accounts.escrow_account;
    &&& taker_destinations.len() == 2
    &&& initializer_destinations.len() == 0
    &&& after.lamports(taker) == w.lamports(taker) - 5
    &&& after.lamports(initializer) == w.lamports(initializer) + 5 + w.lamports(
        vaulted[0].vault.key,
    ) + w.lamports(vaulted[1].vault.key) + w.lamports(escrow)
    &&& forall|i: int|
        0 <= i < 2 ==> {
            &&& w.token((#[trigger] vaulted[i]).vault.key) matches Some(held)
            &&& held.amount == 1
            &&& !after.accounts.contains_key(vaulted[i].vault.key)
            &&& w.token(taker_destinations[i].account.key) matches Some(target)
            &&& target.amount == 0
            &&& target.owner == taker
            &&& target.mint == held.mint
            &&& after.token(taker_destinations[i].account.key) == Some(
                TokenAccount { amount: 1, ..target },
            )
            &&& vaulted[i].source.account.token matches Some(source)
            &&& source.owner == initializer
            &&& source.amount == 0
            &&& after.accounts.contains_key(vaulted[i].source.account.key)
            &&& after.accounts[vaulted[i].source.account.key]
                == w.accounts[vaulted[i].source.account.key]
        }
    &&& after.record is None
    &&& !after.accounts.contains_key(escrow)
    &&& forall|key: Key| #[trigger]
        after.accounts.contains_key(key) <==> w.accounts.contains_key(key) && key
            != vaulted[0].vault.key && key != vaulted[1].vault.key && key != escrow
}

/// Two assets against five units of currency: where the initializer has
/// pledged two assets and no currency and the taker no asset and five units,
/// an accepted exchange, once its requests are performed, leaves the taker
/// with both assets and five units less, the initializer with five units more
/// (and with what the two vaults and the escrow account held as deposit), the
/// initializer's two accounts as empty as the opening of the trade left them,
/// and neither a vault nor the record nor the escrow account.
pub proof fn lemma_two_assets_for_five_units(
    w: World,
    accounts: Exchange,
    found: Option<(Key, u8)>,
    token_program: Key,
    vaulted: Seq<VaultedAsset>,
    taker_sources: Seq<AssetAccount>,
    taker_destinations: Seq<AssetAccount>,
    initializer_destinations: Seq<AssetAccount>,
)
    requires
        crate::instructions::exchange::decision(
            accounts,
            found,
            token_program,
            0,
            5,
            vaulted,
            taker_sources,
            taker_destinations,
            initializer_destinations,
        ) is Ok,
        exchange_ready(
            w,
            accounts,
            vaulted,
            taker_sources,
            taker_destinations,
            initializer_destinations,
        ),
        vaulted.len() == 2,
        taker_sources.len() == 0,
    ensures
        crate::instructions::exchange::decision(
            accounts,
            found,
            token_program,
            0,
            5,
            vaulted,
            taker_sources,
            taker_destinations,
            initializer_destinations,
        ) matches Ok(done) && run(w, done.actions, None) matches Some(after) && two_for_five(
            w,
            after,
            accounts,
            vaulted,
            taker_destinations,
            initializer_destinations,
        ),
{
    let initializer = accounts.initializer.key;
    let taker = accounts.taker.key;
    let escrow = accounts.escrow_account;
    let authority = accounts.vault_authority;
    let vaults = vault_keys(vaulted);
    let targets = account_keys(taker_destinations);
    lemma_exchange_swaps(
        w,
        accounts,
        found,
        token_program,
        0,
        5,
        vaulted,
        taker_sources,
        taker_destinations,
        initializer_destinations,
    );
    lemma_exchange_finds(
        w,
        accounts,
        found,
        token_program,
        0,
        5,
        vaulted,
        taker_sources,
        taker_destinations,
        initializer_destinations,
    );
    lemma_first_refusal(vault_verdicts(vaulted, token_program, initializer, authority));
    lemma_first_refusal(holding_verdicts(taker_destinations, token_program, taker, false));
    let done = crate::instructions::exchange::decision(
        accounts,
        found,
        token_program,
        0,
        5,
        vaulted,
        taker_sources,
        taker_destinations,
        initializer_destinations,
    )->Ok_0;
    let after = run(w, done.actions, None)->0;
    assert(total_lamports(w, vaults) == w.lamports(vaulted[0].vault.key) + w.lamports(
        vaulted[1].vault.key,
    )) by {
        let one = vaults.drop_last();
        assert(vaults.last() == vaulted[1].vault.key);
        assert(one.last() == vaulted[0].vault.key);
        assert(one.drop_last().len() == 0);
        assert(total_lamports(w, one.drop_last()) == 0);
        assert(total_lamports(w, one) == total_lamports(w, one.drop_last()) + w.lamports(
            one.last(),
        ));
        assert(total_lamports(w, vaults) == total_lamports(w, one) + w.lamports(vaults.last()));
    }
    lemma_total_lamports(w, vaults);
    assert forall|key: Key| #[trigger]
        after.accounts.contains_key(key) <==> w.accounts.contains_key(key) && key
            != vaulted[0].vault.key && key != vaulted[1].vault.key && key != escrow by {
        if is_vault(vaulted, key) {
            let i = choose|i: int|
                0 <= i < vaulted.len() && (#[trigger] vaulted[i]).vault.key == key;
            assert(i == 0 || i == 1);
        }
        if key == vaulted[0].vault.key || key == vaulted[1].vault.key {
            assert(is_vault(vaulted, key));
        }
    }
    assert forall|i: int| 0 <= i < 2 implies {
        &&& w.token((#[trigger] vaulted[i]).vault.key) matches Some(held)
        &&& held.amount == 1
        &&& !after.accounts.contains_key(vaulted[i].vault.key)
        &&& w.token(taker_destinations[i].account.key) matches Some(target)
        &&& target.amount == 0
        &&& target.owner == taker
        &&& target.mint == held.mint
        &&& after.token(taker_destinations[i].account.key) == Some(
            TokenAccount { amount: 1, ..target },
        )
        &&& vaulted[i].source.account.token matches Some(source)
        &&& source.owner == initializer
        &&& source.amount == 0
        &&& after.accounts.contains_key(vaulted[i].source.account.key)
        &&& after.accounts[vaulted[i].source.account.key]
            == w.accounts[vaulted[i].source.account.key]
    } by {
        let source = vaulted[i].source.account.key;
        let target = taker_destinations[i].account.key;
        assert(vaults[i] == vaulted[i].vault.key);
        assert(targets[i] == target);
        assert(w.token(vaults[i]) is Some);
        assert(is_vault(vaulted, vaulted[i].vault.key));
        assert(vault_verdicts(vaulted, token_program, initializer, authority)[i] is Ok);
        assert(holding_verdicts(taker_destinations, token_program, taker, false)[i] is Ok);
        assert(taker_destinations[i].account == w.facts(target));
        assert(w.token(target) is Some);
        assert(vaulted[i].source.account == w.facts(source));
        assert(w.accounts.contains_key(source));
        assert(!is_vault(vaulted, source)) by {
            if is_vault(vaulted, source) {
                let j = choose|j: int|
                    0 <= j < vaulted.len() && (#[trigger] vaulted[j]).vault.key == source;
                assert(vaults[j] == source);
                assert(w.token(vaults[j]) is Some);
            }
        }
        assert(!targets.contains(source)) by {
            if targets.contains(source) {
                let j = choose|j: int| 0 <= j < targets.len() && targets[j] == source;
                assert(w.token(vaults[j]) is Some);
                assert(holding_verdicts(taker_destinations, token_program, taker, false)[j] is Ok);
                assert(taker_destinations[j].account == w.facts(taker_destinations[j].account.key));
            }
        }
        assert(!account_keys(taker_sources).contains(source));
        assert(!account_keys(initializer_destinations).contains(source));
        assert(!is_vault(vaulted, target)) by {
            if is_vault(vaulted, target) {
                let j = choose|j: int|
                    0 <= j < vaulted.len() && (#[trigger] vaulted[j]).vault.key == target;
                assert(vaults[j] == target);
                assert(w.token(vaults[j]) is Some);
            }
        }
        assert(w.accounts.contains_key(target));
        assert(target != escrow);
        assert(after.accounts.contains_key(target));
    }
}

/// Whether an account is the taker's: its plain account, or a token
/// account in use that the taker owns.
pub open spec fn of_taker(w: World, key: Key, taker: Key) -> bool {
    w.accounts.contains_key(key) && match w.token(key) {
        Some(account) => account.owner == taker,
        None => key == taker && w.facts(key).token is None,
    }
}

/// A cancellation moves nothing that the taker owns: where the taker is
/// another party than the initializer, and neither the vault authority nor
/// the escrow account lies at the taker's address, every
/// account of the taker, its balance and every token account that it owns,
/// is after an accepted cancellation what it was before.
pub proof fn lemma_cancellation_moves_nothing_of_the_taker(
    w: World,
    accounts: CancelContextAccounts,
    found: Option<(Key, u8)>,
    token_program: Key,
    assets: Seq<VaultedAsset>,
)
    requires
        release_decision(accounts, found, token_program, assets) is Ok,
        cancel_ready(w, accounts, assets),
        accounts.taker.key != accounts.initializer.key,
        accounts.taker.key != accounts.vault_authority,
        accounts.taker.key != accounts.escrow_account,
    ensures
        release_decision(accounts, found, token_program, assets) matches Ok(done) && run(
            w,
            done.actions,
            None,
        ) matches Some(after) && forall|key: Key| #[trigger]
            of_taker(w, key, accounts.taker.key) ==> after.accounts.contains_key(key)
                && after.accounts[key] == w.accounts[key],
{
    let initializer = accounts.initializer.key;
    let taker = accounts.taker.key;
    let authority = accounts.vault_authority;
    lemma_cancel_restores(w, accounts, found, token_program, assets);
    lemma_first_refusal(vault_verdicts(assets, token_program, initializer, authority));
    let done = release_decision(accounts, found, token_program, assets)->Ok_0;
    let after = run(w, done.actions, None)->0;
    assert forall|key: Key| #[trigger] of_taker(w, key, taker) implies after.accounts.contains_key(
        key,
    ) && after.accounts[key] == w.accounts[key] by {
        if is_vault(assets, key) {
            let i = choose|i: int|
                0 <= i < assets.len() && (#[trigger] assets[i]).vault.key == key;
            assert(vault_verdicts(assets, token_program, initializer, authority)[i] is Ok);
            assert(assets[i].vault == w.facts(key));
            assert(w.token(assets[i].vault.key) is Some);
        }
        if is_source(assets, key) {
            let i = choose|i: int|
                0 <= i < assets.len() && (#[trigger] assets[i]).source.account.key == key;
            assert(vault_verdicts(assets, token_program, initializer, authority)[i] is Ok);
            assert(assets[i].source.account == w.facts(key));
            assert(w.token(assets[i].source.account.key) is Some);
        }
    }
}

} // verus!
