use anchor_lang::prelude::Pubkey;
use nft_barter::cpi::{Action, CloseAccount, SetAuthority, Transfer};
use nft_barter::errors::{MyError, Refusal};
use nft_barter::instructions::cancel_by_initializer::CancelByInitializer;
use nft_barter::instructions::cancel_by_taker::CancelByTaker;
use nft_barter::instructions::exchange::Exchange;
use nft_barter::instructions::initialize::{Initialize, Initialized};
use nft_barter::instructions::Context;
use nft_barter::ledger::Ledger;
use nft_barter::state::{
    AccountFacts, AccountSnapshot, AccountState, EscrowAccount, Key, TokenAccount,
    VaultAuthority, SYSTEM_PROGRAM_ID, TOKEN_PROGRAM_ID,
};
use nft_barter::traits::{cancel, CancelContext, CancelContextAccounts, Settlement};
use spl_token::solana_program::program_option::COption;
use spl_token::solana_program::program_pack::Pack;

fn key(seed: u8) -> Key {
    Key::new([seed; 32])
}

fn address_of(key: &Key) -> Pubkey {
    Pubkey::new_from_array(key.bytes)
}

fn canonical(wallet: &Key, mint: &Key) -> Key {
    Key::new(
        spl_associated_token_account::get_associated_token_address(
            &address_of(wallet),
            &address_of(mint),
        )
        .to_bytes(),
    )
}

fn vault_of(token_account: &Key, program_id: &Key) -> (Key, u8) {
    let (address, bump) = Pubkey::find_program_address(
        &[b"vault-account", &token_account.bytes],
        &address_of(program_id),
    );
    (Key::new(address.to_bytes()), bump)
}

fn authority_of(initializer: &Key, taker: &Key, program_id: &Key) -> (Key, u8) {
    let (address, bump) = Pubkey::find_program_address(
        &[b"vault-authority", &initializer.bytes, &taker.bytes],
        &address_of(program_id),
    );
    (Key::new(address.to_bytes()), bump)
}

fn snapshot(ledger: &Ledger, key: &Key) -> AccountSnapshot {
    let facts = ledger.facts(key);
    let data = match facts.token {
        Some(token) => {
            let account = spl_token::state::Account {
                mint: address_of(&token.mint),
                owner: address_of(&token.owner),
                amount: token.amount,
                delegate: COption::None,
                state: match token.state {
                    AccountState::Uninitialized => spl_token::state::AccountState::Uninitialized,
                    AccountState::Initialized => spl_token::state::AccountState::Initialized,
                    AccountState::Frozen => spl_token::state::AccountState::Frozen,
                },
                is_native: COption::None,
                delegated_amount: 0,
                close_authority: COption::None,
            };
            let mut data = vec![0u8; 165];
            spl_token::state::Account::pack(account, &mut data).unwrap();
            data
        }
        None => vec![],
    };
    AccountSnapshot {
        key: facts.key,
        owner: facts.owner,
        lamports: facts.lamports,
        data,
        is_signer: false,
    }
}

fn signed(ledger: &Ledger, key: &Key) -> AccountSnapshot {
    AccountSnapshot { is_signer: true, ..snapshot(ledger, key) }
}

fn mint_reference(mint: &Key) -> AccountSnapshot {
    AccountSnapshot {
        key: *mint,
        owner: Key::new(TOKEN_PROGRAM_ID),
        lamports: 0,
        data: vec![],
        is_signer: false,
    }
}

/// Two parties, the assets that each of them pledges, and the accounts
/// around them.
struct Scene {
    ledger: Ledger,
    program_id: Key,
    initializer: Key,
    taker: Key,
    escrow: Key,
    authority: Key,
    authority_bump: u8,
    initializer_pledge: u64,
    taker_pledge: u64,
    given: Vec<Key>,
    wanted: Vec<Key>,
}

impl Scene {
    fn new(given: usize, wanted: usize, initializer_pledge: u64, taker_pledge: u64) -> Scene {
        let program_id = key(42);
        let initializer = key(1);
        let taker = key(2);
        let (authority, authority_bump) = authority_of(&initializer, &taker, &program_id);
        let mut ledger = Ledger::new();
        assert!(ledger.open_wallet(initializer, 1_000));
        assert!(ledger.open_wallet(taker, 2_000));
        let given: Vec<Key> = (0..given).map(|i| key(100 + i as u8)).collect();
        let wanted: Vec<Key> = (0..wanted).map(|i| key(150 + i as u8)).collect();
        for mint in &given {
            assert!(ledger.open_token_account(canonical(&initializer, mint), *mint, initializer, 1));
            assert!(ledger.open_token_account(canonical(&taker, mint), *mint, taker, 0));
        }
        for mint in &wanted {
            assert!(ledger.open_token_account(canonical(&taker, mint), *mint, taker, 0));
            assert!(ledger.open_token_account(canonical(&initializer, mint), *mint, initializer, 0));
        }
        Scene {
            ledger,
            program_id,
            initializer,
            taker,
            escrow: key(77),
            authority,
            authority_bump,
            initializer_pledge,
            taker_pledge,
            given,
            wanted,
        }
    }

    fn source(&self, i: usize) -> Key {
        canonical(&self.initializer, &self.given[i])
    }

    fn vault(&self, i: usize) -> (Key, u8) {
        vault_of(&self.source(i), &self.program_id)
    }

    fn bumps(&self) -> Vec<u8> {
        (0..self.given.len()).map(|i| self.vault(i).1).collect()
    }

    fn amount(&self, account: &Key) -> Option<u64> {
        self.ledger.token(account).map(|token| token.amount)
    }

    fn triples(&self) -> Vec<AccountSnapshot> {
        let mut references = vec![];
        for i in 0..self.given.len() {
            references.push(snapshot(&self.ledger, &self.source(i)));
            references.push(snapshot(&self.ledger, &self.vault(i).0));
            references.push(mint_reference(&self.given[i]));
        }
        references
    }

    fn pairs(&self, wallet: &Key, mints: &Vec<Key>) -> Vec<AccountSnapshot> {
        let mut references = vec![];
        for mint in mints {
            references.push(snapshot(&self.ledger, &canonical(wallet, mint)));
            references.push(mint_reference(mint));
        }
        references
    }

    fn opening(&self) -> Context<Initialize> {
        let mut remaining_accounts = self.triples();
        remaining_accounts.extend(self.pairs(&self.taker, &self.wanted));
        Context {
            program_id: self.program_id,
            accounts: Initialize {
                initializer: signed(&self.ledger, &self.initializer),
                taker: snapshot(&self.ledger, &self.taker),
                escrow_account: self.escrow,
                vault_authority: self.authority,
            },
            remaining_accounts,
        }
    }

    fn initialize(&self) -> Result<Initialized, Refusal> {
        nft_barter::initialize(
            &self.opening(),
            self.initializer_pledge,
            self.taker_pledge,
            self.given.len() as u8,
            self.wanted.len() as u8,
            self.bumps(),
        )
    }

    fn open(&mut self) -> EscrowAccount {
        let done = self.initialize().unwrap();
        assert!(self.ledger.open_trade(&self.program_id, &self.escrow, &done));
        done.escrow_account
    }

    fn record(&self) -> EscrowAccount {
        self.ledger.trade.as_ref().unwrap().record.clone()
    }

    fn exchanging(&self) -> Context<Exchange> {
        let mut remaining_accounts = self.triples();
        remaining_accounts.extend(self.pairs(&self.taker, &self.wanted));
        remaining_accounts.extend(self.pairs(&self.taker, &self.given));
        remaining_accounts.extend(self.pairs(&self.initializer, &self.wanted));
        Context {
            program_id: self.program_id,
            accounts: Exchange {
                taker: signed(&self.ledger, &self.taker),
                initializer: snapshot(&self.ledger, &self.initializer),
                escrow_account: self.escrow,
                escrow_record: self.record(),
                vault_authority: self.authority,
            },
            remaining_accounts,
        }
    }

    fn exchange(&self) -> Result<Settlement, Refusal> {
        nft_barter::exchange(&self.exchanging(), self.initializer_pledge, self.taker_pledge)
    }

    fn cancelling_by_initializer(&self) -> Context<CancelByInitializer> {
        Context {
            program_id: self.program_id,
            accounts: CancelByInitializer {
                initializer: signed(&self.ledger, &self.initializer),
                taker: snapshot(&self.ledger, &self.taker),
                vault_authority: self.authority,
                escrow_account: self.escrow,
                escrow_record: self.record(),
            },
            remaining_accounts: self.triples(),
        }
    }

    fn cancelling_by_taker(&self) -> Context<CancelByTaker> {
        Context {
            program_id: self.program_id,
            accounts: CancelByTaker {
                initializer: snapshot(&self.ledger, &self.initializer),
                taker: signed(&self.ledger, &self.taker),
                vault_authority: self.authority,
                escrow_account: self.escrow,
                escrow_record: self.record(),
            },
            remaining_accounts: self.triples(),
        }
    }
}

fn empty_all(ledger: &mut Ledger, account: &Key) {
    let mut facts = ledger.facts(account);
    let mut token = facts.token.unwrap();
    token.amount = 0;
    facts.token = Some(token);
    ledger.put(facts);
}

fn fill(ledger: &mut Ledger, account: &Key) {
    let mut facts = ledger.facts(account);
    let mut token = facts.token.unwrap();
    token.amount = 1;
    facts.token = Some(token);
    ledger.put(facts);
}

fn hand_to_taker(scene: &mut Scene) {
    for mint in scene.wanted.clone() {
        fill(&mut scene.ledger, &canonical(&scene.taker, &mint));
    }
}

#[test]
fn two_assets_against_five_units_of_currency() {
    let mut scene = Scene::new(2, 0, 0, 5);
    let before = scene.ledger.clone();
    scene.open();
    let settlement = scene.exchange().unwrap();
    assert_eq!(settlement.vault_authority, VaultAuthority { bump: scene.authority_bump });
    assert!(scene.ledger.perform(&settlement.actions, None));

    assert_eq!(scene.ledger.lamports(&scene.initializer), before.lamports(&scene.initializer) + 5);
    assert_eq!(scene.ledger.lamports(&scene.taker), before.lamports(&scene.taker) - 5);
    for i in 0..2 {
        assert_eq!(scene.amount(&scene.source(i)), Some(0));
        assert_eq!(scene.amount(&canonical(&scene.taker, &scene.given[i])), Some(1));
        assert_eq!(scene.ledger.find(&scene.vault(i).0), None);
    }
    assert_eq!(scene.ledger.find(&scene.escrow), None);
    assert_eq!(scene.ledger.trade, None);
    assert_eq!(scene.ledger.accounts.len(), before.accounts.len());
}

#[test]
fn the_requests_of_that_exchange_in_their_order() {
    let mut scene = Scene::new(2, 0, 0, 5);
    scene.open();
    let settlement = scene.exchange().unwrap();
    let release = |i: usize| {
        vec![
            Action::Transfer {
                transfer: Transfer {
                    from: scene.vault(i).0,
                    to: canonical(&scene.taker, &scene.given[i]),
                    authority: scene.authority,
                },
            },
            Action::Close {
                close: CloseAccount {
                    account: scene.vault(i).0,
                    destination: scene.initializer,
                    authority: scene.authority,
                },
            },
        ]
    };
    let mut expected =
        vec![Action::SystemTransfer { from: scene.taker, to: scene.initializer, lamports: 5 }];
    expected.extend(release(0));
    expected.extend(release(1));
    expected.push(Action::ReleaseCurrency { escrow: scene.escrow, to: scene.taker, lamports: 0 });
    expected.push(Action::CloseRecord { escrow: scene.escrow, destination: scene.initializer });
    assert_eq!(settlement.actions, expected);
}

#[test]
fn a_list_of_the_wrong_length_opens_nothing() {
    let scene = Scene::new(2, 1, 0, 5);
    let mut ctx = scene.opening();
    assert_eq!(ctx.remaining_accounts.len(), 3 * 2 + 2 * 1);
    let extra = ctx.remaining_accounts[0].clone();
    ctx.remaining_accounts.push(extra);
    assert_eq!(
        nft_barter::initialize(&ctx, 0, 5, 2, 1, scene.bumps()),
        Err(Refusal::Check(MyError::NftAmountMismatch))
    );
    ctx.remaining_accounts.truncate(7);
    assert_eq!(
        nft_barter::initialize(&ctx, 0, 5, 2, 1, scene.bumps()),
        Err(Refusal::Check(MyError::NftAmountMismatch))
    );
    ctx.remaining_accounts.clear();
    assert_eq!(
        nft_barter::initialize(&ctx, 0, 5, 2, 1, scene.bumps()),
        Err(Refusal::Check(MyError::NftAmountMismatch))
    );
    for i in 0..2 {
        assert_eq!(scene.ledger.find(&scene.vault(i).0), None);
    }
}

#[test]
fn opening_records_the_call_and_fills_the_vaults() {
    let mut scene = Scene::new(2, 1, 30, 5);
    let done = scene.initialize().unwrap();
    assert_eq!(
        done.escrow_account,
        EscrowAccount {
            initializer_key: scene.initializer,
            initializer_additional_sol_amount: 30,
            initializer_nft_token_accounts: vec![scene.source(0), scene.source(1)],
            taker_key: scene.taker,
            taker_additional_sol_amount: 5,
            taker_nft_token_accounts: vec![canonical(&scene.taker, &scene.wanted[0])],
            vault_account_bumps: scene.bumps(),
        }
    );
    assert!(done.escrow_account.is_well_formed());
    assert_eq!(done.vault_authority, VaultAuthority { bump: scene.authority_bump });
    let deposit = |i: usize| {
        vec![
            Action::CreateVault {
                payer: scene.initializer,
                vault: scene.vault(i).0,
                mint: scene.given[i],
                source: scene.source(i),
                bump: scene.vault(i).1,
            },
            Action::SetOwner {
                change: SetAuthority {
                    account_or_mint: scene.vault(i).0,
                    current_authority: scene.initializer,
                },
                new_owner: scene.authority,
            },
            Action::Transfer {
                transfer: Transfer {
                    from: scene.source(i),
                    to: scene.vault(i).0,
                    authority: scene.initializer,
                },
            },
        ]
    };
    let mut expected = deposit(0);
    expected.extend(deposit(1));
    expected.push(Action::SystemTransfer {
        from: scene.initializer,
        to: scene.escrow,
        lamports: 30,
    });
    assert_eq!(done.actions, expected);

    let accounts_before = scene.ledger.accounts.len();
    assert!(scene.ledger.open_trade(&scene.program_id, &scene.escrow, &done));
    assert_eq!(scene.record(), done.escrow_account);
    assert_eq!(scene.ledger.accounts.len(), accounts_before + 2 + 1);
    for i in 0..2 {
        assert_eq!(
            scene.ledger.facts(&scene.vault(i).0),
            AccountFacts {
                key: scene.vault(i).0,
                owner: Key::new(TOKEN_PROGRAM_ID),
                lamports: 0,
                token: Some(TokenAccount {
                    mint: scene.given[i],
                    owner: scene.authority,
                    amount: 1,
                    state: AccountState::Initialized,
                }),
            }
        );
        assert_eq!(scene.amount(&scene.source(i)), Some(0));
    }
    assert_eq!(scene.ledger.lamports(&scene.escrow), 30);
    assert_eq!(scene.ledger.lamports(&scene.initializer), 970);
    assert_eq!(scene.ledger.facts(&scene.escrow).owner, scene.program_id);
}

#[test]
fn opening_without_a_currency_pledge_asks_for_no_payment() {
    let scene = Scene::new(1, 0, 0, 5);
    let done = scene.initialize().unwrap();
    assert_eq!(done.actions.len(), 3);
    assert!(!done
        .actions
        .iter()
        .any(|action| matches!(action, Action::SystemTransfer { .. })));
}

#[test]
fn opening_with_currency_only() {
    let mut scene = Scene::new(0, 1, 7, 0);
    let done = scene.initialize().unwrap();
    assert_eq!(
        done.actions,
        vec![Action::SystemTransfer { from: scene.initializer, to: scene.escrow, lamports: 7 }]
    );
    assert_eq!(done.escrow_account.vault_account_bumps, Vec::<u8>::new());
    scene.open();
    assert_eq!(scene.ledger.lamports(&scene.escrow), 7);
}

#[test]
fn opening_is_refused_for_each_broken_number() {
    let scene = Scene::new(1, 1, 30, 5);
    let ctx = scene.opening();
    let bumps = scene.bumps();
    let refused = |r: Result<Initialized, Refusal>, error: MyError| {
        assert_eq!(r, Err(Refusal::Check(error)));
    };
    let none = Scene::new(0, 1, 0, 5);
    refused(
        nft_barter::initialize(&none.opening(), 0, 5, 0, 1, vec![]),
        MyError::NotProvidedInitializerAssets,
    );
    refused(
        nft_barter::initialize(&ctx, 1_001, 5, 1, 1, bumps.clone()),
        MyError::InitializerInsufficientFunds,
    );
    assert!(nft_barter::initialize(&ctx, 1_000, 5, 1, 1, bumps.clone()).is_ok());
    refused(
        nft_barter::initialize(&ctx, 30, 5, 1, 1, vec![]),
        MyError::VaultAccountBumpsMismatch,
    );
    refused(
        nft_barter::initialize(&ctx, 30, 5, 1, 1, vec![bumps[0], bumps[0]]),
        MyError::VaultAccountBumpsMismatch,
    );
    let nothing_back = Scene::new(1, 0, 30, 0);
    refused(
        nft_barter::initialize(&nothing_back.opening(), 30, 0, 1, 0, nothing_back.bumps()),
        MyError::NotProvidedTakerAssets,
    );
    refused(nft_barter::initialize(&ctx, 30, 5, 1, 0, bumps.clone()), MyError::NftAmountMismatch);
}

#[test]
fn opening_does_not_ask_whether_the_taker_can_pay() {
    let scene = Scene::new(1, 0, 0, 2_001);
    assert!(scene.initialize().is_ok());
}

#[test]
fn opening_is_refused_for_each_broken_account() {
    let scene = Scene::new(2, 1, 30, 5);
    let bumps = scene.bumps();
    let attempt = |ctx: &Context<Initialize>, bumps: Vec<u8>| {
        nft_barter::initialize(ctx, 30, 5, 2, 1, bumps)
    };
    let refused = |r: Result<Initialized, Refusal>, error: MyError| {
        assert_eq!(r, Err(Refusal::Check(error)));
    };
    assert!(attempt(&scene.opening(), bumps.clone()).is_ok());

    let mut ctx = scene.opening();
    ctx.accounts.vault_authority = key(9);
    refused(attempt(&ctx, bumps.clone()), MyError::PdaPublicKeyMismatch);

    let mut ctx = scene.opening();
    ctx.program_id = key(43);
    refused(attempt(&ctx, bumps.clone()), MyError::PdaPublicKeyMismatch);

    let mut ctx = scene.opening();
    ctx.remaining_accounts[3].owner = key(9);
    refused(attempt(&ctx, bumps.clone()), MyError::IncorrectAccountInfoOwner);

    let mut ctx = scene.opening();
    ctx.remaining_accounts[3].data = vec![0u8; 165];
    refused(attempt(&ctx, bumps.clone()), MyError::UninitializedAssociatedToken);

    let mut ctx = scene.opening();
    ctx.remaining_accounts[3].data = vec![];
    assert_eq!(attempt(&ctx, bumps.clone()), Err(Refusal::InvalidAccountData));

    let mut ctx = scene.opening();
    ctx.remaining_accounts[0] = snapshot(&scene.ledger, &canonical(&scene.taker, &scene.given[0]));
    refused(attempt(&ctx, bumps.clone()), MyError::AssociatedAuthorityMismatch);

    let mut ctx = scene.opening();
    ctx.remaining_accounts[2] = mint_reference(&scene.given[1]);
    refused(attempt(&ctx, bumps.clone()), MyError::AssociatedTokenPublicKeyMismatch);

    let mut emptied = Scene::new(2, 1, 30, 5);
    let source = emptied.source(1);
    empty_all(&mut emptied.ledger, &source);
    refused(attempt(&emptied.opening(), bumps.clone()), MyError::NotFoundNft);

    let mut ctx = scene.opening();
    ctx.remaining_accounts[4].key = key(9);
    refused(attempt(&ctx, bumps.clone()), MyError::PdaPublicKeyMismatch);

    let wrong_salt = vec![bumps[0], bumps[1].wrapping_sub(1)];
    refused(attempt(&scene.opening(), wrong_salt), MyError::PdaPublicKeyMismatch);

    let mut funded = Scene::new(2, 1, 30, 5);
    hand_to_taker(&mut funded);
    refused(attempt(&funded.opening(), bumps.clone()), MyError::NotFoundNft);

    let mut ctx = scene.opening();
    ctx.remaining_accounts[6] =
        snapshot(&scene.ledger, &canonical(&scene.initializer, &scene.wanted[0]));
    refused(attempt(&ctx, bumps.clone()), MyError::AssociatedAuthorityMismatch);
}

#[test]
fn the_first_broken_asset_decides_the_refusal() {
    let scene = Scene::new(2, 0, 0, 5);
    let mut ctx = scene.opening();
    ctx.remaining_accounts[0].owner = key(9);
    ctx.remaining_accounts[3].data = vec![];
    assert_eq!(
        nft_barter::initialize(&ctx, 0, 5, 2, 0, scene.bumps()),
        Err(Refusal::Check(MyError::IncorrectAccountInfoOwner))
    );
    let mut ctx = scene.opening();
    ctx.remaining_accounts[3].data = vec![];
    ctx.accounts.vault_authority = key(9);
    assert_eq!(
        nft_barter::initialize(&ctx, 0, 5, 2, 0, scene.bumps()),
        Err(Refusal::Check(MyError::PdaPublicKeyMismatch))
    );
}

#[test]
fn assets_and_currency_change_hands_both_ways() {
    let mut scene = Scene::new(2, 1, 30, 5);
    scene.open();
    hand_to_taker(&mut scene);
    let settlement = scene.exchange().unwrap();
    assert_eq!(settlement.actions.len(), 1 + 1 + 2 * 2 + 2);
    assert_eq!(
        settlement.actions[0],
        Action::Transfer {
            transfer: Transfer {
                from: canonical(&scene.taker, &scene.wanted[0]),
                to: canonical(&scene.initializer, &scene.wanted[0]),
                authority: scene.taker,
            },
        }
    );
    assert!(scene.ledger.perform(&settlement.actions, None));
    assert_eq!(scene.amount(&canonical(&scene.initializer, &scene.wanted[0])), Some(1));
    assert_eq!(scene.amount(&canonical(&scene.taker, &scene.wanted[0])), Some(0));
    for i in 0..2 {
        assert_eq!(scene.amount(&canonical(&scene.taker, &scene.given[i])), Some(1));
        assert_eq!(scene.amount(&scene.source(i)), Some(0));
        assert_eq!(scene.ledger.find(&scene.vault(i).0), None);
    }
    assert_eq!(scene.ledger.lamports(&scene.initializer), 1_000 - 30 + 5);
    assert_eq!(scene.ledger.lamports(&scene.taker), 2_000 - 5 + 30);
    assert_eq!(scene.ledger.trade, None);
    assert_eq!(scene.ledger.find(&scene.escrow), None);
}

#[test]
fn exchange_is_refused_for_each_broken_term_and_changes_nothing() {
    let mut scene = Scene::new(1, 1, 30, 5);
    scene.open();
    hand_to_taker(&mut scene);
    let before = scene.ledger.clone();
    let refused = |r: Result<Settlement, Refusal>, error: MyError| {
        assert_eq!(r, Err(Refusal::Check(error)));
    };
    let ctx = scene.exchanging();
    assert!(nft_barter::exchange(&ctx, 30, 5).is_ok());
    refused(nft_barter::exchange(&ctx, 30, 6), MyError::TakerAdditionalSolAmountMismatch);
    refused(nft_barter::exchange(&ctx, 30, 4), MyError::TakerAdditionalSolAmountMismatch);
    refused(nft_barter::exchange(&ctx, 29, 5), MyError::InitializerAdditionalSolAmountMismatch);
    refused(nft_barter::exchange(&ctx, 30, 2_001), MyError::TakerInsufficientFunds);

    let mut poor = scene.exchanging();
    poor.accounts.taker.lamports = 4;
    refused(nft_barter::exchange(&poor, 30, 5), MyError::TakerInsufficientFunds);
    poor.accounts.taker.lamports = 5;
    assert!(nft_barter::exchange(&poor, 30, 5).is_ok());

    let mut stranger = scene.exchanging();
    stranger.accounts.initializer.key = key(9);
    refused(nft_barter::exchange(&stranger, 30, 5), MyError::InitializerPublicKeyMismatch);
    let mut stranger = scene.exchanging();
    stranger.accounts.taker.key = key(9);
    refused(nft_barter::exchange(&stranger, 30, 5), MyError::TakerPublicKeyMismatch);

    let mut unsalted = scene.exchanging();
    unsalted.accounts.escrow_record.vault_account_bumps.clear();
    refused(nft_barter::exchange(&unsalted, 30, 5), MyError::VaultAccountBumpsMismatch);

    let mut short = scene.exchanging();
    assert_eq!(short.remaining_accounts.len(), 3 + 2 + 2 + 2);
    short.remaining_accounts.pop();
    refused(nft_barter::exchange(&short, 30, 5), MyError::NftAmountMismatch);

    let mut forged = scene.exchanging();
    forged.accounts.vault_authority = key(9);
    refused(nft_barter::exchange(&forged, 30, 5), MyError::PdaPublicKeyMismatch);

    assert_eq!(scene.ledger, before);
}

#[test]
fn exchange_on_a_record_without_pledges_is_refused() {
    let mut scene = Scene::new(1, 0, 0, 5);
    scene.open();
    let mut ctx = scene.exchanging();
    ctx.accounts.escrow_record.taker_additional_sol_amount = 0;
    assert_eq!(
        nft_barter::exchange(&ctx, 0, 0),
        Err(Refusal::Check(MyError::NotProvidedTakerAssets))
    );
    let mut scene = Scene::new(0, 1, 3, 0);
    scene.open();
    hand_to_taker(&mut scene);
    let mut ctx = scene.exchanging();
    ctx.accounts.escrow_record.initializer_additional_sol_amount = 0;
    assert_eq!(
        nft_barter::exchange(&ctx, 0, 0),
        Err(Refusal::Check(MyError::NotProvidedInitializerAssets))
    );
}

#[test]
fn exchange_is_refused_for_each_broken_account() {
    let mut scene = Scene::new(1, 1, 30, 5);
    scene.open();
    let refused = |r: Result<Settlement, Refusal>, error: MyError| {
        assert_eq!(r, Err(Refusal::Check(error)));
    };
    // The taker does not hold its asset yet.
    refused(scene.exchange(), MyError::NotFoundNft);
    hand_to_taker(&mut scene);
    assert!(scene.exchange().is_ok());

    // References: source, vault, mint | taker source, mint | taker destination, mint |
    // initializer destination, mint.
    let mut ctx = scene.exchanging();
    ctx.remaining_accounts[1].owner = key(9);
    refused(nft_barter::exchange(&ctx, 30, 5), MyError::IncorrectAccountInfoOwner);

    let mut ctx = scene.exchanging();
    ctx.remaining_accounts[1] = ctx.remaining_accounts[0].clone();
    refused(nft_barter::exchange(&ctx, 30, 5), MyError::AssociatedAuthorityMismatch);

    let mut ctx = scene.exchanging();
    ctx.remaining_accounts[1].key = key(9);
    refused(nft_barter::exchange(&ctx, 30, 5), MyError::PdaPublicKeyMismatch);

    let mut ctx = scene.exchanging();
    ctx.accounts.escrow_record.vault_account_bumps[0] ^= 1;
    refused(nft_barter::exchange(&ctx, 30, 5), MyError::PdaPublicKeyMismatch);

    let mut ctx = scene.exchanging();
    ctx.remaining_accounts[3] = ctx.remaining_accounts[7].clone();
    refused(nft_barter::exchange(&ctx, 30, 5), MyError::AssociatedTokenPublicKeyMismatch);

    let mut ctx = scene.exchanging();
    let source = canonical(&scene.taker, &scene.wanted[0]);
    let mut ledger = scene.ledger.clone();
    let mut facts = ledger.facts(&source);
    facts.token = facts.token.map(|token| TokenAccount { owner: key(9), ..token });
    ledger.put(facts);
    ctx.remaining_accounts[3] = snapshot(&ledger, &source);
    refused(nft_barter::exchange(&ctx, 30, 5), MyError::AssociatedAuthorityMismatch);

    let mut ctx = scene.exchanging();
    ctx.remaining_accounts[5] = ctx.remaining_accounts[0].clone();
    refused(nft_barter::exchange(&ctx, 30, 5), MyError::AssociatedAuthorityMismatch);

    let mut ctx = scene.exchanging();
    ctx.remaining_accounts[7] = ctx.remaining_accounts[3].clone();
    refused(nft_barter::exchange(&ctx, 30, 5), MyError::AssociatedAuthorityMismatch);

    let mut full = scene.exchanging();
    let destination = canonical(&scene.initializer, &scene.wanted[0]);
    let mut ledger = scene.ledger.clone();
    fill(&mut ledger, &destination);
    full.remaining_accounts[7] = snapshot(&ledger, &destination);
    refused(nft_barter::exchange(&full, 30, 5), MyError::NotFoundNft);
}

#[test]
fn only_the_recorded_accounts_are_exchanged() {
    let mut scene = Scene::new(2, 2, 0, 5);
    scene.open();
    hand_to_taker(&mut scene);
    assert!(scene.exchange().is_ok());
    let refused = Err(Refusal::Check(MyError::AssociatedTokenPublicKeyMismatch));

    // The two vaulted assets in the other order.
    let mut ctx = scene.exchanging();
    for i in 0..3 {
        ctx.remaining_accounts.swap(i, 3 + i);
    }
    assert_eq!(nft_barter::exchange(&ctx, 0, 5), refused);

    // The two assets of the taker in the other order.
    let mut ctx = scene.exchanging();
    for i in 0..2 {
        ctx.remaining_accounts.swap(6 + i, 8 + i);
    }
    assert_eq!(nft_barter::exchange(&ctx, 0, 5), refused);

    // Another asset of the taker in place of a recorded one.
    let other = key(199);
    let mut ledger = scene.ledger.clone();
    assert!(ledger.open_token_account(canonical(&scene.taker, &other), other, scene.taker, 1));
    let mut ctx = scene.exchanging();
    ctx.remaining_accounts[6] = snapshot(&ledger, &canonical(&scene.taker, &other));
    ctx.remaining_accounts[7] = mint_reference(&other);
    assert_eq!(nft_barter::exchange(&ctx, 0, 5), refused);

    // A record that names other accounts.
    let mut ctx = scene.exchanging();
    ctx.accounts.escrow_record.initializer_nft_token_accounts[1] = key(9);
    assert_eq!(nft_barter::exchange(&ctx, 0, 5), refused);
}

#[test]
fn a_cancellation_reports_a_vault_off_its_address_as_a_derivation_mismatch() {
    let mut scene = Scene::new(1, 0, 30, 5);
    scene.open();
    let mut ctx = scene.cancelling_by_initializer();
    ctx.remaining_accounts[1].key = key(9);
    assert_eq!(
        nft_barter::cancel_by_initializer(ctx),
        Err(Refusal::Check(MyError::PdaPublicKeyMismatch))
    );
    let mut ctx = scene.cancelling_by_taker();
    ctx.accounts.escrow_record.vault_account_bumps[0] ^= 1;
    assert_eq!(
        nft_barter::cancel_by_taker(ctx),
        Err(Refusal::Check(MyError::PdaPublicKeyMismatch))
    );
}

#[test]
fn only_the_recorded_accounts_are_given_back() {
    let mut scene = Scene::new(2, 0, 0, 5);
    scene.open();
    let mut ctx = scene.cancelling_by_initializer();
    for i in 0..3 {
        ctx.remaining_accounts.swap(i, 3 + i);
    }
    assert_eq!(
        nft_barter::cancel_by_initializer(ctx),
        Err(Refusal::Check(MyError::AssociatedTokenPublicKeyMismatch))
    );
    let mut ctx = scene.cancelling_by_taker();
    ctx.accounts.escrow_record.initializer_nft_token_accounts.swap(0, 1);
    assert_eq!(
        nft_barter::cancel_by_taker(ctx),
        Err(Refusal::Check(MyError::AssociatedTokenPublicKeyMismatch))
    );
}

#[test]
fn vault_of_another_asset_is_refused() {
    let mut scene = Scene::new(2, 0, 0, 5);
    scene.open();
    let mut ctx = scene.exchanging();
    // The vault of the first asset is re-labelled with the address of its own
    // derivation but holds the record of the second vault.
    ctx.remaining_accounts[1].data = ctx.remaining_accounts[4].data.clone();
    assert_eq!(
        nft_barter::exchange(&ctx, 0, 5),
        Err(Refusal::Check(MyError::MintPublicKeyMismatch))
    );
}

#[test]
fn a_fault_at_any_request_leaves_the_ledger_as_it_was() {
    let mut scene = Scene::new(2, 1, 30, 5);
    scene.open();
    hand_to_taker(&mut scene);
    let settlement = scene.exchange().unwrap();
    let before = scene.ledger.clone();
    for position in 0..settlement.actions.len() {
        assert!(!scene.ledger.perform(&settlement.actions, Some(position)));
        assert_eq!(scene.ledger, before);
    }
    assert!(scene.ledger.perform(&settlement.actions, Some(settlement.actions.len())));
    assert_ne!(scene.ledger, before);
}

#[test]
fn a_request_that_the_service_refuses_leaves_the_ledger_as_it_was() {
    let mut scene = Scene::new(2, 1, 30, 5);
    scene.open();
    hand_to_taker(&mut scene);
    let settlement = scene.exchange().unwrap();
    // Between the decision and the requests the taker's asset goes away.
    let source = canonical(&scene.taker, &scene.wanted[0]);
    empty_all(&mut scene.ledger, &source);
    let before = scene.ledger.clone();
    assert!(!scene.ledger.perform(&settlement.actions, None));
    assert_eq!(scene.ledger, before);
}

#[test]
fn a_fault_while_opening_leaves_no_vault_and_no_record() {
    let mut scene = Scene::new(2, 0, 0, 5);
    let done = scene.initialize().unwrap();
    let before = scene.ledger.clone();
    let mut broken = done.clone();
    broken.actions[5] = Action::Transfer {
        transfer: Transfer { from: scene.source(1), to: scene.vault(1).0, authority: scene.taker },
    };
    assert!(!scene.ledger.open_trade(&scene.program_id, &scene.escrow, &broken));
    assert_eq!(scene.ledger, before);
    assert!(scene.ledger.open_trade(&scene.program_id, &scene.escrow, &done));
    let open = scene.ledger.clone();
    assert!(!scene.ledger.open_trade(&scene.program_id, &key(78), &done));
    assert_eq!(scene.ledger, open);
}

#[test]
fn either_party_cancels_and_everything_goes_back() {
    for by_taker in [false, true] {
        let mut scene = Scene::new(2, 1, 30, 5);
        let before = scene.ledger.clone();
        scene.open();
        let settlement = if by_taker {
            nft_barter::cancel_by_taker(scene.cancelling_by_taker())
        } else {
            nft_barter::cancel_by_initializer(scene.cancelling_by_initializer())
        }
        .unwrap();
        assert_eq!(settlement.vault_authority, VaultAuthority { bump: scene.authority_bump });
        assert!(scene.ledger.perform(&settlement.actions, None));
        for i in 0..2 {
            assert_eq!(scene.amount(&scene.source(i)), Some(1));
            assert_eq!(scene.ledger.token(&scene.source(i)).unwrap().owner, scene.initializer);
            assert_eq!(scene.ledger.find(&scene.vault(i).0), None);
        }
        assert_eq!(scene.ledger.lamports(&scene.initializer), 1_000);
        assert_eq!(scene.ledger.lamports(&scene.taker), 2_000);
        assert_eq!(scene.ledger.trade, None);
        assert_eq!(scene.ledger.find(&scene.escrow), None);
        assert_eq!(scene.ledger, before);
    }
}

#[test]
fn the_two_cancellations_decide_the_same() {
    let mut scene = Scene::new(2, 0, 30, 5);
    scene.open();
    let by_initializer = nft_barter::cancel_by_initializer(scene.cancelling_by_initializer());
    let by_taker = nft_barter::cancel_by_taker(scene.cancelling_by_taker());
    assert!(by_initializer.is_ok());
    assert_eq!(by_initializer, by_taker);
}

#[test]
fn each_operation_wants_the_signature_of_its_party() {
    let mut scene = Scene::new(1, 1, 30, 5);
    let mut ctx = scene.opening();
    ctx.accounts.initializer.is_signer = false;
    ctx.accounts.taker.is_signer = true;
    assert_eq!(
        nft_barter::initialize(&ctx, 30, 5, 1, 1, scene.bumps()),
        Err(Refusal::MissingSignature)
    );
    scene.open();
    hand_to_taker(&mut scene);

    let mut ctx = scene.exchanging();
    ctx.accounts.taker.is_signer = false;
    ctx.accounts.initializer.is_signer = true;
    assert_eq!(nft_barter::exchange(&ctx, 30, 5), Err(Refusal::MissingSignature));

    let mut ctx = scene.cancelling_by_initializer();
    ctx.accounts.initializer.is_signer = false;
    ctx.accounts.taker.is_signer = true;
    assert_eq!(nft_barter::cancel_by_initializer(ctx), Err(Refusal::MissingSignature));

    let mut ctx = scene.cancelling_by_taker();
    ctx.accounts.taker.is_signer = false;
    ctx.accounts.initializer.is_signer = true;
    assert_eq!(nft_barter::cancel_by_taker(ctx), Err(Refusal::MissingSignature));

    // The other party's signature is not asked for.
    assert!(!scene.cancelling_by_initializer().accounts.taker.is_signer);
    assert!(nft_barter::cancel_by_initializer(scene.cancelling_by_initializer()).is_ok());
    assert!(!scene.cancelling_by_taker().accounts.initializer.is_signer);
    assert!(nft_barter::cancel_by_taker(scene.cancelling_by_taker()).is_ok());
    assert!(!scene.exchanging().accounts.initializer.is_signer);
    assert!(scene.exchange().is_ok());
}

#[test]
fn a_missing_signature_is_reported_before_anything_else() {
    let scene = Scene::new(1, 1, 30, 5);
    let mut ctx = scene.opening();
    ctx.accounts.initializer.is_signer = false;
    ctx.remaining_accounts.clear();
    assert_eq!(
        nft_barter::initialize(&ctx, 0, 0, 1, 1, vec![]),
        Err(Refusal::MissingSignature)
    );
}

#[test]
fn requests_need_no_signature_that_the_operation_has_not_checked() {
    let mut scene = Scene::new(2, 1, 30, 5);
    let done = scene.initialize().unwrap();
    for action in &done.actions {
        assert_eq!(action.signer(), Some(scene.initializer));
    }
    scene.open();
    let cancelled = nft_barter::cancel_by_taker(scene.cancelling_by_taker()).unwrap();
    for action in &cancelled.actions {
        assert!(matches!(action.signer(), None) || action.signer() == Some(scene.authority));
    }
    assert_eq!(cancelled.actions.iter().filter(|action| action.signer().is_none()).count(), 2);
    hand_to_taker(&mut scene);
    let settled = scene.exchange().unwrap();
    for action in &settled.actions {
        assert_ne!(action.signer(), Some(scene.initializer));
    }
    assert_eq!(settled.actions[0].signer(), Some(scene.taker));
    assert_eq!(settled.actions[1].signer(), Some(scene.taker));
    assert_eq!(settled.actions[2].signer(), Some(scene.authority));
    assert_eq!(settled.actions[3].signer(), Some(scene.authority));
    assert_eq!(settled.actions[6].signer(), None);
    assert_eq!(settled.actions[7].signer(), None);
}

#[test]
fn the_requests_of_a_cancellation_in_their_order() {
    let mut scene = Scene::new(1, 1, 30, 5);
    scene.open();
    let settlement = nft_barter::cancel_by_initializer(scene.cancelling_by_initializer()).unwrap();
    assert_eq!(
        settlement.actions,
        vec![
            Action::Transfer {
                transfer: Transfer {
                    from: scene.vault(0).0,
                    to: scene.source(0),
                    authority: scene.authority,
                },
            },
            Action::Close {
                close: CloseAccount {
                    account: scene.vault(0).0,
                    destination: scene.initializer,
                    authority: scene.authority,
                },
            },
            Action::ReleaseCurrency { escrow: scene.escrow, to: scene.initializer, lamports: 30 },
            Action::CloseRecord { escrow: scene.escrow, destination: scene.initializer },
        ]
    );
}

#[test]
fn cancelling_does_not_look_at_what_the_taker_holds() {
    let mut scene = Scene::new(1, 1, 30, 5);
    scene.open();
    let plain = nft_barter::cancel_by_initializer(scene.cancelling_by_initializer()).unwrap();
    let mut ctx = scene.cancelling_by_initializer();
    ctx.accounts.taker.lamports = 0;
    ctx.accounts.taker.owner = key(9);
    ctx.accounts.taker.data = vec![1, 2, 3];
    assert_eq!(nft_barter::cancel_by_initializer(ctx), Ok(plain));
}

#[test]
fn cancelling_is_refused_for_strangers_and_broken_lists() {
    let mut scene = Scene::new(2, 0, 30, 5);
    scene.open();
    let mut ctx = scene.cancelling_by_initializer();
    ctx.accounts.initializer.key = key(9);
    assert_eq!(
        nft_barter::cancel_by_initializer(ctx),
        Err(Refusal::Check(MyError::InitializerPublicKeyMismatch))
    );
    let mut ctx = scene.cancelling_by_taker();
    ctx.accounts.taker.key = key(9);
    assert_eq!(
        nft_barter::cancel_by_taker(ctx),
        Err(Refusal::Check(MyError::TakerPublicKeyMismatch))
    );
    for length in [0usize, 3, 4, 5, 7, 9] {
        let mut ctx = scene.cancelling_by_initializer();
        let filler = ctx.remaining_accounts[0].clone();
        ctx.remaining_accounts.resize(length, filler);
        assert_eq!(
            nft_barter::cancel_by_initializer(ctx),
            Err(Refusal::Check(MyError::NftAmountMismatch))
        );
    }
    let mut ctx = scene.cancelling_by_initializer();
    ctx.accounts.vault_authority = key(9);
    assert_eq!(
        nft_barter::cancel_by_initializer(ctx),
        Err(Refusal::Check(MyError::PdaPublicKeyMismatch))
    );
    let mut ctx = scene.cancelling_by_taker();
    ctx.remaining_accounts[4].data = vec![];
    assert_eq!(nft_barter::cancel_by_taker(ctx), Err(Refusal::InvalidAccountData));
}

#[test]
fn shared_cancellation_takes_the_context_as_it_is() {
    let mut scene = Scene::new(1, 0, 30, 5);
    scene.open();
    let through = nft_barter::cancel_by_initializer(scene.cancelling_by_initializer());
    let direct = cancel(&CancelContext {
        program_id: scene.program_id,
        accounts: CancelContextAccounts {
            initializer: snapshot(&scene.ledger, &scene.initializer),
            taker: snapshot(&scene.ledger, &scene.taker),
            vault_authority: scene.authority,
            escrow_account: scene.escrow,
            escrow_record: scene.record(),
        },
        remaining_accounts: scene.triples(),
    });
    assert!(direct.is_ok());
    assert_eq!(direct, through);
}

#[test]
fn after_an_exchange_nothing_is_left_to_cancel_or_exchange() {
    let mut scene = Scene::new(1, 0, 0, 5);
    scene.open();
    let settlement = scene.exchange().unwrap();
    let again = settlement.clone();
    assert!(scene.ledger.perform(&settlement.actions, None));
    let settled = scene.ledger.clone();
    assert!(!scene.ledger.perform(&again.actions, None));
    assert_eq!(scene.ledger, settled);
}

#[test]
fn every_mix_of_pledges_settles_and_cancels() {
    for given in 0..3usize {
        for wanted in 0..3usize {
            for (initializer_pledge, taker_pledge) in [(0u64, 0u64), (0, 9), (40, 0), (40, 9)] {
                let mut scene = Scene::new(given, wanted, initializer_pledge, taker_pledge);
                let before = scene.ledger.clone();
                let zero_sided = (given == 0 && initializer_pledge == 0)
                    || (wanted == 0 && taker_pledge == 0);
                if zero_sided {
                    assert!(scene.initialize().is_err());
                    continue;
                }
                let record = scene.open();
                assert!(record.is_well_formed());
                assert_eq!(scene.opening().remaining_accounts.len(), 3 * given + 2 * wanted);
                assert_eq!(
                    scene.exchanging().remaining_accounts.len(),
                    (3 * given + 2 * wanted) + (given + wanted) * 2
                );

                let mut cancelled = Scene { ledger: scene.ledger.clone(), ..Scene::new(given, wanted, initializer_pledge, taker_pledge) };
                let restitution =
                    nft_barter::cancel_by_taker(cancelled.cancelling_by_taker()).unwrap();
                assert_eq!(restitution.actions.len(), 2 * given + 2);
                assert!(cancelled.ledger.perform(&restitution.actions, None));
                assert_eq!(cancelled.ledger, before);

                hand_to_taker(&mut scene);
                let settlement = scene.exchange().unwrap();
                assert_eq!(settlement.actions.len(), wanted + 1 + 2 * given + 2);
                assert!(scene.ledger.perform(&settlement.actions, None));
                assert_eq!(
                    scene.ledger.lamports(&scene.initializer),
                    1_000 - initializer_pledge + taker_pledge
                );
                assert_eq!(
                    scene.ledger.lamports(&scene.taker),
                    2_000 - taker_pledge + initializer_pledge
                );
                for mint in &scene.given {
                    assert_eq!(scene.amount(&canonical(&scene.taker, mint)), Some(1));
                    assert_eq!(scene.amount(&canonical(&scene.initializer, mint)), Some(0));
                }
                for mint in &scene.wanted {
                    assert_eq!(scene.amount(&canonical(&scene.initializer, mint)), Some(1));
                    assert_eq!(scene.amount(&canonical(&scene.taker, mint)), Some(0));
                }
                assert_eq!(scene.ledger.trade, None);
                assert_eq!(scene.ledger.accounts.len(), before.accounts.len());
            }
        }
    }
}

#[test]
fn system_program_constant_is_all_zero() {
    assert_eq!(SYSTEM_PROGRAM_ID, [0u8; 32]);
    assert_eq!(SYSTEM_PROGRAM_ID, Pubkey::default().to_bytes());
}
