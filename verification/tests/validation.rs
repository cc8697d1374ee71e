use anchor_lang::prelude::Pubkey;
use nft_barter::assets::{resolve_pairs, resolve_triples};
use nft_barter::errors::{MyError, Refusal};
use nft_barter::state::{
    record_space, AccountFacts, AccountSnapshot, AccountState, Key, TokenAccount,
    SYSTEM_PROGRAM_ID, TOKEN_PROGRAM_ID, VAULT_ACCOUNT_PDA_SEED, VAULT_AUTHORITY_PDA_SEED,
};
use nft_barter::utils::{
    assert_initialized, assert_is_ata, assert_is_pda, assert_keys_equal, assert_owned_by,
    assert_signed, bytes_to_vec, check_ata, check_initialized, check_pda, check_vault_authority,
    decode, derive_vault_address, derive_vault_authority, has_sufficient_funds,
};
use spl_token::solana_program::program_option::COption;
use spl_token::solana_program::program_pack::Pack;

fn key(seed: u8) -> Key {
    Key::new([seed; 32])
}

fn key_of(address: &Pubkey) -> Key {
    Key::new(address.to_bytes())
}

fn address_of(key: &Key) -> Pubkey {
    Pubkey::new_from_array(key.bytes)
}

fn token_program() -> Key {
    Key::new(TOKEN_PROGRAM_ID)
}

fn packed(mint: &Key, owner: &Key, amount: u64, state: spl_token::state::AccountState) -> Vec<u8> {
    let account = spl_token::state::Account {
        mint: address_of(mint),
        owner: address_of(owner),
        amount,
        delegate: COption::None,
        state,
        is_native: COption::None,
        delegated_amount: 0,
        close_authority: COption::None,
    };
    let mut data = vec![0u8; 165];
    spl_token::state::Account::pack(account, &mut data).unwrap();
    data
}

fn token_snapshot(address: &Key, mint: &Key, owner: &Key, amount: u64) -> AccountSnapshot {
    AccountSnapshot {
        key: *address,
        owner: token_program(),
        lamports: 2_039_280,
        data: packed(mint, owner, amount, spl_token::state::AccountState::Initialized),
        is_signer: false,
    }
}

fn plain_snapshot(address: &Key, lamports: u64) -> AccountSnapshot {
    AccountSnapshot {
        key: *address,
        owner: Key::new(SYSTEM_PROGRAM_ID),
        lamports,
        data: vec![],
        is_signer: false,
    }
}

fn canonical(wallet: &Key, mint: &Key) -> Key {
    key_of(&spl_associated_token_account::get_associated_token_address(
        &address_of(wallet),
        &address_of(mint),
    ))
}

fn vault_of(token_account: &Key, program_id: &Key) -> (Key, u8) {
    let (address, bump) = Pubkey::find_program_address(
        &[b"vault-account", &token_account.bytes],
        &address_of(program_id),
    );
    (key_of(&address), bump)
}

fn record(mint: Key, owner: Key, amount: u64) -> TokenAccount {
    TokenAccount { mint, owner, amount, state: AccountState::Initialized }
}

fn facts(address: Key, token: Option<TokenAccount>) -> AccountFacts {
    AccountFacts { key: address, owner: token_program(), lamports: 0, token }
}

#[test]
fn the_tags_are_the_ascii_words() {
    assert_eq!(&VAULT_AUTHORITY_PDA_SEED[..], b"vault-authority");
    assert_eq!(&VAULT_ACCOUNT_PDA_SEED[..], b"vault-account");
}

#[test]
fn the_token_program_constant_is_the_crates_own() {
    assert_eq!(TOKEN_PROGRAM_ID, spl_token::id().to_bytes());
    assert_eq!(
        address_of(&token_program()).to_string(),
        "TokenkegQfeZyiNwAJbNbGKPFXCWuBvf9Ss623VQ5DA"
    );
}

#[test]
fn a_stored_record_takes_a_hundred_bytes_and_its_lists() {
    assert_eq!(record_space(0, 0), Some(100));
    assert_eq!(record_space(1, 0), Some(133));
    assert_eq!(record_space(0, 1), Some(132));
    assert_eq!(record_space(2, 3), Some(100 + 66 + 96));
    assert_eq!(record_space(255, 255), Some(100 + 33 * 255 + 32 * 255));
    assert_eq!(
        record_space(2, 1),
        Some(8 + 32 + 8 + 4 + 32 * 2 + 32 + 8 + 4 + 32 * 1 + 4 + 2)
    );
    assert_eq!(record_space(usize::MAX, 0), None);
    assert_eq!(record_space(0, usize::MAX), None);
    assert_eq!(record_space(usize::MAX / 33, usize::MAX / 32), None);
    assert_eq!(record_space((usize::MAX - 100) / 33, 0).is_some(), true);
    assert_eq!(record_space((usize::MAX - 100) / 33 + 1, 0), None);
}

#[test]
fn keys_compare_by_their_bytes() {
    let mut bytes = [7u8; 32];
    assert!(key(7).equals(&Key::new(bytes)));
    assert_eq!(key(7), Key::new(bytes));
    bytes[31] = 8;
    assert!(!key(7).equals(&Key::new(bytes)));
    assert_ne!(key(7), Key::new(bytes));
    bytes[31] = 7;
    bytes[0] = 0;
    assert!(!key(7).equals(&Key::new(bytes)));
    assert_eq!(key(9).to_bytes(), [9u8; 32]);
}

#[test]
fn bytes_are_copied_in_order() {
    assert_eq!(bytes_to_vec(&[1, 2, 3]), vec![1u8, 2, 3]);
    assert_eq!(bytes_to_vec(&[]), Vec::<u8>::new());
}

#[test]
fn equal_keys_pass_and_others_carry_the_given_error() {
    assert_eq!(assert_keys_equal(&key(1), &key(1), MyError::MintPublicKeyMismatch), Ok(()));
    assert_eq!(
        assert_keys_equal(&key(1), &key(2), MyError::MintPublicKeyMismatch),
        Err(Refusal::Check(MyError::MintPublicKeyMismatch))
    );
    assert_eq!(
        assert_keys_equal(&key(1), &key(2), MyError::AssociatedAuthorityMismatch),
        Err(Refusal::Check(MyError::AssociatedAuthorityMismatch))
    );
}

#[test]
fn an_account_of_another_program_is_refused() {
    let account = plain_snapshot(&key(1), 5);
    assert_eq!(assert_owned_by(&account, &Key::new(SYSTEM_PROGRAM_ID)), Ok(()));
    assert_eq!(
        assert_owned_by(&account, &token_program()),
        Err(Refusal::Check(MyError::IncorrectAccountInfoOwner))
    );
}

#[test]
fn only_a_signer_has_signed() {
    let mut account = plain_snapshot(&key(1), 5);
    assert_eq!(assert_signed(&account), Err(Refusal::MissingSignature));
    account.is_signer = true;
    assert_eq!(assert_signed(&account), Ok(()));
}

#[test]
fn funds_are_checked_for_the_initializer_first() {
    let initializer = plain_snapshot(&key(1), 10);
    let taker = plain_snapshot(&key(2), 20);
    assert_eq!(has_sufficient_funds(&initializer, &taker, 10, 20), Ok(()));
    assert_eq!(has_sufficient_funds(&initializer, &taker, 0, 0), Ok(()));
    assert_eq!(
        has_sufficient_funds(&initializer, &taker, 11, 20),
        Err(Refusal::Check(MyError::InitializerInsufficientFunds))
    );
    assert_eq!(
        has_sufficient_funds(&initializer, &taker, 10, 21),
        Err(Refusal::Check(MyError::TakerInsufficientFunds))
    );
    assert_eq!(
        has_sufficient_funds(&initializer, &taker, 11, 21),
        Err(Refusal::Check(MyError::InitializerInsufficientFunds))
    );
}

#[test]
fn packed_token_account_is_decoded_field_by_field() {
    let snapshot = token_snapshot(&key(3), &key(4), &key(5), 1);
    let decoded = decode(&snapshot);
    assert_eq!(decoded.key, key(3));
    assert_eq!(decoded.owner, token_program());
    assert_eq!(decoded.lamports, 2_039_280);
    assert_eq!(decoded.token, Some(record(key(4), key(5), 1)));
    assert_eq!(assert_initialized(&snapshot), Ok(record(key(4), key(5), 1)));
}

#[test]
fn amount_is_read_in_full_width() {
    let snapshot = token_snapshot(&key(3), &key(4), &key(5), 0x0102_0304_0506_0708);
    assert_eq!(assert_initialized(&snapshot).unwrap().amount, 0x0102_0304_0506_0708);
}

fn raw_account(data: Vec<u8>) -> AccountSnapshot {
    AccountSnapshot { key: key(3), owner: token_program(), lamports: 0, data, is_signer: false }
}

fn counted_bytes() -> Vec<u8> {
    let mut data: Vec<u8> = (0..165u16).map(|i| i as u8).collect();
    for mark in [72usize, 109, 129] {
        data[mark..mark + 4].copy_from_slice(&[0, 0, 0, 0]);
    }
    data[108] = 1;
    data
}

#[test]
fn fields_are_read_from_their_places() {
    let data = counted_bytes();
    let account = assert_initialized(&raw_account(data.clone())).unwrap();
    let mut mint = [0u8; 32];
    let mut owner = [0u8; 32];
    for i in 0..32 {
        mint[i] = i as u8;
        owner[i] = 32 + i as u8;
    }
    assert_eq!(account.mint, Key::new(mint));
    assert_eq!(account.owner, Key::new(owner));
    assert_eq!(account.amount, 0x4746_4544_4342_4140);
    assert_eq!(
        account.amount,
        64 + 0x100 * 65
            + 0x1_0000 * 66
            + 0x100_0000 * 67
            + 0x1_0000_0000 * 68
            + 0x100_0000_0000 * 69
            + 0x1_0000_0000_0000 * 70
            + 0x100_0000_0000_0000 * 71
    );
    assert_eq!(account.state, AccountState::Initialized);
}

#[test]
fn the_largest_amount_is_read_whole() {
    let mut data = counted_bytes();
    data[64..72].copy_from_slice(&[255; 8]);
    assert_eq!(assert_initialized(&raw_account(data.clone())).unwrap().amount, u64::MAX);
    data[64..72].copy_from_slice(&[0, 0, 0, 0, 0, 0, 0, 1]);
    assert_eq!(assert_initialized(&raw_account(data)).unwrap().amount, 1 << 56);
}

#[test]
fn the_state_byte_decides_the_state() {
    let mut data = counted_bytes();
    data[108] = 0;
    assert_eq!(decode(&raw_account(data.clone())).token.unwrap().state, AccountState::Uninitialized);
    data[108] = 1;
    assert_eq!(decode(&raw_account(data.clone())).token.unwrap().state, AccountState::Initialized);
    data[108] = 2;
    assert_eq!(decode(&raw_account(data.clone())).token.unwrap().state, AccountState::Frozen);
    for byte in 3..=255u8 {
        data[108] = byte;
        assert_eq!(decode(&raw_account(data.clone())).token, None);
    }
}

#[test]
fn the_marks_of_the_optional_fields_must_be_valid() {
    let good = counted_bytes();
    let expected = decode(&raw_account(good.clone())).token;
    assert!(expected.is_some());
    for mark in [72usize, 109, 129] {
        let mut data = good.clone();
        data[mark] = 1;
        assert_eq!(decode(&raw_account(data.clone())).token, expected);
        for first in 2..=255u8 {
            data[mark] = first;
            assert_eq!(decode(&raw_account(data.clone())).token, None);
        }
        for first in [0u8, 1] {
            for place in 1..4usize {
                for byte in [1u8, 2, 128, 255] {
                    let mut data = good.clone();
                    data[mark] = first;
                    data[mark + place] = byte;
                    assert_eq!(decode(&raw_account(data)).token, None);
                }
            }
        }
    }
}

#[test]
fn the_other_bytes_do_not_matter() {
    let good = counted_bytes();
    let expected = decode(&raw_account(good.clone())).token;
    let free = (76..108).chain(113..129).chain(133..165);
    for place in free {
        for byte in [0u8, 1, 77, 255] {
            let mut data = good.clone();
            data[place] = byte;
            assert_eq!(decode(&raw_account(data)).token, expected);
        }
    }
}

#[test]
fn every_byte_of_the_two_addresses_and_of_the_amount_matters() {
    let good = counted_bytes();
    let expected = decode(&raw_account(good.clone())).token.unwrap();
    for place in 0..72usize {
        let mut data = good.clone();
        data[place] ^= 0x80;
        let read = decode(&raw_account(data)).token.unwrap();
        assert_ne!(read, expected);
        assert_eq!(read.mint == expected.mint, place >= 32);
        assert_eq!(read.owner == expected.owner, !(32..64).contains(&place));
        assert_eq!(read.amount == expected.amount, place < 64);
        if place >= 64 {
            assert_eq!(read.amount ^ expected.amount, 0x80u64 << (8 * (place - 64)));
        }
    }
}

#[test]
fn only_165_bytes_are_a_token_account() {
    let good = counted_bytes();
    for length in [0usize, 1, 72, 108, 164, 166, 330] {
        let mut data = good.clone();
        data.resize(length, 0);
        assert_eq!(decode(&raw_account(data.clone())).token, None);
        assert_eq!(assert_initialized(&raw_account(data)), Err(Refusal::InvalidAccountData));
    }
    assert_eq!(nft_barter::host::TOKEN_ACCOUNT_LEN, 165);
    assert_eq!(nft_barter::host::TOKEN_ACCOUNT_LEN, spl_token::state::Account::LEN);
}

#[test]
fn data_of_another_length_is_no_token_account() {
    let mut snapshot = token_snapshot(&key(3), &key(4), &key(5), 1);
    snapshot.data.push(0);
    assert_eq!(assert_initialized(&snapshot), Err(Refusal::InvalidAccountData));
    assert_eq!(decode(&snapshot).token, None);
    snapshot.data = vec![];
    assert_eq!(assert_initialized(&snapshot), Err(Refusal::InvalidAccountData));
    snapshot.data = vec![0u8; 164];
    assert_eq!(assert_initialized(&snapshot), Err(Refusal::InvalidAccountData));
}

#[test]
fn data_with_an_unknown_state_is_no_token_account() {
    let mut snapshot = token_snapshot(&key(3), &key(4), &key(5), 1);
    snapshot.data[108] = 3;
    assert_eq!(assert_initialized(&snapshot), Err(Refusal::InvalidAccountData));
}

#[test]
fn an_uninitialized_record_is_refused() {
    let mut snapshot = token_snapshot(&key(3), &key(4), &key(5), 1);
    snapshot.data = packed(&key(4), &key(5), 1, spl_token::state::AccountState::Uninitialized);
    assert_eq!(
        assert_initialized(&snapshot),
        Err(Refusal::Check(MyError::UninitializedAssociatedToken))
    );
    assert_eq!(
        assert_initialized(&AccountSnapshot { data: vec![0u8; 165], ..snapshot }),
        Err(Refusal::Check(MyError::UninitializedAssociatedToken))
    );
}

#[test]
fn a_frozen_record_counts_as_initialized() {
    let mut snapshot = token_snapshot(&key(3), &key(4), &key(5), 1);
    snapshot.data = packed(&key(4), &key(5), 1, spl_token::state::AccountState::Frozen);
    let account = assert_initialized(&snapshot).unwrap();
    assert_eq!(account.state, AccountState::Frozen);
    assert!(account.is_initialized());
}

#[test]
fn decoded_records_are_judged_by_their_state() {
    assert_eq!(check_initialized(None), Err(Refusal::InvalidAccountData));
    let mut account = record(key(1), key(2), 1);
    assert_eq!(check_initialized(Some(account)), Ok(account));
    account.state = AccountState::Uninitialized;
    assert_eq!(
        check_initialized(Some(account)),
        Err(Refusal::Check(MyError::UninitializedAssociatedToken))
    );
}

#[test]
fn canonical_account_with_its_unit_passes() {
    let wallet = key(10);
    let mint = plain_snapshot(&key(11), 0);
    let address = canonical(&wallet, &mint.key);
    let ata = token_snapshot(&address, &mint.key, &wallet, 1);
    assert_eq!(assert_is_ata(&ata, &wallet, &mint, true), Ok(record(mint.key, wallet, 1)));
    let empty = token_snapshot(&address, &mint.key, &wallet, 0);
    assert_eq!(assert_is_ata(&empty, &wallet, &mint, false), Ok(record(mint.key, wallet, 0)));
}

#[test]
fn canonical_account_checks_fail_in_their_order() {
    let wallet = key(10);
    let mint = plain_snapshot(&key(11), 0);
    let address = canonical(&wallet, &mint.key);
    let good = token_snapshot(&address, &mint.key, &wallet, 1);

    let foreign = AccountSnapshot { owner: key(99), data: vec![1, 2, 3], ..good.clone() };
    assert_eq!(
        assert_is_ata(&foreign, &wallet, &mint, true),
        Err(Refusal::Check(MyError::IncorrectAccountInfoOwner))
    );

    let garbled = AccountSnapshot { data: vec![1, 2, 3], ..good.clone() };
    assert_eq!(assert_is_ata(&garbled, &wallet, &mint, true), Err(Refusal::InvalidAccountData));

    let blank = AccountSnapshot { data: vec![0u8; 165], ..good.clone() };
    assert_eq!(
        assert_is_ata(&blank, &wallet, &mint, true),
        Err(Refusal::Check(MyError::UninitializedAssociatedToken))
    );

    let of_another = token_snapshot(&key(50), &mint.key, &key(12), 0);
    assert_eq!(
        assert_is_ata(&of_another, &wallet, &mint, true),
        Err(Refusal::Check(MyError::AssociatedAuthorityMismatch))
    );

    let elsewhere = token_snapshot(&key(50), &mint.key, &wallet, 0);
    assert_eq!(
        assert_is_ata(&elsewhere, &wallet, &mint, true),
        Err(Refusal::Check(MyError::AssociatedTokenPublicKeyMismatch))
    );

    let other_mint = plain_snapshot(&key(13), 0);
    assert_eq!(
        assert_is_ata(&good, &wallet, &other_mint, true),
        Err(Refusal::Check(MyError::AssociatedTokenPublicKeyMismatch))
    );

    assert_eq!(
        assert_is_ata(&good, &wallet, &mint, false),
        Err(Refusal::Check(MyError::NotFoundNft))
    );
    let empty = token_snapshot(&address, &mint.key, &wallet, 0);
    assert_eq!(
        assert_is_ata(&empty, &wallet, &mint, true),
        Err(Refusal::Check(MyError::NotFoundNft))
    );
    let two = token_snapshot(&address, &mint.key, &wallet, 2);
    assert_eq!(
        assert_is_ata(&two, &wallet, &mint, true),
        Err(Refusal::Check(MyError::NotFoundNft))
    );
}

#[test]
fn decided_canonical_check_takes_the_derived_address_as_given() {
    let wallet = key(10);
    let ata = facts(key(20), Some(record(key(11), wallet, 1)));
    assert_eq!(
        check_ata(&ata, &token_program(), &wallet, &key(20), true),
        Ok(record(key(11), wallet, 1))
    );
    assert_eq!(
        check_ata(&ata, &token_program(), &wallet, &key(21), true),
        Err(Refusal::Check(MyError::AssociatedTokenPublicKeyMismatch))
    );
    assert_eq!(
        check_ata(&ata, &key(1), &wallet, &key(20), true),
        Err(Refusal::Check(MyError::IncorrectAccountInfoOwner))
    );
    assert_eq!(
        check_ata(&facts(key(20), None), &token_program(), &wallet, &key(20), true),
        Err(Refusal::InvalidAccountData)
    );
}

#[test]
fn vault_address_is_the_program_address_of_tag_source_and_salt() {
    let program_id = key(42);
    let source = key(7);
    let (vault, bump) = vault_of(&source, &program_id);
    assert_eq!(derive_vault_address(&source, bump, &program_id), Some(vault));
    assert_ne!(derive_vault_address(&source, bump, &program_id), Some(source));
    let expected = Pubkey::create_program_address(
        &[b"vault-account", &source.bytes, &[bump]],
        &address_of(&program_id),
    )
    .unwrap();
    assert_eq!(vault, key_of(&expected));
    assert_ne!(derive_vault_address(&key(8), bump, &program_id), Some(vault));
    assert_ne!(derive_vault_address(&source, bump, &key(43)), Some(vault));
}

#[test]
fn salts_that_derive_no_address_give_none() {
    let program_id = key(42);
    let source = key(7);
    let mut refused = 0;
    for bump in 0..=255u8 {
        let expected = Pubkey::create_program_address(
            &[b"vault-account", &source.bytes, &[bump]],
            &address_of(&program_id),
        );
        let derived = derive_vault_address(&source, bump, &program_id);
        match expected {
            Ok(address) => assert_eq!(derived, Some(key_of(&address))),
            Err(_) => {
                refused += 1;
                assert_eq!(derived, None);
            }
        }
    }
    assert!(refused > 0);
}

#[test]
fn vault_authority_is_found_for_the_pair_of_parties() {
    let program_id = key(42);
    let (expected, bump) = Pubkey::find_program_address(
        &[b"vault-authority", &key(1).bytes, &key(2).bytes],
        &address_of(&program_id),
    );
    let found = derive_vault_authority(&key(1), &key(2), &program_id);
    assert_eq!(found, Some((key_of(&expected), bump)));
    assert_ne!(derive_vault_authority(&key(2), &key(1), &program_id), found);
    assert_ne!(derive_vault_authority(&key(1), &key(2), &key(43)), found);
    let direct = Pubkey::create_program_address(
        &[b"vault-authority", &key(1).bytes, &key(2).bytes, &[bump]],
        &address_of(&program_id),
    )
    .unwrap();
    assert_eq!(key_of(&direct), found.unwrap().0);
}

#[test]
fn only_the_derived_account_is_the_vault_authority() {
    let found = Some((key(5), 254u8));
    assert_eq!(check_vault_authority(&key(5), &found).map(|a| a.bump), Ok(254));
    assert_eq!(
        check_vault_authority(&key(6), &found),
        Err(Refusal::Check(MyError::PdaPublicKeyMismatch))
    );
    assert_eq!(
        check_vault_authority(&key(5), &None),
        Err(Refusal::Check(MyError::PdaPublicKeyMismatch))
    );
}

#[test]
fn vault_with_its_unit_passes() {
    let program_id = key(42);
    let authority = key(60);
    let mint = key(11);
    let source = token_snapshot(&key(7), &mint, &key(10), 0);
    let (vault_address, bump) = vault_of(&source.key, &program_id);
    let vault = token_snapshot(&vault_address, &mint, &authority, 1);
    assert_eq!(
        assert_is_pda(&source, bump, &vault, &authority, &program_id),
        Ok(record(mint, authority, 1))
    );
}

#[test]
fn vault_checks_fail_in_their_order() {
    let program_id = key(42);
    let authority = key(60);
    let mint = key(11);
    let source = token_snapshot(&key(7), &mint, &key(10), 0);
    let (vault_address, bump) = vault_of(&source.key, &program_id);
    let vault = token_snapshot(&vault_address, &mint, &authority, 1);

    let foreign = AccountSnapshot { owner: key(99), ..vault.clone() };
    assert_eq!(
        assert_is_pda(&source, bump, &foreign, &authority, &program_id),
        Err(Refusal::Check(MyError::IncorrectAccountInfoOwner))
    );
    let garbled = AccountSnapshot { data: vec![], ..vault.clone() };
    assert_eq!(
        assert_is_pda(&source, bump, &garbled, &authority, &program_id),
        Err(Refusal::InvalidAccountData)
    );
    let blank = AccountSnapshot { data: vec![0u8; 165], ..vault.clone() };
    assert_eq!(
        assert_is_pda(&source, bump, &blank, &authority, &program_id),
        Err(Refusal::Check(MyError::UninitializedAssociatedToken))
    );
    assert_eq!(
        assert_is_pda(&source, bump, &vault, &key(61), &program_id),
        Err(Refusal::Check(MyError::AssociatedAuthorityMismatch))
    );
    assert_eq!(
        assert_is_pda(&source, bump.wrapping_sub(1), &vault, &authority, &program_id),
        Err(Refusal::Check(MyError::PdaPublicKeyMismatch))
    );
    assert_eq!(
        assert_is_pda(&source, bump, &vault, &authority, &key(43)),
        Err(Refusal::Check(MyError::PdaPublicKeyMismatch))
    );
    let moved = AccountSnapshot { key: key(70), ..vault.clone() };
    assert_eq!(
        assert_is_pda(&source, bump, &moved, &authority, &program_id),
        Err(Refusal::Check(MyError::PdaPublicKeyMismatch))
    );
    let no_source = AccountSnapshot { data: vec![0u8; 3], ..source.clone() };
    assert_eq!(
        assert_is_pda(&no_source, bump, &vault, &authority, &program_id),
        Err(Refusal::InvalidAccountData)
    );
    let other_asset = token_snapshot(&key(7), &key(12), &key(10), 0);
    assert_eq!(
        assert_is_pda(&other_asset, bump, &vault, &authority, &program_id),
        Err(Refusal::Check(MyError::MintPublicKeyMismatch))
    );
    let still_full = token_snapshot(&key(7), &mint, &key(10), 1);
    assert_eq!(
        assert_is_pda(&still_full, bump, &vault, &authority, &program_id),
        Err(Refusal::Check(MyError::NotFoundNft))
    );
    let empty_vault = token_snapshot(&vault_address, &mint, &authority, 0);
    assert_eq!(
        assert_is_pda(&source, bump, &empty_vault, &authority, &program_id),
        Err(Refusal::Check(MyError::NotFoundNft))
    );
}

#[test]
fn a_vault_off_its_derived_address_is_no_canonical_account_error() {
    let program_id = key(42);
    let authority = key(60);
    let mint = key(11);
    let source = token_snapshot(&key(7), &mint, &key(10), 0);
    let (vault_address, bump) = vault_of(&source.key, &program_id);
    let elsewhere = token_snapshot(&key(70), &mint, &authority, 1);
    assert_ne!(vault_address, key(70));
    let refusal = assert_is_pda(&source, bump, &elsewhere, &authority, &program_id);
    assert_eq!(refusal, Err(Refusal::Check(MyError::PdaPublicKeyMismatch)));
    assert_ne!(refusal, Err(Refusal::Check(MyError::AssociatedTokenPublicKeyMismatch)));
    assert_eq!(MyError::PdaPublicKeyMismatch.code(), 6008);
}

#[test]
fn decided_vault_check_takes_the_derived_address_as_given() {
    let authority = key(60);
    let source = facts(key(7), Some(record(key(11), key(10), 0)));
    let vault = facts(key(8), Some(record(key(11), authority, 1)));
    assert_eq!(
        check_pda(&source, &vault, &token_program(), &authority, &Some(key(8))),
        Ok(record(key(11), authority, 1))
    );
    assert_eq!(
        check_pda(&source, &vault, &token_program(), &authority, &Some(key(9))),
        Err(Refusal::Check(MyError::PdaPublicKeyMismatch))
    );
    assert_eq!(
        check_pda(&source, &vault, &token_program(), &authority, &None),
        Err(Refusal::Check(MyError::PdaPublicKeyMismatch))
    );
}

#[test]
fn pairs_are_read_from_their_block() {
    let wallet = key(10);
    let accounts = vec![
        plain_snapshot(&key(100), 0),
        token_snapshot(&key(1), &key(21), &wallet, 1),
        plain_snapshot(&key(21), 0),
        token_snapshot(&key(2), &key(22), &wallet, 0),
        plain_snapshot(&key(22), 0),
    ];
    let assets = resolve_pairs(&accounts, 1, 2, &wallet).unwrap();
    assert_eq!(assets.len(), 2);
    assert_eq!(assets[0].account.key, key(1));
    assert_eq!(assets[0].account.token, Some(record(key(21), wallet, 1)));
    assert_eq!(assets[0].mint, key(21));
    assert_eq!(assets[0].canonical, canonical(&wallet, &key(21)));
    assert_eq!(assets[1].account.key, key(2));
    assert_eq!(assets[1].mint, key(22));
    assert_eq!(assets[1].canonical, canonical(&wallet, &key(22)));
    assert_eq!(resolve_pairs(&accounts, 5, 0, &wallet), Ok(vec![]));
}

#[test]
fn blocks_that_reach_beyond_the_list_are_refused() {
    let wallet = key(10);
    let accounts = vec![
        token_snapshot(&key(1), &key(21), &wallet, 1),
        plain_snapshot(&key(31), 0),
        plain_snapshot(&key(21), 0),
        plain_snapshot(&key(22), 0),
    ];
    let refused = Err(Refusal::Check(MyError::NftAmountMismatch));
    assert!(resolve_pairs(&accounts, 0, 2, &wallet).is_ok());
    assert_eq!(resolve_pairs(&accounts, 1, 2, &wallet), refused);
    assert_eq!(resolve_pairs(&accounts, 0, 3, &wallet), refused);
    assert_eq!(resolve_pairs(&accounts, 5, 0, &wallet), refused);
    assert_eq!(resolve_pairs(&accounts, 4, 0, &wallet), Ok(vec![]));
    assert_eq!(resolve_pairs(&accounts, usize::MAX, usize::MAX, &wallet), refused);
    assert_eq!(resolve_pairs(&accounts, 0, usize::MAX, &wallet), refused);
    assert!(resolve_triples(&accounts, &vec![255], &wallet, &key(42)).is_ok());
    assert_eq!(
        resolve_triples(&accounts, &vec![255, 254], &wallet, &key(42)).map(|_| ()),
        Err(Refusal::Check(MyError::NftAmountMismatch))
    );
    assert_eq!(resolve_triples(&vec![], &vec![], &wallet, &key(42)), Ok(vec![]));
}

#[test]
fn triples_are_read_with_their_salts() {
    let wallet = key(10);
    let program_id = key(42);
    let accounts = vec![
        token_snapshot(&key(1), &key(21), &wallet, 1),
        plain_snapshot(&key(31), 0),
        plain_snapshot(&key(21), 0),
        token_snapshot(&key(2), &key(22), &wallet, 1),
        plain_snapshot(&key(32), 0),
        plain_snapshot(&key(22), 0),
    ];
    let (_, bump) = vault_of(&key(1), &program_id);
    let assets = resolve_triples(&accounts, &vec![bump, 200], &wallet, &program_id).unwrap();
    assert_eq!(assets.len(), 2);
    assert_eq!(assets[0].source.account.key, key(1));
    assert_eq!(assets[0].source.mint, key(21));
    assert_eq!(assets[0].source.canonical, canonical(&wallet, &key(21)));
    assert_eq!(assets[0].vault.key, key(31));
    assert_eq!(assets[0].vault.token, None);
    assert_eq!(assets[0].bump, bump);
    assert_eq!(assets[0].derived, Some(vault_of(&key(1), &program_id).0));
    assert_eq!(assets[1].source.account.key, key(2));
    assert_eq!(assets[1].vault.key, key(32));
    assert_eq!(assets[1].bump, 200);
    assert_eq!(assets[1].derived, derive_vault_address(&key(2), 200, &program_id));
}
