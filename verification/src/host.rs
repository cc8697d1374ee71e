//! What the platform's own libraries compute for the protocol: the token
//! program's address, the decoding of token account data, and the derivation
//! of addresses. The contracts in this file are taken on trust.

use crate::state::{AccountState, Key, TokenAccount, TOKEN_PROGRAM_ID};
use anchor_lang::prelude::Pubkey;
use anchor_lang::solana_program::program_pack::Pack;
use vstd::prelude::*;

verus! {

/// The length of the data of a token account.
pub const TOKEN_ACCOUNT_LEN: usize = 165;

/// The address in the 32 bytes from `at` on.
pub open spec fn key_at(data: Seq<u8>, at: int) -> Key {
    Key {
        bytes: [
            data[at], data[at + 1], data[at + 2], data[at + 3], data[at + 4], data[at + 5],
            data[at + 6], data[at + 7], data[at + 8], data[at + 9], data[at + 10], data[at + 11],
            data[at + 12], data[at + 13], data[at + 14], data[at + 15], data[at + 16],
            data[at + 17], data[at + 18], data[at + 19], data[at + 20], data[at + 21],
            data[at + 22], data[at + 23], data[at + 24], data[at + 25], data[at + 26],
            data[at + 27], data[at + 28], data[at + 29], data[at + 30], data[at + 31],
        ],
    }
}

/// The number in the eight bytes from `at` on, lowest byte first.
pub open spec fn amount_at(data: Seq<u8>, at: int) -> u64 {
    (data[at] + 0x100 * data[at + 1] + 0x1_0000 * data[at + 2] + 0x100_0000 * data[at + 3]
        + 0x1_0000_0000 * data[at + 4] + 0x100_0000_0000 * data[at + 5] + 0x1_0000_0000_0000
        * data[at + 6] + 0x100_0000_0000_0000 * data[at + 7]) as u64
}

/// Whether the four bytes from `at` on mark an optional field as absent
/// (0, 0, 0, 0) or as present (1, 0, 0, 0).
pub open spec fn option_tag_at(data: Seq<u8>, at: int) -> bool {
    (data[at] == 0 || data[at] == 1) && data[at + 1] == 0 && data[at + 2] == 0 && data[at + 3]
        == 0
}

/// The state that a byte stands for.
pub open spec fn state_of(byte: u8) -> AccountState {
    if byte == 0 {
        AccountState::Uninitialized
    } else if byte == 1 {
        AccountState::Initialized
    } else {
        AccountState::Frozen
    }
}

/// Whether the data is laid out as a token account: 165 bytes, of which 32
/// are the mint, 32 the owner, 8 the amount, 36 the optional delegate, one
/// the state, 12 the optional native reserve, 8 the delegated amount and 36
/// the optional close authority; the three optional fields begin with a
/// valid mark, and the state is one of the three.
pub open spec fn is_token_account_data(data: Seq<u8>) -> bool {
    &&& data.len() == TOKEN_ACCOUNT_LEN
    &&& option_tag_at(data, 72)
    &&& data[108] <= 2
    &&& option_tag_at(data, 109)
    &&& option_tag_at(data, 129)
}

/// The token account record that `spl_token::state::Account::unpack_unchecked`
/// reads from `data`, reduced to the fields of `TokenAccount`; `None` where it
/// refuses the data.
pub open spec fn unpacked_token_account(data: Seq<u8>) -> Option<TokenAccount> {
    if is_token_account_data(data) {
        Some(
            TokenAccount {
                mint: key_at(data, 0),
                owner: key_at(data, 32),
                amount: amount_at(data, 64),
                state: state_of(data[108]),
            },
        )
    } else {
        None
    }
}

/// The address that `spl_associated_token_account::get_associated_token_address`
/// derives for a wallet and a mint.
pub uninterp spec fn associated_address(wallet: Key, mint: Key) -> Key;

/// The address that `Pubkey::create_program_address` derives from the seeds
/// for the program; `None` where it derives none.
pub uninterp spec fn program_address(seeds: Seq<Seq<u8>>, program_id: Key) -> Option<Key>;

/// The address and salt that `Pubkey::try_find_program_address` finds for the
/// seeds and the program; `None` where it finds none.
pub uninterp spec fn found_program_address(seeds: Seq<Seq<u8>>, program_id: Key) -> Option<
    (Key, u8),
>;

/// The seeds as sequences of bytes.
pub open spec fn seed_bytes(seeds: Seq<Vec<u8>>) -> Seq<Seq<u8>> {
    Seq::new(seeds.len(), |i: int| seeds[i]@)
}

/// Calls `spl_token::id`. The contract states the constant that the crate
/// declares, `TokenkegQfeZyiNwAJbNbGKPFXCWuBvf9Ss623VQ5DA`, as its 32 bytes.
#[verifier::external_body]
pub(crate) fn token_program_id() -> (k: Key)
    ensures
        k.bytes == TOKEN_PROGRAM_ID,
{
    Key { bytes: spl_token::id().to_bytes() }
}

/// Calls `Pack::unpack_unchecked` of `spl_token::state::Account` and keeps the
/// mint, the owner, the amount and the state of what it returns. The contract
/// states what the crate's source does: it refuses data that is not 165
/// bytes long, or in which one of the three optional fields does not begin
/// with the mark (0, 0, 0, 0) or (1, 0, 0, 0), or whose state byte is above 2;
/// of other data it reads the mint from the bytes 0 to 31, the owner from 32
/// to 63, the amount from 64 to 71 with the lowest byte first, and the state
/// from the byte 108.
#[verifier::external_body]
pub(crate) fn unpack_token_account(data: &[u8]) -> (r: Option<TokenAccount>)
    ensures
        r == unpacked_token_account(data@),
{
    match spl_token::state::Account::unpack_unchecked(data) {
        Ok(a) => Some(TokenAccount {
            mint: Key { bytes: a.mint.to_bytes() },
            owner: Key { bytes: a.owner.to_bytes() },
            amount: a.amount,
            state: match a.state {
                spl_token::state::AccountState::Uninitialized => AccountState::Uninitialized,
                spl_token::state::AccountState::Initialized => AccountState::Initialized,
                spl_token::state::AccountState::Frozen => AccountState::Frozen,
            },
        }),
        Err(_) => None,
    }
}

/// Calls `spl_associated_token_account::get_associated_token_address`. The
/// contract only names the result: the call hashes its two arguments with
/// constants of the crate. The crate documents a panic for the case that no
/// salt of a byte gives an address, which it calls statistically improbable.
#[verifier::external_body]
pub(crate) fn get_associated_token_address(wallet: &Key, mint: &Key) -> (k: Key)
    ensures
        k == associated_address(*wallet, *mint),
{
    let wallet = Pubkey::new_from_array(wallet.bytes);
    let mint = Pubkey::new_from_array(mint.bytes);
    Key { bytes: spl_associated_token_account::get_associated_token_address(&wallet, &mint).to_bytes() }
}

/// Calls `Pubkey::create_program_address`, which hashes the seeds and the
/// program's address and refuses seeds that are too many or too long and
/// hashes that lie on the curve. The contract only names the result.
#[verifier::external_body]
pub(crate) fn create_program_address(seeds: &Vec<Vec<u8>>, program_id: &Key) -> (r: Option<Key>)
    ensures
        r == program_address(seed_bytes(seeds@), *program_id),
{
    let seeds: Vec<&[u8]> = seeds.iter().map(|s| s.as_slice()).collect();
    match Pubkey::create_program_address(&seeds, &Pubkey::new_from_array(program_id.bytes)) {
        Ok(address) => Some(Key { bytes: address.to_bytes() }),
        Err(_) => None,
    }
}

/// Calls `Pubkey::try_find_program_address`, which tries the salts from 255
/// down and returns the first for which `create_program_address` derives an
/// address from the seeds followed by the salt. The contract only names the
/// result: the call reads nothing but its arguments.
#[verifier::external_body]
pub(crate) fn find_program_address(seeds: &Vec<Vec<u8>>, program_id: &Key) -> (r: Option<
    (Key, u8),
>)
    ensures
        r == found_program_address(seed_bytes(seeds@), *program_id),
{
    let seeds: Vec<&[u8]> = seeds.iter().map(|s| s.as_slice()).collect();
    match Pubkey::try_find_program_address(&seeds, &Pubkey::new_from_array(program_id.bytes)) {
        Some((address, bump)) => Some((Key { bytes: address.to_bytes() }, bump)),
        None => None,
    }
}

} // verus!
