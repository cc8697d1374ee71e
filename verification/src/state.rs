//! The data model: account keys, the stored trade record, and what the
//! validator reads of an account.

use vstd::prelude::*;

verus! {

/// A 32-byte account address.
#[derive(Clone, Copy, Debug)]
pub struct Key {
    pub bytes: [u8; 32],
}

/// Two keys with the same bytes are the same key.
pub proof fn lemma_key_by_bytes(a: Key, b: Key)
    requires
        a.bytes@ == b.bytes@,
    ensures
        a == b,
{
    assert(a.bytes =~= b.bytes);
}

impl Key {
    /// The key with the given bytes.
    pub fn new(bytes: [u8; 32]) -> (k: Key)
        ensures
            k.bytes == bytes,
    {
        Key { bytes }
    }

    /// The bytes of the key.
    pub fn to_bytes(&self) -> (bytes: [u8; 32])
        ensures
            bytes == self.bytes,
    {
        self.bytes
    }

    /// Whether the two keys hold the same bytes.
    pub fn equals(&self, other: &Key) -> (r: bool)
        ensures
            r == (*self == *other),
    {
        let mut i: usize = 0;
        while i < 32
            invariant
                i <= 32,
                forall|j: int| 0 <= j < i ==> self.bytes[j] == other.bytes[j],
            decreases 32 - i,
        {
            if self.bytes[i] != other.bytes[i] {
                return false;
            }
            i += 1;
        }
        proof {
            assert(self.bytes@ =~= other.bytes@);
            lemma_key_by_bytes(*self, *other);
        }
        true
    }
}

impl PartialEq for Key {
    fn eq(&self, other: &Key) -> (r: bool) {
        self.equals(other)
    }
}

impl Eq for Key {}

impl vstd::std_specs::cmp::PartialEqSpecImpl for Key {
    open spec fn obeys_eq_spec() -> bool {
        true
    }

    open spec fn eq_spec(&self, other: &Key) -> bool {
        *self == *other
    }
}

/// The address of the program that controls plain wallets.
pub const SYSTEM_PROGRAM_ID: [u8; 32] = [
    0, 0, 0, 0, 0, 0, 0, 0, 0, 0, 0, 0, 0, 0, 0, 0, 0, 0, 0, 0, 0, 0, 0, 0, 0, 0, 0, 0, 0, 0, 0, 0,
];

/// The address of the token program.
pub const TOKEN_PROGRAM_ID: [u8; 32] = [
    6, 221, 246, 225, 215, 101, 161, 147, 217, 203, 225, 70, 206, 235, 121, 172, 28, 180, 133, 237,
    95, 91, 55, 145, 58, 140, 245, 133, 126, 255, 0, 169,
];

/// The tag under which the vault authority of a pair of parties is derived.
pub const VAULT_AUTHORITY_PDA_SEED: [u8; 15] = [
    118, 97, 117, 108, 116, 45, 97, 117, 116, 104, 111, 114, 105, 116, 121,
];

/// The tag under which the vault of a pledged asset is derived.
pub const VAULT_ACCOUNT_PDA_SEED: [u8; 13] = [
    118, 97, 117, 108, 116, 45, 97, 99, 99, 111, 117, 110, 116,
];

/// The trade ticket: who trades, what each side pledges, and the salts under
/// which the initializer's vaults were derived.
#[derive(Clone, Debug, PartialEq, Eq)]
pub struct EscrowAccount {
    pub initializer_key: Key,
    pub initializer_additional_sol_amount: u64,
    pub initializer_nft_token_accounts: Vec<Key>,
    pub taker_key: Key,
    pub taker_additional_sol_amount: u64,
    pub taker_nft_token_accounts: Vec<Key>,
    pub vault_account_bumps: Vec<u8>,
}

/// The terms of a trade as mathematical values.
pub struct EscrowTerms {
    pub initializer_key: Key,
    pub initializer_additional_sol_amount: u64,
    pub initializer_nft_token_accounts: Seq<Key>,
    pub taker_key: Key,
    pub taker_additional_sol_amount: u64,
    pub taker_nft_token_accounts: Seq<Key>,
    pub vault_account_bumps: Seq<u8>,
}

impl View for EscrowAccount {
    type V = EscrowTerms;

    open spec fn view(&self) -> EscrowTerms {
        EscrowTerms {
            initializer_key: self.initializer_key,
            initializer_additional_sol_amount: self.initializer_additional_sol_amount,
            initializer_nft_token_accounts: self.initializer_nft_token_accounts@,
            taker_key: self.taker_key,
            taker_additional_sol_amount: self.taker_additional_sol_amount,
            taker_nft_token_accounts: self.taker_nft_token_accounts@,
            vault_account_bumps: self.vault_account_bumps@,
        }
    }
}

impl EscrowTerms {
    /// Each side pledges something, and every pledged asset of the
    /// initializer has the salt of its vault.
    pub open spec fn well_formed(self) -> bool {
        &&& self.initializer_additional_sol_amount + self.initializer_nft_token_accounts.len() > 0
        &&& self.taker_additional_sol_amount + self.taker_nft_token_accounts.len() > 0
        &&& self.vault_account_bumps.len() == self.initializer_nft_token_accounts.len()
    }
}

impl EscrowAccount {
    /// Whether the record meets its invariant.
    pub fn is_well_formed(&self) -> (r: bool)
        ensures
            r == self@.well_formed(),
    {
        (self.initializer_additional_sol_amount > 0 || self.initializer_nft_token_accounts.len()
            > 0) && (self.taker_additional_sol_amount > 0 || self.taker_nft_token_accounts.len()
            > 0) && self.vault_account_bumps.len() == self.initializer_nft_token_accounts.len()
    }
}

/// The bytes that a stored record with the given numbers of assets takes:
/// eight that mark the kind of record; for each party its address and its
/// currency pledge; for each of the three lists four for its length; 32 for
/// each asset account and one for each salt.
pub open spec fn record_len(initializer_assets: nat, taker_assets: nat) -> nat {
    8 + (32 + 8 + 4 + 32 * initializer_assets) + (32 + 8 + 4 + 32 * taker_assets) + (4
        + initializer_assets)
}

/// The bytes that a stored record with the given numbers of assets takes,
/// if the machine can count them.
pub fn record_space(initializer_assets: usize, taker_assets: usize) -> (r: Option<usize>)
    ensures
        r == if record_len(initializer_assets as nat, taker_assets as nat) <= usize::MAX {
            Some(record_len(initializer_assets as nat, taker_assets as nat) as usize)
        } else {
            None::<usize>
        },
        record_len(initializer_assets as nat, taker_assets as nat) == 100 + 33
            * initializer_assets + 32 * taker_assets,
{
    let of_initializer = match initializer_assets.checked_mul(33) {
        Some(n) => n,
        None => { return None; },
    };
    let of_taker = match taker_assets.checked_mul(32) {
        Some(n) => n,
        None => { return None; },
    };
    let of_lists = match of_initializer.checked_add(of_taker) {
        Some(n) => n,
        None => { return None; },
    };
    of_lists.checked_add(100)
}

/// The signing authority of all vaults of one pair of parties: the salt
/// that completes its derivation.
#[derive(Clone, Copy, Debug, PartialEq, Eq)]
pub struct VaultAuthority {
    pub bump: u8,
}

/// The life cycle of a token account.
#[derive(Clone, Copy, Debug, PartialEq, Eq, Structural)]
pub enum AccountState {
    Uninitialized,
    Initialized,
    Frozen,
}

/// What the protocol reads of a token account: the asset, the party that
/// owns it, and the units held.
#[derive(Clone, Copy, Debug, PartialEq, Eq)]
pub struct TokenAccount {
    pub mint: Key,
    pub owner: Key,
    pub amount: u64,
    pub state: AccountState,
}

impl TokenAccount {
    /// Whether the account has left the uninitialized state.
    pub open spec fn initialized(&self) -> bool {
        self.state != AccountState::Uninitialized
    }

    /// Whether the account has left the uninitialized state.
    #[verifier::when_used_as_spec(initialized)]
    pub fn is_initialized(&self) -> (r: bool)
        ensures
            r == self.initialized(),
    {
        match self.state {
            AccountState::Uninitialized => false,
            _ => true,
        }
    }
}

/// An account as the host hands it over: address, controlling program,
/// balance and raw data, and whether the holder of the address has signed
/// the call.
#[derive(Clone, Debug, PartialEq, Eq)]
pub struct AccountSnapshot {
    pub key: Key,
    pub owner: Key,
    pub lamports: u64,
    pub data: Vec<u8>,
    pub is_signer: bool,
}

/// An account after decoding: `token` is the token account record that its
/// data holds, if it holds one.
#[derive(Clone, Copy, Debug, PartialEq, Eq)]
pub struct AccountFacts {
    pub key: Key,
    pub owner: Key,
    pub lamports: u64,
    pub token: Option<TokenAccount>,
}

} // verus!
