//! The model of the ledger as a value that can be run: the accounts in a
//! list, one entry for each address, and the requests performed on it as the
//! model says.

use crate::cpi::Action;
use crate::instructions::initialize::Initialized;
use crate::model::{commit, fresh_vault, move_currency, opened, reclaim, run, step, vacant, World};
use crate::utils::bytes_to_vec;
use crate::state::{
    AccountFacts, AccountState, EscrowAccount, Key, TokenAccount, SYSTEM_PROGRAM_ID,
    TOKEN_PROGRAM_ID,
};
use vstd::prelude::*;

verus! {

/// Whether one of the entries lies at the address.
pub open spec fn holds(accounts: Seq<AccountFacts>, key: Key) -> bool {
    exists|i: int| 0 <= i < accounts.len() && (#[trigger] accounts[i]).key == key
}

/// The position of an entry at the address.
pub open spec fn position(accounts: Seq<AccountFacts>, key: Key) -> int {
    choose|i: int| 0 <= i < accounts.len() && (#[trigger] accounts[i]).key == key
}

/// No two entries lie at the same address.
pub open spec fn unique(accounts: Seq<AccountFacts>) -> bool {
    forall|i: int, j: int|
        0 <= i < j < accounts.len() ==> (#[trigger] accounts[i]).key != (#[trigger] accounts[j]).key
}

/// The entries by their addresses.
pub open spec fn by_address(accounts: Seq<AccountFacts>) -> Map<Key, AccountFacts> {
    Map::new(|key: Key| holds(accounts, key), |key: Key| accounts[position(accounts, key)])
}

/// In a list without repetition an entry is found where it stands.
pub proof fn lemma_position(accounts: Seq<AccountFacts>, i: int)
    requires
        unique(accounts),
        0 <= i < accounts.len(),
    ensures
        holds(accounts, accounts[i].key),
        position(accounts, accounts[i].key) == i,
        by_address(accounts)[accounts[i].key] == accounts[i],
{
    let found = position(accounts, accounts[i].key);
    assert(accounts[found].key == accounts[i].key);
    if found < i {
        assert(accounts[found].key != accounts[i].key);
    } else if i < found {
        assert(accounts[i].key != accounts[found].key);
    }
}

/// The open trade of a ledger: the address of its escrow account and its
/// record.
#[derive(Clone, Debug, PartialEq, Eq)]
pub struct OpenTrade {
    pub escrow: Key,
    pub record: EscrowAccount,
}

/// A ledger that can be run.
#[derive(Clone, Debug, PartialEq, Eq)]
pub struct Ledger {
    pub accounts: Vec<AccountFacts>,
    pub trade: Option<OpenTrade>,
}

impl View for Ledger {
    type V = World;

    open spec fn view(&self) -> World {
        World {
            accounts: by_address(self.accounts@),
            record: match self.trade {
                Some(trade) => Some((trade.escrow, trade.record@)),
                None => None,
            },
        }
    }
}

/// A copy of the addresses.
pub fn copy_keys(keys: &Vec<Key>) -> (copy: Vec<Key>)
    ensures
        copy@ == keys@,
{
    let mut copy: Vec<Key> = Vec::new();
    let mut i: usize = 0;
    while i < keys.len()
        invariant
            i <= keys.len(),
            copy@ == keys@.take(i as int),
        decreases keys.len() - i,
    {
        copy.push(keys[i]);
        i += 1;
    }
    copy
}

/// A copy of the record.
pub fn copy_record(record: &EscrowAccount) -> (copy: EscrowAccount)
    ensures
        copy@ == record@,
{
    EscrowAccount {
        initializer_key: record.initializer_key,
        initializer_additional_sol_amount: record.initializer_additional_sol_amount,
        initializer_nft_token_accounts: copy_keys(&record.initializer_nft_token_accounts),
        taker_key: record.taker_key,
        taker_additional_sol_amount: record.taker_additional_sol_amount,
        taker_nft_token_accounts: copy_keys(&record.taker_nft_token_accounts),
        vault_account_bumps: bytes_to_vec(record.vault_account_bumps.as_slice()),
    }
}

impl Ledger {
    /// No address has two entries.
    pub open spec fn well_formed(&self) -> bool {
        unique(self.accounts@)
    }

    /// A ledger without accounts and without a trade.
    pub fn new() -> (ledger: Ledger)
        ensures
            ledger.well_formed(),
            ledger@.accounts == Map::<Key, AccountFacts>::empty(),
            ledger@.record is None,
    {
        let ledger = Ledger { accounts: Vec::new(), trade: None };
        assert(ledger@.accounts =~= Map::<Key, AccountFacts>::empty());
        ledger
    }

    /// Where the entry at an address stands, if there is one.
    pub fn find(&self, key: &Key) -> (r: Option<usize>)
        ensures
            match r {
                Some(i) => i < self.accounts@.len() && self.accounts@[i as int].key == *key,
                None => !holds(self.accounts@, *key),
            },
    {
        let mut i: usize = 0;
        while i < self.accounts.len()
            invariant
                i <= self.accounts.len(),
                forall|j: int| 0 <= j < i ==> (#[trigger] self.accounts@[j]).key != *key,
            decreases self.accounts.len() - i,
        {
            if self.accounts[i].key.equals(key) {
                return Some(i);
            }
            i += 1;
        }
        None
    }

    /// What the validator reads at an address.
    pub fn facts(&self, key: &Key) -> (facts: AccountFacts)
        requires
            self.well_formed(),
        ensures
            facts == self@.facts(*key),
            facts.key == *key,
    {
        match self.find(key) {
            Some(i) => {
                proof {
                    lemma_position(self.accounts@, i as int);
                }
                self.accounts[i]
            },
            None => AccountFacts {
                key: *key,
                owner: Key { bytes: SYSTEM_PROGRAM_ID },
                lamports: 0,
                token: None,
            },
        }
    }

    /// Stores an entry under its address, in place of the entry there if
    /// there is one.
    pub fn put(&mut self, facts: AccountFacts)
        requires
            old(self).well_formed(),
        ensures
            final(self).well_formed(),
            final(self)@.accounts == old(self)@.accounts.insert(facts.key, facts),
            final(self).trade == old(self).trade,
    {
        let ghost before = self.accounts@;
        match self.find(&facts.key) {
            Some(i) => {
                self.accounts.set(i, facts);
                proof {
                    let after = self.accounts@;
                    assert(after == before.update(i as int, facts));
                    assert forall|a: int, b: int| 0 <= a < b < after.len() implies (
                    #[trigger] after[a]).key != (#[trigger] after[b]).key by {
                        assert(after[a].key == before[a].key && after[b].key == before[b].key);
                    }
                    assert forall|key: Key| holds(after, key) <==> holds(before, key) || key
                        == facts.key by {
                        if holds(before, key) {
                            let j = position(before, key);
                            assert(after[j].key == key);
                        }
                        if key == facts.key {
                            assert(after[i as int].key == key);
                        }
                        if holds(after, key) {
                            let j = position(after, key);
                            assert(before[j].key == key);
                        }
                    }
                    assert forall|key: Key| holds(after, key) implies by_address(after)[key]
                        == by_address(before).insert(facts.key, facts)[key] by {
                        let j = position(after, key);
                        lemma_position(after, j);
                        if key != facts.key {
                            assert(before[j] == after[j]);
                            lemma_position(before, j);
                        } else {
                            lemma_position(after, i as int);
                        }
                    }
                    assert(by_address(after) =~= by_address(before).insert(facts.key, facts));
                }
            },
            None => {
                self.accounts.push(facts);
                proof {
                    let after = self.accounts@;
                    let n = before.len() as int;
                    assert(after == before.push(facts));
                    assert forall|a: int, b: int| 0 <= a < b < after.len() implies (
                    #[trigger] after[a]).key != (#[trigger] after[b]).key by {
                        assert(after[a] == before[a]);
                        if b < n {
                            assert(after[b] == before[b]);
                        }
                    }
                    assert forall|key: Key| holds(after, key) <==> holds(before, key) || key
                        == facts.key by {
                        if holds(before, key) {
                            let j = position(before, key);
                            assert(after[j].key == key);
                        }
                        if key == facts.key {
                            assert(after[n].key == key);
                        }
                        if holds(after, key) && key != facts.key {
                            let j = position(after, key);
                            assert(before[j].key == key);
                        }
                    }
                    assert forall|key: Key| holds(after, key) implies by_address(after)[key]
                        == by_address(before).insert(facts.key, facts)[key] by {
                        let j = position(after, key);
                        lemma_position(after, j);
                        if key != facts.key {
                            assert(before[j] == after[j]);
                            lemma_position(before, j);
                        } else {
                            lemma_position(after, n);
                        }
                    }
                    assert(by_address(after) =~= by_address(before).insert(facts.key, facts));
                }
            },
        }
    }

    /// Removes the entry at an address, if there is one.
    pub fn remove(&mut self, key: &Key)
        requires
            old(self).well_formed(),
        ensures
            final(self).well_formed(),
            final(self)@.accounts == old(self)@.accounts.remove(*key),
            final(self).trade == old(self).trade,
    {
        let ghost before = self.accounts@;
        match self.find(key) {
            Some(i) => {
                self.accounts.remove(i);
                proof {
                    let after = self.accounts@;
                    assert forall|a: int, b: int| 0 <= a < b < after.len() implies (
                    #[trigger] after[a]).key != (#[trigger] after[b]).key by {
                        let a0 = if a < i { a } else { a + 1 };
                        let b0 = if b < i { b } else { b + 1 };
                        assert(after[a] == before[a0] && after[b] == before[b0]);
                    }
                    assert forall|other: Key| holds(after, other) <==> holds(before, other) && other
                        != *key by {
                        if holds(before, other) && other != *key {
                            let j = position(before, other);
                            let j1 = if j < i { j } else { j - 1 };
                            assert(after[j1] == before[j]);
                        }
                        if holds(after, other) {
                            let j = position(after, other);
                            let j0 = if j < i { j } else { j + 1 };
                            assert(after[j] == before[j0]);
                            if other == *key {
                                lemma_position(before, i as int);
                                lemma_position(before, j0);
                            }
                        }
                    }
                    assert forall|other: Key| holds(after, other) implies by_address(after)[other]
                        == by_address(before).remove(*key)[other] by {
                        let j = position(after, other);
                        let j0 = if j < i { j } else { j + 1 };
                        assert(after[j] == before[j0]);
                        lemma_position(after, j);
                        lemma_position(before, j0);
                    }
                    assert(by_address(after) =~= by_address(before).remove(*key));
                }
            },
            None => {
                proof {
                    assert(by_address(before) =~= by_address(before).remove(*key));
                }
            },
        }
    }
}

/// The position of a fault as the model counts it.
pub open spec fn fault_position(fault: Option<usize>) -> Option<int> {
    match fault {
        Some(position) => Some(position as int),
        None => None,
    }
}

impl Ledger {
    /// The token account at an address, if there is one in use.
    pub fn token(&self, key: &Key) -> (r: Option<TokenAccount>)
        requires
            self.well_formed(),
        ensures
            r == self@.token(*key),
    {
        match self.facts(key).token {
            Some(account) => match account.state {
                AccountState::Initialized => Some(account),
                _ => None,
            },
            None => None,
        }
    }

    /// The native currency at an address.
    pub fn lamports(&self, key: &Key) -> (r: u64)
        requires
            self.well_formed(),
        ensures
            r == self@.lamports(*key),
    {
        self.facts(key).lamports
    }

    /// Adds a plain account with a balance, if the address is unused.
    pub fn open_wallet(&mut self, key: Key, lamports: u64) -> (r: bool)
        requires
            old(self).well_formed(),
        ensures
            final(self).well_formed(),
            final(self).trade == old(self).trade,
            r == !old(self)@.accounts.contains_key(key),
            r ==> final(self)@.accounts == old(self)@.accounts.insert(
                key,
                AccountFacts { lamports, ..vacant(key) },
            ),
            !r ==> final(self)@ == old(self)@,
    {
        if self.find(&key).is_some() {
            return false;
        }
        self.put(
            AccountFacts { key, owner: Key { bytes: SYSTEM_PROGRAM_ID }, lamports, token: None },
        );
        true
    }

    /// Adds a token account in use, without storage deposit, if the address
    /// is unused.
    pub fn open_token_account(&mut self, key: Key, mint: Key, owner: Key, amount: u64) -> (r: bool)
        requires
            old(self).well_formed(),
        ensures
            final(self).well_formed(),
            final(self).trade == old(self).trade,
            r == !old(self)@.accounts.contains_key(key),
            r ==> final(self)@.accounts == old(self)@.accounts.insert(
                key,
                AccountFacts {
                    token: Some(TokenAccount { amount, ..fresh_vault(key, mint, owner).token->0 }),
                    ..fresh_vault(key, mint, owner)
                },
            ),
            !r ==> final(self)@ == old(self)@,
    {
        if self.find(&key).is_some() {
            return false;
        }
        self.put(
            AccountFacts {
                key,
                owner: Key { bytes: TOKEN_PROGRAM_ID },
                lamports: 0,
                token: Some(TokenAccount { mint, owner, amount, state: AccountState::Initialized }),
            },
        );
        true
    }

    fn move_currency(&mut self, from: &Key, to: &Key, lamports: u64) -> (r: bool)
        requires
            old(self).well_formed(),
        ensures
            final(self).well_formed(),
            match move_currency(old(self)@, *from, *to, lamports) {
                Some(after) => r && final(self)@ == after,
                None => !r && final(self)@ == old(self)@,
            },
    {
        if from.equals(to) || self.find(from).is_none() || self.find(to).is_none() {
            return false;
        }
        let payer = self.facts(from);
        let receiver = self.facts(to);
        if payer.lamports < lamports || receiver.lamports > u64::MAX - lamports {
            return false;
        }
        self.put(AccountFacts { lamports: payer.lamports - lamports, ..payer });
        self.put(AccountFacts { lamports: receiver.lamports + lamports, ..receiver });
        true
    }

    fn reclaim(&mut self, account: &Key, destination: &Key) -> (r: bool)
        requires
            old(self).well_formed(),
        ensures
            final(self).well_formed(),
            final(self).trade == old(self).trade,
            match reclaim(old(self)@, *account, *destination) {
                Some(after) => r && final(self)@ == after,
                None => !r && final(self)@ == old(self)@,
            },
    {
        if account.equals(destination) || self.find(account).is_none() || self.find(
            destination,
        ).is_none() {
            return false;
        }
        let closed = self.facts(account);
        let receiver = self.facts(destination);
        if receiver.lamports > u64::MAX - closed.lamports {
            return false;
        }
        self.remove(account);
        self.put(AccountFacts { lamports: receiver.lamports + closed.lamports, ..receiver });
        true
    }

    /// Performs one request as the model says, or leaves the ledger as it
    /// is where the model refuses the request.
    pub fn step(&mut self, action: &Action) -> (r: bool)
        requires
            old(self).well_formed(),
        ensures
            final(self).well_formed(),
            match step(old(self)@, *action) {
                Some(after) => r && final(self)@ == after,
                None => !r && final(self)@ == old(self)@,
            },
    {
        match action {
            Action::CreateVault { payer, vault, mint, source, bump } => {
                if self.find(vault).is_some() || self.find(payer).is_none() {
                    return false;
                }
                self.put(
                    AccountFacts {
                        key: *vault,
                        owner: Key { bytes: TOKEN_PROGRAM_ID },
                        lamports: 0,
                        token: Some(
                            TokenAccount {
                                mint: *mint,
                                owner: *payer,
                                amount: 0,
                                state: AccountState::Initialized,
                            },
                        ),
                    },
                );
                true
            },
            Action::SetOwner { change, new_owner } => {
                match self.token(&change.account_or_mint) {
                    Some(account) => {
                        if !account.owner.equals(&change.current_authority) {
                            return false;
                        }
                        let facts = self.facts(&change.account_or_mint);
                        self.put(
                            AccountFacts {
                                token: Some(TokenAccount { owner: *new_owner, ..account }),
                                ..facts
                            },
                        );
                        true
                    },
                    None => false,
                }
            },
            Action::Transfer { transfer } => {
                let source = match self.token(&transfer.from) {
                    Some(account) => account,
                    None => { return false; },
                };
                let target = match self.token(&transfer.to) {
                    Some(account) => account,
                    None => { return false; },
                };
                if transfer.from.equals(&transfer.to) || !source.mint.equals(&target.mint)
                    || !source.owner.equals(&transfer.authority) || source.amount < 1
                    || target.amount == u64::MAX {
                    return false;
                }
                let giver = self.facts(&transfer.from);
                let taker = self.facts(&transfer.to);
                self.put(
                    AccountFacts {
                        token: Some(TokenAccount { amount: source.amount - 1, ..source }),
                        ..giver
                    },
                );
                self.put(
                    AccountFacts {
                        token: Some(TokenAccount { amount: target.amount + 1, ..target }),
                        ..taker
                    },
                );
                true
            },
            Action::Close { close } => {
                match self.token(&close.account) {
                    Some(account) => {
                        if !account.owner.equals(&close.authority) || account.amount != 0 {
                            return false;
                        }
                        self.reclaim(&close.account, &close.destination)
                    },
                    None => false,
                }
            },
            Action::SystemTransfer { from, to, lamports } => self.move_currency(from, to, *lamports),
            Action::ReleaseCurrency { escrow, to, lamports } => {
                let open = match &self.trade {
                    Some(trade) => trade.escrow.equals(escrow),
                    None => false,
                };
                if !open {
                    return false;
                }
                self.move_currency(escrow, to, *lamports)
            },
            Action::CloseRecord { escrow, destination } => {
                let open = match &self.trade {
                    Some(trade) => trade.escrow.equals(escrow),
                    None => false,
                };
                if !open {
                    return false;
                }
                if self.reclaim(escrow, destination) {
                    self.trade = None;
                    true
                } else {
                    false
                }
            },
        }
    }
}

/// A list of requests whose beginning fails fails as a whole.
pub proof fn lemma_failure_persists(w: World, actions: Seq<Action>, k: int, fault: Option<int>)
    requires
        0 <= k <= actions.len(),
        run(w, actions.take(k), fault) is None,
    ensures
        run(w, actions, fault) is None,
    decreases actions.len() - k,
{
    if k == actions.len() {
        assert(actions.take(k) =~= actions);
    } else {
        assert(actions.take(k + 1).drop_last() =~= actions.take(k));
        lemma_failure_persists(w, actions, k + 1, fault);
    }
}

impl Ledger {
    /// A ledger with the same accounts and the same trade.
    pub fn copy(&self) -> (copy: Ledger)
        requires
            self.well_formed(),
        ensures
            copy.well_formed(),
            copy@ == self@,
    {
        let mut accounts: Vec<AccountFacts> = Vec::new();
        let mut i: usize = 0;
        while i < self.accounts.len()
            invariant
                i <= self.accounts.len(),
                accounts@ == self.accounts@.take(i as int),
            decreases self.accounts.len() - i,
        {
            accounts.push(self.accounts[i]);
            i += 1;
        }
        assert(self.accounts@.take(self.accounts.len() as int) =~= self.accounts@);
        let trade = match &self.trade {
            Some(trade) => Some(
                OpenTrade { escrow: trade.escrow, record: copy_record(&trade.record) },
            ),
            None => None,
        };
        Ledger { accounts, trade }
    }

    /// Performs the requests in order and stops at the first that the model
    /// refuses or that the fault hits. Where it stops, the ledger is left
    /// somewhere in between.
    fn run(&mut self, actions: &Vec<Action>, fault: Option<usize>) -> (r: bool)
        requires
            old(self).well_formed(),
        ensures
            final(self).well_formed(),
            match run(old(self)@, actions@, fault_position(fault)) {
                Some(after) => r && final(self)@ == after,
                None => !r,
            },
    {
        let ghost start = self@;
        let ghost hit = fault_position(fault);
        let mut i: usize = 0;
        while i < actions.len()
            invariant
                i <= actions.len(),
                self.well_formed(),
                hit == fault_position(fault),
                start == old(self)@,
                run(start, actions@.take(i as int), hit) == Some(self@),
            decreases actions.len() - i,
        {
            let ghost before = self@;
            proof {
                assert(actions@.take(i + 1).drop_last() =~= actions@.take(i as int));
                assert(actions@.take(i + 1).last() == actions@[i as int]);
            }
            let faulty = match fault {
                Some(position) => position == i,
                None => false,
            };
            if faulty {
                proof {
                    assert(run(start, actions@.take(i + 1), hit) is None);
                    lemma_failure_persists(start, actions@, i + 1, hit);
                }
                return false;
            }
            if !self.step(&actions[i]) {
                proof {
                    assert(step(before, actions@[i as int]) is None);
                    assert(run(start, actions@.take(i + 1), hit) is None);
                    lemma_failure_persists(start, actions@, i + 1, hit);
                }
                return false;
            }
            i += 1;
        }
        assert(actions@.take(actions.len() as int) =~= actions@);
        true
    }

    /// Performs the requests as the host does: all of them, or none. A
    /// fault at a position makes the request there fail.
    pub fn perform(&mut self, actions: &Vec<Action>, fault: Option<usize>) -> (r: bool)
        requires
            old(self).well_formed(),
        ensures
            final(self).well_formed(),
            final(self)@ == commit(old(self)@, actions@, fault_position(fault)),
            r == run(old(self)@, actions@, fault_position(fault)) is Some,
    {
        let mut draft = self.copy();
        if draft.run(actions, fault) {
            *self = draft;
            true
        } else {
            false
        }
    }

    /// Opens a trade as the host does: the record is stored in a new escrow
    /// account of the program and the requests are performed, or nothing
    /// happens at all.
    pub fn open_trade(
        &mut self,
        program_id: &Key,
        escrow: &Key,
        done: &Initialized,
    ) -> (r: bool)
        requires
            old(self).well_formed(),
        ensures
            final(self).well_formed(),
            match opened(old(self)@, *program_id, *escrow, done@) {
                Some(after) => r && final(self)@ == after,
                None => !r && final(self)@ == old(self)@,
            },
    {
        if self.trade.is_some() || self.find(escrow).is_some() {
            return false;
        }
        let mut draft = self.copy();
        draft.put(AccountFacts { key: *escrow, owner: *program_id, lamports: 0, token: None });
        draft.trade = Some(OpenTrade { escrow: *escrow, record: copy_record(&done.escrow_account) });
        if draft.run(&done.actions, None) {
            *self = draft;
            true
        } else {
            false
        }
    }
}

} // verus!
