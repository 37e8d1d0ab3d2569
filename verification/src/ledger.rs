//! A model of the host ledger: every address holds an account with a balance,
//! an owning program and a byte buffer. An address that nobody touched holds
//! the vacant account: no balance, no data, owned by the system program.

use vstd::prelude::*;
use crate::address::{keys_equal, Address, SYSTEM_PROGRAM_ID};

verus! {

/// An account together with the address at which the ledger holds it.
#[derive(Debug, PartialEq, Eq)]
pub struct Account {
    /// The address of the account.
    pub key: Address,
    /// The program that owns the account.
    pub owner: Address,
    /// The balance of the account, in lamports.
    pub lamports: u64,
    /// The byte buffer of the account.
    pub data: Vec<u8>,
}

/// What the ledger holds at one address.
pub struct AccountState {
    pub owner: Address,
    pub lamports: u64,
    pub data: Seq<u8>,
}

/// What the ledger holds at every address: a total map.
pub type LedgerView = Map<Address, AccountState>;

/// The account at an address that nobody touched.
pub open spec fn vacant() -> AccountState {
    AccountState { owner: SYSTEM_PROGRAM_ID, lamports: 0, data: Seq::empty() }
}

impl Account {
    /// What this entry says the ledger holds at its address.
    pub open spec fn state(&self) -> AccountState {
        AccountState { owner: self.owner, lamports: self.lamports, data: self.data@ }
    }
}

/// What a list of entries holds at an address, looking from `start` on: the
/// first entry with that address counts.
pub open spec fn lookup_from(accounts: Seq<Account>, key: Address, start: int) -> AccountState
    decreases accounts.len() - start,
{
    if start < 0 || start >= accounts.len() {
        vacant()
    } else if accounts[start].key == key {
        accounts[start].state()
    } else {
        lookup_from(accounts, key, start + 1)
    }
}

/// Whether `index` is the first entry for `key`.
pub open spec fn first_entry(accounts: Seq<Account>, key: Address, index: int) -> bool {
    &&& 0 <= index < accounts.len()
    &&& accounts[index].key == key
    &&& forall|j: int| 0 <= j < index ==> accounts[j].key != key
}

/// Whether no entry is for `key`.
pub open spec fn no_entry(accounts: Seq<Account>, key: Address) -> bool {
    forall|j: int| 0 <= j < accounts.len() ==> accounts[j].key != key
}

proof fn lemma_lookup_first(accounts: Seq<Account>, key: Address, index: int, start: int)
    requires
        first_entry(accounts, key, index),
        0 <= start <= index,
    ensures
        lookup_from(accounts, key, start) == accounts[index].state(),
    decreases index - start,
{
    if start < index {
        lemma_lookup_first(accounts, key, index, start + 1);
    }
}

proof fn lemma_lookup_none(accounts: Seq<Account>, key: Address, start: int)
    requires
        no_entry(accounts, key),
        0 <= start,
    ensures
        lookup_from(accounts, key, start) == vacant(),
    decreases accounts.len() - start,
{
    if start < accounts.len() {
        lemma_lookup_none(accounts, key, start + 1);
    }
}

proof fn lemma_lookup_update(accounts: Seq<Account>, index: int, entry: Account, key: Address, start: int)
    requires
        first_entry(accounts, entry.key, index),
        0 <= start,
    ensures
        lookup_from(accounts.update(index, entry), key, start) == if key == entry.key && start <= index {
            entry.state()
        } else {
            lookup_from(accounts, key, start)
        },
    decreases accounts.len() - start,
{
    if start < accounts.len() {
        lemma_lookup_update(accounts, index, entry, key, start + 1);
    }
}

proof fn lemma_lookup_push(accounts: Seq<Account>, entry: Account, key: Address, start: int)
    requires
        no_entry(accounts, entry.key),
        0 <= start,
    ensures
        lookup_from(accounts.push(entry), key, start) == if key == entry.key && start <= accounts.len() {
            entry.state()
        } else {
            lookup_from(accounts, key, start)
        },
    decreases accounts.len() + 1 - start,
{
    if start < accounts.len() {
        lemma_lookup_push(accounts, entry, key, start + 1);
    } else if start == accounts.len() {
        assert(lookup_from(accounts.push(entry), key, start + 1) == vacant());
    }
}

/// The accounts of the host ledger.
#[derive(Debug)]
pub struct Ledger {
    /// The entries; of two entries with one address the first counts.
    pub accounts: Vec<Account>,
}

impl View for Ledger {
    type V = LedgerView;

    open spec fn view(&self) -> LedgerView {
        Map::total(|key: Address| lookup_from(self.accounts@, key, 0))
    }
}

impl Ledger {
    /// The ledger on which every account is vacant.
    pub fn new() -> (ledger: Ledger)
        ensures
            forall|key: Address| #[trigger] ledger@[key] == vacant(),
    {
        Ledger { accounts: Vec::new() }
    }

    /// The index of the first entry for an address.
    fn find(&self, key: &Address) -> (found: Option<usize>)
        ensures
            match found {
                Some(index) => first_entry(self.accounts@, *key, index as int),
                None => no_entry(self.accounts@, *key),
            },
    {
        let mut i: usize = 0;
        while i < self.accounts.len()
            invariant
                i <= self.accounts.len(),
                forall|j: int| 0 <= j < i ==> self.accounts@[j].key != *key,
            decreases self.accounts.len() - i,
        {
            if keys_equal(&self.accounts[i].key, key) {
                return Some(i);
            }
            i += 1;
        }
        None
    }

    /// The balance of the account at an address.
    pub fn lamports(&self, key: &Address) -> (lamports: u64)
        ensures
            lamports == self@[*key].lamports,
    {
        match self.find(key) {
            Some(index) => {
                proof { lemma_lookup_first(self.accounts@, *key, index as int, 0); }
                self.accounts[index].lamports
            },
            None => {
                proof { lemma_lookup_none(self.accounts@, *key, 0); }
                0
            },
        }
    }

    /// The program that owns the account at an address.
    pub fn owner(&self, key: &Address) -> (owner: Address)
        ensures
            owner == self@[*key].owner,
    {
        match self.find(key) {
            Some(index) => {
                proof { lemma_lookup_first(self.accounts@, *key, index as int, 0); }
                self.accounts[index].owner
            },
            None => {
                proof { lemma_lookup_none(self.accounts@, *key, 0); }
                SYSTEM_PROGRAM_ID
            },
        }
    }

    /// The number of bytes in the buffer of the account at an address.
    pub fn data_len(&self, key: &Address) -> (len: usize)
        ensures
            len == self@[*key].data.len(),
    {
        match self.find(key) {
            Some(index) => {
                proof { lemma_lookup_first(self.accounts@, *key, index as int, 0); }
                self.accounts[index].data.len()
            },
            None => {
                proof { lemma_lookup_none(self.accounts@, *key, 0); }
                0
            },
        }
    }

    /// A copy of the buffer of the account at an address.
    pub fn data(&self, key: &Address) -> (data: Vec<u8>)
        ensures
            data@ == self@[*key].data,
    {
        match self.find(key) {
            Some(index) => {
                proof { lemma_lookup_first(self.accounts@, *key, index as int, 0); }
                vstd::slice::slice_to_vec(self.accounts[index].data.as_slice())
            },
            None => {
                proof { lemma_lookup_none(self.accounts@, *key, 0); }
                Vec::new()
            },
        }
    }

    /// The index of the entry for an address, which is added as the vacant
    /// account where there is none.
    fn entry(&mut self, key: &Address) -> (index: usize)
        ensures
            first_entry(final(self).accounts@, *key, index as int),
            final(self)@ == old(self)@,
    {
        match self.find(key) {
            Some(index) => index,
            None => {
                let index = self.accounts.len();
                let account = Account { key: *key, owner: SYSTEM_PROGRAM_ID, lamports: 0, data: Vec::new() };
                self.accounts.push(account);
                proof {
                    assert forall|k: Address| #[trigger] final(self)@[k] == old(self)@[k] by {
                        lemma_lookup_push(old(self).accounts@, account, k, 0);
                        lemma_lookup_none(old(self).accounts@, *key, 0);
                    }
                    assert(final(self)@ =~= old(self)@);
                }
                index
            },
        }
    }

    /// Sets the balance of the account at an address.
    pub fn set_lamports(&mut self, key: &Address, lamports: u64)
        ensures
            final(self)@ == old(self)@.insert(*key, AccountState { lamports, ..old(self)@[*key] }),
    {
        let index = self.entry(key);
        let ghost before = self.accounts@;
        self.accounts[index].lamports = lamports;
        proof {
            let entry = self.accounts@[index as int];
            assert(self.accounts@ =~= before.update(index as int, entry));
            lemma_lookup_first(before, *key, index as int, 0);
            assert forall|k: Address| #[trigger] self@[k] == old(self)@.insert(
                *key,
                AccountState { lamports, ..old(self)@[*key] },
            )[k] by {
                lemma_lookup_update(before, index as int, entry, k, 0);
            }
            assert(self@ =~= old(self)@.insert(*key, AccountState { lamports, ..old(self)@[*key] }));
        }
    }

    /// Sets the program that owns the account at an address.
    pub fn set_owner(&mut self, key: &Address, owner: Address)
        ensures
            final(self)@ == old(self)@.insert(*key, AccountState { owner, ..old(self)@[*key] }),
    {
        let index = self.entry(key);
        let ghost before = self.accounts@;
        self.accounts[index].owner = owner;
        proof {
            let entry = self.accounts@[index as int];
            assert(self.accounts@ =~= before.update(index as int, entry));
            lemma_lookup_first(before, *key, index as int, 0);
            assert forall|k: Address| #[trigger] self@[k] == old(self)@.insert(
                *key,
                AccountState { owner, ..old(self)@[*key] },
            )[k] by {
                lemma_lookup_update(before, index as int, entry, k, 0);
            }
            assert(self@ =~= old(self)@.insert(*key, AccountState { owner, ..old(self)@[*key] }));
        }
    }

    /// Replaces the buffer of the account at an address.
    pub fn set_data(&mut self, key: &Address, data: Vec<u8>)
        ensures
            final(self)@ == old(self)@.insert(*key, AccountState { data: data@, ..old(self)@[*key] }),
    {
        let index = self.entry(key);
        let ghost before = self.accounts@;
        let ghost bytes = data@;
        self.accounts[index].data = data;
        proof {
            let entry = self.accounts@[index as int];
            assert(self.accounts@ =~= before.update(index as int, entry));
            lemma_lookup_first(before, *key, index as int, 0);
            assert forall|k: Address| #[trigger] self@[k] == old(self)@.insert(
                *key,
                AccountState { data: bytes, ..old(self)@[*key] },
            )[k] by {
                lemma_lookup_update(before, index as int, entry, k, 0);
            }
            assert(self@ =~= old(self)@.insert(*key, AccountState { data: bytes, ..old(self)@[*key] }));
        }
    }

    /// Puts an account at an address, in place of what was there.
    pub fn set_account(&mut self, key: &Address, owner: Address, lamports: u64, data: Vec<u8>)
        ensures
            final(self)@ == old(self)@.insert(*key, AccountState { owner, lamports, data: data@ }),
    {
        self.set_owner(key, owner);
        self.set_lamports(key, lamports);
        self.set_data(key, data);
        assert(self@ =~= old(self)@.insert(*key, AccountState { owner, lamports, data: data@ }));
    }

    /// A copy of the ledger.
    pub fn duplicate(&self) -> (copy: Ledger)
        ensures
            copy@ == self@,
    {
        let mut accounts: Vec<Account> = Vec::new();
        let mut i: usize = 0;
        while i < self.accounts.len()
            invariant
                i <= self.accounts.len(),
                accounts@.len() == i,
                forall|j: int| 0 <= j < i ==> accounts@[j].key == self.accounts@[j].key && accounts@[j].state()
                    == self.accounts@[j].state(),
            decreases self.accounts.len() - i,
        {
            let source = &self.accounts[i];
            accounts.push(
                Account {
                    key: source.key,
                    owner: source.owner,
                    lamports: source.lamports,
                    data: vstd::slice::slice_to_vec(source.data.as_slice()),
                },
            );
            i += 1;
        }
        let copy = Ledger { accounts };
        proof {
            assert forall|k: Address| #[trigger] copy@[k] == self@[k] by {
                lemma_lookup_same(copy.accounts@, self.accounts@, k, 0);
            }
            assert(copy@ =~= self@);
        }
        copy
    }
}

proof fn lemma_lookup_same(a: Seq<Account>, b: Seq<Account>, key: Address, start: int)
    requires
        a.len() == b.len(),
        forall|j: int| 0 <= j < a.len() ==> a[j].key == b[j].key && a[j].state() == b[j].state(),
        0 <= start,
    ensures
        lookup_from(a, key, start) == lookup_from(b, key, start),
    decreases a.len() - start,
{
    if start < a.len() {
        lemma_lookup_same(a, b, key, start + 1);
    }
}

} // verus!
