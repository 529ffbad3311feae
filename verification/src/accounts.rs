//! The escrow program's accounts: one account per live escrow, found by the
//! seeds of its address, `(sender, recipient, id)`.
//!
//! An account is created when an escrow is funded and closed when it is
//! released or cancelled; a closed account can no longer be acted on, and its
//! seeds may be used again.
use crate::program::{key_eq, Escrow};
use vstd::prelude::*;

verus! {

/// The seeds of an escrow account's address, as a plain value.
pub type AccountSeeds = (Seq<u8>, Seq<u8>, u64);

/// The address seeds of the account that holds `e`.
pub open spec fn account_key(e: Escrow) -> AccountSeeds {
    (e.sender@, e.recipient@, e.id)
}

/// The seeds that determine an escrow account's address.
#[derive(Debug, Clone, Copy, PartialEq, Eq)]
pub struct EscrowKey {
    /// Account that funds the escrow.
    pub sender: [u8; 32],
    /// Beneficiary of the escrow.
    pub recipient: [u8; 32],
    /// Caller-supplied escrow id.
    pub id: u64,
}

impl View for EscrowKey {
    type V = AccountSeeds;

    open spec fn view(&self) -> AccountSeeds {
        (self.sender@, self.recipient@, self.id)
    }
}

/// A live escrow account: its stored record and its lamport balance (the
/// escrowed amount plus the rent reserve).
#[derive(Debug, Clone, Copy, PartialEq, Eq)]
pub struct EscrowAccount {
    pub escrow: Escrow,
    pub lamports: u64,
}

/// No two accounts of `s` share an address.
pub open spec fn keys_distinct(s: Seq<EscrowAccount>) -> bool {
    forall|i: int, j: int|
        #![trigger account_key(s[i].escrow), account_key(s[j].escrow)]
        0 <= i < s.len() && 0 <= j < s.len() && i != j ==> account_key(s[i].escrow)
            != account_key(s[j].escrow)
}

/// Whether some account of `s` lives at `k`.
pub open spec fn holds_key(s: Seq<EscrowAccount>, k: AccountSeeds) -> bool {
    exists|i: int| 0 <= i < s.len() && #[trigger] account_key(s[i].escrow) == k
}

/// The accounts of `s`, by address.
pub open spec fn accounts_map(s: Seq<EscrowAccount>) -> Map<AccountSeeds, EscrowAccount> {
    Map::new(
        |k: AccountSeeds| holds_key(s, k),
        |k: AccountSeeds| s[choose|i: int| 0 <= i < s.len() && #[trigger] account_key(s[i].escrow) == k],
    )
}

/// Each account of `s` is what the map gives at its address.
pub proof fn lemma_accounts_map_at(s: Seq<EscrowAccount>, j: int)
    requires
        keys_distinct(s),
        0 <= j < s.len(),
    ensures
        accounts_map(s).contains_key(account_key(s[j].escrow)),
        accounts_map(s)[account_key(s[j].escrow)] == s[j],
{
    let k = account_key(s[j].escrow);
    assert(holds_key(s, k));
    let i = choose|i: int| 0 <= i < s.len() && #[trigger] account_key(s[i].escrow) == k;
    assert(account_key(s[i].escrow) == account_key(s[j].escrow));
}

/// Appending an account at a free address inserts it into the map.
pub proof fn lemma_accounts_map_push(s: Seq<EscrowAccount>, a: EscrowAccount)
    requires
        keys_distinct(s),
        !accounts_map(s).contains_key(account_key(a.escrow)),
    ensures
        keys_distinct(s.push(a)),
        accounts_map(s.push(a)) == accounts_map(s).insert(account_key(a.escrow), a),
{
    let t = s.push(a);
    assert forall|i: int, j: int|
        0 <= i < t.len() && 0 <= j < t.len() && i != j implies #[trigger] account_key(t[i].escrow)
        != #[trigger] account_key(t[j].escrow) by {
        if i == s.len() {
            assert(t[j] == s[j]);
            if account_key(s[j].escrow) == account_key(a.escrow) {
                assert(holds_key(s, account_key(a.escrow)));
            }
        } else if j == s.len() {
            assert(t[i] == s[i]);
            if account_key(s[i].escrow) == account_key(a.escrow) {
                assert(holds_key(s, account_key(a.escrow)));
            }
        } else {
            assert(t[i] == s[i] && t[j] == s[j]);
        }
    }
    let m = accounts_map(s).insert(account_key(a.escrow), a);
    assert forall|k: AccountSeeds| #[trigger] accounts_map(t).contains_key(k) == m.contains_key(k) by {
        if holds_key(t, k) {
            let i = choose|i: int| 0 <= i < t.len() && #[trigger] account_key(t[i].escrow) == k;
            if i < s.len() {
                assert(t[i] == s[i]);
                assert(holds_key(s, k));
            }
        }
        if holds_key(s, k) {
            let i = choose|i: int| 0 <= i < s.len() && #[trigger] account_key(s[i].escrow) == k;
            assert(t[i] == s[i]);
            assert(holds_key(t, k));
        }
        if k == account_key(a.escrow) {
            assert(t[s.len() as int] == a);
            assert(holds_key(t, k));
        }
    }
    assert forall|k: AccountSeeds| #[trigger] accounts_map(t).contains_key(k) implies accounts_map(t)[k]
        == m[k] by {
        let i = choose|i: int| 0 <= i < t.len() && #[trigger] account_key(t[i].escrow) == k;
        lemma_accounts_map_at(t, i);
        if i < s.len() {
            assert(t[i] == s[i]);
            lemma_accounts_map_at(s, i);
        }
    }
    assert(accounts_map(t) =~= m);
}

/// Removing the account at index `j` removes its address from the map.
pub proof fn lemma_accounts_map_remove(s: Seq<EscrowAccount>, j: int)
    requires
        keys_distinct(s),
        0 <= j < s.len(),
    ensures
        keys_distinct(s.remove(j)),
        accounts_map(s.remove(j)) == accounts_map(s).remove(account_key(s[j].escrow)),
{
    let t = s.remove(j);
    let gone = account_key(s[j].escrow);
    assert forall|i: int| 0 <= i < t.len() implies #[trigger] t[i] == s[if i < j { i } else { i + 1 }] by {}
    assert forall|a: int, b: int|
        0 <= a < t.len() && 0 <= b < t.len() && a != b implies #[trigger] account_key(t[a].escrow)
        != #[trigger] account_key(t[b].escrow) by {
        let ia = if a < j { a } else { a + 1 };
        let ib = if b < j { b } else { b + 1 };
        assert(t[a] == s[ia] && t[b] == s[ib]);
    }
    let m = accounts_map(s).remove(gone);
    assert forall|k: AccountSeeds| #[trigger] accounts_map(t).contains_key(k) == m.contains_key(k) by {
        if holds_key(t, k) {
            let a = choose|a: int| 0 <= a < t.len() && #[trigger] account_key(t[a].escrow) == k;
            let ia = if a < j { a } else { a + 1 };
            assert(t[a] == s[ia]);
            assert(holds_key(s, k));
            assert(k != gone);
        }
        if holds_key(s, k) && k != gone {
            let i = choose|i: int| 0 <= i < s.len() && #[trigger] account_key(s[i].escrow) == k;
            assert(i != j);
            let a = if i < j { i } else { i - 1 };
            assert(t[a] == s[i]);
            assert(holds_key(t, k));
        }
    }
    assert forall|k: AccountSeeds| #[trigger] accounts_map(t).contains_key(k) implies accounts_map(t)[k]
        == m[k] by {
        let a = choose|a: int| 0 <= a < t.len() && #[trigger] account_key(t[a].escrow) == k;
        let ia = if a < j { a } else { a + 1 };
        assert(t[a] == s[ia]);
        lemma_accounts_map_at(t, a);
        lemma_accounts_map_at(s, ia);
    }
    assert(accounts_map(t) =~= m);
}

/// The escrow accounts of the program, one per live escrow.
pub struct Vault {
    accounts: Vec<EscrowAccount>,
}

impl Vault {
    #[verifier::type_invariant]
    spec fn addresses_distinct(&self) -> bool {
        keys_distinct(self.accounts@)
    }
}

impl View for Vault {
    type V = Map<AccountSeeds, EscrowAccount>;

    closed spec fn view(&self) -> Map<AccountSeeds, EscrowAccount> {
        accounts_map(self.accounts@)
    }
}

impl Vault {
    /// A program with no escrow accounts.
    pub fn new() -> (v: Vault)
        ensures
            v@ == Map::<AccountSeeds, EscrowAccount>::empty(),
    {
        let v = Vault { accounts: Vec::new() };
        assert(v@ =~= Map::<AccountSeeds, EscrowAccount>::empty());
        v
    }

    /// Every account lives at the address of the escrow it holds.
    pub proof fn lemma_account_at_own_address(&self, k: AccountSeeds)
        requires
            self@.contains_key(k),
        ensures
            account_key(self@[k].escrow) == k,
    {
        let i = choose|i: int| 0 <= i < self.accounts@.len() && #[trigger] account_key(self.accounts@[i].escrow) == k;
    }

    /// The index of the account at `key`, if it is live.
    fn position(&self, key: &EscrowKey) -> (r: Option<usize>)
        ensures
            match r {
                Some(i) => i < self.accounts@.len() && account_key(self.accounts@[i as int].escrow)
                    == key@ && self@.contains_key(key@) && self@[key@] == self.accounts@[i as int],
                None => !self@.contains_key(key@),
            },
    {
        proof {
            use_type_invariant(self);
        }
        let mut i: usize = 0;
        while i < self.accounts.len()
            invariant
                i <= self.accounts@.len(),
                keys_distinct(self.accounts@),
                forall|j: int| 0 <= j < i ==> #[trigger] account_key(self.accounts@[j].escrow) != key@,
            decreases self.accounts@.len() - i,
        {
            let e = &self.accounts[i].escrow;
            if key_eq(&e.sender, &key.sender) && key_eq(&e.recipient, &key.recipient) && e.id
                == key.id {
                proof {
                    lemma_accounts_map_at(self.accounts@, i as int);
                }
                return Some(i);
            }
            i = i + 1;
        }
        None
    }

    /// The account at `key`, if it is live.
    pub fn account(&self, key: &EscrowKey) -> (r: Option<EscrowAccount>)
        ensures
            r == (if self@.contains_key(key@) {
                Some(self@[key@])
            } else {
                None::<EscrowAccount>
            }),
    {
        match self.position(key) {
            Some(i) => Some(self.accounts[i]),
            None => None,
        }
    }

    /// Whether no live account stands at `key`.
    pub fn is_closed(&self, key: &EscrowKey) -> (r: bool)
        ensures
            r == !self@.contains_key(key@),
    {
        self.position(key).is_none()
    }

    /// Opens `account` at the address of the escrow it holds, which must be free.
    pub(crate) fn open(&mut self, account: EscrowAccount)
        requires
            !old(self)@.contains_key(account_key(account.escrow)),
        ensures
            final(self)@ == old(self)@.insert(account_key(account.escrow), account),
    {
        proof {
            use_type_invariant(&*self);
            lemma_accounts_map_push(self.accounts@, account);
        }
        let mut accounts: Vec<EscrowAccount> = Vec::new();
        std::mem::swap(&mut accounts, &mut self.accounts);
        accounts.push(account);
        self.accounts = accounts;
    }

    /// Closes the account at index `i`.
    fn close_at(&mut self, i: usize)
        requires
            i < old(self).accounts@.len(),
        ensures
            final(self)@ == old(self)@.remove(account_key(old(self).accounts@[i as int].escrow)),
    {
        proof {
            use_type_invariant(&*self);
            lemma_accounts_map_remove(self.accounts@, i as int);
        }
        let mut accounts: Vec<EscrowAccount> = Vec::new();
        std::mem::swap(&mut accounts, &mut self.accounts);
        accounts.remove(i);
        self.accounts = accounts;
    }

    /// Closes the account at `key`, if it is live, and gives it back.
    pub(crate) fn close(&mut self, key: &EscrowKey) -> (r: Option<EscrowAccount>)
        ensures
            r == (if old(self)@.contains_key(key@) {
                Some(old(self)@[key@])
            } else {
                None::<EscrowAccount>
            }),
            final(self)@ == old(self)@.remove(key@),
    {
        match self.position(key) {
            Some(i) => {
                let account = self.accounts[i];
                self.close_at(i);
                Some(account)
            },
            None => {
                assert(self@.remove(key@) =~= self@);
                None
            },
        }
    }
}

} // verus!
