use vstd::prelude::*;

use crate::account::Account;
use crate::errors::ClientError;
use crate::message::XorName;

verus! {

/// The accounts this node currently manages, addressed by client name.
/// Owned exclusively by the persona; every mutation goes through its
/// methods, which keep the client names unique.
pub struct AccountStore {
    entries: Vec<(XorName, Account)>,
}

impl AccountStore {
    /// The stored entries, in insertion order.
    pub closed spec fn entry_seq(self) -> Seq<(XorName, Account)> {
        self.entries@
    }

    /// How many accounts are stored.
    pub open spec fn len(self) -> nat {
        self.entry_seq().len()
    }

    /// Well-formedness: one entry per client name, every account well-formed.
    pub open spec fn inv(self) -> bool {
        &&& forall|i: int, j: int|
            0 <= i < j < self.entry_seq().len()
                ==> #[trigger] self.entry_seq()[i].0 != #[trigger] self.entry_seq()[j].0
        &&& forall|i: int|
            0 <= i < self.entry_seq().len() ==> (#[trigger] self.entry_seq()[i]).1.inv()
    }

    /// Whether an account is stored for `name`.
    pub open spec fn spec_contains(self, name: XorName) -> bool {
        exists|i: int| 0 <= i < self.entry_seq().len() && #[trigger] self.entry_seq()[i].0 == name
    }

    /// The position of `name`'s entry; meaningful only when one is stored.
    pub open spec fn index_of(self, name: XorName) -> int {
        choose|i: int| 0 <= i < self.entry_seq().len() && #[trigger] self.entry_seq()[i].0 == name
    }

    /// The account stored for `name`; meaningful only when one is stored.
    pub open spec fn spec_get(self, name: XorName) -> Account {
        self.entry_seq()[self.index_of(name)].1
    }

    /// An empty store.
    pub fn new() -> (r: AccountStore)
        ensures
            r.inv(),
            r.len() == 0,
            forall|n: XorName| !r.spec_contains(n),
    {
        AccountStore { entries: Vec::new() }
    }

    /// Where `name`'s entry sits, if one is stored.
    fn position(&self, name: XorName) -> (r: Option<usize>)
        ensures
            match r {
                Some(i) => i < self.entry_seq().len() && self.entry_seq()[i as int].0 == name,
                None => !self.spec_contains(name),
            },
    {
        let mut i: usize = 0;
        while i < self.entries.len()
            invariant
                i <= self.entries.len(),
                forall|k: int| 0 <= k < i ==> #[trigger] self.entry_seq()[k].0 != name,
            decreases self.entries.len() - i,
        {
            if self.entries[i].0 == name {
                return Some(i);
            }
            i = i + 1;
        }
        None
    }

    /// The number of stored accounts.
    pub fn count(&self) -> (r: usize)
        ensures
            r == self.len(),
    {
        self.entries.len()
    }

    /// The entry at a position, for walking the whole store.
    pub fn entry_at(&self, i: usize) -> (r: (XorName, Account))
        requires
            i < self.len(),
        ensures
            r == self.entry_seq()[i as int],
    {
        self.entries[i]
    }

    /// Whether an account is stored for `name`.
    pub fn contains_account(&self, name: XorName) -> (r: bool)
        ensures
            r == self.spec_contains(name),
    {
        self.position(name).is_some()
    }

    /// A copy of the account stored for `name`, if any.
    pub fn get_account(&self, name: XorName) -> (r: Option<Account>)
        requires
            self.inv(),
        ensures
            r == (if self.spec_contains(name) {
                Some(self.spec_get(name))
            } else {
                None::<Account>
            }),
    {
        match self.position(name) {
            Some(i) => {
                proof {
                    self.lemma_key_at(i as int, name);
                }
                Some(self.entries[i].1)
            }
            None => None,
        }
    }

    /// Store `account` under `name`, replacing any previous entry.
    pub fn insert_account(&mut self, name: XorName, account: Account)
        requires
            old(self).inv(),
            account.inv(),
        ensures
            final(self).inv(),
            final(self).spec_contains(name),
            final(self).spec_get(name) == account,
            forall|n: XorName|
                #[trigger] final(self).spec_contains(n)
                    == (old(self).spec_contains(n) || n == name),
            forall|n: XorName|
                n != name && old(self).spec_contains(n)
                    ==> #[trigger] final(self).spec_get(n) == old(self).spec_get(n),
            final(self).len() == old(self).len() + (if old(self).spec_contains(name) {
                0int
            } else {
                1int
            }),
    {
        match self.position(name) {
            Some(i) => {
                self.entries[i] = (name, account);
                proof {
                    let s_old = old(self).entry_seq();
                    let s_new = self.entry_seq();
                    assert(s_new == s_old.update(i as int, (name, account)));
                    assert(forall|k: int|
                        0 <= k < s_new.len() ==> #[trigger] s_new[k].0 == s_old[k].0);
                    assert(self.inv());
                    self.lemma_key_at(i as int, name);
                    assert forall|n: XorName| #[trigger] self.spec_contains(n)
                        implies (old(self).spec_contains(n) || n == name) by {
                        let k = choose|k: int|
                            0 <= k < s_new.len() && #[trigger] s_new[k].0 == n;
                        assert(s_old[k].0 == n);
                    };
                    assert forall|n: XorName| old(self).spec_contains(n) || n == name
                        implies #[trigger] self.spec_contains(n) by {
                        if old(self).spec_contains(n) {
                            let k = choose|k: int|
                                0 <= k < s_old.len() && #[trigger] s_old[k].0 == n;
                            assert(s_new[k].0 == n);
                        }
                    };
                    assert forall|n: XorName| n != name && old(self).spec_contains(n)
                        implies #[trigger] self.spec_get(n) == old(self).spec_get(n) by {
                        let k = old(self).index_of(n);
                        assert(s_old[k].0 == n);
                        assert(s_new[k].0 == n);
                        self.lemma_key_at(k, n);
                        old(self).lemma_key_at(k, n);
                        assert(k != i);
                    };
                }
            }
            None => {
                self.entries.push((name, account));
                proof {
                    let s_old = old(self).entry_seq();
                    let s_new = self.entry_seq();
                    assert(s_new == s_old.push((name, account)));
                    assert(forall|k: int| 0 <= k < s_old.len()
                        ==> #[trigger] s_new[k] == s_old[k]);
                    assert(s_new[s_old.len() as int].0 == name);
                    assert(self.inv());
                    self.lemma_key_at(s_old.len() as int, name);
                    assert forall|n: XorName| #[trigger] self.spec_contains(n)
                        implies (old(self).spec_contains(n) || n == name) by {
                        let k = choose|k: int|
                            0 <= k < s_new.len() && #[trigger] s_new[k].0 == n;
                        if k < s_old.len() {
                            assert(s_old[k].0 == n);
                        }
                    };
                    assert forall|n: XorName| old(self).spec_contains(n) || n == name
                        implies #[trigger] self.spec_contains(n) by {
                        if old(self).spec_contains(n) {
                            let k = choose|k: int|
                                0 <= k < s_old.len() && #[trigger] s_old[k].0 == n;
                            assert(s_new[k].0 == n);
                        } else {
                            assert(s_new[s_old.len() as int].0 == name);
                        }
                    };
                    assert forall|n: XorName| n != name && old(self).spec_contains(n)
                        implies #[trigger] self.spec_get(n) == old(self).spec_get(n) by {
                        let k = old(self).index_of(n);
                        assert(s_old[k].0 == n);
                        assert(s_new[k].0 == n);
                        self.lemma_key_at(k, n);
                        old(self).lemma_key_at(k, n);
                    };
                }
            }
        }
    }

    /// Debit `size` bytes from the account stored for `name`, if any.
    /// Nothing changes unless the account exists and can cover the charge.
    pub fn debit(&mut self, name: XorName, size: u64) -> (r: Result<(), ClientError>)
        requires
            old(self).inv(),
        ensures
            final(self).inv(),
            final(self).len() == old(self).len(),
            forall|n: XorName|
                #[trigger] final(self).spec_contains(n) == old(self).spec_contains(n),
            !old(self).spec_contains(name) ==> r == Err::<(), ClientError>(
                ClientError::NoSuchAccount,
            ) && final(self).entry_seq() == old(self).entry_seq(),
            old(self).spec_contains(name) && size > old(self).spec_get(name).space_available
                ==> r == Err::<(), ClientError>(ClientError::LowBalance)
                && final(self).entry_seq() == old(self).entry_seq(),
            old(self).spec_contains(name) && size <= old(self).spec_get(name).space_available
                ==> r == Ok::<(), ClientError>(())
                && final(self).spec_get(name).data_stored == old(self).spec_get(
                    name,
                ).data_stored + size
                && final(self).spec_get(name).space_available == old(self).spec_get(
                    name,
                ).space_available - size,
            forall|n: XorName|
                n != name && old(self).spec_contains(n)
                    ==> #[trigger] final(self).spec_get(n) == old(self).spec_get(n),
    {
        match self.position(name) {
            Some(i) => {
                proof {
                    old(self).lemma_key_at(i as int, name);
                }
                let mut account = self.entries[i].1;
                let r = account.put_data(size);
                self.entries[i] = (name, account);
                proof {
                    lemma_entry_update(*old(self), *self, i as int, name, account);
                }
                r
            }
            None => {
                proof {
                    assert(final(self).entry_seq() =~= old(self).entry_seq());
                }
                Err(ClientError::NoSuchAccount)
            }
        }
    }

    /// Refund `size` bytes to the account stored for `name`, if any, with
    /// the saturating semantics of `Account::delete_data`. Returns whether
    /// an account was there to refund.
    pub fn refund(&mut self, name: XorName, size: u64) -> (r: bool)
        requires
            old(self).inv(),
        ensures
            final(self).inv(),
            final(self).len() == old(self).len(),
            forall|n: XorName|
                #[trigger] final(self).spec_contains(n) == old(self).spec_contains(n),
            r == old(self).spec_contains(name),
            !old(self).spec_contains(name) ==> final(self).entry_seq() == old(self).entry_seq(),
            old(self).spec_contains(name) && old(self).spec_get(name).data_stored < size
                ==> final(self).spec_get(name).data_stored == 0
                && final(self).spec_get(name).space_available == old(self).spec_get(
                    name,
                ).space_available + old(self).spec_get(name).data_stored,
            old(self).spec_contains(name) && old(self).spec_get(name).data_stored >= size
                ==> final(self).spec_get(name).data_stored == old(self).spec_get(
                    name,
                ).data_stored - size
                && final(self).spec_get(name).space_available == old(self).spec_get(
                    name,
                ).space_available + size,
            forall|n: XorName|
                n != name && old(self).spec_contains(n)
                    ==> #[trigger] final(self).spec_get(n) == old(self).spec_get(n),
    {
        match self.position(name) {
            Some(i) => {
                proof {
                    old(self).lemma_key_at(i as int, name);
                }
                let mut account = self.entries[i].1;
                account.delete_data(size);
                self.entries[i] = (name, account);
                proof {
                    lemma_entry_update(*old(self), *self, i as int, name, account);
                }
                true
            }
            None => {
                proof {
                    assert(final(self).entry_seq() =~= old(self).entry_seq());
                }
                false
            }
        }
    }

    /// With unique keys, any position holding `name` is the position
    /// `index_of` denotes, so `spec_get` reads that entry.
    pub proof fn lemma_key_at(self, i: int, name: XorName)
        requires
            self.inv(),
            0 <= i < self.entry_seq().len(),
            self.entry_seq()[i].0 == name,
        ensures
            self.spec_contains(name),
            self.index_of(name) == i,
            self.spec_get(name) == self.entry_seq()[i].1,
    {
        assert(self.spec_contains(name));
        let j = self.index_of(name);
        assert(0 <= j < self.entry_seq().len() && self.entry_seq()[j].0 == name);
        if i < j {
            assert(self.entry_seq()[i].0 != self.entry_seq()[j].0);
        } else if j < i {
            assert(self.entry_seq()[j].0 != self.entry_seq()[i].0);
        }
    }
}

/// Overwriting the account at `name`'s own position keeps the store
/// well-formed, stores the new account under `name`, and leaves every other
/// name's presence and account exactly as they were.
proof fn lemma_entry_update(pre: AccountStore, post: AccountStore, i: int, name: XorName, account: Account)
    requires
        pre.inv(),
        0 <= i < pre.entry_seq().len(),
        pre.entry_seq()[i].0 == name,
        account.inv(),
        post.entry_seq() == pre.entry_seq().update(i, (name, account)),
    ensures
        post.inv(),
        post.len() == pre.len(),
        post.spec_contains(name),
        post.spec_get(name) == account,
        forall|n: XorName| #[trigger] post.spec_contains(n) == pre.spec_contains(n),
        forall|n: XorName|
            n != name && pre.spec_contains(n)
                ==> #[trigger] post.spec_get(n) == pre.spec_get(n),
{
    let s_old = pre.entry_seq();
    let s_new = post.entry_seq();
    assert(forall|k: int| 0 <= k < s_new.len() ==> #[trigger] s_new[k].0 == s_old[k].0);
    assert(post.inv());
    assert forall|n: XorName| #[trigger] post.spec_contains(n) == pre.spec_contains(n) by {
        if post.spec_contains(n) {
            let k = choose|k: int| 0 <= k < s_new.len() && #[trigger] s_new[k].0 == n;
            assert(s_old[k].0 == n);
        }
        if pre.spec_contains(n) {
            let k = choose|k: int| 0 <= k < s_old.len() && #[trigger] s_old[k].0 == n;
            assert(s_new[k].0 == n);
        }
    };
    post.lemma_key_at(i, name);
    assert forall|n: XorName| n != name && pre.spec_contains(n)
        implies #[trigger] post.spec_get(n) == pre.spec_get(n) by {
        let k = pre.index_of(n);
        assert(s_old[k].0 == n);
        pre.lemma_key_at(k, n);
        assert(s_new[k].0 == n);
        post.lemma_key_at(k, n);
        assert(k != i);
    };
}

} // verus!
