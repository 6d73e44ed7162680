//! The ledger store: keyed in-memory storage for users, categories and
//! transactions, with point lookups.  Its well-formedness predicate ties the
//! three tables together: ids are unique, every transaction references a
//! category of the same owner, and every aggregate balance equals the signed
//! sum of the transactions it rolls up.

use vstd::prelude::*;

use crate::model::Transaction;
use crate::model::User;
use crate::sums::cat_sum;
use crate::sums::user_sum;
use crate::sums::lemma_user_sum_zero;

verus! {

/// The whole ledger: three keyed tables and the next fresh id of each.
pub struct Ledger {
    pub users: Vec<User>,
    pub categories: Vec<crate::model::Category>,
    pub transactions: Vec<Transaction>,
    pub next_user_id: i32,
    pub next_category_id: i32,
    pub next_transaction_id: i32,
}

impl Ledger {
    /// A user with this id exists.
    pub open spec fn has_user(self, uid: int) -> bool {
        exists|i: int| 0 <= i < self.users@.len() && (#[trigger] self.users@[i]).id == uid
    }

    /// The row index of the user with this id.
    pub open spec fn user_idx(self, uid: int) -> int {
        choose|i: int| 0 <= i < self.users@.len() && (#[trigger] self.users@[i]).id == uid
    }

    /// The user with this id.
    pub open spec fn user_at(self, uid: int) -> User {
        self.users@[self.user_idx(uid)]
    }

    /// The balance of the user with this id.
    pub open spec fn user_balance(self, uid: int) -> int {
        self.user_at(uid).balance as int
    }

    /// A category with this id exists.
    pub open spec fn has_category(self, cid: int) -> bool {
        exists|i: int| 0 <= i < self.categories@.len() && (#[trigger] self.categories@[i]).id == cid
    }

    /// The row index of the category with this id.
    pub open spec fn cat_idx(self, cid: int) -> int {
        choose|i: int| 0 <= i < self.categories@.len() && (#[trigger] self.categories@[i]).id == cid
    }

    /// The category with this id.
    pub open spec fn category_at(self, cid: int) -> crate::model::Category {
        self.categories@[self.cat_idx(cid)]
    }

    /// The balance of the category with this id.
    pub open spec fn category_balance(self, cid: int) -> int {
        self.category_at(cid).balance as int
    }

    /// The category exists and belongs to user `uid`.
    pub open spec fn category_owned(self, uid: int, cid: int) -> bool {
        self.has_category(cid) && self.category_at(cid).owner_user_id == uid
    }

    /// A transaction with this id exists.
    pub open spec fn has_transaction(self, tid: int) -> bool {
        exists|i: int|
            0 <= i < self.transactions@.len() && (#[trigger] self.transactions@[i]).id == tid
    }

    /// The row index of the transaction with this id.
    pub open spec fn tx_idx(self, tid: int) -> int {
        choose|i: int|
            0 <= i < self.transactions@.len() && (#[trigger] self.transactions@[i]).id == tid
    }

    /// The transaction with this id.
    pub open spec fn transaction_at(self, tid: int) -> Transaction {
        self.transactions@[self.tx_idx(tid)]
    }

    /// The transaction exists and belongs to user `uid`.
    pub open spec fn transaction_owned(self, uid: int, tid: int) -> bool {
        self.has_transaction(tid) && self.transaction_at(tid).owner_user_id == uid
    }

    /// User ids are unique and below the next fresh id.
    pub open spec fn users_wf(self) -> bool {
        &&& forall|i: int, j: int|
            0 <= i < j < self.users@.len() ==> (#[trigger] self.users@[i]).id != (
            #[trigger] self.users@[j]).id
        &&& forall|i: int|
            0 <= i < self.users@.len() ==> (#[trigger] self.users@[i]).id < self.next_user_id
    }

    /// Category ids are unique and below the next fresh id, and every
    /// category's owner exists.
    pub open spec fn categories_wf(self) -> bool {
        &&& forall|i: int, j: int|
            0 <= i < j < self.categories@.len() ==> (#[trigger] self.categories@[i]).id != (
            #[trigger] self.categories@[j]).id
        &&& forall|i: int|
            0 <= i < self.categories@.len() ==> (#[trigger] self.categories@[i]).id
                < self.next_category_id
        &&& forall|i: int|
            0 <= i < self.categories@.len() ==> self.has_user(
                (#[trigger] self.categories@[i]).owner_user_id as int,
            )
    }

    /// The transaction references a category that exists and has the same
    /// owner as the transaction itself.
    pub open spec fn tx_linked(self, t: Transaction) -> bool {
        exists|j: int|
            0 <= j < self.categories@.len() && (#[trigger] self.categories@[j]).id == t.category_id
                && self.categories@[j].owner_user_id == t.owner_user_id
    }

    /// Transaction ids are unique and below the next fresh id; every
    /// transaction has a positive amount and references a category of its
    /// own owner.
    pub open spec fn transactions_wf(self) -> bool {
        &&& forall|i: int, j: int|
            0 <= i < j < self.transactions@.len() ==> (#[trigger] self.transactions@[i]).id != (
            #[trigger] self.transactions@[j]).id
        &&& forall|i: int|
            0 <= i < self.transactions@.len() ==> (#[trigger] self.transactions@[i]).id
                < self.next_transaction_id
        &&& forall|i: int|
            0 <= i < self.transactions@.len() ==> (#[trigger] self.transactions@[i]).amount > 0
        &&& forall|i: int|
            0 <= i < self.transactions@.len() ==> self.tx_linked(
                #[trigger] self.transactions@[i],
            )
    }

    /// Every user's balance is the signed sum of their transactions, every
    /// category's balance is the signed sum of the transactions referencing
    /// it, and no balance is negative.
    pub open spec fn balances_wf(self) -> bool {
        &&& forall|i: int|
            0 <= i < self.users@.len() ==> (#[trigger] self.users@[i]).balance == user_sum(
                self.transactions@,
                self.users@[i].id as int,
            )
        &&& forall|i: int| 0 <= i < self.users@.len() ==> (#[trigger] self.users@[i]).balance >= 0
        &&& forall|i: int|
            0 <= i < self.categories@.len() ==> (#[trigger] self.categories@[i]).balance == cat_sum(
                self.transactions@,
                self.categories@[i].id as int,
            )
        &&& forall|i: int|
            0 <= i < self.categories@.len() ==> (#[trigger] self.categories@[i]).balance >= 0
    }

    /// Well-formedness of the whole store.  Every public operation requires
    /// it and establishes it again.
    pub open spec fn wf(self) -> bool {
        &&& self.users_wf()
        &&& self.categories_wf()
        &&& self.transactions_wf()
        &&& self.balances_wf()
    }

    /// The row at a given index is the one the id-keyed accessors name.
    pub proof fn lemma_user_index(self, i: int)
        requires
            self.users_wf(),
            0 <= i < self.users@.len(),
        ensures
            self.has_user(self.users@[i].id as int),
            self.user_idx(self.users@[i].id as int) == i,
            self.user_at(self.users@[i].id as int) == self.users@[i],
    {
        let uid = self.users@[i].id as int;
        assert(self.has_user(uid));
        let k = self.user_idx(uid);
        assert(0 <= k < self.users@.len() && self.users@[k].id == uid);
        if k < i {
            assert(self.users@[k].id != self.users@[i].id);
        } else if i < k {
            assert(self.users@[i].id != self.users@[k].id);
        }
    }

    /// The row at a given index is the one the id-keyed accessors name.
    pub proof fn lemma_category_index(self, i: int)
        requires
            self.categories_wf(),
            0 <= i < self.categories@.len(),
        ensures
            self.has_category(self.categories@[i].id as int),
            self.cat_idx(self.categories@[i].id as int) == i,
            self.category_at(self.categories@[i].id as int) == self.categories@[i],
    {
        let cid = self.categories@[i].id as int;
        assert(self.has_category(cid));
        let k = self.cat_idx(cid);
        assert(0 <= k < self.categories@.len() && self.categories@[k].id == cid);
        if k < i {
            assert(self.categories@[k].id != self.categories@[i].id);
        } else if i < k {
            assert(self.categories@[i].id != self.categories@[k].id);
        }
    }

    /// The row at a given index is the one the id-keyed accessors name.
    pub proof fn lemma_transaction_index(self, i: int)
        requires
            self.transactions_wf(),
            0 <= i < self.transactions@.len(),
        ensures
            self.has_transaction(self.transactions@[i].id as int),
            self.tx_idx(self.transactions@[i].id as int) == i,
            self.transaction_at(self.transactions@[i].id as int) == self.transactions@[i],
    {
        let tid = self.transactions@[i].id as int;
        assert(self.has_transaction(tid));
        let k = self.tx_idx(tid);
        assert(0 <= k < self.transactions@.len() && self.transactions@[k].id == tid);
        if k < i {
            assert(self.transactions@[k].id != self.transactions@[i].id);
        } else if i < k {
            assert(self.transactions@[i].id != self.transactions@[k].id);
        }
    }

    /// Two stores whose user rows carry the same ids pointwise agree on
    /// user lookups.
    pub proof fn lemma_user_idx_same(pre: Ledger, post: Ledger, x: int)
        requires
            pre.users_wf(),
            post.users@.len() == pre.users@.len(),
            forall|j: int|
                0 <= j < pre.users@.len() ==> (#[trigger] post.users@[j]).id == pre.users@[j].id,
            pre.has_user(x),
        ensures
            post.has_user(x),
            post.user_idx(x) == pre.user_idx(x),
    {
        let k1 = pre.user_idx(x);
        assert(0 <= k1 < pre.users@.len() && pre.users@[k1].id == x);
        assert(post.users@[k1].id == x);
        assert(post.has_user(x));
        let k2 = post.user_idx(x);
        assert(0 <= k2 < post.users@.len() && post.users@[k2].id == x);
        assert(pre.users@[k2].id == x);
        if k1 < k2 {
            assert(pre.users@[k1].id != pre.users@[k2].id);
        } else if k2 < k1 {
            assert(pre.users@[k2].id != pre.users@[k1].id);
        }
    }

    /// Two stores whose category rows carry the same ids pointwise agree
    /// on category lookups.
    pub proof fn lemma_cat_idx_same(pre: Ledger, post: Ledger, x: int)
        requires
            pre.categories_wf(),
            post.categories@.len() == pre.categories@.len(),
            forall|j: int|
                0 <= j < pre.categories@.len() ==> (#[trigger] post.categories@[j]).id
                    == pre.categories@[j].id,
            pre.has_category(x),
        ensures
            post.has_category(x),
            post.cat_idx(x) == pre.cat_idx(x),
    {
        let k1 = pre.cat_idx(x);
        assert(0 <= k1 < pre.categories@.len() && pre.categories@[k1].id == x);
        assert(post.categories@[k1].id == x);
        assert(post.has_category(x));
        let k2 = post.cat_idx(x);
        assert(0 <= k2 < post.categories@.len() && post.categories@[k2].id == x);
        assert(pre.categories@[k2].id == x);
        if k1 < k2 {
            assert(pre.categories@[k1].id != pre.categories@[k2].id);
        } else if k2 < k1 {
            assert(pre.categories@[k2].id != pre.categories@[k1].id);
        }
    }

    /// An empty ledger.
    pub fn new() -> (l: Ledger)
        ensures
            l.wf(),
            l.users@.len() == 0,
            l.categories@.len() == 0,
            l.transactions@.len() == 0,
            l.next_user_id == 1,
            l.next_category_id == 1,
            l.next_transaction_id == 1,
    {
        Ledger {
            users: Vec::new(),
            categories: Vec::new(),
            transactions: Vec::new(),
            next_user_id: 1,
            next_category_id: 1,
            next_transaction_id: 1,
        }
    }

    /// Point lookup of a user row by id.
    pub fn find_user_index(&self, user_id: i32) -> (r: Option<usize>)
        requires
            self.users_wf(),
        ensures
            match r {
                Some(j) => j < self.users@.len() && self.users@[j as int].id == user_id
                    && self.has_user(user_id as int) && self.user_idx(user_id as int) == j,
                None => !self.has_user(user_id as int),
            },
    {
        let mut i: usize = 0;
        while i < self.users.len()
            invariant
                i <= self.users@.len(),
                self.users_wf(),
                forall|k: int| 0 <= k < i ==> (#[trigger] self.users@[k]).id != user_id,
            decreases self.users@.len() - i,
        {
            if self.users[i].id == user_id {
                proof {
                    self.lemma_user_index(i as int);
                }
                return Some(i);
            }
            i = i + 1;
        }
        None
    }

    /// Point lookup of a category row by id, scoped to one owner: a
    /// category of another user is reported exactly as a missing one.
    pub fn find_category_index(&self, owner_user_id: i32, category_id: i32) -> (r: Option<usize>)
        requires
            self.categories_wf(),
        ensures
            match r {
                Some(j) => j < self.categories@.len() && self.categories@[j as int].id
                    == category_id && self.categories@[j as int].owner_user_id == owner_user_id
                    && self.category_owned(owner_user_id as int, category_id as int)
                    && self.cat_idx(category_id as int) == j,
                None => !self.category_owned(owner_user_id as int, category_id as int),
            },
    {
        let mut i: usize = 0;
        while i < self.categories.len()
            invariant
                i <= self.categories@.len(),
                self.categories_wf(),
                forall|k: int| 0 <= k < i ==> (#[trigger] self.categories@[k]).id != category_id,
            decreases self.categories@.len() - i,
        {
            if self.categories[i].id == category_id {
                proof {
                    self.lemma_category_index(i as int);
                }
                if self.categories[i].owner_user_id == owner_user_id {
                    return Some(i);
                } else {
                    return None;
                }
            }
            i = i + 1;
        }
        None
    }

    /// Point lookup of a category row by id alone, whoever owns it.
    pub fn find_category_index_any(&self, category_id: i32) -> (r: Option<usize>)
        requires
            self.categories_wf(),
        ensures
            match r {
                Some(j) => j < self.categories@.len() && self.categories@[j as int].id
                    == category_id && self.has_category(category_id as int) && self.cat_idx(
                    category_id as int,
                ) == j,
                None => !self.has_category(category_id as int),
            },
    {
        let mut i: usize = 0;
        while i < self.categories.len()
            invariant
                i <= self.categories@.len(),
                self.categories_wf(),
                forall|k: int| 0 <= k < i ==> (#[trigger] self.categories@[k]).id != category_id,
            decreases self.categories@.len() - i,
        {
            if self.categories[i].id == category_id {
                proof {
                    self.lemma_category_index(i as int);
                }
                return Some(i);
            }
            i = i + 1;
        }
        None
    }

    /// Point lookup of a transaction row by id, scoped to one owner: a
    /// transaction of another user is reported exactly as a missing one.
    pub fn find_transaction_index(&self, owner_user_id: i32, transaction_id: i32) -> (r: Option<
        usize,
    >)
        requires
            self.transactions_wf(),
        ensures
            match r {
                Some(j) => j < self.transactions@.len() && self.transactions@[j as int].id
                    == transaction_id && self.transactions@[j as int].owner_user_id
                    == owner_user_id && self.transaction_owned(
                    owner_user_id as int,
                    transaction_id as int,
                ) && self.tx_idx(transaction_id as int) == j,
                None => !self.transaction_owned(owner_user_id as int, transaction_id as int),
            },
    {
        let mut i: usize = 0;
        while i < self.transactions.len()
            invariant
                i <= self.transactions@.len(),
                self.transactions_wf(),
                forall|k: int|
                    0 <= k < i ==> (#[trigger] self.transactions@[k]).id != transaction_id,
            decreases self.transactions@.len() - i,
        {
            if self.transactions[i].id == transaction_id {
                proof {
                    self.lemma_transaction_index(i as int);
                }
                if self.transactions[i].owner_user_id == owner_user_id {
                    return Some(i);
                } else {
                    return None;
                }
            }
            i = i + 1;
        }
        None
    }

    /// The balance of one user, if the user exists.
    pub fn get_user_balance(&self, user_id: i32) -> (r: Option<i64>)
        requires
            self.users_wf(),
        ensures
            match r {
                Some(b) => self.has_user(user_id as int) && b == self.user_balance(user_id as int),
                None => !self.has_user(user_id as int),
            },
    {
        match self.find_user_index(user_id) {
            Some(j) => Some(self.users[j].balance),
            None => None,
        }
    }

    /// Creates a user with balance zero and a fresh id, as sign-up does.
    pub fn create_user(&mut self) -> (id: i32)
        requires
            old(self).wf(),
            old(self).next_user_id < i32::MAX,
        ensures
            final(self).wf(),
            id == old(self).next_user_id,
            final(self).users@ == old(self).users@.push(User { id, balance: 0 }),
            final(self).categories@ == old(self).categories@,
            final(self).transactions@ == old(self).transactions@,
            final(self).next_user_id == old(self).next_user_id + 1,
            final(self).next_category_id == old(self).next_category_id,
            final(self).next_transaction_id == old(self).next_transaction_id,
            final(self).has_user(id as int),
            final(self).user_balance(id as int) == 0,
    {
        let id = self.next_user_id;
        self.users.push(User { id, balance: 0 });
        self.next_user_id = self.next_user_id + 1;
        proof {
            let post = *self;
            let n = post.users@.len() - 1;
            // no transaction can belong to the fresh id: each is linked to a
            // category whose owner already existed, with an id below the old
            // next fresh id
            assert forall|k: int| 0 <= k < post.transactions@.len() implies (
            #[trigger] post.transactions@[k]).owner_user_id != id by {
                let t = post.transactions@[k];
                assert(old(self).tx_linked(t));
                let j = choose|j: int|
                    0 <= j < old(self).categories@.len() && (#[trigger] old(
                        self,
                    ).categories@[j]).id == t.category_id && old(self).categories@[j].owner_user_id
                        == t.owner_user_id;
                assert(old(self).has_user(old(self).categories@[j].owner_user_id as int));
                let u = choose|u: int|
                    0 <= u < old(self).users@.len() && (#[trigger] old(self).users@[u]).id
                        == t.owner_user_id;
                assert(old(self).users@[u].id < old(self).next_user_id);
            };
            lemma_user_sum_zero(post.transactions@, id as int);
            // the fresh id is distinct from every existing one
            assert forall|i: int, j: int| 0 <= i < j < post.users@.len() implies (
            #[trigger] post.users@[i]).id != (#[trigger] post.users@[j]).id by {
                if j == n {
                    assert(old(self).users@[i].id < old(self).next_user_id);
                }
            };
            // existing categories still have their owners
            assert forall|i: int| 0 <= i < post.categories@.len() implies post.has_user(
                (#[trigger] post.categories@[i]).owner_user_id as int,
            ) by {
                assert(old(self).has_user(old(self).categories@[i].owner_user_id as int));
                let u = choose|u: int|
                    0 <= u < old(self).users@.len() && (#[trigger] old(self).users@[u]).id
                        == old(self).categories@[i].owner_user_id;
                assert(post.users@[u].id == post.categories@[i].owner_user_id);
            };
            // transactions are still linked: the category table is unchanged
            assert forall|i: int| 0 <= i < post.transactions@.len() implies post.tx_linked(
                #[trigger] post.transactions@[i],
            ) by {
                let t = post.transactions@[i];
                assert(old(self).tx_linked(t));
                let j = choose|j: int|
                    0 <= j < old(self).categories@.len() && (#[trigger] old(
                        self,
                    ).categories@[j]).id == t.category_id && old(self).categories@[j].owner_user_id
                        == t.owner_user_id;
                assert(post.categories@[j].id == t.category_id);
            };
            post.lemma_user_index(n);
        }
        id
    }
}

} // verus!
