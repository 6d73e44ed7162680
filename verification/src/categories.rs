//! Category operations: creating, reading and editing envelopes, and
//! deleting one together with its transactions.  Deleting a category takes
//! the category's rolled-up balance out of the owner's total, so the
//! user's balance stays equal to the signed sum of the transactions that
//! remain.

use vstd::prelude::*;

use crate::model::Category;
use crate::model::LedgerError;
use crate::model::Transaction;
use crate::model::User;
use crate::model::clone_category;
use crate::mutator::user_shifted;
use crate::store::Ledger;
use crate::sums::cat_contrib;
use crate::sums::cat_sum;
use crate::sums::lemma_cat_sum_remove;
use crate::sums::lemma_cat_sum_zero;
use crate::sums::lemma_user_sum_remove;
use crate::sums::lemma_user_sum_zero;
use crate::sums::user_contrib;
use crate::sums::user_sum;

verus! {

/// The categories belonging to user `uid`, in table order.
pub open spec fn cats_of_user(cats: Seq<Category>, uid: int) -> Seq<Category>
    decreases cats.len(),
{
    if cats.len() == 0 {
        Seq::empty()
    } else if cats.last().owner_user_id == uid {
        cats_of_user(cats.drop_last(), uid).push(cats.last())
    } else {
        cats_of_user(cats.drop_last(), uid)
    }
}

/// The transactions that survive deleting category `cid`, in table order.
pub open spec fn without_category(txs: Seq<Transaction>, cid: int) -> Seq<Transaction>
    decreases txs.len(),
{
    if txs.len() == 0 {
        Seq::empty()
    } else if txs.last().category_id == cid {
        without_category(txs.drop_last(), cid)
    } else {
        without_category(txs.drop_last(), cid).push(txs.last())
    }
}

/// When deleting a category is owed success.  The balance guard can never
/// fire in a well-formed store — the owner's total is at least each
/// envelope's share — but the store checks true current state rather than
/// assume it.
pub open spec fn delete_category_allowed(l: Ledger, owner: int, cid: int) -> bool {
    &&& l.category_owned(owner, cid)
    &&& l.user_balance(owner) >= l.category_balance(cid)
}

/// Which error a rejected category delete carries.
pub open spec fn delete_category_err(l: Ledger, owner: int, cid: int) -> LedgerError {
    if !l.category_owned(owner, cid) {
        LedgerError::NotFoundOrUnauthorized
    } else {
        LedgerError::InsufficientFunds
    }
}

/// What a committed category delete did: the category row and its
/// transactions are gone, and the owner's balance dropped by the
/// category's balance; nothing else moved.
pub open spec fn delete_category_ok_post(pre: Ledger, post: Ledger, owner: int, cid: int) -> bool {
    &&& post.categories@ == pre.categories@.remove(pre.cat_idx(cid))
    &&& post.transactions@ == without_category(pre.transactions@, cid)
    &&& post.users@.len() == pre.users@.len()
    &&& forall|j: int|
        0 <= j < pre.users@.len() ==> if (#[trigger] pre.users@[j]).id == owner {
            user_shifted(pre.users@[j], #[trigger] post.users@[j], -pre.category_balance(cid))
        } else {
            post.users@[j] == pre.users@[j]
        }
    &&& post.next_user_id == pre.next_user_id
    &&& post.next_category_id == pre.next_category_id
    &&& post.next_transaction_id == pre.next_transaction_id
}

impl Ledger {
    /// Creates a category with balance zero and a fresh id for an existing
    /// user.
    pub fn create_category(
        &mut self,
        owner_user_id: i32,
        name: String,
        description: Option<String>,
    ) -> (r: Result<Category, LedgerError>)
        requires
            old(self).wf(),
            old(self).next_category_id < i32::MAX,
        ensures
            final(self).wf(),
            r is Ok <==> old(self).has_user(owner_user_id as int),
            match r {
                Ok(c) => {
                    &&& c.id == old(self).next_category_id
                    &&& c.owner_user_id == owner_user_id
                    &&& c.name == name
                    &&& c.description == description
                    &&& c.balance == 0
                    &&& c.created_at == c.updated_at
                    &&& final(self).categories@ == old(self).categories@.push(c)
                    &&& final(self).users@ == old(self).users@
                    &&& final(self).transactions@ == old(self).transactions@
                    &&& final(self).next_category_id == old(self).next_category_id + 1
                    &&& final(self).next_user_id == old(self).next_user_id
                    &&& final(self).next_transaction_id == old(self).next_transaction_id
                },
                Err(e) => {
                    &&& *final(self) == *old(self)
                    &&& e == LedgerError::NotFoundOrUnauthorized
                },
            },
    {
        match self.find_user_index(owner_user_id) {
            Some(_) => {},
            None => {
                return Err(LedgerError::NotFoundOrUnauthorized);
            },
        }
        let now = crate::clock::now_micros();
        let id = self.next_category_id;
        let c = Category {
            id,
            owner_user_id,
            name,
            description,
            balance: 0,
            created_at: now,
            updated_at: now,
        };
        let cr = clone_category(&c);
        let ghost gc = c;
        self.categories.push(c);
        self.next_category_id = id + 1;
        proof {
            let pre = *old(self);
            let post = *self;
            let n = post.categories@.len() - 1;
            // no transaction can reference the fresh id: each is linked to
            // a category with an id below the old next fresh id
            assert forall|k: int| 0 <= k < post.transactions@.len() implies (
            #[trigger] post.transactions@[k]).category_id != id by {
                let t = post.transactions@[k];
                assert(pre.tx_linked(t));
                let w = choose|w: int|
                    0 <= w < pre.categories@.len() && (#[trigger] pre.categories@[w]).id
                        == t.category_id && pre.categories@[w].owner_user_id == t.owner_user_id;
                assert(pre.categories@[w].id < pre.next_category_id);
            };
            lemma_cat_sum_zero(post.transactions@, id as int);
            assert forall|i: int, j: int| 0 <= i < j < post.categories@.len() implies (
            #[trigger] post.categories@[i]).id != (#[trigger] post.categories@[j]).id by {
                if j == n {
                    assert(pre.categories@[i].id < pre.next_category_id);
                }
            };
            assert forall|i: int| 0 <= i < post.transactions@.len() implies post.tx_linked(
                #[trigger] post.transactions@[i],
            ) by {
                let t = post.transactions@[i];
                assert(pre.tx_linked(t));
                let w = choose|w: int|
                    0 <= w < pre.categories@.len() && (#[trigger] pre.categories@[w]).id
                        == t.category_id && pre.categories@[w].owner_user_id == t.owner_user_id;
                assert(post.categories@[w].id == t.category_id);
            };
            assert forall|i: int| 0 <= i < post.categories@.len() implies post.has_user(
                (#[trigger] post.categories@[i]).owner_user_id as int,
            ) by {
                assert(pre.has_user(post.categories@[i].owner_user_id as int));
                let w = choose|w: int|
                    0 <= w < pre.users@.len() && (#[trigger] pre.users@[w]).id
                        == post.categories@[i].owner_user_id;
                assert(post.users@[w].id == post.categories@[i].owner_user_id);
            };
            assert(post.users_wf());
            assert(post.categories_wf());
            assert(post.transactions_wf());
            assert(post.balances_wf());
            assert(post.wf());
        }
        Ok(cr)
    }

    /// Point read of one category, scoped to its owner.
    pub fn get_category(&self, owner_user_id: i32, category_id: i32) -> (r: Result<
        Category,
        LedgerError,
    >)
        requires
            self.categories_wf(),
        ensures
            r is Ok <==> self.category_owned(owner_user_id as int, category_id as int),
            match r {
                Ok(c) => c == self.category_at(category_id as int),
                Err(e) => e == LedgerError::NotFoundOrUnauthorized,
            },
    {
        match self.find_category_index(owner_user_id, category_id) {
            Some(j) => Ok(clone_category(&self.categories[j])),
            None => Err(LedgerError::NotFoundOrUnauthorized),
        }
    }

    /// All categories of one user, in table order.
    pub fn get_all_categories(&self, owner_user_id: i32) -> (r: Vec<Category>)
        ensures
            r@ == cats_of_user(self.categories@, owner_user_id as int),
    {
        let mut out: Vec<Category> = Vec::new();
        let mut i: usize = 0;
        while i < self.categories.len()
            invariant
                i <= self.categories@.len(),
                out@ == cats_of_user(self.categories@.take(i as int), owner_user_id as int),
            decreases self.categories@.len() - i,
        {
            if self.categories[i].owner_user_id == owner_user_id {
                out.push(clone_category(&self.categories[i]));
            }
            proof {
                assert(self.categories@.take(i + 1 as int).drop_last() =~= self.categories@.take(
                    i as int,
                ));
                assert(self.categories@.take(i + 1 as int).last() == self.categories@[i as int]);
            }
            i = i + 1;
        }
        proof {
            assert(self.categories@.take(self.categories@.len() as int) =~= self.categories@);
        }
        out
    }

    /// Edits a category's name and description; the owner and the balance
    /// are untouched.
    pub fn update_category(
        &mut self,
        owner_user_id: i32,
        category_id: i32,
        name: String,
        description: Option<String>,
    ) -> (r: Result<Category, LedgerError>)
        requires
            old(self).wf(),
        ensures
            final(self).wf(),
            r is Ok <==> old(self).category_owned(owner_user_id as int, category_id as int),
            match r {
                Ok(c) => {
                    let i = old(self).cat_idx(category_id as int);
                    let c0 = old(self).categories@[i];
                    &&& c.id == c0.id
                    &&& c.owner_user_id == c0.owner_user_id
                    &&& c.balance == c0.balance
                    &&& c.created_at == c0.created_at
                    &&& c.name == name
                    &&& c.description == description
                    &&& final(self).categories@ == old(self).categories@.update(i, c)
                    &&& final(self).users@ == old(self).users@
                    &&& final(self).transactions@ == old(self).transactions@
                    &&& final(self).next_user_id == old(self).next_user_id
                    &&& final(self).next_category_id == old(self).next_category_id
                    &&& final(self).next_transaction_id == old(self).next_transaction_id
                },
                Err(e) => {
                    &&& *final(self) == *old(self)
                    &&& e == LedgerError::NotFoundOrUnauthorized
                },
            },
    {
        let j = match self.find_category_index(owner_user_id, category_id) {
            Some(j) => j,
            None => {
                return Err(LedgerError::NotFoundOrUnauthorized);
            },
        };
        let ghost pre = *self;
        let c0 = self.categories.remove(j);
        let now = crate::clock::now_micros();
        let c2 = Category {
            id: c0.id,
            owner_user_id: c0.owner_user_id,
            name,
            description,
            balance: c0.balance,
            created_at: c0.created_at,
            updated_at: now,
        };
        let cr = clone_category(&c2);
        let ghost gc2 = c2;
        self.categories.insert(j, c2);
        proof {
            let post = *self;
            let i = j as int;
            assert(post.categories@ =~= pre.categories@.update(i, gc2));
            assert forall|a: int, b: int| 0 <= a < b < post.categories@.len() implies (
            #[trigger] post.categories@[a]).id != (#[trigger] post.categories@[b]).id by {
                assert(pre.categories@[a].id != pre.categories@[b].id);
            };
            assert forall|a: int| 0 <= a < post.transactions@.len() implies post.tx_linked(
                #[trigger] post.transactions@[a],
            ) by {
                let t = post.transactions@[a];
                assert(pre.tx_linked(t));
                let w = choose|w: int|
                    0 <= w < pre.categories@.len() && (#[trigger] pre.categories@[w]).id
                        == t.category_id && pre.categories@[w].owner_user_id == t.owner_user_id;
                assert(post.categories@[w].id == t.category_id);
            };
            assert forall|a: int| 0 <= a < post.categories@.len() implies post.has_user(
                (#[trigger] post.categories@[a]).owner_user_id as int,
            ) by {
                assert(pre.has_user(pre.categories@[a].owner_user_id as int));
                let w = choose|w: int|
                    0 <= w < pre.users@.len() && (#[trigger] pre.users@[w]).id
                        == pre.categories@[a].owner_user_id;
                assert(post.users@[w].id == post.categories@[a].owner_user_id);
            };
            assert(post.users_wf());
            assert(post.categories_wf());
            assert(post.transactions_wf());
            assert(post.balances_wf());
            assert(post.wf());
        }
        Ok(cr)
    }

    /// Deletes a category together with its transactions, and takes the
    /// category's rolled-up balance out of the owner's total, all as one
    /// atomic unit.  A rejected delete leaves the store untouched.
    pub fn delete_category(&mut self, owner_user_id: i32, category_id: i32) -> (r: Result<
        (),
        LedgerError,
    >)
        requires
            old(self).wf(),
        ensures
            final(self).wf(),
            r is Ok <==> delete_category_allowed(
                *old(self),
                owner_user_id as int,
                category_id as int,
            ),
            match r {
                Ok(()) => delete_category_ok_post(
                    *old(self),
                    *final(self),
                    owner_user_id as int,
                    category_id as int,
                ),
                Err(e) => {
                    &&& *final(self) == *old(self)
                    &&& e == delete_category_err(
                        *old(self),
                        owner_user_id as int,
                        category_id as int,
                    )
                },
            },
    {
        let cat_j = match self.find_category_index(owner_user_id, category_id) {
            Some(j) => j,
            None => {
                return Err(LedgerError::NotFoundOrUnauthorized);
            },
        };
        let cbal = self.categories[cat_j].balance;
        let uid_j = match self.find_user_index(owner_user_id) {
            Some(j) => j,
            None => {
                proof {
                    assert(old(self).has_user(
                        old(self).categories@[cat_j as int].owner_user_id as int,
                    ));
                }
                return Err(LedgerError::NotFoundOrUnauthorized);
            },
        };
        let ubal = self.users[uid_j].balance;
        if ubal < cbal {
            return Err(LedgerError::InsufficientFunds);
        }
        let ghost pre = *old(self);
        let owner = owner_user_id;
        // the owner's total drops by the envelope's share
        let u = self.users.remove(uid_j);
        self.users.insert(uid_j, User { id: u.id, balance: ubal - cbal });
        // the category row goes
        let _c = self.categories.remove(cat_j);
        let ghost mid = *self;
        proof {
            assert(mid.users@ =~= pre.users@.update(
                uid_j as int,
                User { id: owner, balance: (ubal - cbal) as i64 },
            ));
            // rows other than the found ones keep their ids
            assert forall|j: int|
                0 <= j < pre.users@.len() && j != uid_j as int implies (
            #[trigger] pre.users@[j]).id != owner by {
                if j < uid_j as int {
                    assert(pre.users@[j].id != pre.users@[uid_j as int].id);
                } else {
                    assert(pre.users@[uid_j as int].id != pre.users@[j].id);
                }
            };
            assert forall|j: int|
                0 <= j < pre.categories@.len() && j != cat_j as int implies (
            #[trigger] pre.categories@[j]).id != category_id by {
                if j < cat_j as int {
                    assert(pre.categories@[j].id != pre.categories@[cat_j as int].id);
                } else {
                    assert(pre.categories@[cat_j as int].id != pre.categories@[j].id);
                }
            };
            // a transaction of this category is a transaction of this owner
            assert forall|a: int|
                0 <= a < pre.transactions@.len() && (#[trigger] pre.transactions@[a]).category_id
                    == category_id implies pre.transactions@[a].owner_user_id == owner by {
                let t = pre.transactions@[a];
                assert(pre.tx_linked(t));
                let w = choose|w: int|
                    0 <= w < pre.categories@.len() && (#[trigger] pre.categories@[w]).id
                        == t.category_id && pre.categories@[w].owner_user_id == t.owner_user_id;
                if w != cat_j as int {
                    assert(pre.categories@[w].id != category_id);
                }
            };
            // every transaction of another category stays linked after the
            // row is gone
            assert forall|a: int|
                0 <= a < pre.transactions@.len() && (#[trigger] pre.transactions@[a]).category_id
                    != category_id implies mid.tx_linked(pre.transactions@[a]) by {
                let t = pre.transactions@[a];
                assert(pre.tx_linked(t));
                let w = choose|w: int|
                    0 <= w < pre.categories@.len() && (#[trigger] pre.categories@[w]).id
                        == t.category_id && pre.categories@[w].owner_user_id == t.owner_user_id;
                if w < cat_j as int {
                    assert(mid.categories@[w].id == t.category_id);
                } else {
                    assert(w != cat_j as int);
                    assert(mid.categories@[w - 1].id == t.category_id);
                }
            };
        }
        // cascade: every transaction of the category goes too
        let mut k: usize = 0;
        let ghost mut m: int = 0;
        while k < self.transactions.len()
            invariant
                0 <= m <= pre.transactions@.len(),
                k <= self.transactions@.len(),
                self.transactions@ == without_category(
                    pre.transactions@.take(m),
                    category_id as int,
                ) + pre.transactions@.skip(m),
                k as int == without_category(pre.transactions@.take(m), category_id as int).len(),
                forall|a: int|
                    0 <= a < k ==> (#[trigger] self.transactions@[a]).category_id != category_id,
                self.users@ == mid.users@,
                self.categories@ == mid.categories@,
                self.next_user_id == mid.next_user_id,
                self.next_category_id == mid.next_category_id,
                self.next_transaction_id == mid.next_transaction_id,
                forall|a: int, b: int|
                    0 <= a < b < self.transactions@.len() ==> (
                    #[trigger] self.transactions@[a]).id != (#[trigger] self.transactions@[b]).id,
                forall|a: int|
                    0 <= a < self.transactions@.len() ==> (#[trigger] self.transactions@[a]).amount
                        > 0 && self.transactions@[a].id < self.next_transaction_id,
                forall|a: int|
                    0 <= a < self.transactions@.len() && (
                    #[trigger] self.transactions@[a]).category_id == category_id
                        ==> self.transactions@[a].owner_user_id == owner,
                forall|a: int|
                    0 <= a < self.transactions@.len() && (
                    #[trigger] self.transactions@[a]).category_id != category_id
                        ==> mid.tx_linked(self.transactions@[a]),
                forall|x: int|
                    x != owner as int ==> #[trigger] user_sum(self.transactions@, x) == user_sum(
                        pre.transactions@,
                        x,
                    ),
                user_sum(self.transactions@, owner as int) == user_sum(
                    pre.transactions@,
                    owner as int,
                ) - (cat_sum(pre.transactions@, category_id as int) - cat_sum(
                    self.transactions@,
                    category_id as int,
                )),
                forall|c: int|
                    c != category_id as int ==> #[trigger] cat_sum(self.transactions@, c)
                        == cat_sum(pre.transactions@, c),
            decreases self.transactions@.len() - k,
        {
            let ghost cur = self.transactions@;
            let ghost a_part = without_category(pre.transactions@.take(m), category_id as int);
            proof {
                assert(pre.transactions@.skip(m).len() > 0);
                assert(cur[k as int] == pre.transactions@.skip(m)[k - a_part.len()]);
                assert(cur[k as int] == pre.transactions@[m]);
                assert(pre.transactions@.take(m + 1).drop_last() =~= pre.transactions@.take(m));
                assert(pre.transactions@.take(m + 1).last() == pre.transactions@[m]);
            }
            if self.transactions[k].category_id == category_id {
                let ghost t = cur[k as int];
                self.transactions.remove(k);
                proof {
                    assert(self.transactions@ =~= a_part + pre.transactions@.skip(m + 1));
                    assert(without_category(pre.transactions@.take(m + 1), category_id as int)
                        =~= a_part);
                    // sum bookkeeping for the removed row
                    assert forall|x: int|
                        x != owner as int implies #[trigger] user_sum(self.transactions@, x)
                            == user_sum(pre.transactions@, x) by {
                        lemma_user_sum_remove(cur, k as int, x);
                        assert(user_contrib(t, x) == 0);
                    };
                    lemma_user_sum_remove(cur, k as int, owner as int);
                    lemma_cat_sum_remove(cur, k as int, category_id as int);
                    assert(user_contrib(t, owner as int) == cat_contrib(t, category_id as int));
                    assert forall|c: int|
                        c != category_id as int implies #[trigger] cat_sum(self.transactions@, c)
                            == cat_sum(pre.transactions@, c) by {
                        lemma_cat_sum_remove(cur, k as int, c);
                        assert(cat_contrib(t, c) == 0);
                    };
                    m = m + 1;
                }
            } else {
                proof {
                    assert(without_category(pre.transactions@.take(m + 1), category_id as int)
                        =~= a_part.push(pre.transactions@[m]));
                    assert(self.transactions@ =~= a_part.push(pre.transactions@[m])
                        + pre.transactions@.skip(m + 1));
                    m = m + 1;
                }
                k = k + 1;
            }
        }
        proof {
            let post = *self;
            assert(pre.transactions@.skip(m).len() == 0);
            assert(m == pre.transactions@.len());
            assert(pre.transactions@.take(m) =~= pre.transactions@);
            assert(post.transactions@ =~= without_category(pre.transactions@, category_id as int));
            assert(post.transactions@ == without_category(pre.transactions@, category_id as int));
            // nothing of the deleted category is left, so its sum is zero
            lemma_cat_sum_zero(post.transactions@, category_id as int);
            // the checked balances were the invariant sums
            pre.lemma_user_index(uid_j as int);
            pre.lemma_category_index(cat_j as int);
            assert(ubal == user_sum(pre.transactions@, owner as int));
            assert(cbal == cat_sum(pre.transactions@, category_id as int));
            assert forall|j: int| 0 <= j < post.users@.len() implies (
            #[trigger] post.users@[j]).balance == user_sum(post.transactions@, post.users@[j].id as int)
                && post.users@[j].balance >= 0 by {
                if j != uid_j as int {
                    assert(pre.users@[j].id != owner);
                }
            };
            assert forall|j: int| 0 <= j < post.categories@.len() implies (
            #[trigger] post.categories@[j]).balance == cat_sum(
                post.transactions@,
                post.categories@[j].id as int,
            ) && post.categories@[j].balance >= 0 by {
                let j0 = if j < cat_j as int {
                    j
                } else {
                    j + 1
                };
                assert(post.categories@[j] == pre.categories@[j0]);
                if j0 != cat_j as int {
                    assert(pre.categories@[j0].id != category_id);
                }
            };
            assert forall|a: int, b: int| 0 <= a < b < post.categories@.len() implies (
            #[trigger] post.categories@[a]).id != (#[trigger] post.categories@[b]).id by {
                let a0 = if a < cat_j as int {
                    a
                } else {
                    a + 1
                };
                let b0 = if b < cat_j as int {
                    b
                } else {
                    b + 1
                };
                assert(post.categories@[a] == pre.categories@[a0]);
                assert(post.categories@[b] == pre.categories@[b0]);
                assert(pre.categories@[a0].id != pre.categories@[b0].id);
            };
            assert forall|a: int| 0 <= a < post.categories@.len() implies post.has_user(
                (#[trigger] post.categories@[a]).owner_user_id as int,
            ) by {
                let a0 = if a < cat_j as int {
                    a
                } else {
                    a + 1
                };
                assert(post.categories@[a] == pre.categories@[a0]);
                assert(pre.has_user(pre.categories@[a0].owner_user_id as int));
                let w = choose|w: int|
                    0 <= w < pre.users@.len() && (#[trigger] pre.users@[w]).id
                        == pre.categories@[a0].owner_user_id;
                assert(post.users@[w].id == pre.categories@[a0].owner_user_id);
            };
            assert forall|a: int| 0 <= a < post.transactions@.len() implies post.tx_linked(
                #[trigger] post.transactions@[a],
            ) by {
                assert(mid.tx_linked(post.transactions@[a]));
            };
            assert forall|a: int, b: int| 0 <= a < b < post.users@.len() implies (
            #[trigger] post.users@[a]).id != (#[trigger] post.users@[b]).id by {
                assert(pre.users@[a].id != pre.users@[b].id);
            };
            assert(post.wf());
            assert(delete_category_ok_post(pre, post, owner as int, category_id as int));
        }
        Ok(())
    }
}

} // verus!
