//! The transaction lifecycle manager: creating a transaction applies its
//! balance effect, deleting one reverses it, and editing touches only the
//! memo and description.  Each operation is one atomic unit: it either
//! commits the row change together with the balance change, or leaves the
//! whole store exactly as it was.

use vstd::prelude::*;

use crate::clock::now_micros;
use crate::model::Direction;
use crate::model::LedgerError;
use crate::model::Transaction;
use crate::model::TxKind;
use crate::model::clone_transaction;
use crate::model::signed_amount;
use crate::model::tx_signed;
use crate::mutator::balances_shifted;
use crate::mutator::would_overdraw;
use crate::store::Ledger;
use crate::sums::cat_contrib;
use crate::sums::user_contrib;
use crate::sums::lemma_cat_sum_insert;
use crate::sums::lemma_cat_sum_push;
use crate::sums::lemma_cat_sum_remove;
use crate::sums::lemma_user_sum_insert;
use crate::sums::lemma_user_sum_push;
use crate::sums::lemma_user_sum_remove;
use crate::sums::user_sum;
use crate::sums::cat_sum;

verus! {

/// When a create is owed success: the category exists under this owner, the
/// amount is positive, and a debit leaves both prospective balances
/// non-negative.
pub open spec fn create_allowed(
    l: Ledger,
    owner: int,
    cid: int,
    kind: TxKind,
    amount: int,
) -> bool {
    &&& l.category_owned(owner, cid)
    &&& amount > 0
    &&& !would_overdraw(l, owner, cid, signed_amount(kind, amount))
}

/// Which error a rejected create carries, in order of the checks.
pub open spec fn create_err(l: Ledger, owner: int, cid: int, amount: int) -> LedgerError {
    if !l.category_owned(owner, cid) {
        LedgerError::NotFoundOrUnauthorized
    } else if amount <= 0 {
        LedgerError::InvalidAmount
    } else {
        LedgerError::InsufficientFunds
    }
}

/// Machine limit on create: a credited balance must stay within its field.
pub open spec fn create_fits(l: Ledger, owner: int, cid: int, kind: TxKind, amount: int) -> bool {
    (l.category_owned(owner, cid) && amount > 0 && kind is Credit) ==> (l.user_balance(owner)
        + amount <= i64::MAX && l.category_balance(cid) + amount <= i64::MAX)
}

/// What a committed create did: the row was appended and both balances
/// moved by the transaction's signed amount, nothing else.
pub open spec fn create_ok_post(pre: Ledger, post: Ledger, tx: Transaction) -> bool {
    &&& post.transactions@ == pre.transactions@.push(tx)
    &&& balances_shifted(pre, post, tx.owner_user_id as int, tx.category_id as int, tx_signed(tx))
    &&& tx.id == pre.next_transaction_id
    &&& post.next_transaction_id == pre.next_transaction_id + 1
    &&& post.next_user_id == pre.next_user_id
    &&& post.next_category_id == pre.next_category_id
    &&& post.transaction_owned(tx.owner_user_id as int, tx.id as int)
    &&& post.transaction_at(tx.id as int) == tx
    &&& post.category_owned(tx.owner_user_id as int, tx.category_id as int)
    &&& post.user_balance(tx.owner_user_id as int) == pre.user_balance(tx.owner_user_id as int)
        + tx_signed(tx)
    &&& post.category_balance(tx.category_id as int) == pre.category_balance(tx.category_id as int)
        + tx_signed(tx)
}

/// The whole contract of `create_transaction`, shared with the
/// request-struct entry point.
pub open spec fn create_ensures(
    pre: Ledger,
    post: Ledger,
    owner: i32,
    cid: i32,
    kind: TxKind,
    amount: i64,
    memo: String,
    description: Option<String>,
    r: Result<Transaction, LedgerError>,
) -> bool {
    &&& post.wf()
    &&& (r is Ok <==> create_allowed(pre, owner as int, cid as int, kind, amount as int))
    &&& match r {
        Ok(tx) => {
            &&& tx.owner_user_id == owner
            &&& tx.category_id == cid
            &&& tx.kind == kind
            &&& tx.amount == amount
            &&& tx.memo == memo
            &&& tx.description == description
            &&& tx.created_at == tx.updated_at
            &&& create_ok_post(pre, post, tx)
        },
        Err(e) => {
            &&& post == pre
            &&& e == create_err(pre, owner as int, cid as int, amount as int)
        },
    }
}

/// When a delete is owed success: the transaction exists under this owner,
/// and reversing it leaves both prospective balances non-negative (only
/// reversing a credit drains funds).
pub open spec fn delete_allowed(l: Ledger, owner: int, tid: int) -> bool {
    &&& l.transaction_owned(owner, tid)
    &&& !would_overdraw(
        l,
        owner,
        l.transaction_at(tid).category_id as int,
        -tx_signed(l.transaction_at(tid)),
    )
}

/// Which error a rejected delete carries.
pub open spec fn delete_err(l: Ledger, owner: int, tid: int) -> LedgerError {
    if !l.transaction_owned(owner, tid) {
        LedgerError::NotFoundOrUnauthorized
    } else {
        LedgerError::InsufficientFunds
    }
}

/// Machine limit on delete: reinstating a debit must not grow a balance
/// past its field.
pub open spec fn delete_fits(l: Ledger, owner: int, tid: int) -> bool {
    (l.transaction_owned(owner, tid) && l.transaction_at(tid).kind is Debit) ==> (l.user_balance(
        owner,
    ) + l.transaction_at(tid).amount <= i64::MAX && l.category_balance(
        l.transaction_at(tid).category_id as int,
    ) + l.transaction_at(tid).amount <= i64::MAX)
}

/// What a committed delete did: the row was removed and both balances moved
/// back by the transaction's signed amount, nothing else.
pub open spec fn delete_ok_post(pre: Ledger, post: Ledger, tid: int) -> bool {
    let i = pre.tx_idx(tid);
    let t = pre.transactions@[i];
    &&& post.transactions@ == pre.transactions@.remove(i)
    &&& balances_shifted(pre, post, t.owner_user_id as int, t.category_id as int, -tx_signed(t))
    &&& post.next_user_id == pre.next_user_id
    &&& post.next_category_id == pre.next_category_id
    &&& post.next_transaction_id == pre.next_transaction_id
    &&& !post.has_transaction(tid)
    &&& post.user_balance(t.owner_user_id as int) == pre.user_balance(t.owner_user_id as int)
        - tx_signed(t)
    &&& post.category_balance(t.category_id as int) == pre.category_balance(t.category_id as int)
        - tx_signed(t)
}

/// The transactions belonging to user `uid`, in table order.
pub open spec fn txs_of_user(txs: Seq<Transaction>, uid: int) -> Seq<Transaction>
    decreases txs.len(),
{
    if txs.len() == 0 {
        Seq::empty()
    } else if txs.last().owner_user_id == uid {
        txs_of_user(txs.drop_last(), uid).push(txs.last())
    } else {
        txs_of_user(txs.drop_last(), uid)
    }
}

/// The transactions referencing category `cid`, in table order.
pub open spec fn txs_of_category(txs: Seq<Transaction>, cid: int) -> Seq<Transaction>
    decreases txs.len(),
{
    if txs.len() == 0 {
        Seq::empty()
    } else if txs.last().category_id == cid {
        txs_of_category(txs.drop_last(), cid).push(txs.last())
    } else {
        txs_of_category(txs.drop_last(), cid)
    }
}

impl Ledger {
    /// Point read of one transaction, scoped to its owner.
    pub fn get_transaction(&self, owner_user_id: i32, transaction_id: i32) -> (r: Result<
        Transaction,
        LedgerError,
    >)
        requires
            self.transactions_wf(),
        ensures
            r is Ok <==> self.transaction_owned(owner_user_id as int, transaction_id as int),
            match r {
                Ok(t) => t == self.transaction_at(transaction_id as int),
                Err(e) => e == LedgerError::NotFoundOrUnauthorized,
            },
    {
        match self.find_transaction_index(owner_user_id, transaction_id) {
            Some(j) => Ok(clone_transaction(&self.transactions[j])),
            None => Err(LedgerError::NotFoundOrUnauthorized),
        }
    }

    /// All transactions of one user, in table order.
    pub fn get_all_transactions(&self, owner_user_id: i32) -> (r: Vec<Transaction>)
        ensures
            r@ == txs_of_user(self.transactions@, owner_user_id as int),
    {
        let mut out: Vec<Transaction> = Vec::new();
        let mut i: usize = 0;
        while i < self.transactions.len()
            invariant
                i <= self.transactions@.len(),
                out@ == txs_of_user(self.transactions@.take(i as int), owner_user_id as int),
            decreases self.transactions@.len() - i,
        {
            if self.transactions[i].owner_user_id == owner_user_id {
                out.push(clone_transaction(&self.transactions[i]));
            }
            proof {
                assert(self.transactions@.take(i + 1 as int).drop_last() =~= self.transactions@.take(
                    i as int,
                ));
                assert(self.transactions@.take(i + 1 as int).last() == self.transactions@[i as int]);
            }
            i = i + 1;
        }
        proof {
            assert(self.transactions@.take(self.transactions@.len() as int)
                =~= self.transactions@);
        }
        out
    }

    /// All transactions of one category, scoped to the category's owner.
    pub fn list_category_transactions(&self, owner_user_id: i32, category_id: i32) -> (r: Result<
        Vec<Transaction>,
        LedgerError,
    >)
        requires
            self.categories_wf(),
        ensures
            r is Ok <==> self.category_owned(owner_user_id as int, category_id as int),
            match r {
                Ok(v) => v@ == txs_of_category(self.transactions@, category_id as int),
                Err(e) => e == LedgerError::NotFoundOrUnauthorized,
            },
    {
        match self.find_category_index(owner_user_id, category_id) {
            Some(_) => {},
            None => {
                return Err(LedgerError::NotFoundOrUnauthorized);
            },
        }
        let mut out: Vec<Transaction> = Vec::new();
        let mut i: usize = 0;
        while i < self.transactions.len()
            invariant
                i <= self.transactions@.len(),
                out@ == txs_of_category(self.transactions@.take(i as int), category_id as int),
            decreases self.transactions@.len() - i,
        {
            if self.transactions[i].category_id == category_id {
                out.push(clone_transaction(&self.transactions[i]));
            }
            proof {
                assert(self.transactions@.take(i + 1 as int).drop_last() =~= self.transactions@.take(
                    i as int,
                ));
                assert(self.transactions@.take(i + 1 as int).last() == self.transactions@[i as int]);
            }
            i = i + 1;
        }
        proof {
            assert(self.transactions@.take(self.transactions@.len() as int)
                =~= self.transactions@);
        }
        Ok(out)
    }

    /// Creates a transaction: verifies the category belongs to the owner,
    /// the amount is positive, and the balance effect keeps both balances
    /// non-negative; only then commits the row together with the balance
    /// change.  A rejected create leaves the store untouched.
    pub fn create_transaction(
        &mut self,
        owner_user_id: i32,
        category_id: i32,
        kind: TxKind,
        amount: i64,
        memo: String,
        description: Option<String>,
    ) -> (r: Result<Transaction, LedgerError>)
        requires
            old(self).wf(),
            old(self).next_transaction_id < i32::MAX,
            create_fits(
                *old(self),
                owner_user_id as int,
                category_id as int,
                kind,
                amount as int,
            ),
        ensures
            create_ensures(
                *old(self),
                *final(self),
                owner_user_id,
                category_id,
                kind,
                amount,
                memo,
                description,
                r,
            ),
    {
        let cat_j = match self.find_category_index(owner_user_id, category_id) {
            Some(j) => j,
            None => {
                return Err(LedgerError::NotFoundOrUnauthorized);
            },
        };
        if amount <= 0 {
            return Err(LedgerError::InvalidAmount);
        }
        proof {
            assert(old(self).has_user(old(self).categories@[cat_j as int].owner_user_id as int));
        }
        match self.apply(owner_user_id, category_id, kind, amount, Direction::Forward) {
            Err(e) => {
                return Err(e);
            },
            Ok(()) => {},
        }
        let ghost pre = *old(self);
        let ghost mid = *self;
        let now = now_micros();
        let id = self.next_transaction_id;
        let tx = Transaction {
            id,
            owner_user_id,
            category_id,
            kind,
            amount,
            memo,
            description,
            created_at: now,
            updated_at: now,
        };
        let txr = clone_transaction(&tx);
        let ghost gtx = tx;
        self.transactions.push(tx);
        self.next_transaction_id = id + 1;
        proof {
            let post = *self;
            let owner = owner_user_id as int;
            let cid = category_id as int;
            let d = tx_signed(gtx);
            assert(post.transactions@ == pre.transactions@.push(gtx));
            // the two balance tables and the fresh-id counters carry over
            // from the mutator step
            assert(balances_shifted(pre, post, owner, cid, d));
            // every balance still equals its signed sum, and stays
            // non-negative
            assert forall|j: int| 0 <= j < post.users@.len() implies (
            #[trigger] post.users@[j]).balance == user_sum(post.transactions@, post.users@[j].id as int)
                && post.users@[j].balance >= 0 by {
                let uid = pre.users@[j].id as int;
                lemma_user_sum_push(pre.transactions@, gtx, uid);
                if uid == owner {
                    pre.lemma_user_index(j);
                }
            };
            assert forall|j: int| 0 <= j < post.categories@.len() implies (
            #[trigger] post.categories@[j]).balance == cat_sum(
                post.transactions@,
                post.categories@[j].id as int,
            ) && post.categories@[j].balance >= 0 by {
                let c = pre.categories@[j].id as int;
                lemma_cat_sum_push(pre.transactions@, gtx, c);
                if c == cid {
                    pre.lemma_category_index(j);
                }
            };
            // the appended row has a fresh unique id and is linked to the
            // found category
            assert forall|i: int, j: int| 0 <= i < j < post.transactions@.len() implies (
            #[trigger] post.transactions@[i]).id != (#[trigger] post.transactions@[j]).id by {
                if j == post.transactions@.len() - 1 {
                    assert(pre.transactions@[i].id < pre.next_transaction_id);
                }
            };
            assert forall|i: int| 0 <= i < post.transactions@.len() implies post.tx_linked(
                #[trigger] post.transactions@[i],
            ) by {
                if i == post.transactions@.len() - 1 {
                    assert(post.categories@[cat_j as int].id == category_id);
                    assert(post.categories@[cat_j as int].owner_user_id == owner_user_id);
                } else {
                    assert(mid.tx_linked(mid.transactions@[i]));
                }
            };
            assert(post.wf());
            // the new row answers the id-keyed accessors
            post.lemma_transaction_index(post.transactions@.len() - 1);
            // both moved balances answer the id-keyed accessors too
            Ledger::lemma_user_idx_same(pre, post, owner);
            let uj = pre.user_idx(owner);
            assert(pre.users@[uj].id == owner);
            assert(post.user_balance(owner) == pre.user_balance(owner) + d);
            Ledger::lemma_cat_idx_same(pre, post, cid);
            let cj = pre.cat_idx(cid);
            assert(pre.categories@[cj].id == cid);
            assert(post.category_balance(cid) == pre.category_balance(cid) + d);
            assert(post.category_owned(owner, cid));
        }
        Ok(txr)
    }

    /// Edits a transaction's memo and description; the amount, kind and
    /// category are immutable and no balance moves.
    pub fn update_transaction(
        &mut self,
        owner_user_id: i32,
        transaction_id: i32,
        memo: String,
        description: Option<String>,
    ) -> (r: Result<Transaction, LedgerError>)
        requires
            old(self).wf(),
        ensures
            final(self).wf(),
            r is Ok <==> old(self).transaction_owned(owner_user_id as int, transaction_id as int),
            match r {
                Ok(tx) => {
                    let i = old(self).tx_idx(transaction_id as int);
                    let t0 = old(self).transactions@[i];
                    &&& tx.id == t0.id
                    &&& tx.owner_user_id == t0.owner_user_id
                    &&& tx.category_id == t0.category_id
                    &&& tx.kind == t0.kind
                    &&& tx.amount == t0.amount
                    &&& tx.created_at == t0.created_at
                    &&& tx.memo == memo
                    &&& tx.description == description
                    &&& final(self).transactions@ == old(self).transactions@.update(i, tx)
                    &&& final(self).users@ == old(self).users@
                    &&& final(self).categories@ == old(self).categories@
                    &&& final(self).next_user_id == old(self).next_user_id
                    &&& final(self).next_category_id == old(self).next_category_id
                    &&& final(self).next_transaction_id == old(self).next_transaction_id
                },
                Err(e) => {
                    &&& *final(self) == *old(self)
                    &&& e == LedgerError::NotFoundOrUnauthorized
                },
            },
    {
        let j = match self.find_transaction_index(owner_user_id, transaction_id) {
            Some(j) => j,
            None => {
                return Err(LedgerError::NotFoundOrUnauthorized);
            },
        };
        let ghost pre = *self;
        let t = self.transactions.remove(j);
        let now = now_micros();
        let t2 = Transaction {
            id: t.id,
            owner_user_id: t.owner_user_id,
            category_id: t.category_id,
            kind: t.kind,
            amount: t.amount,
            memo,
            description,
            created_at: t.created_at,
            updated_at: now,
        };
        let tr = clone_transaction(&t2);
        let ghost gt2 = t2;
        self.transactions.insert(j, t2);
        proof {
            let post = *self;
            let i = j as int;
            let gt = pre.transactions@[i];
            assert(post.transactions@ =~= pre.transactions@.update(i, gt2));
            // the edited row contributes exactly what the old row did, so
            // no sum moves
            assert forall|k: int| 0 <= k < post.users@.len() implies (
            #[trigger] post.users@[k]).balance == user_sum(post.transactions@, post.users@[k].id as int)
                && post.users@[k].balance >= 0 by {
                let uid = pre.users@[k].id as int;
                lemma_user_sum_remove(pre.transactions@, i, uid);
                lemma_user_sum_insert(pre.transactions@.remove(i), i, gt2, uid);
                assert(pre.transactions@.remove(i).insert(i, gt2) =~= post.transactions@);
                assert(user_contrib(gt2, uid) == user_contrib(gt, uid));
            };
            assert forall|k: int| 0 <= k < post.categories@.len() implies (
            #[trigger] post.categories@[k]).balance == cat_sum(
                post.transactions@,
                post.categories@[k].id as int,
            ) && post.categories@[k].balance >= 0 by {
                let c = pre.categories@[k].id as int;
                lemma_cat_sum_remove(pre.transactions@, i, c);
                lemma_cat_sum_insert(pre.transactions@.remove(i), i, gt2, c);
                assert(pre.transactions@.remove(i).insert(i, gt2) =~= post.transactions@);
                assert(cat_contrib(gt2, c) == cat_contrib(gt, c));
            };
            // ids are pointwise those of the old table
            assert forall|a: int, b: int| 0 <= a < b < post.transactions@.len() implies (
            #[trigger] post.transactions@[a]).id != (#[trigger] post.transactions@[b]).id by {
                assert(pre.transactions@[a].id != pre.transactions@[b].id);
            };
            assert forall|a: int| 0 <= a < post.transactions@.len() implies post.tx_linked(
                #[trigger] post.transactions@[a],
            ) by {
                assert(pre.tx_linked(pre.transactions@[a]));
                let w = choose|w: int|
                    0 <= w < pre.categories@.len() && (#[trigger] pre.categories@[w]).id
                        == pre.transactions@[a].category_id && pre.categories@[w].owner_user_id
                        == pre.transactions@[a].owner_user_id;
                assert(post.categories@[w].id == post.transactions@[a].category_id);
            };
            assert(post.wf());
        }
        Ok(tr)
    }

    /// Deletes a transaction and reverses its balance effect in the same
    /// atomic unit.  Reversing a credit drains funds, so it is gated by the
    /// same non-negativity check as creating a debit; a rejected delete
    /// leaves the store untouched.
    pub fn delete_transaction(&mut self, owner_user_id: i32, transaction_id: i32) -> (r: Result<
        (),
        LedgerError,
    >)
        requires
            old(self).wf(),
            delete_fits(*old(self), owner_user_id as int, transaction_id as int),
        ensures
            final(self).wf(),
            r is Ok <==> delete_allowed(*old(self), owner_user_id as int, transaction_id as int),
            match r {
                Ok(()) => delete_ok_post(*old(self), *final(self), transaction_id as int),
                Err(e) => {
                    &&& *final(self) == *old(self)
                    &&& e == delete_err(*old(self), owner_user_id as int, transaction_id as int)
                },
            },
    {
        let j = match self.find_transaction_index(owner_user_id, transaction_id) {
            Some(j) => j,
            None => {
                return Err(LedgerError::NotFoundOrUnauthorized);
            },
        };
        let kind = self.transactions[j].kind;
        let amount = self.transactions[j].amount;
        let category_id = self.transactions[j].category_id;
        proof {
            let t = old(self).transactions@[j as int];
            assert(old(self).tx_linked(t));
            let w = choose|w: int|
                0 <= w < old(self).categories@.len() && (#[trigger] old(self).categories@[w]).id
                    == t.category_id && old(self).categories@[w].owner_user_id == t.owner_user_id;
            old(self).lemma_category_index(w);
            assert(old(self).has_user(old(self).categories@[w].owner_user_id as int));
        }
        match self.apply(owner_user_id, category_id, kind, amount, Direction::Reverse) {
            Err(e) => {
                return Err(e);
            },
            Ok(()) => {},
        }
        let ghost pre = *old(self);
        let ghost mid = *self;
        let _removed = self.transactions.remove(j);
        proof {
            let post = *self;
            let i = j as int;
            let gt = pre.transactions@[i];
            assert(post.transactions@ == pre.transactions@.remove(i));
            assert(balances_shifted(pre, post, gt.owner_user_id as int, gt.category_id as int,
                -tx_signed(gt)));
            assert forall|k: int| 0 <= k < post.users@.len() implies (
            #[trigger] post.users@[k]).balance == user_sum(post.transactions@, post.users@[k].id as int)
                && post.users@[k].balance >= 0 by {
                let uid = pre.users@[k].id as int;
                lemma_user_sum_remove(pre.transactions@, i, uid);
                if uid == gt.owner_user_id as int {
                    pre.lemma_user_index(k);
                }
            };
            assert forall|k: int| 0 <= k < post.categories@.len() implies (
            #[trigger] post.categories@[k]).balance == cat_sum(
                post.transactions@,
                post.categories@[k].id as int,
            ) && post.categories@[k].balance >= 0 by {
                let c = pre.categories@[k].id as int;
                lemma_cat_sum_remove(pre.transactions@, i, c);
                if c == gt.category_id as int {
                    pre.lemma_category_index(k);
                }
            };
            assert forall|a: int, b: int| 0 <= a < b < post.transactions@.len() implies (
            #[trigger] post.transactions@[a]).id != (#[trigger] post.transactions@[b]).id by {
                let a0 = if a < i { a } else { a + 1 };
                let b0 = if b < i { b } else { b + 1 };
                assert(post.transactions@[a] == pre.transactions@[a0]);
                assert(post.transactions@[b] == pre.transactions@[b0]);
                assert(pre.transactions@[a0].id != pre.transactions@[b0].id);
            };
            assert forall|a: int| 0 <= a < post.transactions@.len() implies post.tx_linked(
                #[trigger] post.transactions@[a],
            ) by {
                let a0 = if a < i { a } else { a + 1 };
                assert(post.transactions@[a] == pre.transactions@[a0]);
                assert(mid.tx_linked(mid.transactions@[a0]));
                let w = choose|w: int|
                    0 <= w < mid.categories@.len() && (#[trigger] mid.categories@[w]).id
                        == mid.transactions@[a0].category_id && mid.categories@[w].owner_user_id
                        == mid.transactions@[a0].owner_user_id;
                assert(post.categories@[w].id == post.transactions@[a].category_id);
            };
            assert forall|a: int| 0 <= a < post.transactions@.len() implies (
            #[trigger] post.transactions@[a]).id < post.next_transaction_id
                && post.transactions@[a].amount > 0 by {
                let a0 = if a < i { a } else { a + 1 };
                assert(post.transactions@[a] == pre.transactions@[a0]);
            };
            assert(post.wf());
            // the removed id answers no lookup any more
            assert forall|a: int| 0 <= a < post.transactions@.len() implies (
            #[trigger] post.transactions@[a]).id != transaction_id by {
                let a0 = if a < i { a } else { a + 1 };
                assert(post.transactions@[a] == pre.transactions@[a0]);
                if a0 < i {
                    assert(pre.transactions@[a0].id != pre.transactions@[i].id);
                } else {
                    assert(pre.transactions@[i].id != pre.transactions@[a0].id);
                }
            };
            assert(!post.has_transaction(transaction_id as int));
            // both reversed balances answer the id-keyed accessors
            Ledger::lemma_user_idx_same(pre, post, gt.owner_user_id as int);
            let uj = pre.user_idx(gt.owner_user_id as int);
            assert(pre.users@[uj].id == gt.owner_user_id);
            assert(post.user_balance(gt.owner_user_id as int) == pre.user_balance(
                gt.owner_user_id as int,
            ) - tx_signed(gt));
            Ledger::lemma_cat_idx_same(pre, post, gt.category_id as int);
            let cj = pre.cat_idx(gt.category_id as int);
            assert(pre.categories@[cj].id == gt.category_id);
            assert(post.category_balance(gt.category_id as int) == pre.category_balance(
                gt.category_id as int,
            ) - tx_signed(gt));
        }
        Ok(())
    }
}

} // verus!
