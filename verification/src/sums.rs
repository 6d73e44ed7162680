//! Signed sums over a sequence of transactions, restricted to one user or
//! to one category.  The store's invariant states that every aggregate
//! balance equals one of these sums; the lemmas here say how the sums move
//! when a transaction is appended, removed or inserted.

use vstd::prelude::*;

use crate::model::Transaction;
use crate::model::tx_signed;

verus! {

/// What one transaction contributes to the balance of user `uid`.
pub open spec fn user_contrib(t: Transaction, uid: int) -> int {
    if t.owner_user_id == uid {
        tx_signed(t)
    } else {
        0
    }
}

/// What one transaction contributes to the balance of category `cid`.
pub open spec fn cat_contrib(t: Transaction, cid: int) -> int {
    if t.category_id == cid {
        tx_signed(t)
    } else {
        0
    }
}

/// The signed sum of user `uid`'s transactions.
pub open spec fn user_sum(txs: Seq<Transaction>, uid: int) -> int
    decreases txs.len(),
{
    if txs.len() == 0 {
        0
    } else {
        user_sum(txs.drop_last(), uid) + user_contrib(txs.last(), uid)
    }
}

/// The signed sum of the transactions referencing category `cid`.
pub open spec fn cat_sum(txs: Seq<Transaction>, cid: int) -> int
    decreases txs.len(),
{
    if txs.len() == 0 {
        0
    } else {
        cat_sum(txs.drop_last(), cid) + cat_contrib(txs.last(), cid)
    }
}

/// Appending a transaction adds its contribution to every user's sum.
pub proof fn lemma_user_sum_push(txs: Seq<Transaction>, t: Transaction, uid: int)
    ensures
        user_sum(txs.push(t), uid) == user_sum(txs, uid) + user_contrib(t, uid),
{
    assert(txs.push(t).drop_last() =~= txs);
    assert(txs.push(t).last() == t);
}

/// Appending a transaction adds its contribution to every category's sum.
pub proof fn lemma_cat_sum_push(txs: Seq<Transaction>, t: Transaction, cid: int)
    ensures
        cat_sum(txs.push(t), cid) == cat_sum(txs, cid) + cat_contrib(t, cid),
{
    assert(txs.push(t).drop_last() =~= txs);
    assert(txs.push(t).last() == t);
}

/// Removing the transaction at `i` subtracts its contribution from every
/// user's sum.
pub proof fn lemma_user_sum_remove(txs: Seq<Transaction>, i: int, uid: int)
    requires
        0 <= i < txs.len(),
    ensures
        user_sum(txs.remove(i), uid) == user_sum(txs, uid) - user_contrib(txs[i], uid),
    decreases txs.len(),
{
    if i == txs.len() - 1 {
        assert(txs.remove(i) =~= txs.drop_last());
    } else {
        assert(txs.remove(i).drop_last() =~= txs.drop_last().remove(i));
        assert(txs.remove(i).last() == txs.last());
        lemma_user_sum_remove(txs.drop_last(), i, uid);
    }
}

/// Removing the transaction at `i` subtracts its contribution from every
/// category's sum.
pub proof fn lemma_cat_sum_remove(txs: Seq<Transaction>, i: int, cid: int)
    requires
        0 <= i < txs.len(),
    ensures
        cat_sum(txs.remove(i), cid) == cat_sum(txs, cid) - cat_contrib(txs[i], cid),
    decreases txs.len(),
{
    if i == txs.len() - 1 {
        assert(txs.remove(i) =~= txs.drop_last());
    } else {
        assert(txs.remove(i).drop_last() =~= txs.drop_last().remove(i));
        assert(txs.remove(i).last() == txs.last());
        lemma_cat_sum_remove(txs.drop_last(), i, cid);
    }
}

/// Inserting a transaction at `i` adds its contribution to every user's sum.
pub proof fn lemma_user_sum_insert(txs: Seq<Transaction>, i: int, t: Transaction, uid: int)
    requires
        0 <= i <= txs.len(),
    ensures
        user_sum(txs.insert(i, t), uid) == user_sum(txs, uid) + user_contrib(t, uid),
    decreases txs.len(),
{
    if i == txs.len() {
        assert(txs.insert(i, t) =~= txs.push(t));
        lemma_user_sum_push(txs, t, uid);
    } else {
        assert(txs.insert(i, t).drop_last() =~= txs.drop_last().insert(i, t));
        assert(txs.insert(i, t).last() == txs.last());
        lemma_user_sum_insert(txs.drop_last(), i, t, uid);
    }
}

/// Inserting a transaction at `i` adds its contribution to every category's
/// sum.
pub proof fn lemma_cat_sum_insert(txs: Seq<Transaction>, i: int, t: Transaction, cid: int)
    requires
        0 <= i <= txs.len(),
    ensures
        cat_sum(txs.insert(i, t), cid) == cat_sum(txs, cid) + cat_contrib(t, cid),
    decreases txs.len(),
{
    if i == txs.len() {
        assert(txs.insert(i, t) =~= txs.push(t));
        lemma_cat_sum_push(txs, t, cid);
    } else {
        assert(txs.insert(i, t).drop_last() =~= txs.drop_last().insert(i, t));
        assert(txs.insert(i, t).last() == txs.last());
        lemma_cat_sum_insert(txs.drop_last(), i, t, cid);
    }
}

/// A user none of the transactions belongs to has sum zero.
pub proof fn lemma_user_sum_zero(txs: Seq<Transaction>, uid: int)
    requires
        forall|k: int| 0 <= k < txs.len() ==> #[trigger] txs[k].owner_user_id != uid,
    ensures
        user_sum(txs, uid) == 0,
    decreases txs.len(),
{
    if txs.len() > 0 {
        lemma_user_sum_zero(txs.drop_last(), uid);
    }
}

/// A category none of the transactions references has sum zero.
pub proof fn lemma_cat_sum_zero(txs: Seq<Transaction>, cid: int)
    requires
        forall|k: int| 0 <= k < txs.len() ==> #[trigger] txs[k].category_id != cid,
    ensures
        cat_sum(txs, cid) == 0,
    decreases txs.len(),
{
    if txs.len() > 0 {
        lemma_cat_sum_zero(txs.drop_last(), cid);
    }
}

} // verus!
