//! The engine's laws, stated and proved once and for all: every
//! well-formed store satisfies the rollup invariants and non-negativity,
//! a freshly created transaction can always be deleted, and doing so puts
//! every balance and every row back where it was.

use vstd::prelude::*;

use crate::model::TxKind;
use crate::model::Transaction;
use crate::model::tx_signed;
use crate::mutator::would_overdraw;
use crate::store::Ledger;
use crate::sums::cat_sum;
use crate::sums::user_sum;
use crate::transactions::create_ok_post;
use crate::transactions::delete_allowed;
use crate::transactions::delete_fits;
use crate::transactions::delete_ok_post;

verus! {

/// Invariant preservation, first half: in a well-formed store — and every
/// operation returns a well-formed store — each user's balance is the
/// signed sum of that user's transactions, and each category's balance is
/// the signed sum of the transactions referencing it.
pub proof fn lemma_balances_are_signed_sums(l: Ledger)
    requires
        l.wf(),
    ensures
        forall|x: int|
            #[trigger] l.has_user(x) ==> l.user_balance(x) == user_sum(l.transactions@, x),
        forall|x: int|
            #[trigger] l.has_category(x) ==> l.category_balance(x) == cat_sum(l.transactions@, x),
{
    assert forall|x: int| #[trigger] l.has_user(x) implies l.user_balance(x) == user_sum(
        l.transactions@,
        x,
    ) by {
        let j = l.user_idx(x);
        assert(0 <= j < l.users@.len() && l.users@[j].id == x);
    };
    assert forall|x: int| #[trigger] l.has_category(x) implies l.category_balance(x) == cat_sum(
        l.transactions@,
        x,
    ) by {
        let j = l.cat_idx(x);
        assert(0 <= j < l.categories@.len() && l.categories@[j].id == x);
    };
}

/// Non-negativity: no balance of a well-formed store is below zero — and
/// every operation, given a well-formed store, returns one, rejecting with
/// `InsufficientFunds` (and touching nothing) any change that would break
/// this.
pub proof fn lemma_balances_nonnegative(l: Ledger)
    requires
        l.wf(),
    ensures
        forall|x: int| #[trigger] l.has_user(x) ==> l.user_balance(x) >= 0,
        forall|x: int| #[trigger] l.has_category(x) ==> l.category_balance(x) >= 0,
{
    assert forall|x: int| #[trigger] l.has_user(x) implies l.user_balance(x) >= 0 by {
        let j = l.user_idx(x);
        assert(0 <= j < l.users@.len() && l.users@[j].id == x);
    };
    assert forall|x: int| #[trigger] l.has_category(x) implies l.category_balance(x) >= 0 by {
        let j = l.cat_idx(x);
        assert(0 <= j < l.categories@.len() && l.categories@[j].id == x);
    };
}

/// Ownership isolation: a category id that does not exist and one that
/// belongs to a different user are both outside `category_owned`, so the
/// operations — whose contracts return `NotFoundOrUnauthorized` exactly
/// when `category_owned` fails — answer both cases with the identical
/// error value.
pub proof fn lemma_ownership_isolation_categories(
    l: Ledger,
    owner: int,
    missing_id: int,
    foreign_id: int,
)
    requires
        !l.has_category(missing_id),
        l.has_category(foreign_id),
        l.category_at(foreign_id).owner_user_id != owner,
    ensures
        !l.category_owned(owner, missing_id),
        !l.category_owned(owner, foreign_id),
{
}

/// Ownership isolation for transactions: a missing id and a foreign id are
/// both outside `transaction_owned`, so reads, edits and deletes answer
/// both with the identical `NotFoundOrUnauthorized`.
pub proof fn lemma_ownership_isolation_transactions(
    l: Ledger,
    owner: int,
    missing_id: int,
    foreign_id: int,
)
    requires
        !l.has_transaction(missing_id),
        l.has_transaction(foreign_id),
        l.transaction_at(foreign_id).owner_user_id != owner,
    ensures
        !l.transaction_owned(owner, missing_id),
        !l.transaction_owned(owner, foreign_id),
{
}

/// A transaction that was just created can always be deleted: it is found
/// under its owner at the end of the table, reversing it cannot overdraw
/// (a credit put the funds there itself; reversing a debit only adds), and
/// the reinstated balance fits its field.
pub proof fn lemma_created_transaction_deletable(pre: Ledger, mid: Ledger, tx: Transaction)
    requires
        pre.wf(),
        mid.wf(),
        create_ok_post(pre, mid, tx),
    ensures
        mid.transaction_owned(tx.owner_user_id as int, tx.id as int),
        mid.tx_idx(tx.id as int) == pre.transactions@.len(),
        mid.transaction_at(tx.id as int) == tx,
        delete_allowed(mid, tx.owner_user_id as int, tx.id as int),
        delete_fits(mid, tx.owner_user_id as int, tx.id as int),
{
    let n = pre.transactions@.len() as int;
    let owner = tx.owner_user_id as int;
    let cid = tx.category_id as int;
    assert(mid.transactions@[n] == tx);
    mid.lemma_transaction_index(n);
    // the row is linked, so its owner and category exist in `mid`
    assert(mid.tx_linked(tx));
    let w = choose|w: int|
        0 <= w < mid.categories@.len() && (#[trigger] mid.categories@[w]).id == tx.category_id
            && mid.categories@[w].owner_user_id == tx.owner_user_id;
    mid.lemma_category_index(w);
    assert(mid.has_user(mid.categories@[w].owner_user_id as int));
    let uj = mid.user_idx(owner);
    assert(0 <= uj < mid.users@.len() && mid.users@[uj].id == owner);
    assert(pre.users@[uj].id == owner);
    let cj = mid.cat_idx(cid);
    assert(0 <= cj < mid.categories@.len() && mid.categories@[cj].id == cid);
    assert(pre.categories@[cj].id == cid);
    // both balances moved by the signed amount, starting from values that
    // were non-negative and fit the field
    assert(mid.user_balance(owner) == pre.users@[uj].balance + tx_signed(tx));
    assert(mid.category_balance(cid) == pre.categories@[cj].balance + tx_signed(tx));
    assert(pre.users@[uj].balance >= 0);
    assert(pre.categories@[cj].balance >= 0);
    assert(tx.amount > 0);
    if tx.kind is Credit {
        assert(!would_overdraw(mid, owner, cid, -tx_signed(tx)));
    }
}

/// Reversal symmetry: creating a transaction and then deleting it returns
/// every balance — and the whole of all three tables — to its pre-create
/// value; only the fresh-id counter has moved on.
pub proof fn lemma_reversal_symmetry(pre: Ledger, mid: Ledger, post: Ledger, tx: Transaction)
    requires
        pre.wf(),
        mid.wf(),
        create_ok_post(pre, mid, tx),
        delete_ok_post(mid, post, tx.id as int),
    ensures
        post.users@ == pre.users@,
        post.categories@ == pre.categories@,
        post.transactions@ == pre.transactions@,
        post.next_user_id == pre.next_user_id,
        post.next_category_id == pre.next_category_id,
        post.next_transaction_id == pre.next_transaction_id + 1,
{
    let n = pre.transactions@.len() as int;
    lemma_created_transaction_deletable(pre, mid, tx);
    assert(mid.transactions@[n] == tx);
    assert(post.transactions@ =~= pre.transactions@);
    let owner = tx.owner_user_id as int;
    let cid = tx.category_id as int;
    let d = tx_signed(tx);
    assert forall|j: int| 0 <= j < pre.users@.len() implies #[trigger] post.users@[j]
        == pre.users@[j] by {
        if pre.users@[j].id == owner {
            assert(mid.users@[j].id == owner);
            assert(post.users@[j].balance == pre.users@[j].balance);
        } else {
            assert(mid.users@[j] == pre.users@[j]);
        }
    };
    assert(post.users@ =~= pre.users@);
    assert forall|j: int| 0 <= j < pre.categories@.len() implies #[trigger] post.categories@[j]
        == pre.categories@[j] by {
        if pre.categories@[j].id == cid {
            assert(mid.categories@[j].id == cid);
            assert(post.categories@[j].balance == pre.categories@[j].balance);
        } else {
            assert(mid.categories@[j] == pre.categories@[j]);
        }
    };
    assert(post.categories@ =~= pre.categories@);
}

} // verus!
