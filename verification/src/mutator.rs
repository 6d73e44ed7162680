//! The balance mutator: the one code path that writes the two aggregate
//! balance fields.  It applies the signed delta a transaction implies to the
//! owning user's and the referenced category's balance together, and rejects
//! the whole change if a draining delta would leave either balance negative.

use vstd::prelude::*;

use crate::model::Category;
use crate::model::Direction;
use crate::model::LedgerError;
use crate::model::TxKind;
use crate::model::User;
use crate::model::delta_of;
use crate::store::Ledger;

verus! {

/// One user row moved by `d`; everything else about it unchanged.
pub open spec fn user_shifted(u0: User, u1: User, d: int) -> bool {
    u1.id == u0.id && u1.balance == u0.balance + d
}

/// One category row moved by `d`; everything else about it unchanged.
pub open spec fn cat_shifted(c0: Category, c1: Category, d: int) -> bool {
    &&& c1.id == c0.id
    &&& c1.owner_user_id == c0.owner_user_id
    &&& c1.name == c0.name
    &&& c1.description == c0.description
    &&& c1.balance == c0.balance + d
    &&& c1.created_at == c0.created_at
    &&& c1.updated_at == c0.updated_at
}

/// Exactly the balance of user `uid` and of category `cid` moved by `d`;
/// every other row of the two tables is untouched.
pub open spec fn balances_shifted(pre: Ledger, post: Ledger, uid: int, cid: int, d: int) -> bool {
    &&& post.users@.len() == pre.users@.len()
    &&& forall|j: int|
        0 <= j < pre.users@.len() ==> if (#[trigger] pre.users@[j]).id == uid {
            user_shifted(pre.users@[j], #[trigger] post.users@[j], d)
        } else {
            post.users@[j] == pre.users@[j]
        }
    &&& post.categories@.len() == pre.categories@.len()
    &&& forall|j: int|
        0 <= j < pre.categories@.len() ==> if (#[trigger] pre.categories@[j]).id == cid {
            cat_shifted(pre.categories@[j], #[trigger] post.categories@[j], d)
        } else {
            post.categories@[j] == pre.categories@[j]
        }
}

/// A draining delta that would leave the user's or the category's
/// prospective balance negative.
pub open spec fn would_overdraw(l: Ledger, uid: int, cid: int, d: int) -> bool {
    d < 0 && (l.user_balance(uid) + d < 0 || l.category_balance(cid) + d < 0)
}

/// Machine limit: a growing balance must stay within its field.  This is
/// the only bound the mutator asks of its caller.
pub open spec fn apply_fits(
    l: Ledger,
    uid: int,
    cid: int,
    kind: TxKind,
    amount: int,
    direction: Direction,
) -> bool {
    (l.has_user(uid) && l.has_category(cid) && delta_of(kind, direction, amount) > 0) ==> (
    l.user_balance(uid) + amount <= i64::MAX && l.category_balance(cid) + amount <= i64::MAX)
}

/// Two stores whose user and category rows carry the same ids and owners
/// (and the same transactions) agree on lookups and structural
/// well-formedness, whatever happened to the balances.
pub proof fn lemma_same_ids_preserve_links(pre: Ledger, post: Ledger)
    requires
        pre.users_wf(),
        pre.categories_wf(),
        pre.transactions_wf(),
        post.users@.len() == pre.users@.len(),
        forall|j: int|
            0 <= j < pre.users@.len() ==> (#[trigger] post.users@[j]).id == pre.users@[j].id,
        post.categories@.len() == pre.categories@.len(),
        forall|j: int|
            0 <= j < pre.categories@.len() ==> (#[trigger] post.categories@[j]).id
                == pre.categories@[j].id && post.categories@[j].owner_user_id
                == pre.categories@[j].owner_user_id,
        post.transactions@ == pre.transactions@,
        post.next_user_id == pre.next_user_id,
        post.next_category_id == pre.next_category_id,
        post.next_transaction_id == pre.next_transaction_id,
    ensures
        post.users_wf(),
        post.categories_wf(),
        post.transactions_wf(),
        forall|x: int| #[trigger] post.has_user(x) <==> pre.has_user(x),
        forall|x: int| pre.has_user(x) ==> #[trigger] post.user_idx(x) == pre.user_idx(x),
        forall|x: int| #[trigger] post.has_category(x) <==> pre.has_category(x),
        forall|x: int| pre.has_category(x) ==> #[trigger] post.cat_idx(x) == pre.cat_idx(x),
        forall|x: int| #[trigger] post.has_transaction(x) <==> pre.has_transaction(x),
        forall|x: int| pre.has_transaction(x) ==> #[trigger] post.tx_idx(x) == pre.tx_idx(x),
{
    assert forall|x: int| #[trigger] post.has_user(x) <==> pre.has_user(x) by {
        if pre.has_user(x) {
            let k = pre.user_idx(x);
            assert(post.users@[k].id == x);
        }
        if post.has_user(x) {
            let k = choose|k: int|
                0 <= k < post.users@.len() && (#[trigger] post.users@[k]).id == x;
            assert(pre.users@[k].id == x);
        }
    };
    assert forall|x: int| pre.has_user(x) implies #[trigger] post.user_idx(x) == pre.user_idx(
        x,
    ) by {
        let k1 = pre.user_idx(x);
        assert(post.users@[k1].id == x);
        assert(post.has_user(x));
        let k2 = post.user_idx(x);
        assert(0 <= k2 < post.users@.len() && post.users@[k2].id == x);
        assert(pre.users@[k2].id == x);
        if k1 < k2 {
            assert(pre.users@[k1].id != pre.users@[k2].id);
        } else if k2 < k1 {
            assert(pre.users@[k2].id != pre.users@[k1].id);
        }
    };
    assert forall|x: int| #[trigger] post.has_category(x) <==> pre.has_category(x) by {
        if pre.has_category(x) {
            let k = pre.cat_idx(x);
            assert(post.categories@[k].id == x);
        }
        if post.has_category(x) {
            let k = choose|k: int|
                0 <= k < post.categories@.len() && (#[trigger] post.categories@[k]).id == x;
            assert(pre.categories@[k].id == x);
        }
    };
    assert forall|x: int| pre.has_category(x) implies #[trigger] post.cat_idx(x) == pre.cat_idx(
        x,
    ) by {
        let k1 = pre.cat_idx(x);
        assert(post.categories@[k1].id == x);
        assert(post.has_category(x));
        let k2 = post.cat_idx(x);
        assert(0 <= k2 < post.categories@.len() && post.categories@[k2].id == x);
        assert(pre.categories@[k2].id == x);
        if k1 < k2 {
            assert(pre.categories@[k1].id != pre.categories@[k2].id);
        } else if k2 < k1 {
            assert(pre.categories@[k2].id != pre.categories@[k1].id);
        }
    };
    assert forall|i: int| 0 <= i < post.categories@.len() implies post.has_user(
        (#[trigger] post.categories@[i]).owner_user_id as int,
    ) by {
        assert(pre.has_user(pre.categories@[i].owner_user_id as int));
    };
    assert forall|i: int| 0 <= i < post.transactions@.len() implies post.tx_linked(
        #[trigger] post.transactions@[i],
    ) by {
        let t = post.transactions@[i];
        assert(pre.tx_linked(t));
        let j = choose|j: int|
            0 <= j < pre.categories@.len() && (#[trigger] pre.categories@[j]).id == t.category_id
                && pre.categories@[j].owner_user_id == t.owner_user_id;
        assert(post.categories@[j].id == t.category_id);
    };
}

impl Ledger {
    /// The balance mutator of the whole engine: applies the delta the given
    /// transaction kind implies, forward on create and reversed on delete,
    /// identically to the user's and the category's balance.  A draining
    /// delta is rejected wholesale, with no partial write, if either
    /// prospective balance would be negative.
    ///
    /// This deliberately leaves the two balances out of step with the
    /// transaction table; the lifecycle operations restore `wf` by writing
    /// or deleting the transaction row within the same atomic unit.
    pub fn apply(
        &mut self,
        user_id: i32,
        category_id: i32,
        kind: TxKind,
        amount: i64,
        direction: Direction,
    ) -> (r: Result<(), LedgerError>)
        requires
            old(self).wf(),
            amount > 0,
            apply_fits(
                *old(self),
                user_id as int,
                category_id as int,
                kind,
                amount as int,
                direction,
            ),
        ensures
            r is Ok <==> (old(self).has_user(user_id as int) && old(self).has_category(
                category_id as int,
            ) && !would_overdraw(
                *old(self),
                user_id as int,
                category_id as int,
                delta_of(kind, direction, amount as int),
            )),
            match r {
                Ok(()) => {
                    &&& balances_shifted(
                        *old(self),
                        *final(self),
                        user_id as int,
                        category_id as int,
                        delta_of(kind, direction, amount as int),
                    )
                    &&& final(self).transactions@ == old(self).transactions@
                    &&& final(self).next_user_id == old(self).next_user_id
                    &&& final(self).next_category_id == old(self).next_category_id
                    &&& final(self).next_transaction_id == old(self).next_transaction_id
                    &&& final(self).users_wf()
                    &&& final(self).categories_wf()
                    &&& final(self).transactions_wf()
                },
                Err(e) => {
                    &&& *final(self) == *old(self)
                    &&& if !old(self).has_user(user_id as int) || !old(self).has_category(
                        category_id as int,
                    ) {
                        e == LedgerError::NotFoundOrUnauthorized
                    } else {
                        e == LedgerError::InsufficientFunds
                    }
                },
            },
    {
        let uid_j = match self.find_user_index(user_id) {
            Some(j) => j,
            None => {
                return Err(LedgerError::NotFoundOrUnauthorized);
            },
        };
        let cat_j = match self.find_category_index_any(category_id) {
            Some(j) => j,
            None => {
                return Err(LedgerError::NotFoundOrUnauthorized);
            },
        };
        let grows = match (kind, direction) {
            (TxKind::Credit, Direction::Forward) => true,
            (TxKind::Debit, Direction::Forward) => false,
            (TxKind::Debit, Direction::Reverse) => true,
            (TxKind::Credit, Direction::Reverse) => false,
        };
        let ub = self.users[uid_j].balance;
        let cb = self.categories[cat_j].balance;
        if !grows {
            if ub < amount || cb < amount {
                return Err(LedgerError::InsufficientFunds);
            }
        }
        let ghost pre = *self;
        let u = self.users.remove(uid_j);
        let nub = if grows {
            u.balance + amount
        } else {
            u.balance - amount
        };
        self.users.insert(uid_j, User { id: u.id, balance: nub });
        let c = self.categories.remove(cat_j);
        let ncb = if grows {
            c.balance + amount
        } else {
            c.balance - amount
        };
        self.categories.insert(
            cat_j,
            Category {
                id: c.id,
                owner_user_id: c.owner_user_id,
                name: c.name,
                description: c.description,
                balance: ncb,
                created_at: c.created_at,
                updated_at: c.updated_at,
            },
        );
        proof {
            let d = delta_of(kind, direction, amount as int);
            assert(self.users@ =~= pre.users@.update(
                uid_j as int,
                User { id: u.id, balance: nub },
            ));
            assert(self.categories@ =~= pre.categories@.update(
                cat_j as int,
                self.categories@[cat_j as int],
            ));
            // any other row holding the same user id would break uniqueness
            assert forall|j: int|
                0 <= j < pre.users@.len() && j != uid_j as int implies (
            #[trigger] pre.users@[j]).id != user_id by {
                if j < uid_j as int {
                    assert(pre.users@[j].id != pre.users@[uid_j as int].id);
                } else {
                    assert(pre.users@[uid_j as int].id != pre.users@[j].id);
                }
            };
            assert forall|j: int|
                0 <= j < pre.categories@.len() && j != cat_j as int implies (
            #[trigger] pre.categories@[j]).id != category_id by {
                if j < cat_j as int {
                    assert(pre.categories@[j].id != pre.categories@[cat_j as int].id);
                } else {
                    assert(pre.categories@[cat_j as int].id != pre.categories@[j].id);
                }
            };
            assert(balances_shifted(
                pre,
                *self,
                user_id as int,
                category_id as int,
                d,
            ));
            lemma_same_ids_preserve_links(pre, *self);
        }
        Ok(())
    }
}

} // verus!
