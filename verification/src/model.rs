//! Core data model: transaction kinds, balance-change directions, error
//! kinds, and the three aggregates (user, category, transaction).

use vstd::prelude::*;

verus! {

/// The two kinds of transaction.  A credit increases the owning user's and
/// category's balance; a debit decreases both.
#[derive(Clone, Copy, PartialEq, Eq, Structural, Debug)]
pub enum TxKind {
    Debit,
    Credit,
}

/// Whether a balance change applies a transaction's effect (the transaction
/// is being created) or reverses it (the transaction is being deleted).
#[derive(Clone, Copy, PartialEq, Eq, Structural, Debug)]
pub enum Direction {
    Forward,
    Reverse,
}

/// Every failure the engine reports.
#[derive(Clone, Copy, PartialEq, Eq, Structural, Debug)]
pub enum LedgerError {
    /// A transaction-kind string that names neither of the two kinds.
    ValidationError,
    /// A transaction amount that is not strictly positive.
    InvalidAmount,
    /// The entity is missing, or it belongs to another user; the two causes
    /// are deliberately indistinguishable to the caller.
    NotFoundOrUnauthorized,
    /// The operation would drive a user's or a category's balance below zero.
    InsufficientFunds,
}

/// A user: an identity and a total balance in minor currency units.
#[derive(Clone, Copy, PartialEq, Eq, Structural, Debug)]
pub struct User {
    pub id: i32,
    pub balance: i64,
}

/// A budget envelope owned by exactly one user.
#[derive(Debug)]
pub struct Category {
    pub id: i32,
    pub owner_user_id: i32,
    pub name: String,
    pub description: Option<String>,
    pub balance: i64,
    pub created_at: i64,
    pub updated_at: i64,
}

/// A debit or credit recorded against one category.  `amount` is a
/// magnitude; the sign is carried by `kind`.
#[derive(Debug)]
pub struct Transaction {
    pub id: i32,
    pub owner_user_id: i32,
    pub category_id: i32,
    pub kind: TxKind,
    pub amount: i64,
    pub memo: String,
    pub description: Option<String>,
    pub created_at: i64,
    pub updated_at: i64,
}

/// The signed effect of a transaction: a credit counts as `+amount`, a
/// debit as `-amount`.
pub open spec fn signed_amount(kind: TxKind, amount: int) -> int {
    match kind {
        TxKind::Credit => amount,
        TxKind::Debit => -amount,
    }
}

/// The signed effect of a stored transaction.
pub open spec fn tx_signed(t: Transaction) -> int {
    signed_amount(t.kind, t.amount as int)
}

/// The delta applied to both the user's and the category's balance when a
/// transaction is created (`Forward`) or deleted (`Reverse`).
pub open spec fn delta_of(kind: TxKind, direction: Direction, amount: int) -> int {
    match direction {
        Direction::Forward => signed_amount(kind, amount),
        Direction::Reverse => -signed_amount(kind, amount),
    }
}

/// Whether a kind string names a credit.
pub fn is_credit(kind: &str) -> (r: bool)
    ensures
        r == (kind@ == "CREDIT"@),
{
    let owned: String = kind.to_owned();
    let credit: String = "CREDIT".to_owned();
    owned == credit
}

/// Maps a kind string to the closed enumeration; any string other than the
/// two recognised kinds is rejected at this boundary.
pub fn parse_kind(kind: &str) -> (r: Result<TxKind, LedgerError>)
    ensures
        r == Ok::<TxKind, LedgerError>(TxKind::Credit) <==> kind@ == "CREDIT"@,
        r == Ok::<TxKind, LedgerError>(TxKind::Debit) <==> kind@ == "DEBIT"@,
        r is Err <==> (kind@ != "CREDIT"@ && kind@ != "DEBIT"@),
        r is Err ==> r == Err::<TxKind, LedgerError>(LedgerError::ValidationError),
{
    let owned: String = kind.to_owned();
    let credit: String = "CREDIT".to_owned();
    if owned == credit {
        proof {
            reveal_strlit("CREDIT");
            reveal_strlit("DEBIT");
            assert("CREDIT"@.len() == 6);
            assert("DEBIT"@.len() == 5);
        }
        return Ok(TxKind::Credit);
    }
    let debit: String = "DEBIT".to_owned();
    if owned == debit {
        proof {
            reveal_strlit("CREDIT");
            reveal_strlit("DEBIT");
        }
        return Ok(TxKind::Debit);
    }
    Err(LedgerError::ValidationError)
}

/// Copies an optional string.
pub fn clone_opt_string(o: &Option<String>) -> (r: Option<String>)
    ensures
        r == *o,
{
    match o {
        Some(s) => Some(s.clone()),
        None => None,
    }
}

/// Copies a stored transaction so it can be returned to the caller.
pub fn clone_transaction(t: &Transaction) -> (r: Transaction)
    ensures
        r == *t,
{
    Transaction {
        id: t.id,
        owner_user_id: t.owner_user_id,
        category_id: t.category_id,
        kind: t.kind,
        amount: t.amount,
        memo: t.memo.clone(),
        description: clone_opt_string(&t.description),
        created_at: t.created_at,
        updated_at: t.updated_at,
    }
}

/// Copies a stored category so it can be returned to the caller.
pub fn clone_category(c: &Category) -> (r: Category)
    ensures
        r == *c,
{
    Category {
        id: c.id,
        owner_user_id: c.owner_user_id,
        name: c.name.clone(),
        description: clone_opt_string(&c.description),
        balance: c.balance,
        created_at: c.created_at,
        updated_at: c.updated_at,
    }
}

} // verus!
