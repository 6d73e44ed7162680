//! The request payloads of the transport boundary, and what a signed-in
//! caller carries.  Out here the transaction kind is still a string; it is
//! mapped to the closed enumeration, and rejected if it names neither kind,
//! before any state is touched.

use vstd::prelude::*;

use crate::model::LedgerError;
use crate::model::Transaction;
use crate::model::TxKind;
use crate::model::parse_kind;
use crate::store::Ledger;
use crate::transactions::create_ensures;
use crate::transactions::create_fits;

verus! {

/// Credentials presented at sign-in.
pub struct SignInRequest {
    pub email: String,
    pub password: String,
}

/// What a session token asserts: the subject user, a role, an expiry.
pub struct Claims {
    pub sub: i32,
    pub role: String,
    pub exp: i64,
}

impl Claims {
    /// The claims sign-in issues for an authenticated user: the subject,
    /// the one fixed role, and an expiry four hours past `now_seconds`.
    pub fn issue(sub: i32, now_seconds: i64) -> (c: Claims)
        requires
            now_seconds + 14400 <= i64::MAX,
        ensures
            c.sub == sub,
            c.role@ == "user"@,
            c.exp == now_seconds + 14400,
    {
        Claims { sub, role: "user".to_owned(), exp: now_seconds + 14400 }
    }
}

/// The fields presented at sign-up.
pub struct SignUpRequest {
    pub email: String,
    pub password: String,
    pub firstname: String,
    pub lastname: String,
}

/// The payload for creating a category.
pub struct CreateCategoryRequest {
    pub name: String,
    pub description: Option<String>,
}

/// The payload for editing a category.
pub struct UpdateCategoryRequest {
    pub name: String,
    pub description: Option<String>,
}

/// The payload for creating a transaction; `kind` is the still-unchecked
/// kind string.
pub struct CreateTransactionRequest {
    pub category_id: i32,
    pub kind: String,
    pub amount: i64,
    pub memo: String,
    pub description: Option<String>,
}

/// The payload for editing a transaction.
pub struct UpdateTransactionRequest {
    pub memo: String,
    pub description: Option<String>,
}

impl Ledger {
    /// Creates a transaction straight from a request payload: the kind
    /// string is checked first and a malformed one is rejected before any
    /// state is read or written.
    pub fn create_transaction_from_request(
        &mut self,
        owner_user_id: i32,
        request: CreateTransactionRequest,
    ) -> (r: Result<Transaction, LedgerError>)
        requires
            old(self).wf(),
            old(self).next_transaction_id < i32::MAX,
            request.kind@ == "CREDIT"@ ==> create_fits(
                *old(self),
                owner_user_id as int,
                request.category_id as int,
                TxKind::Credit,
                request.amount as int,
            ),
        ensures
            request.kind@ != "CREDIT"@ && request.kind@ != "DEBIT"@ ==> r == Err::<
                Transaction,
                LedgerError,
            >(LedgerError::ValidationError) && *final(self) == *old(self),
            request.kind@ == "CREDIT"@ ==> create_ensures(
                *old(self),
                *final(self),
                owner_user_id,
                request.category_id,
                TxKind::Credit,
                request.amount,
                request.memo,
                request.description,
                r,
            ),
            request.kind@ == "DEBIT"@ ==> create_ensures(
                *old(self),
                *final(self),
                owner_user_id,
                request.category_id,
                TxKind::Debit,
                request.amount,
                request.memo,
                request.description,
                r,
            ),
    {
        let kind = match parse_kind(request.kind.as_str()) {
            Ok(k) => k,
            Err(e) => {
                return Err(e);
            },
        };
        self.create_transaction(
            owner_user_id,
            request.category_id,
            kind,
            request.amount,
            request.memo,
            request.description,
        )
    }
}

} // verus!
