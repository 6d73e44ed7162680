//! A personal-finance ledger: users own categories (budget envelopes) and
//! record debit/credit transactions against them.  The crate keeps three
//! denormalized aggregate balances — a user's total balance and each
//! category's balance — provably consistent and non-negative while
//! transactions are created, edited and deleted.

pub mod categories;
pub mod clock;
pub mod laws;
pub mod model;
pub mod mutator;
pub mod requests;
pub mod store;
pub mod sums;
pub mod transactions;

pub use store::Ledger;

pub use model::Direction;
pub use model::LedgerError;
pub use model::TxKind;
pub use model::is_credit;
pub use model::parse_kind;
