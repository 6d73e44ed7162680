//! Operation-level behaviour: validation, ownership scoping, edits,
//! category lifecycle, listings and the kind-string boundary.

use ledger::Direction;
use ledger::Ledger;
use ledger::LedgerError;
use ledger::TxKind;
use ledger::is_credit;
use ledger::parse_kind;
use ledger::requests::CreateTransactionRequest;

#[test]
fn non_positive_amounts_are_invalid() {
    let mut l = Ledger::new();
    let u = l.create_user();
    let c = l.create_category(u, String::from("c"), None).unwrap().id;
    let r = l.create_transaction(u, c, TxKind::Credit, 0, String::from("m"), None);
    assert_eq!(r.unwrap_err(), LedgerError::InvalidAmount);
    let r = l.create_transaction(u, c, TxKind::Debit, -5, String::from("m"), None);
    assert_eq!(r.unwrap_err(), LedgerError::InvalidAmount);
    assert_eq!(l.get_all_transactions(u).len(), 0);
}

#[test]
fn missing_and_foreign_categories_report_the_same_error() {
    let mut l = Ledger::new();
    let alice = l.create_user();
    let bob = l.create_user();
    let bobs = l.create_category(bob, String::from("b"), None).unwrap().id;

    let missing = l.create_transaction(alice, 999, TxKind::Credit, 10, String::from("m"), None);
    let foreign = l.create_transaction(alice, bobs, TxKind::Credit, 10, String::from("m"), None);
    assert_eq!(missing.unwrap_err(), LedgerError::NotFoundOrUnauthorized);
    assert_eq!(foreign.unwrap_err(), LedgerError::NotFoundOrUnauthorized);

    let missing = l.get_category(alice, 999).unwrap_err();
    let foreign = l.get_category(alice, bobs).unwrap_err();
    assert_eq!(missing, foreign);
    assert_eq!(missing, LedgerError::NotFoundOrUnauthorized);
}

#[test]
fn missing_and_foreign_transactions_report_the_same_error() {
    let mut l = Ledger::new();
    let alice = l.create_user();
    let bob = l.create_user();
    let bobs_cat = l.create_category(bob, String::from("b"), None).unwrap().id;
    let bobs_tx = l
        .create_transaction(bob, bobs_cat, TxKind::Credit, 10, String::from("m"), None)
        .unwrap()
        .id;

    assert_eq!(
        l.get_transaction(alice, 999).unwrap_err(),
        LedgerError::NotFoundOrUnauthorized
    );
    assert_eq!(
        l.get_transaction(alice, bobs_tx).unwrap_err(),
        LedgerError::NotFoundOrUnauthorized
    );
    assert_eq!(
        l.update_transaction(alice, bobs_tx, String::from("x"), None)
            .unwrap_err(),
        LedgerError::NotFoundOrUnauthorized
    );
    assert_eq!(
        l.delete_transaction(alice, bobs_tx),
        Err(LedgerError::NotFoundOrUnauthorized)
    );
    // nothing of Bob's moved
    assert_eq!(l.get_user_balance(bob), Some(10));
    assert_eq!(l.get_transaction(bob, bobs_tx).unwrap().memo, "m");
}

#[test]
fn update_edits_memo_and_description_only() {
    let mut l = Ledger::new();
    let u = l.create_user();
    let c = l.create_category(u, String::from("c"), None).unwrap().id;
    let tx = l
        .create_transaction(
            u,
            c,
            TxKind::Credit,
            40,
            String::from("before"),
            Some(String::from("old")),
        )
        .unwrap();

    let updated = l
        .update_transaction(u, tx.id, String::from("after"), Some(String::from("new")))
        .unwrap();
    assert_eq!(updated.id, tx.id);
    assert_eq!(updated.memo, "after");
    assert_eq!(updated.description.as_deref(), Some("new"));
    assert_eq!(updated.amount, 40);
    assert_eq!(updated.kind, TxKind::Credit);
    assert_eq!(updated.created_at, tx.created_at);
    assert_eq!(l.get_user_balance(u), Some(40));
    assert_eq!(l.get_transaction(u, tx.id).unwrap().memo, "after");
}

#[test]
fn created_transaction_carries_its_fields() {
    let mut l = Ledger::new();
    let u = l.create_user();
    let c = l.create_category(u, String::from("c"), None).unwrap().id;
    let tx = l
        .create_transaction(
            u,
            c,
            TxKind::Debit,
            7,
            String::from("coffee"),
            Some(String::from("espresso")),
        )
        .unwrap_err();
    assert_eq!(tx, LedgerError::InsufficientFunds);

    l.create_transaction(u, c, TxKind::Credit, 10, String::from("seed"), None)
        .unwrap();
    let tx = l
        .create_transaction(
            u,
            c,
            TxKind::Debit,
            7,
            String::from("coffee"),
            Some(String::from("espresso")),
        )
        .unwrap();
    assert_eq!(tx.owner_user_id, u);
    assert_eq!(tx.category_id, c);
    assert_eq!(tx.kind, TxKind::Debit);
    assert_eq!(tx.amount, 7);
    assert_eq!(tx.memo, "coffee");
    assert_eq!(tx.description.as_deref(), Some("espresso"));
    assert_eq!(tx.created_at, tx.updated_at);
}

#[test]
fn transaction_ids_are_fresh_and_increasing() {
    let mut l = Ledger::new();
    let u = l.create_user();
    let c = l.create_category(u, String::from("c"), None).unwrap().id;
    let a = l
        .create_transaction(u, c, TxKind::Credit, 1, String::from("a"), None)
        .unwrap()
        .id;
    let b = l
        .create_transaction(u, c, TxKind::Credit, 1, String::from("b"), None)
        .unwrap()
        .id;
    assert!(b > a);
    l.delete_transaction(u, a).unwrap();
    let d = l
        .create_transaction(u, c, TxKind::Credit, 1, String::from("d"), None)
        .unwrap()
        .id;
    assert!(d > b);
}

#[test]
fn category_lifecycle() {
    let mut l = Ledger::new();
    let u = l.create_user();
    let c = l
        .create_category(u, String::from("food"), Some(String::from("meals")))
        .unwrap();
    assert_eq!(c.owner_user_id, u);
    assert_eq!(c.balance, 0);
    assert_eq!(c.name, "food");
    assert_eq!(c.description.as_deref(), Some("meals"));

    let c2 = l
        .update_category(u, c.id, String::from("groceries"), None)
        .unwrap();
    assert_eq!(c2.id, c.id);
    assert_eq!(c2.name, "groceries");
    assert_eq!(c2.description, None);
    assert_eq!(c2.balance, 0);
    assert_eq!(l.get_category(u, c.id).unwrap().name, "groceries");

    assert_eq!(
        l.update_category(u, 999, String::from("x"), None).unwrap_err(),
        LedgerError::NotFoundOrUnauthorized
    );
}

#[test]
fn creating_a_category_for_an_unknown_user_fails() {
    let mut l = Ledger::new();
    let r = l.create_category(42, String::from("c"), None);
    assert_eq!(r.unwrap_err(), LedgerError::NotFoundOrUnauthorized);
}

#[test]
fn deleting_a_category_cascades_and_rebalances() {
    let mut l = Ledger::new();
    let u = l.create_user();
    let a = l.create_category(u, String::from("a"), None).unwrap().id;
    let b = l.create_category(u, String::from("b"), None).unwrap().id;
    l.create_transaction(u, a, TxKind::Credit, 100, String::from("x"), None)
        .unwrap();
    l.create_transaction(u, a, TxKind::Debit, 30, String::from("y"), None)
        .unwrap();
    l.create_transaction(u, b, TxKind::Credit, 50, String::from("z"), None)
        .unwrap();
    assert_eq!(l.get_user_balance(u), Some(120));

    l.delete_category(u, a).unwrap();
    assert_eq!(
        l.get_category(u, a).unwrap_err(),
        LedgerError::NotFoundOrUnauthorized
    );
    assert_eq!(l.get_user_balance(u), Some(50));
    let left = l.get_all_transactions(u);
    assert_eq!(left.len(), 1);
    assert_eq!(left[0].category_id, b);
    assert_eq!(l.get_category(u, b).unwrap().balance, 50);
}

#[test]
fn deleting_a_foreign_category_is_unauthorized() {
    let mut l = Ledger::new();
    let alice = l.create_user();
    let bob = l.create_user();
    let bobs = l.create_category(bob, String::from("b"), None).unwrap().id;
    assert_eq!(
        l.delete_category(alice, bobs),
        Err(LedgerError::NotFoundOrUnauthorized)
    );
    assert!(l.get_category(bob, bobs).is_ok());
}

#[test]
fn listings_are_scoped_and_ordered() {
    let mut l = Ledger::new();
    let alice = l.create_user();
    let bob = l.create_user();
    let ac = l.create_category(alice, String::from("a"), None).unwrap().id;
    let bc = l.create_category(bob, String::from("b"), None).unwrap().id;
    l.create_transaction(alice, ac, TxKind::Credit, 1, String::from("a1"), None)
        .unwrap();
    l.create_transaction(bob, bc, TxKind::Credit, 2, String::from("b1"), None)
        .unwrap();
    l.create_transaction(alice, ac, TxKind::Credit, 3, String::from("a2"), None)
        .unwrap();

    let of_alice = l.get_all_transactions(alice);
    assert_eq!(of_alice.len(), 2);
    assert_eq!(of_alice[0].memo, "a1");
    assert_eq!(of_alice[1].memo, "a2");

    let cats = l.get_all_categories(alice);
    assert_eq!(cats.len(), 1);
    assert_eq!(cats[0].id, ac);

    let listed = l.list_category_transactions(alice, ac).unwrap();
    assert_eq!(listed.len(), 2);
    assert_eq!(listed[0].memo, "a1");
    assert_eq!(
        l.list_category_transactions(alice, bc).unwrap_err(),
        LedgerError::NotFoundOrUnauthorized
    );
}

#[test]
fn unknown_user_has_no_balance() {
    let l = Ledger::new();
    assert_eq!(l.get_user_balance(7), None);
}

#[test]
fn issued_claims_carry_subject_role_and_expiry() {
    let c = ledger::requests::Claims::issue(9, 1_000_000);
    assert_eq!(c.sub, 9);
    assert_eq!(c.role, "user");
    assert_eq!(c.exp, 1_000_000 + 4 * 3600);
}

#[test]
fn kind_strings_are_checked_at_the_boundary() {
    assert_eq!(parse_kind("CREDIT"), Ok(TxKind::Credit));
    assert_eq!(parse_kind("DEBIT"), Ok(TxKind::Debit));
    assert_eq!(parse_kind("credit"), Err(LedgerError::ValidationError));
    assert_eq!(parse_kind(""), Err(LedgerError::ValidationError));
    assert_eq!(parse_kind("TRANSFER"), Err(LedgerError::ValidationError));
    assert!(is_credit("CREDIT"));
    assert!(!is_credit("DEBIT"));
    assert!(!is_credit("Credit"));
}

#[test]
fn request_payload_goes_through_the_boundary() {
    let mut l = Ledger::new();
    let u = l.create_user();
    let c = l.create_category(u, String::from("c"), None).unwrap().id;
    let tx = l
        .create_transaction_from_request(
            u,
            CreateTransactionRequest {
                category_id: c,
                kind: String::from("CREDIT"),
                amount: 12,
                memo: String::from("m"),
                description: None,
            },
        )
        .unwrap();
    assert_eq!(tx.kind, TxKind::Credit);
    assert_eq!(l.get_user_balance(u), Some(12));

    let r = l.create_transaction_from_request(
        u,
        CreateTransactionRequest {
            category_id: c,
            kind: String::from("credit"),
            amount: 12,
            memo: String::from("m"),
            description: None,
        },
    );
    assert_eq!(r.unwrap_err(), LedgerError::ValidationError);
    assert_eq!(l.get_user_balance(u), Some(12));
}

#[test]
fn balances_reach_and_leave_the_field_limit() {
    let mut l = Ledger::new();
    let u = l.create_user();
    let c = l.create_category(u, String::from("c"), None).unwrap().id;
    let big = l
        .create_transaction(u, c, TxKind::Credit, i64::MAX, String::from("all"), None)
        .unwrap();
    assert_eq!(l.get_user_balance(u), Some(i64::MAX));
    assert_eq!(l.get_category(u, c).unwrap().balance, i64::MAX);
    l.delete_transaction(u, big.id).unwrap();
    assert_eq!(l.get_user_balance(u), Some(0));
}

#[test]
fn deleting_a_category_checks_the_true_current_state() {
    // the guard in the category delete reads the balances as they are, so
    // an externally altered store is still never driven negative
    let mut l = Ledger::new();
    let u = l.create_user();
    let c = l.create_category(u, String::from("c"), None).unwrap().id;
    l.create_transaction(u, c, TxKind::Credit, 100, String::from("x"), None)
        .unwrap();
    l.users[0].balance = 40;
    assert_eq!(l.delete_category(u, c), Err(LedgerError::InsufficientFunds));
    assert_eq!(l.get_user_balance(u), Some(40));
    assert!(l.get_category(u, c).is_ok());
}

#[test]
fn the_mutator_moves_both_balances_together() {
    let mut l = Ledger::new();
    let u = l.create_user();
    let c = l.create_category(u, String::from("c"), None).unwrap().id;
    // forward credit adds to both; reverse credit takes it back
    l.apply(u, c, TxKind::Credit, 80, Direction::Forward).unwrap();
    assert_eq!(l.get_user_balance(u), Some(80));
    assert_eq!(l.get_category(u, c).unwrap().balance, 80);
    l.apply(u, c, TxKind::Credit, 80, Direction::Reverse).unwrap();
    assert_eq!(l.get_user_balance(u), Some(0));
    // a draining step past zero is rejected with no partial write
    assert_eq!(
        l.apply(u, c, TxKind::Debit, 1, Direction::Forward),
        Err(LedgerError::InsufficientFunds)
    );
    assert_eq!(l.get_user_balance(u), Some(0));
    assert_eq!(l.get_category(u, c).unwrap().balance, 0);
    // unknown rows are reported uniformly
    assert_eq!(
        l.apply(99, c, TxKind::Credit, 1, Direction::Forward),
        Err(LedgerError::NotFoundOrUnauthorized)
    );
}
