//! End-to-end scenarios over the in-memory ledger.

use ledger::Ledger;
use ledger::LedgerError;
use ledger::TxKind;

fn user_with_category(l: &mut Ledger) -> (i32, i32) {
    let u = l.create_user();
    let c = l
        .create_category(u, String::from("groceries"), None)
        .expect("category for an existing user");
    (u, c.id)
}

#[test]
fn credit_into_empty_balances() {
    let mut l = Ledger::new();
    let (u, c) = user_with_category(&mut l);
    assert_eq!(l.get_user_balance(u), Some(0));
    assert_eq!(l.get_category(u, c).unwrap().balance, 0);

    let tx = l
        .create_transaction(u, c, TxKind::Credit, 500, String::from("pay"), None)
        .unwrap();
    assert_eq!(tx.amount, 500);
    assert_eq!(l.get_user_balance(u), Some(500));
    assert_eq!(l.get_category(u, c).unwrap().balance, 500);
}

#[test]
fn debit_beyond_balance_is_rejected_unchanged() {
    let mut l = Ledger::new();
    let (u, c) = user_with_category(&mut l);
    l.create_transaction(u, c, TxKind::Credit, 500, String::from("pay"), None)
        .unwrap();

    let r = l.create_transaction(u, c, TxKind::Debit, 600, String::from("rent"), None);
    assert_eq!(r.unwrap_err(), LedgerError::InsufficientFunds);
    assert_eq!(l.get_user_balance(u), Some(500));
    assert_eq!(l.get_category(u, c).unwrap().balance, 500);
    assert_eq!(l.get_all_transactions(u).len(), 1);
}

#[test]
fn debit_to_zero_then_delete_restores() {
    let mut l = Ledger::new();
    let (u, c) = user_with_category(&mut l);
    l.create_transaction(u, c, TxKind::Credit, 500, String::from("pay"), None)
        .unwrap();

    let debit = l
        .create_transaction(u, c, TxKind::Debit, 500, String::from("rent"), None)
        .unwrap();
    assert_eq!(l.get_user_balance(u), Some(0));
    assert_eq!(l.get_category(u, c).unwrap().balance, 0);

    l.delete_transaction(u, debit.id).unwrap();
    assert_eq!(l.get_user_balance(u), Some(500));
    assert_eq!(l.get_category(u, c).unwrap().balance, 500);
}

#[test]
fn debit_one_of_two_categories_draws_from_the_total() {
    let mut l = Ledger::new();
    let u = l.create_user();
    let a = l.create_category(u, String::from("a"), None).unwrap().id;
    let b = l.create_category(u, String::from("b"), None).unwrap().id;
    l.create_transaction(u, a, TxKind::Credit, 300, String::from("x"), None)
        .unwrap();
    l.create_transaction(u, b, TxKind::Credit, 300, String::from("y"), None)
        .unwrap();
    assert_eq!(l.get_user_balance(u), Some(600));

    l.create_transaction(u, a, TxKind::Debit, 300, String::from("z"), None)
        .unwrap();
    assert_eq!(l.get_user_balance(u), Some(300));
    assert_eq!(l.get_category(u, a).unwrap().balance, 0);
    assert_eq!(l.get_category(u, b).unwrap().balance, 300);
}

#[test]
fn create_then_delete_is_a_round_trip() {
    let mut l = Ledger::new();
    let (u, c) = user_with_category(&mut l);
    l.create_transaction(u, c, TxKind::Credit, 250, String::from("seed"), None)
        .unwrap();
    l.create_transaction(u, c, TxKind::Debit, 100, String::from("spend"), None)
        .unwrap();
    let users_before = l.get_user_balance(u);
    let cat_before = l.get_category(u, c).unwrap().balance;
    let txs_before = l.get_all_transactions(u).len();

    let tx = l
        .create_transaction(u, c, TxKind::Credit, 77, String::from("bonus"), None)
        .unwrap();
    l.delete_transaction(u, tx.id).unwrap();

    assert_eq!(l.get_user_balance(u), users_before);
    assert_eq!(l.get_category(u, c).unwrap().balance, cat_before);
    assert_eq!(l.get_all_transactions(u).len(), txs_before);
}

#[test]
fn deleting_a_credit_after_spending_it_is_rejected() {
    let mut l = Ledger::new();
    let (u, c) = user_with_category(&mut l);
    let credit = l
        .create_transaction(u, c, TxKind::Credit, 500, String::from("pay"), None)
        .unwrap();
    l.create_transaction(u, c, TxKind::Debit, 400, String::from("rent"), None)
        .unwrap();

    let r = l.delete_transaction(u, credit.id);
    assert_eq!(r, Err(LedgerError::InsufficientFunds));
    assert_eq!(l.get_user_balance(u), Some(100));
    assert_eq!(l.get_all_transactions(u).len(), 2);
}

#[test]
fn balances_track_signed_sums_over_a_long_run() {
    let mut l = Ledger::new();
    let (u, c) = user_with_category(&mut l);
    let mut expected: i64 = 0;
    let mut ids: Vec<i32> = Vec::new();
    for step in 0..20i64 {
        let amount = 10 + step;
        let tx = l
            .create_transaction(u, c, TxKind::Credit, amount, String::from("in"), None)
            .unwrap();
        ids.push(tx.id);
        expected += amount;
    }
    for (n, id) in ids.iter().enumerate() {
        if n % 2 == 0 {
            l.delete_transaction(u, *id).unwrap();
            expected -= 10 + n as i64;
        }
    }
    l.create_transaction(u, c, TxKind::Debit, 55, String::from("out"), None)
        .unwrap();
    expected -= 55;
    assert_eq!(l.get_user_balance(u), Some(expected));
    assert_eq!(l.get_category(u, c).unwrap().balance, expected);
}
