use swaps::ledger::Ledger;
use swaps::pool::{Account, Asset};
use swaps::Error;

#[test]
fn new_ledger_is_empty() {
    let l = Ledger::new();
    assert_eq!(l.free_balance(Asset::Ztg, &Account::User(1)), 0);
    assert_eq!(l.total_issuance(Asset::Ztg), 0);
}

#[test]
fn deposit_credits_balance_and_issuance() {
    let mut l = Ledger::new();
    assert_eq!(l.deposit(Asset::Ztg, &Account::User(1), 100), Ok(()));
    assert_eq!(l.free_balance(Asset::Ztg, &Account::User(1)), 100);
    assert_eq!(l.total_issuance(Asset::Ztg), 100);
    assert_eq!(l.free_balance(Asset::Ztg, &Account::User(2)), 0);
    assert_eq!(l.total_issuance(Asset::CategoricalOutcome(0, 0)), 0);
}

#[test]
fn deposit_overflow_is_error_and_changes_nothing() {
    let mut l = Ledger::new();
    assert_eq!(l.deposit(Asset::Ztg, &Account::User(1), u128::MAX), Ok(()));
    assert_eq!(l.deposit(Asset::Ztg, &Account::User(1), 1), Err(Error::ArithmeticError));
    assert_eq!(l.free_balance(Asset::Ztg, &Account::User(1)), u128::MAX);
}

#[test]
fn withdraw_debits_balance_and_issuance() {
    let mut l = Ledger::new();
    l.deposit(Asset::Ztg, &Account::User(1), 100).unwrap();
    assert_eq!(l.withdraw(Asset::Ztg, &Account::User(1), 30), Ok(()));
    assert_eq!(l.free_balance(Asset::Ztg, &Account::User(1)), 70);
    assert_eq!(l.total_issuance(Asset::Ztg), 70);
}

#[test]
fn withdraw_more_than_held_is_insufficient() {
    let mut l = Ledger::new();
    l.deposit(Asset::Ztg, &Account::User(1), 100).unwrap();
    assert_eq!(l.withdraw(Asset::Ztg, &Account::User(1), 101), Err(Error::InsufficientBalance));
    assert_eq!(l.free_balance(Asset::Ztg, &Account::User(1)), 100);
}

#[test]
fn transfer_moves_balance_keeps_issuance() {
    let mut l = Ledger::new();
    l.deposit(Asset::Ztg, &Account::User(1), 100).unwrap();
    assert_eq!(l.transfer(Asset::Ztg, &Account::User(1), &Account::PoolAccount(0), 40), Ok(()));
    assert_eq!(l.free_balance(Asset::Ztg, &Account::User(1)), 60);
    assert_eq!(l.free_balance(Asset::Ztg, &Account::PoolAccount(0)), 40);
    assert_eq!(l.total_issuance(Asset::Ztg), 100);
}

#[test]
fn transfer_insufficient_is_error() {
    let mut l = Ledger::new();
    l.deposit(Asset::Ztg, &Account::User(1), 10).unwrap();
    assert_eq!(
        l.transfer(Asset::Ztg, &Account::User(1), &Account::User(2), 11),
        Err(Error::InsufficientBalance)
    );
    assert_eq!(l.free_balance(Asset::Ztg, &Account::User(1)), 10);
    assert_eq!(l.free_balance(Asset::Ztg, &Account::User(2)), 0);
}

#[test]
fn transfer_to_self_is_a_no_op() {
    let mut l = Ledger::new();
    l.deposit(Asset::Ztg, &Account::User(1), 10).unwrap();
    assert_eq!(l.transfer(Asset::Ztg, &Account::User(1), &Account::User(1), 7), Ok(()));
    assert_eq!(l.free_balance(Asset::Ztg, &Account::User(1)), 10);
}

#[test]
fn balances_are_per_asset_and_per_account() {
    let mut l = Ledger::new();
    l.deposit(Asset::Ztg, &Account::User(1), 5).unwrap();
    l.deposit(Asset::CategoricalOutcome(2, 1), &Account::User(1), 7).unwrap();
    l.deposit(Asset::Ztg, &Account::User(2), 11).unwrap();
    assert_eq!(l.free_balance(Asset::Ztg, &Account::User(1)), 5);
    assert_eq!(l.free_balance(Asset::CategoricalOutcome(2, 1), &Account::User(1)), 7);
    assert_eq!(l.free_balance(Asset::Ztg, &Account::User(2)), 11);
    assert_eq!(l.total_issuance(Asset::Ztg), 16);
    assert_eq!(l.total_issuance(Asset::CategoricalOutcome(2, 1)), 7);
}
