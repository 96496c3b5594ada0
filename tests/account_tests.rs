use transactions::Account;
use transactions::RuleViolation;
use transactions::Transaction;
use transactions::TransactionType::{CHARGEBACK, DEPOSIT, DISPUTE, RESOLVE, WITHDRAWAL};

#[test]
fn test_transaction_log() {
    let tx_one = Transaction { transaction_type: DEPOSIT, client: 1, tx: 1, amount: Some(10000) };
    let tx_two = Transaction { transaction_type: DEPOSIT, client: 1, tx: 2, amount: Some(10000) };
    let mut account_one = Account::new(1);

    account_one = account_one.add_transaction(tx_one).unwrap();
    account_one = account_one.add_transaction(tx_two).unwrap();

    assert_eq!(2, account_one.transaction_log.len());
    assert_eq!(1, account_one.transaction_log[0].tx);
    assert_eq!(2, account_one.transaction_log[1].tx);
}

#[test]
fn test_deposit() {
    let tx_one = Transaction { transaction_type: DEPOSIT, client: 1, tx: 1, amount: Some(40000) };

    let mut account_one = Account::new(1);

    account_one = account_one.add_transaction(tx_one).unwrap();

    assert_eq!(40000, account_one.amount_available);
    assert_eq!(40000, account_one.total);
    println!("{:?}", account_one);
}

#[test]
fn test_withdrawal() {
    let tx_one = Transaction { transaction_type: WITHDRAWAL, client: 1, tx: 1, amount: Some(25000) };
    let mut account_one = Account::new(1);

    account_one.amount_available = 40000;
    account_one.total = 40000;

    account_one = account_one.add_transaction(tx_one).unwrap();
    assert_eq!(15000, account_one.amount_available);
    assert_eq!(15000, account_one.total);
}

#[test]
#[should_panic]
fn test_overwithdrawal() {
    let tx_one = Transaction { transaction_type: WITHDRAWAL, client: 1, tx: 1, amount: Some(200000) };
    let mut account_one = Account::new(1);

    account_one.amount_available = 40000;
    account_one.total = 40000;
    account_one.add_transaction(tx_one).unwrap();
}

#[test]
fn test_normal_dispute() {
    let tx_one = Transaction { transaction_type: DEPOSIT, client: 1, tx: 1, amount: Some(50000) };
    let tx_two = Transaction { transaction_type: DEPOSIT, client: 1, tx: 2, amount: Some(100000) };
    let tx_three = Transaction { transaction_type: DEPOSIT, client: 1, tx: 3, amount: Some(50000) };

    let tx_four = Transaction { transaction_type: DISPUTE, client: 1, tx: 4, amount: None };
    let tx_five = Transaction { transaction_type: DISPUTE, client: 1, tx: 2, amount: None };

    let mut account_one = Account::new(1);

    account_one = account_one.add_transaction(tx_one).unwrap();
    account_one = account_one.add_transaction(tx_two).unwrap();
    account_one = account_one.add_transaction(tx_three).unwrap();

    account_one = account_one.add_transaction(tx_four).unwrap();

    assert_eq!(200000, account_one.amount_available);
    assert_eq!(0, account_one.amount_held);
    assert_eq!(200000, account_one.total);
    assert_eq!(false, account_one.locked);

    account_one = account_one.add_transaction(tx_five).unwrap();
    assert_eq!(100000, account_one.amount_available);
    assert_eq!(100000, account_one.amount_held);
    assert_eq!(200000, account_one.total);
    assert_eq!(false, account_one.locked);
}

#[test]
fn test_resolve() {
    let tx_one = Transaction { transaction_type: DEPOSIT, client: 1, tx: 1, amount: Some(50000) };
    let tx_two = Transaction { transaction_type: DEPOSIT, client: 1, tx: 2, amount: Some(100000) };
    let tx_three = Transaction { transaction_type: DEPOSIT, client: 1, tx: 3, amount: Some(50000) };
    let tx_four = Transaction { transaction_type: DISPUTE, client: 1, tx: 2, amount: None };

    let mut account_one = Account::new(1);

    account_one = account_one.add_transaction(tx_one).unwrap();
    account_one = account_one.add_transaction(tx_two).unwrap();
    account_one = account_one.add_transaction(tx_three).unwrap();
    account_one = account_one.add_transaction(tx_four).unwrap();

    let tx_five = Transaction { transaction_type: RESOLVE, client: 1, tx: 3, amount: Some(50000) };
    let tx_six = Transaction { transaction_type: RESOLVE, client: 1, tx: 2, amount: None };

    account_one = account_one.add_transaction(tx_five).unwrap();
    assert_eq!(100000, account_one.amount_available);
    assert_eq!(100000, account_one.amount_held);
    assert_eq!(200000, account_one.total);
    assert_eq!(false, account_one.locked);

    account_one = account_one.add_transaction(tx_six).unwrap();
    assert_eq!(200000, account_one.amount_available);
    assert_eq!(0, account_one.amount_held);
    assert_eq!(200000, account_one.total);
    assert_eq!(false, account_one.locked);
}

#[test]
fn test_chargeback() {
    let tx_one = Transaction { transaction_type: DEPOSIT, client: 1, tx: 1, amount: Some(50000) };
    let tx_two = Transaction { transaction_type: DEPOSIT, client: 1, tx: 2, amount: Some(100000) };
    let tx_three = Transaction { transaction_type: DEPOSIT, client: 1, tx: 3, amount: Some(50000) };

    let tx_four = Transaction { transaction_type: DISPUTE, client: 1, tx: 2, amount: None };
    let tx_five = Transaction { transaction_type: CHARGEBACK, client: 1, tx: 2, amount: None };

    let mut account_one = Account::new(1);

    account_one = account_one.add_transaction(tx_one).unwrap();
    account_one = account_one.add_transaction(tx_two).unwrap();
    account_one = account_one.add_transaction(tx_three).unwrap();

    account_one = account_one.add_transaction(tx_four).unwrap();
    account_one = account_one.add_transaction(tx_five).unwrap();
    println!("{:?}", account_one);

    assert_eq!(100000, account_one.amount_available);
    assert_eq!(0, account_one.amount_held);
    assert_eq!(100000, account_one.total);
    assert_eq!(true, account_one.locked);
}

fn deposit(tx: i32, amount: i64) -> Transaction {
    Transaction { transaction_type: DEPOSIT, client: 1, tx, amount: Some(amount) }
}

fn withdrawal(tx: i32, amount: i64) -> Transaction {
    Transaction { transaction_type: WITHDRAWAL, client: 1, tx, amount: Some(amount) }
}

fn refer(transaction_type: transactions::TransactionType, tx: i32) -> Transaction {
    Transaction { transaction_type, client: 1, tx, amount: None }
}

#[test]
fn cash_only_keeps_nothing_held() {
    let steps = vec![deposit(1, 30000), withdrawal(2, 10000), withdrawal(3, 90000), deposit(4, 5000)];
    let mut account = Account::new(1);
    for step in steps {
        account = match account.clone().add_transaction(step) {
            Ok(next) => next,
            Err(_) => account,
        };
        assert_eq!(0, account.amount_held);
        assert_eq!(account.total, account.amount_available + account.amount_held);
    }
    assert_eq!(25000, account.amount_available);
}

#[test]
fn deposit_then_dispute_moves_amount_to_held() {
    let account = Account::new(1).add_transaction(deposit(7, 12345)).unwrap();
    let account = account.add_transaction(refer(DISPUTE, 7)).unwrap();
    assert_eq!(0, account.amount_available);
    assert_eq!(12345, account.amount_held);
    assert_eq!(12345, account.total);
    assert!(!account.locked);
}

#[test]
fn dispute_of_unknown_tx_changes_nothing() {
    let account = Account::new(1).add_transaction(deposit(1, 10000)).unwrap();
    let account = account.add_transaction(refer(DISPUTE, 99)).unwrap();
    assert_eq!(1, account.transaction_log.len());
    assert_eq!(10000, account.amount_available);
    assert_eq!(0, account.amount_held);
}

#[test]
fn dispute_of_withdrawal_is_ignored() {
    let account = Account::new(1).add_transaction(deposit(1, 10000)).unwrap();
    let account = account.add_transaction(withdrawal(2, 4000)).unwrap();
    let account = account.add_transaction(refer(DISPUTE, 2)).unwrap();
    assert_eq!(2, account.transaction_log.len());
    assert_eq!(6000, account.amount_available);
    assert_eq!(0, account.amount_held);
}

#[test]
fn resolve_without_dispute_changes_nothing() {
    let account = Account::new(1).add_transaction(deposit(1, 10000)).unwrap();
    let account = account.add_transaction(refer(RESOLVE, 1)).unwrap();
    assert_eq!(1, account.transaction_log.len());
    assert_eq!(10000, account.amount_available);
    assert_eq!(0, account.amount_held);
    assert_eq!(10000, account.total);
}

#[test]
fn chargeback_locks_and_locked_refuses_everything() {
    let account = Account::new(1).add_transaction(deposit(1, 10000)).unwrap();
    let account = account.add_transaction(refer(DISPUTE, 1)).unwrap();
    let account = account.add_transaction(refer(CHARGEBACK, 1)).unwrap();
    assert_eq!(0, account.amount_available);
    assert_eq!(0, account.amount_held);
    assert_eq!(0, account.total);
    assert!(account.locked);
    assert_eq!(3, account.transaction_log.len());
    for t in [deposit(2, 1), withdrawal(3, 0), refer(DISPUTE, 1), refer(RESOLVE, 1), refer(CHARGEBACK, 1)] {
        assert_eq!(RuleViolation::AccountLocked, account.clone().add_transaction(t).unwrap_err());
    }
}

#[test]
fn chargeback_without_dispute_is_refused() {
    let account = Account::new(1).add_transaction(deposit(1, 10000)).unwrap();
    assert_eq!(RuleViolation::NoDisputeFound, account.add_transaction(refer(CHARGEBACK, 1)).unwrap_err());
}

#[test]
fn chargeback_with_too_little_held_is_refused() {
    let account = Account::new(1).add_transaction(deposit(1, 10000)).unwrap();
    let account = account.add_transaction(refer(DISPUTE, 1)).unwrap();
    let account = account.add_transaction(refer(RESOLVE, 1)).unwrap();
    assert_eq!(0, account.amount_held);
    assert_eq!(
        RuleViolation::InsufficientHeldFunds,
        account.add_transaction(refer(CHARGEBACK, 1)).unwrap_err()
    );
}

#[test]
fn withdrawal_of_exactly_available_is_accepted() {
    let account = Account::new(1).add_transaction(deposit(1, 10000)).unwrap();
    let account = account.add_transaction(withdrawal(2, 10000)).unwrap();
    assert_eq!(0, account.amount_available);
    assert_eq!(0, account.total);
}

#[test]
fn withdrawal_beyond_available_is_refused() {
    let mut account = Account::new(1);
    account.amount_available = 40000;
    account.total = 40000;
    assert_eq!(RuleViolation::InsufficientFunds, account.clone().add_transaction(withdrawal(1, 200000)).unwrap_err());
    assert_eq!(40000, account.amount_available);
    assert_eq!(40000, account.total);
}

#[test]
fn balance_past_i64_is_refused() {
    let account = Account::new(1).add_transaction(deposit(1, i64::MAX)).unwrap();
    assert_eq!(RuleViolation::BalanceOverflow, account.add_transaction(deposit(2, 1)).unwrap_err());
}

#[test]
fn new_account_is_empty() {
    let account = Account::new(9);
    assert_eq!(9, account.id);
    assert_eq!(0, account.amount_available);
    assert_eq!(0, account.amount_held);
    assert_eq!(0, account.total);
    assert!(!account.locked);
    assert!(account.transaction_log.is_empty());
}
