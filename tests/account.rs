use payments_engine::account::Account;
use payments_engine::amount::Amount;
use payments_engine::transaction::{Transaction, TransactionType};

#[test]
fn settle_deposit_transaction() {
    let tx = Transaction {
        kind: TransactionType::Deposit,
        client_id: 1,
        tx_id: 1,
        amount: Some(Amount::new(1_05, 2)),
    };

    let mut acc = Account::new(tx.client_id);

    acc.settle_transaction(&tx, None);

    assert_eq!(acc.funds_available, Amount::new(1_05, 2));
    assert_eq!(acc.funds_total, Amount::new(1_05, 2));
}

#[test]
fn settle_withdrawal_transaction() {
    let tx = Transaction {
        kind: TransactionType::Withdrawal,
        client_id: 1,
        tx_id: 1,
        amount: Some(Amount::new(1_05, 2)),
    };

    let mut acc = Account {
        client_id: tx.client_id,
        funds_available: Amount::new(3_05, 2),
        funds_held: Amount::new(0, 0),
        funds_total: Amount::new(3_05, 2),
        locked: false,
    };

    acc.settle_transaction(&tx, None);

    assert_eq!(acc.funds_available, Amount::new(2_00, 2));
    assert_eq!(acc.funds_total, Amount::new(2_00, 2));

    // Simulate having held funds instead of available
    acc.funds_available = Amount::new(0, 0);
    acc.funds_held = Amount::new(3_05, 2);
    acc.funds_total = Amount::new(3_05, 2);

    acc.settle_transaction(&tx, None);

    assert_eq!(acc.funds_available, Amount::new(0, 0));
    assert_eq!(acc.funds_total, Amount::new(3_05, 2));
}

#[test]
fn settle_dispute_transaction() {
    let deposit_tx = Transaction {
        kind: TransactionType::Deposit,
        client_id: 1,
        tx_id: 1,
        amount: Some(Amount::new(500, 0)),
    };

    let dispute_tx = Transaction {
        kind: TransactionType::Dispute,
        client_id: 1,
        tx_id: 1,
        amount: None,
    };

    let mut acc = Account::new(deposit_tx.client_id);

    acc.settle_transaction(&deposit_tx, None);

    assert_eq!(acc.funds_available, Amount::new(500, 0));
    assert_eq!(acc.funds_total, Amount::new(500, 0));

    acc.settle_transaction(&dispute_tx, Some(&deposit_tx));

    assert_eq!(acc.funds_available, Amount::new(0, 0));
    assert_eq!(acc.funds_held, Amount::new(500, 0));
    assert_eq!(acc.funds_total, Amount::new(500, 0));
}

#[test]
fn settle_resolve_transaction() {
    let deposit_tx = Transaction {
        kind: TransactionType::Deposit,
        client_id: 1,
        tx_id: 1,
        amount: Some(Amount::new(500, 0)),
    };

    let dispute_tx = Transaction {
        kind: TransactionType::Dispute,
        client_id: 1,
        tx_id: 1,
        amount: None,
    };

    let resolve_tx = Transaction {
        kind: TransactionType::Resolve,
        client_id: 1,
        tx_id: 1,
        amount: None,
    };

    let mut acc = Account::new(deposit_tx.client_id);

    acc.settle_transaction(&deposit_tx, None);

    assert_eq!(acc.funds_available, Amount::new(500, 0));
    assert_eq!(acc.funds_total, Amount::new(500, 0));

    acc.settle_transaction(&dispute_tx, Some(&deposit_tx));

    assert_eq!(acc.funds_available, Amount::new(0, 0));
    assert_eq!(acc.funds_held, Amount::new(500, 0));
    assert_eq!(acc.funds_total, Amount::new(500, 0));

    acc.settle_transaction(&resolve_tx, Some(&deposit_tx));

    assert_eq!(acc.funds_available, Amount::new(500, 0));
    assert_eq!(acc.funds_held, Amount::new(0, 0));
    assert_eq!(acc.funds_total, Amount::new(500, 0));
}

#[test]
fn settle_chargeback_transaction() {
    let deposit_tx = Transaction {
        kind: TransactionType::Deposit,
        client_id: 1,
        tx_id: 1,
        amount: Some(Amount::new(500, 0)),
    };

    let dispute_tx = Transaction {
        kind: TransactionType::Dispute,
        client_id: 1,
        tx_id: 1,
        amount: None,
    };

    let chargeback_tx = Transaction {
        kind: TransactionType::Chargeback,
        client_id: 1,
        tx_id: 1,
        amount: None,
    };

    let mut acc = Account::new(deposit_tx.client_id);

    acc.settle_transaction(&deposit_tx, None);

    assert_eq!(acc.funds_available, Amount::new(500, 0));
    assert_eq!(acc.funds_total, Amount::new(500, 0));

    acc.settle_transaction(&dispute_tx, Some(&deposit_tx));

    assert_eq!(acc.funds_available, Amount::new(0, 0));
    assert_eq!(acc.funds_held, Amount::new(500, 0));
    assert_eq!(acc.funds_total, Amount::new(500, 0));

    acc.settle_transaction(&chargeback_tx, Some(&deposit_tx));

    assert_eq!(acc.funds_available, Amount::new(0, 0));
    assert_eq!(acc.funds_held, Amount::new(0, 0));
    assert_eq!(acc.funds_total, Amount::new(0, 0));
    assert_eq!(acc.locked, true);
}

#[test]
fn new_account_is_empty_and_unlocked() {
    let acc = Account::new(7);
    assert_eq!(acc.client_id, 7);
    assert_eq!(acc.funds_available, Amount::zero());
    assert_eq!(acc.funds_held, Amount::zero());
    assert_eq!(acc.funds_total, Amount::zero());
    assert!(!acc.locked);
}

#[test]
fn deposit_into_fresh_account_holds_nothing() {
    let tx = Transaction {
        kind: TransactionType::Deposit,
        client_id: 3,
        tx_id: 9,
        amount: Some(Amount::new(42, 1)),
    };
    let mut acc = Account::new(3);
    acc.settle_transaction(&tx, None);
    assert_eq!(acc.funds_available.units, 42000);
    assert_eq!(acc.funds_total.units, 42000);
    assert_eq!(acc.funds_held.units, 0);
    assert!(!acc.locked);
}

#[test]
fn deposit_without_amount_is_ignored() {
    let tx = Transaction {
        kind: TransactionType::Deposit,
        client_id: 1,
        tx_id: 1,
        amount: None,
    };
    let mut acc = Account::new(1);
    acc.settle_transaction(&tx, None);
    assert_eq!(acc.funds_available, Amount::zero());
    assert_eq!(acc.funds_total, Amount::zero());
}

#[test]
fn withdrawal_of_exactly_available_empties_account() {
    let tx = Transaction {
        kind: TransactionType::Withdrawal,
        client_id: 1,
        tx_id: 2,
        amount: Some(Amount::new(3, 0)),
    };
    let mut acc = Account {
        client_id: 1,
        funds_available: Amount::new(3, 0),
        funds_held: Amount::new(1, 0),
        funds_total: Amount::new(4, 0),
        locked: false,
    };
    acc.settle_transaction(&tx, None);
    assert_eq!(acc.funds_available, Amount::zero());
    assert_eq!(acc.funds_held, Amount::new(1, 0));
    assert_eq!(acc.funds_total, Amount::new(1, 0));
}

#[test]
fn withdrawal_over_available_leaves_account_unchanged() {
    let tx = Transaction {
        kind: TransactionType::Withdrawal,
        client_id: 1,
        tx_id: 2,
        amount: Some(Amount::new(10001, 4)),
    };
    let mut acc = Account {
        client_id: 1,
        funds_available: Amount::new(1, 0),
        funds_held: Amount::new(5, 0),
        funds_total: Amount::new(6, 0),
        locked: false,
    };
    acc.settle_transaction(&tx, None);
    assert_eq!(acc.funds_available, Amount::new(1, 0));
    assert_eq!(acc.funds_held, Amount::new(5, 0));
    assert_eq!(acc.funds_total, Amount::new(6, 0));
    assert!(!acc.locked);
}

#[test]
fn dispute_without_reference_is_ignored() {
    let tx = Transaction {
        kind: TransactionType::Dispute,
        client_id: 1,
        tx_id: 1,
        amount: Some(Amount::new(5, 0)),
    };
    let mut acc = Account::new(1);
    acc.settle_transaction(&tx, None);
    assert_eq!(acc.funds_available, Amount::zero());
    assert_eq!(acc.funds_held, Amount::zero());
}

#[test]
fn dispute_can_drive_available_negative() {
    let deposit_tx = Transaction {
        kind: TransactionType::Deposit,
        client_id: 1,
        tx_id: 1,
        amount: Some(Amount::new(50, 0)),
    };
    let dispute_tx = Transaction {
        kind: TransactionType::Dispute,
        client_id: 1,
        tx_id: 1,
        amount: None,
    };
    let mut acc = Account {
        client_id: 1,
        funds_available: Amount::new(20, 0),
        funds_held: Amount::zero(),
        funds_total: Amount::new(20, 0),
        locked: false,
    };
    acc.settle_transaction(&dispute_tx, Some(&deposit_tx));
    assert_eq!(acc.funds_available, Amount::new(-30, 0));
    assert_eq!(acc.funds_held, Amount::new(50, 0));
    assert_eq!(acc.funds_total, Amount::new(20, 0));
}

#[test]
fn dispute_then_resolve_is_identity() {
    let deposit_tx = Transaction {
        kind: TransactionType::Deposit,
        client_id: 2,
        tx_id: 4,
        amount: Some(Amount::new(1234, 3)),
    };
    let dispute_tx = Transaction {
        kind: TransactionType::Dispute,
        client_id: 2,
        tx_id: 4,
        amount: None,
    };
    let resolve_tx = Transaction {
        kind: TransactionType::Resolve,
        client_id: 2,
        tx_id: 4,
        amount: None,
    };
    let start = Account {
        client_id: 2,
        funds_available: Amount::new(7, 0),
        funds_held: Amount::new(2, 0),
        funds_total: Amount::new(9, 0),
        locked: false,
    };
    let mut acc = start;
    acc.settle_transaction(&dispute_tx, Some(&deposit_tx));
    assert_eq!(acc.funds_available, Amount::new(5766, 3));
    assert_eq!(acc.funds_held, Amount::new(3234, 3));
    acc.settle_transaction(&resolve_tx, Some(&deposit_tx));
    assert_eq!(acc.funds_available, start.funds_available);
    assert_eq!(acc.funds_held, start.funds_held);
    assert_eq!(acc.funds_total, start.funds_total);
    assert_eq!(acc.locked, start.locked);
}

#[test]
fn locked_account_stays_locked_and_still_settles() {
    let deposit_tx = Transaction {
        kind: TransactionType::Deposit,
        client_id: 1,
        tx_id: 1,
        amount: Some(Amount::new(10, 0)),
    };
    let resolve_tx = Transaction {
        kind: TransactionType::Resolve,
        client_id: 1,
        tx_id: 1,
        amount: None,
    };
    let mut acc = Account {
        client_id: 1,
        funds_available: Amount::zero(),
        funds_held: Amount::zero(),
        funds_total: Amount::zero(),
        locked: true,
    };
    acc.settle_transaction(&deposit_tx, None);
    acc.settle_transaction(&resolve_tx, Some(&deposit_tx));
    assert!(acc.locked);
    assert_eq!(acc.funds_available, Amount::new(20, 0));
    assert_eq!(acc.funds_held, Amount::new(-10, 0));
    assert_eq!(acc.funds_total, Amount::new(10, 0));
}
