use tps2::amount::Amount;
use tps2::clients::{ClientId, ClientList};
use tps2::transactions::manager::TransactionManager;
use tps2::transactions::process::process_transactions;
use tps2::transactions::{Transaction, TransactionId, TransactionType};

fn event(kind: TransactionType, client: u16, tx: u32, units: Option<i64>) -> Transaction {
    Transaction {
        tx_type: kind,
        client_id: ClientId(client),
        tx_id: TransactionId(tx),
        amount: units.map(Amount::from_units),
        in_dispute: false,
    }
}

fn deposit_ev(client: u16, tx: u32, units: i64) -> Transaction {
    event(TransactionType::Deposit, client, tx, Some(units))
}

fn withdrawal_ev(client: u16, tx: u32, units: i64) -> Transaction {
    event(TransactionType::Withdrawal, client, tx, Some(units))
}

fn dispute_ev(client: u16, tx: u32) -> Transaction {
    event(TransactionType::Dispute, client, tx, None)
}

fn chargeback_ev(client: u16, tx: u32) -> Transaction {
    event(TransactionType::Chargeback, client, tx, None)
}

#[test]
fn basic_deposit_ignore() {
    let transactions = vec![
        deposit_ev(1, 1, 10000),
        // same event id again: the duplicate is ignored
        deposit_ev(1, 1, 50000),
        // not enough money: the account is created but stays empty
        withdrawal_ev(2, 2, 30000),
    ];

    let mut clients = ClientList::new();
    let mut manager = TransactionManager::new();

    process_transactions(transactions, &mut clients, &mut manager);

    let expected_result = r#"client, available, held, total, locked
1, 1.0000, 0.0000, 1.0000, false
2, 0.0000, 0.0000, 0.0000, false
"#;

    assert_eq!(clients.report(), expected_result);
}

#[test]
fn my_test_data() {
    let transactions = vec![
        deposit_ev(1, 1, 10000),
        deposit_ev(1, 2, 15000),
        deposit_ev(2, 3, 10000),
        deposit_ev(2, 4, 234),
        dispute_ev(2, 3),
        chargeback_ev(2, 3),
        withdrawal_ev(3, 5, 10000),
    ];

    let mut clients = ClientList::new();
    let mut manager = TransactionManager::new();

    process_transactions(transactions, &mut clients, &mut manager);

    let expected_result = r#"client, available, held, total, locked
1, 2.5000, 0.0000, 2.5000, false
2, 0.0234, 0.0000, 0.0234, true
3, 0.0000, 0.0000, 0.0000, false
"#;

    assert_eq!(clients.report(), expected_result);
}

#[test]
fn basic_dispute() {
    let transactions = vec![
        deposit_ev(1, 1, 10000),
        deposit_ev(1, 2, 5000),
        dispute_ev(1, 1),
        deposit_ev(2, 3, 20000),
    ];

    let mut clients = ClientList::new();
    let mut manager = TransactionManager::new();

    process_transactions(transactions, &mut clients, &mut manager);

    let expected_result = r#"client, available, held, total, locked
1, 0.5000, 1.0000, 1.5000, false
2, 2.0000, 0.0000, 2.0000, false
"#;

    assert_eq!(clients.report(), expected_result);
}

#[test]
fn advanced_dispute() {
    // Cases covered here:
    // - duplicate transaction ids
    // - dispute on withdrawals (ignored)
    // - withdrawal without enough money
    // - locked client
    // - not enough funds to dispute
    let transactions = vec![
        deposit_ev(1, 1, 5000),
        deposit_ev(1, 2, 3000),
        dispute_ev(1, 1),
        chargeback_ev(1, 1),
        // the account is locked now: this deposit is rejected
        deposit_ev(1, 6, 10000),
        deposit_ev(2, 3, 20000),
        withdrawal_ev(2, 4, 8750),
        // duplicate transaction id: ignored
        deposit_ev(2, 3, 90000),
        // disputing a withdrawal has no effect
        dispute_ev(2, 4),
        // withdrawal without enough money
        withdrawal_ev(2, 5, 50000),
        // not enough available funds to dispute the 2.0 deposit
        dispute_ev(2, 3),
    ];

    let mut clients = ClientList::new();
    let mut manager = TransactionManager::new();

    process_transactions(transactions, &mut clients, &mut manager);

    let expected_result = r#"client, available, held, total, locked
1, 0.3000, 0.0000, 0.3000, true
2, 1.1250, 0.0000, 1.1250, false
"#;

    assert_eq!(clients.report(), expected_result);
}

#[test]
fn many_transactions() {
    let mut transactions = Vec::new();
    for k in 0u32..49 {
        transactions.push(deposit_ev(1, 2 * k + 1, 10000));
        transactions.push(withdrawal_ev(1, 2 * k + 2, 10000));
    }
    transactions.push(deposit_ev(1, 99, 10000));

    let mut clients = ClientList::new();
    let mut manager = TransactionManager::new();

    process_transactions(transactions, &mut clients, &mut manager);

    let expected_result = "client, available, held, total, locked\n1, 1.0000, 0.0000, 1.0000, false\n";

    assert_eq!(clients.report(), expected_result);
}

#[test]
fn many_transactions_many_accounts() {
    let mut transactions = Vec::new();
    for c in 1u16..100 {
        transactions.push(deposit_ev(c, c as u32, 10000));
    }

    let mut clients = ClientList::new();
    let mut manager = TransactionManager::new();

    process_transactions(transactions, &mut clients, &mut manager);

    let mut expected_result = String::from("client, available, held, total, locked\n");
    for c in 1u16..100 {
        expected_result.push_str(&format!("{}, 1.0000, 0.0000, 1.0000, false\n", c));
    }

    assert_eq!(clients.report(), expected_result);
}
