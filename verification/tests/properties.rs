use tps2::amount::Amount;
use tps2::clients::{Client, ClientId, ClientList};
use tps2::decimal_to_string;
use tps2::transactions::manager::TransactionManager;
use tps2::transactions::process::process_transactions;
use tps2::transactions::{Transaction, TransactionError, TransactionId, TransactionType};

fn make(kind: TransactionType, client: u16, tx: u32, units: Option<i64>) -> Transaction {
    Transaction {
        tx_type: kind,
        client_id: ClientId(client),
        tx_id: TransactionId(tx),
        amount: units.map(Amount::from_units),
        in_dispute: false,
    }
}

fn dep(client: u16, tx: u32, units: i64) -> Transaction {
    make(TransactionType::Deposit, client, tx, Some(units))
}

fn wdr(client: u16, tx: u32, units: i64) -> Transaction {
    make(TransactionType::Withdrawal, client, tx, Some(units))
}

fn dis(client: u16, tx: u32) -> Transaction {
    make(TransactionType::Dispute, client, tx, None)
}

fn res(client: u16, tx: u32) -> Transaction {
    make(TransactionType::Resolve, client, tx, None)
}

fn cbk(client: u16, tx: u32) -> Transaction {
    make(TransactionType::Chargeback, client, tx, None)
}

fn run_all(events: Vec<Transaction>) -> (ClientList, Vec<(Transaction, TransactionError)>) {
    let mut clients = ClientList::new();
    let mut manager = TransactionManager::new();
    let errors = process_transactions(events, &mut clients, &mut manager);
    (clients, errors)
}

#[test]
fn single_deposit_scenario() {
    let (clients, errors) = run_all(vec![dep(1, 1, 10000)]);
    assert!(errors.is_empty());
    assert_eq!(
        clients.report(),
        "client, available, held, total, locked\n1, 1.0000, 0.0000, 1.0000, false\n"
    );
}

#[test]
fn dispute_holds_exactly_the_deposit_amount() {
    let (clients, errors) = run_all(vec![
        dep(1, 1, 10000),
        dep(1, 2, 20000),
        dis(1, 1),
        wdr(1, 3, 15000),
    ]);
    assert!(errors.is_empty());
    assert_eq!(
        clients.report(),
        "client, available, held, total, locked\n1, 0.5000, 1.0000, 1.5000, false\n"
    );
}

#[test]
fn chargeback_locks_and_later_deposit_fails() {
    let mut clients = ClientList::new();
    let mut manager = TransactionManager::new();
    let errors =
        process_transactions(vec![dep(1, 1, 10000), dis(1, 1), cbk(1, 1)], &mut clients, &mut manager);
    assert!(errors.is_empty());
    assert_eq!(
        clients.report(),
        "client, available, held, total, locked\n1, 0.0000, 0.0000, 0.0000, true\n"
    );

    let errors = process_transactions(vec![dep(1, 2, 50000)], &mut clients, &mut manager);
    assert_eq!(errors.len(), 1);
    assert_eq!(errors[0].1, TransactionError::LockedClient(ClientId(1)));
    assert_eq!(
        clients.report(),
        "client, available, held, total, locked\n1, 0.0000, 0.0000, 0.0000, true\n"
    );
}

#[test]
fn locked_account_rejects_lifecycle_events() {
    let (clients, errors) = run_all(vec![
        dep(1, 1, 10000),
        dep(1, 2, 5000),
        dis(1, 1),
        cbk(1, 1),
        dis(1, 2),
        res(1, 2),
        cbk(1, 2),
    ]);
    assert_eq!(errors.len(), 3);
    for e in &errors {
        assert_eq!(e.1, TransactionError::LockedClient(ClientId(1)));
    }
    assert_eq!(
        clients.report(),
        "client, available, held, total, locked\n1, 0.5000, 0.0000, 0.5000, true\n"
    );
}

#[test]
fn every_account_satisfies_the_invariant_after_processing() {
    let (clients, _) = run_all(vec![
        dep(1, 1, 10000),
        dep(2, 2, 25000),
        dis(1, 1),
        wdr(2, 3, 5000),
        dis(2, 2),
        cbk(2, 2),
        wdr(3, 4, 10000),
        dep(3, 5, -3),
    ]);
    for id in 1u16..=3 {
        let account = clients.get_client(&ClientId(id)).unwrap();
        assert!(account.is_valid());
        assert_eq!(
            account.total.units,
            account.available.units + account.held.units
        );
        assert!(account.available.units >= 0);
        assert!(account.held.units >= 0);
        assert!(account.total.units >= 0);
    }
}

#[test]
fn duplicate_deposit_is_a_no_op() {
    let (clients, errors) = run_all(vec![dep(1, 1, 10000), dep(1, 1, 90000)]);
    assert!(errors.is_empty());
    assert_eq!(
        clients.report(),
        "client, available, held, total, locked\n1, 1.0000, 0.0000, 1.0000, false\n"
    );
}

#[test]
fn dispute_then_resolve_restores_the_split() {
    let (clients, errors) = run_all(vec![
        dep(1, 1, 10000),
        dep(1, 2, 20000),
        dis(1, 1),
        res(1, 1),
    ]);
    assert!(errors.is_empty());
    assert_eq!(
        clients.report(),
        "client, available, held, total, locked\n1, 3.0000, 0.0000, 3.0000, false\n"
    );
}

#[test]
fn resolved_event_can_be_disputed_again() {
    let (clients, errors) = run_all(vec![dep(1, 1, 10000), dis(1, 1), res(1, 1), dis(1, 1)]);
    assert!(errors.is_empty());
    assert_eq!(
        clients.report(),
        "client, available, held, total, locked\n1, 0.0000, 1.0000, 1.0000, false\n"
    );
}

#[test]
fn batch_sizes_do_not_matter() {
    let events = vec![
        dep(1, 1, 10000),
        dep(2, 2, 25000),
        dis(1, 1),
        wdr(2, 3, 5000),
        res(1, 1),
        dep(1, 1, 70000),
        dis(2, 2),
        cbk(2, 2),
        dep(2, 4, 10000),
    ];

    let mut one_clients = ClientList::new();
    let mut one_manager = TransactionManager::new();
    let mut one_errors = Vec::new();
    one_errors.extend(process_transactions(events.clone(), &mut one_clients, &mut one_manager));

    let mut single_clients = ClientList::new();
    let mut single_manager = TransactionManager::new();
    let mut single_errors = Vec::new();
    for e in &events {
        single_errors.extend(process_transactions(
            vec![*e],
            &mut single_clients,
            &mut single_manager,
        ));
    }

    let mut split_clients = ClientList::new();
    let mut split_manager = TransactionManager::new();
    let mut split_errors = Vec::new();
    split_errors.extend(process_transactions(
        events[..4].to_vec(),
        &mut split_clients,
        &mut split_manager,
    ));
    split_errors.extend(process_transactions(
        events[4..].to_vec(),
        &mut split_clients,
        &mut split_manager,
    ));

    assert_eq!(one_clients.report(), single_clients.report());
    assert_eq!(one_clients.report(), split_clients.report());
    let one: Vec<TransactionError> = one_errors.iter().map(|p| p.1).collect();
    let single: Vec<TransactionError> = single_errors.iter().map(|p| p.1).collect();
    let split: Vec<TransactionError> = split_errors.iter().map(|p| p.1).collect();
    assert_eq!(one, single);
    assert_eq!(one, split);
}

#[test]
fn missing_amount_is_reported_and_no_account_created() {
    let (clients, errors) = run_all(vec![make(TransactionType::Deposit, 1, 1, None)]);
    assert_eq!(errors.len(), 1);
    assert_eq!(errors[0].1, TransactionError::MissingAmount);
    assert_eq!(clients.report(), "client, available, held, total, locked\n");
}

#[test]
fn negative_amount_is_invalid_but_creates_the_account() {
    let (clients, errors) = run_all(vec![dep(1, 1, -10000)]);
    assert_eq!(errors.len(), 1);
    assert_eq!(errors[0].1, TransactionError::InvalidAmount);
    assert_eq!(
        clients.report(),
        "client, available, held, total, locked\n1, 0.0000, 0.0000, 0.0000, false\n"
    );
}

#[test]
fn dispute_for_unknown_client_is_missing_client() {
    let (_, errors) = run_all(vec![dis(7, 1)]);
    assert_eq!(errors.len(), 1);
    assert_eq!(errors[0].1, TransactionError::MissingClient(ClientId(7)));
}

#[test]
fn dispute_for_unknown_event_is_missing_transaction_id() {
    let (_, errors) = run_all(vec![dep(1, 1, 10000), dis(1, 99)]);
    assert_eq!(errors.len(), 1);
    assert_eq!(errors[0].1, TransactionError::MissingTransactionId);
}

#[test]
fn resolve_of_undisputed_event_is_invalid_transaction() {
    // held covers the amount (tx 2 is in dispute), but tx 1 itself is not
    // in dispute, so resolving it is invalid
    let (_, errors) = run_all(vec![dep(1, 1, 10000), dep(1, 2, 10000), dis(1, 2), res(1, 1)]);
    assert_eq!(errors.len(), 1);
    assert_eq!(errors[0].1, TransactionError::InvalidTransaction);
}

#[test]
fn overdrawing_is_insufficient_funds() {
    let (clients, errors) = run_all(vec![dep(1, 1, 10000), wdr(1, 2, 10001)]);
    assert_eq!(errors.len(), 1);
    assert_eq!(errors[0].1, TransactionError::InsufficientFunds(ClientId(1)));
    assert_eq!(
        clients.report(),
        "client, available, held, total, locked\n1, 1.0000, 0.0000, 1.0000, false\n"
    );
}

#[test]
fn overflowing_deposit_is_reverted() {
    let (clients, errors) = run_all(vec![dep(1, 1, i64::MAX), dep(1, 2, 1)]);
    assert_eq!(errors.len(), 1);
    assert_eq!(errors[0].1, TransactionError::RevertInvalidTransaction);
    assert_eq!(
        clients.report(),
        "client, available, held, total, locked\n1, 922337203685477.5807, 0.0000, 922337203685477.5807, false\n"
    );
}

#[test]
fn disputing_a_withdrawal_is_ignored() {
    let (clients, errors) = run_all(vec![dep(1, 1, 20000), wdr(1, 2, 5000), dis(1, 2)]);
    assert!(errors.is_empty());
    assert_eq!(
        clients.report(),
        "client, available, held, total, locked\n1, 1.5000, 0.0000, 1.5000, false\n"
    );
}

#[test]
fn failed_deposit_still_occupies_its_event_id() {
    // A deposit rejected on a locked account is still stored, so a second
    // deposit under the same event id is treated as a duplicate.
    let (clients, errors) = run_all(vec![
        dep(1, 1, 10000),
        dis(1, 1),
        cbk(1, 1),
        dep(1, 2, 50000),
        dep(1, 2, 70000),
    ]);
    assert_eq!(errors.len(), 1);
    assert_eq!(errors[0].1, TransactionError::LockedClient(ClientId(1)));
    assert_eq!(
        clients.report(),
        "client, available, held, total, locked\n1, 0.0000, 0.0000, 0.0000, true\n"
    );
}

#[test]
fn amounts_render_with_four_fractional_digits() {
    assert_eq!(decimal_to_string(Amount::from_units(10000)), "1.0000");
    assert_eq!(decimal_to_string(Amount::from_units(234)), "0.0234");
    assert_eq!(decimal_to_string(Amount::from_units(0)), "0.0000");
    assert_eq!(decimal_to_string(Amount::from_units(9)), "0.0009");
    assert_eq!(decimal_to_string(Amount::from_units(-15000)), "-1.5000");
    assert_eq!(decimal_to_string(Amount::from_units(123456789)), "12345.6789");
    assert_eq!(decimal_to_string(Amount::zero()), "0.0000");
}

#[test]
fn registry_lookup_and_creation() {
    let mut clients = ClientList::new();
    assert!(clients.get_client(&ClientId(1)).is_none());
    let created = clients.get_or_create_client(&ClientId(1));
    assert_eq!(created.id, ClientId(1));
    assert_eq!(created.available.units, 0);
    assert!(!created.locked);
    let looked_up = clients.get_client(&ClientId(1)).unwrap();
    assert_eq!(looked_up.id, ClientId(1));
    assert_eq!(looked_up.total.units, 0);
}

#[test]
fn client_validity_check() {
    let good = Client::new_with_values(
        1,
        Amount::from_units(5000),
        Amount::from_units(2500),
        Amount::from_units(7500),
    );
    assert!(good.is_valid());
    let bad = Client::new_with_values(
        1,
        Amount::from_units(5000),
        Amount::from_units(2500),
        Amount::from_units(9999),
    );
    assert!(!bad.is_valid());
    let negative = Client::new_with_values(
        1,
        Amount::from_units(-1),
        Amount::from_units(1),
        Amount::from_units(0),
    );
    assert!(!negative.is_valid());
}

#[test]
fn event_log_lookup() {
    let mut manager = TransactionManager::new();
    assert!(!manager.contains(&TransactionId(1)));
    manager.insert(dep(1, 1, 10000));
    assert!(manager.contains(&TransactionId(1)));
    let stored = manager.get(&TransactionId(1)).unwrap();
    assert_eq!(stored.tx_id, TransactionId(1));
    assert_eq!(stored.amount.unwrap().units, 10000);
    // overwriting keeps a single entry under the id
    manager.insert(dep(1, 1, 20000));
    let stored = manager.get(&TransactionId(1)).unwrap();
    assert_eq!(stored.amount.unwrap().units, 20000);
    assert!(manager.get(&TransactionId(2)).is_none());
}
