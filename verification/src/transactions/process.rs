use vstd::prelude::*;

use crate::clients::{AccountModel, ClientList};
use crate::transactions::logic::chargeback::{chargeback_apply, Chargeback};
use crate::transactions::logic::deposit::{deposit_apply, Deposit};
use crate::transactions::logic::dispute::{dispute_apply, Dispute};
use crate::transactions::logic::resolve::{resolve_apply, Resolve};
use crate::transactions::logic::withdrawal::{withdrawal_apply, Withdrawal};
use crate::transactions::manager::TransactionManager;
use crate::transactions::{EventModel, Transaction, TransactionError, TransactionType};

verus! {

/// The kinds of event that carry an amount and are kept in the event log.
pub open spec fn is_logged_kind(kind: TransactionType) -> bool {
    kind == TransactionType::Deposit || kind == TransactionType::Withdrawal
}

/// What dispatching one event does to the whole ledger state, and which
/// error it reports. A deposit or withdrawal whose event id is already on
/// record is a duplicate: it is skipped entirely and not re-stored.
/// Otherwise the matching handler runs, and a deposit or withdrawal is
/// then stored whether or not its handler succeeded, so its amount stays
/// on record; dispute-lifecycle events are never stored.
pub open spec fn step(
    accounts: Map<u16, AccountModel>,
    log: Map<u32, EventModel>,
    t: Transaction,
) -> (Map<u16, AccountModel>, Map<u32, EventModel>, Option<TransactionError>) {
    if is_logged_kind(t@.kind) && log.contains_key(t@.tx) {
        (accounts, log, None)
    } else {
        let handled = match t@.kind {
            TransactionType::Deposit => match t@.amount {
                None => (accounts, log, Some(TransactionError::MissingAmount)),
                Some(amount) => {
                    let applied = deposit_apply(accounts, t@.client, amount);
                    (applied.0, log, applied.1)
                },
            },
            TransactionType::Withdrawal => match t@.amount {
                None => (accounts, log, Some(TransactionError::MissingAmount)),
                Some(amount) => {
                    let applied = withdrawal_apply(accounts, t@.client, amount);
                    (applied.0, log, applied.1)
                },
            },
            TransactionType::Dispute => dispute_apply(accounts, log, t@.client, t@.tx),
            TransactionType::Resolve => resolve_apply(accounts, log, t@.client, t@.tx),
            TransactionType::Chargeback => chargeback_apply(accounts, log, t@.client, t@.tx),
        };
        if is_logged_kind(t@.kind) {
            (handled.0, handled.1.insert(t@.tx, t@), handled.2)
        } else {
            handled
        }
    }
}

/// The ledger state after a whole sequence of events, applied in order.
pub open spec fn run(
    accounts: Map<u16, AccountModel>,
    log: Map<u32, EventModel>,
    transactions: Seq<Transaction>,
) -> (Map<u16, AccountModel>, Map<u32, EventModel>)
    decreases transactions.len(),
{
    if transactions.len() == 0 {
        (accounts, log)
    } else {
        let prev = run(accounts, log, transactions.drop_last());
        let stepped = step(prev.0, prev.1, transactions.last());
        (stepped.0, stepped.1)
    }
}

/// The errors a whole sequence of events reports, in order, each paired
/// with the event that caused it.
pub open spec fn run_errors(
    accounts: Map<u16, AccountModel>,
    log: Map<u32, EventModel>,
    transactions: Seq<Transaction>,
) -> Seq<(Transaction, TransactionError)>
    decreases transactions.len(),
{
    if transactions.len() == 0 {
        Seq::empty()
    } else {
        let prev = run(accounts, log, transactions.drop_last());
        let errs = run_errors(accounts, log, transactions.drop_last());
        match step(prev.0, prev.1, transactions.last()).2 {
            None => errs,
            Some(e) => errs.push((transactions.last(), e)),
        }
    }
}

/// Dispatches one event against the ledger state.
fn dispatch(
    transaction: Transaction,
    clients: &mut ClientList,
    transaction_manager: &mut TransactionManager,
) -> (r: Option<TransactionError>)
    requires
        old(clients).wf(),
        old(transaction_manager).wf(),
    ensures
        final(clients).wf(),
        final(transaction_manager).wf(),
        final(clients)@ == step(old(clients)@, old(transaction_manager)@, transaction).0,
        final(transaction_manager)@ == step(
            old(clients)@,
            old(transaction_manager)@,
            transaction,
        ).1,
        r == step(old(clients)@, old(transaction_manager)@, transaction).2,
{
    let is_logged = transaction.tx_type == TransactionType::Deposit || transaction.tx_type
        == TransactionType::Withdrawal;
    if is_logged && transaction_manager.contains(&transaction.tx_id) {
        return None;
    }
    let outcome: Result<(), TransactionError> = match transaction.tx_type {
        TransactionType::Deposit => match Deposit::new(&transaction) {
            Ok(handler) => handler.process(clients),
            Err(e) => Err(e),
        },
        TransactionType::Withdrawal => match Withdrawal::new(&transaction) {
            Ok(handler) => handler.process(clients),
            Err(e) => Err(e),
        },
        TransactionType::Dispute => Dispute::new(&transaction).unwrap().process(
            clients,
            transaction_manager,
        ),
        TransactionType::Resolve => Resolve::new(&transaction).unwrap().process(
            clients,
            transaction_manager,
        ),
        TransactionType::Chargeback => Chargeback::new(&transaction).unwrap().process(
            clients,
            transaction_manager,
        ),
    };
    if is_logged {
        transaction_manager.insert(transaction);
    }
    match outcome {
        Ok(()) => None,
        Err(e) => Some(e),
    }
}

/// Replays a batch of events against the accounts and the event log, in
/// the order given. Every handler error is non-fatal: it is returned,
/// paired with its event, and the run goes on. The final state is exactly
/// `run` over the batch, so processing events in batches of any size
/// yields the same ledger.
pub fn process_transactions(
    transactions: Vec<Transaction>,
    clients: &mut ClientList,
    transaction_manager: &mut TransactionManager,
) -> (errors: Vec<(Transaction, TransactionError)>)
    requires
        old(clients).wf(),
        old(transaction_manager).wf(),
    ensures
        final(clients).wf(),
        final(transaction_manager).wf(),
        final(clients)@ == run(old(clients)@, old(transaction_manager)@, transactions@).0,
        final(transaction_manager)@ == run(
            old(clients)@,
            old(transaction_manager)@,
            transactions@,
        ).1,
        errors@ == run_errors(old(clients)@, old(transaction_manager)@, transactions@),
{
    let ghost accounts0 = clients@;
    let ghost log0 = transaction_manager@;
    let mut errors: Vec<(Transaction, TransactionError)> = Vec::new();
    let n = transactions.len();
    let mut i: usize = 0;
    while i < n
        invariant
            i <= n,
            n == transactions.len(),
            clients.wf(),
            transaction_manager.wf(),
            clients@ == run(accounts0, log0, transactions@.take(i as int)).0,
            transaction_manager@ == run(accounts0, log0, transactions@.take(i as int)).1,
            errors@ == run_errors(accounts0, log0, transactions@.take(i as int)),
        decreases n - i,
    {
        let transaction = transactions[i];
        let outcome = dispatch(transaction, clients, transaction_manager);
        if let Some(e) = outcome {
            errors.push((transaction, e));
        }
        proof {
            assert(transactions@.take(i + 1).drop_last() =~= transactions@.take(i as int));
            assert(transactions@.take(i + 1).last() == transactions@[i as int]);
        }
        i += 1;
    }
    proof {
        assert(transactions@.take(n as int) =~= transactions@);
    }
    errors
}

} // verus!
