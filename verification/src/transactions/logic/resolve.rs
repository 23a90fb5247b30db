use vstd::prelude::*;

use crate::amount::{in_units_range, Amount};
use crate::clients::{account_valid, AccountModel, Client, ClientId, ClientList};
use crate::transactions::manager::TransactionManager;
use crate::transactions::{
    wrap_err, EventModel, Transaction, TransactionError, TransactionId, TransactionType,
};

verus! {

/// What a resolve by `client` of the stored event `tx` does to the account
/// map and the event log, and which error it reports. Symmetric to a
/// dispute: only a stored deposit is actionable, the stored event must
/// currently be in dispute, and `held` must cover the amount. On success
/// the amount moves back from `held` to `available` and the dispute mark
/// is cleared.
pub open spec fn resolve_apply(
    accounts: Map<u16, AccountModel>,
    log: Map<u32, EventModel>,
    client: u16,
    tx: u32,
) -> (Map<u16, AccountModel>, Map<u32, EventModel>, Option<TransactionError>) {
    if !accounts.contains_key(client) {
        (accounts, log, Some(TransactionError::MissingClient(ClientId(client))))
    } else {
        let acc = accounts[client];
        if acc.locked {
            (accounts, log, Some(TransactionError::LockedClient(ClientId(client))))
        } else if !log.contains_key(tx) {
            (accounts, log, Some(TransactionError::MissingTransactionId))
        } else {
            let ev = log[tx];
            match ev.amount {
                None => (accounts, log, Some(TransactionError::InvalidAmount)),
                Some(amount) => {
                    if ev.kind != TransactionType::Deposit {
                        (accounts, log, None)
                    } else if acc.held < amount {
                        (accounts, log, Some(TransactionError::InsufficientFunds(ClientId(client))))
                    } else if !ev.in_dispute {
                        (accounts, log, Some(TransactionError::InvalidTransaction))
                    } else {
                        let cand = AccountModel {
                            available: acc.available + amount,
                            held: acc.held - amount,
                            ..acc
                        };
                        if !in_units_range(cand.available) || !in_units_range(cand.held)
                            || !account_valid(cand) {
                            (accounts, log, Some(TransactionError::RevertInvalidTransaction))
                        } else {
                            (
                                accounts.insert(client, cand),
                                log.insert(tx, EventModel { in_dispute: false, ..ev }),
                                None,
                            )
                        }
                    }
                },
            }
        }
    }
}

/// Handler for one resolve event.
#[derive(Debug)]
pub struct Resolve {
    pub tx_id: TransactionId,
    pub client_id: ClientId,
}

impl Resolve {
    /// Extracts the resolve's references; a resolve itself carries no amount.
    pub fn new(transaction: &Transaction) -> (r: Result<Resolve, TransactionError>)
        ensures
            r == Ok::<Resolve, TransactionError>(
                Resolve { tx_id: transaction.tx_id, client_id: transaction.client_id },
            ),
    {
        Ok(Resolve { tx_id: transaction.tx_id, client_id: transaction.client_id })
    }

    /// Applies the resolve as `resolve_apply` says.
    pub fn process(&self, clients: &mut ClientList, transactions: &mut TransactionManager) -> (r:
        Result<(), TransactionError>)
        requires
            old(clients).wf(),
            old(transactions).wf(),
        ensures
            final(clients).wf(),
            final(transactions).wf(),
            final(clients)@ == resolve_apply(
                old(clients)@,
                old(transactions)@,
                self.client_id.0,
                self.tx_id.0,
            ).0,
            final(transactions)@ == resolve_apply(
                old(clients)@,
                old(transactions)@,
                self.client_id.0,
                self.tx_id.0,
            ).1,
            r == wrap_err(
                resolve_apply(old(clients)@, old(transactions)@, self.client_id.0, self.tx_id.0).2,
            ),
    {
        let client = match clients.get_client(&self.client_id) {
            None => {
                return Err(TransactionError::MissingClient(self.client_id));
            },
            Some(c) => *c,
        };
        if client.locked {
            return Err(TransactionError::LockedClient(self.client_id));
        }
        let transaction = match transactions.get(&self.tx_id) {
            None => {
                return Err(TransactionError::MissingTransactionId);
            },
            Some(t) => *t,
        };
        let amount = match transaction.amount {
            None => {
                return Err(TransactionError::InvalidAmount);
            },
            Some(a) => a,
        };
        if transaction.tx_type == TransactionType::Deposit {
            if client.held.units < amount.units {
                return Err(TransactionError::InsufficientFunds(self.client_id));
            }
            if !transaction.in_dispute {
                return Err(TransactionError::InvalidTransaction);
            }
            let available = match client.available.units.checked_add(amount.units) {
                Some(v) => v,
                None => {
                    return Err(TransactionError::RevertInvalidTransaction);
                },
            };
            let held = match client.held.units.checked_sub(amount.units) {
                Some(v) => v,
                None => {
                    return Err(TransactionError::RevertInvalidTransaction);
                },
            };
            let updated = Client {
                available: Amount { units: available },
                held: Amount { units: held },
                ..client
            };
            if !updated.is_valid() {
                return Err(TransactionError::RevertInvalidTransaction);
            }
            clients.insert_client(updated);
            transactions.insert(Transaction { in_dispute: false, ..transaction });
        }
        Ok(())
    }
}

} // verus!
