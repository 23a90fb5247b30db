use vstd::prelude::*;

use crate::amount::{in_units_range, Amount};
use crate::clients::{account_valid, zero_account, AccountModel, Client, ClientId, ClientList};
use crate::transactions::{wrap_err, Transaction, TransactionError};

verus! {

/// What a deposit of `amount` units for `client` does to the account map,
/// and which error it reports. The target account is created zeroed before
/// the checks, so it exists even when the deposit itself is rejected. A
/// mutated account that would not fit the representation, or would break
/// the account invariant, is restored exactly and the event fails with
/// `RevertInvalidTransaction`.
pub open spec fn deposit_apply(accounts: Map<u16, AccountModel>, client: u16, amount: int) -> (
    Map<u16, AccountModel>,
    Option<TransactionError>,
) {
    let acc = if accounts.contains_key(client) {
        accounts[client]
    } else {
        zero_account()
    };
    let created = accounts.insert(client, acc);
    if amount < 0 {
        (created, Some(TransactionError::InvalidAmount))
    } else if acc.locked {
        (created, Some(TransactionError::LockedClient(ClientId(client))))
    } else {
        let cand = AccountModel {
            available: acc.available + amount,
            total: acc.total + amount,
            ..acc
        };
        if !in_units_range(cand.available) || !in_units_range(cand.total) || !account_valid(cand) {
            (created, Some(TransactionError::RevertInvalidTransaction))
        } else {
            (created.insert(client, cand), None)
        }
    }
}

/// Handler for one deposit event.
#[derive(Debug)]
pub struct Deposit {
    pub client_id: ClientId,
    pub amount: Amount,
}

impl Deposit {
    /// Extracts the deposit's fields; a deposit without an amount fails
    /// with `MissingAmount`.
    pub fn new(transaction: &Transaction) -> (r: Result<Deposit, TransactionError>)
        ensures
            match transaction.amount {
                Some(a) => r == Ok::<Deposit, TransactionError>(
                    Deposit { client_id: transaction.client_id, amount: a },
                ),
                None => r == Err::<Deposit, TransactionError>(TransactionError::MissingAmount),
            },
    {
        match transaction.amount {
            Some(amount) => Ok(Deposit { client_id: transaction.client_id, amount }),
            None => Err(TransactionError::MissingAmount),
        }
    }

    /// Applies the deposit: `available += amount; total += amount` on the
    /// (possibly newly created) account, with the rollback policy of
    /// `deposit_apply`.
    pub fn process(&self, clients: &mut ClientList) -> (r: Result<(), TransactionError>)
        requires
            old(clients).wf(),
        ensures
            final(clients).wf(),
            final(clients)@ == deposit_apply(old(clients)@, self.client_id.0, self.amount@).0,
            r == wrap_err(deposit_apply(old(clients)@, self.client_id.0, self.amount@).1),
    {
        let client = clients.get_or_create_client(&self.client_id);

        if self.amount.units < 0 {
            return Err(TransactionError::InvalidAmount);
        }
        if client.locked {
            return Err(TransactionError::LockedClient(self.client_id));
        }
        let available = match client.available.units.checked_add(self.amount.units) {
            Some(v) => v,
            None => {
                return Err(TransactionError::RevertInvalidTransaction);
            },
        };
        let total = match client.total.units.checked_add(self.amount.units) {
            Some(v) => v,
            None => {
                return Err(TransactionError::RevertInvalidTransaction);
            },
        };
        let updated = Client {
            available: Amount { units: available },
            total: Amount { units: total },
            ..client
        };
        if !updated.is_valid() {
            return Err(TransactionError::RevertInvalidTransaction);
        }
        clients.insert_client(updated);
        Ok(())
    }
}

} // verus!
