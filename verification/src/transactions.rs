use vstd::prelude::*;

use crate::amount::Amount;
use crate::clients::ClientId;

pub mod logic;
pub mod process;
pub mod manager;

verus! {

/// Identifier of one deposit or withdrawal event, unique per event.
#[derive(Clone, Copy, Debug, PartialEq, Eq, Structural)]
pub struct TransactionId(pub u32);

/// The five kinds of ledger event.
#[derive(Clone, Copy, Debug, PartialEq, Eq, Structural)]
pub enum TransactionType {
    Deposit,
    Withdrawal,
    Dispute,
    Resolve,
    Chargeback,
}

/// The mathematical content of one ledger event: its kind, the plain
/// integer keys, the exact unit count if an amount is present, and the
/// dispute flag tracked on stored events.
pub struct EventModel {
    pub kind: TransactionType,
    pub client: u16,
    pub tx: u32,
    pub amount: Option<int>,
    pub in_dispute: bool,
}

/// One ledger event. `amount` is present for deposits and withdrawals;
/// `in_dispute` starts false and, on stored events, tracks whether a hold
/// is currently active against the event's amount.
#[derive(Clone, Copy, Debug)]
pub struct Transaction {
    pub tx_type: TransactionType,
    pub client_id: ClientId,
    pub tx_id: TransactionId,
    pub amount: Option<Amount>,
    pub in_dispute: bool,
}

impl View for Transaction {
    type V = EventModel;

    open spec fn view(&self) -> EventModel {
        EventModel {
            kind: self.tx_type,
            client: self.client_id.0,
            tx: self.tx_id.0,
            amount: match self.amount {
                Some(a) => Some(a@),
                None => None,
            },
            in_dispute: self.in_dispute,
        }
    }
}

/// Everything that can go wrong while one event is handled. All of these
/// are non-fatal at the dispatcher: they are reported and the run goes on.
#[derive(Clone, Copy, Debug, PartialEq, Eq, Structural)]
pub enum TransactionError {
    /// A dispute-lifecycle event references an unknown event id.
    MissingTransactionId,
    /// An event targets a locked account.
    LockedClient(ClientId),
    /// A dispute-lifecycle event targets a client with no account.
    MissingClient(ClientId),
    /// A deposit or withdrawal lacks an amount.
    MissingAmount,
    /// An amount is negative, or a referenced stored event lacks one.
    InvalidAmount,
    /// A resolve or chargeback targets an event not currently in dispute.
    InvalidTransaction,
    /// The post-mutation invariant check failed; the mutation was fully
    /// undone before this error was raised.
    RevertInvalidTransaction,
    /// An available or held balance is too small for the requested movement.
    InsufficientFunds(ClientId),
}

/// Folds a handler outcome into the `Result` the handler returns.
pub open spec fn wrap_err(e: Option<TransactionError>) -> Result<(), TransactionError> {
    match e {
        None => Ok(()),
        Some(err) => Err(err),
    }
}

} // verus!
