use vstd::prelude::*;

use crate::clients::{account_bounded, account_valid, zero_account, AccountModel, ClientId};
use crate::transactions::logic::chargeback::chargeback_apply;
use crate::transactions::logic::deposit::deposit_apply;
use crate::transactions::logic::dispute::dispute_apply;
use crate::transactions::logic::resolve::resolve_apply;
use crate::transactions::logic::withdrawal::withdrawal_apply;
use crate::transactions::process::{is_logged_kind, run, run_errors, step};
use crate::transactions::{EventModel, Transaction, TransactionError, TransactionType};

verus! {

/// Every account on record satisfies the account invariant and fits the
/// machine representation of an `Amount`.
pub open spec fn accounts_ok(accounts: Map<u16, AccountModel>) -> bool {
    forall|k: u16|
        #[trigger] accounts.contains_key(k) ==> account_valid(accounts[k]) && account_bounded(
            accounts[k],
        )
}

proof fn lemma_deposit_apply_preserves(accounts: Map<u16, AccountModel>, client: u16, amount: int)
    requires
        accounts_ok(accounts),
    ensures
        accounts_ok(deposit_apply(accounts, client, amount).0),
{
    let applied = deposit_apply(accounts, client, amount).0;
    let acc = if accounts.contains_key(client) {
        accounts[client]
    } else {
        zero_account()
    };
    assert(account_valid(acc) && account_bounded(acc)) by {
        if accounts.contains_key(client) {
            assert(accounts.contains_key(client));
        }
    }
    assert forall|k: u16| #[trigger] applied.contains_key(k) implies account_valid(applied[k])
        && account_bounded(applied[k]) by {
        if k != client {
            assert(applied[k] == accounts[k]);
            assert(accounts.contains_key(k));
        }
    }
}

proof fn lemma_withdrawal_apply_preserves(
    accounts: Map<u16, AccountModel>,
    client: u16,
    amount: int,
)
    requires
        accounts_ok(accounts),
    ensures
        accounts_ok(withdrawal_apply(accounts, client, amount).0),
{
    let applied = withdrawal_apply(accounts, client, amount).0;
    let acc = if accounts.contains_key(client) {
        accounts[client]
    } else {
        zero_account()
    };
    assert(account_valid(acc) && account_bounded(acc)) by {
        if accounts.contains_key(client) {
            assert(accounts.contains_key(client));
        }
    }
    assert forall|k: u16| #[trigger] applied.contains_key(k) implies account_valid(applied[k])
        && account_bounded(applied[k]) by {
        if k != client {
            assert(applied[k] == accounts[k]);
            assert(accounts.contains_key(k));
        }
    }
}

proof fn lemma_dispute_apply_preserves(
    accounts: Map<u16, AccountModel>,
    log: Map<u32, EventModel>,
    client: u16,
    tx: u32,
)
    requires
        accounts_ok(accounts),
    ensures
        accounts_ok(dispute_apply(accounts, log, client, tx).0),
{
    let applied = dispute_apply(accounts, log, client, tx).0;
    assert forall|k: u16| #[trigger] applied.contains_key(k) implies account_valid(applied[k])
        && account_bounded(applied[k]) by {
        if k == client {
            if accounts.contains_key(client) {
                assert(accounts.contains_key(client));
            }
        } else {
            assert(applied[k] == accounts[k]);
            assert(accounts.contains_key(k));
        }
    }
}

proof fn lemma_resolve_apply_preserves(
    accounts: Map<u16, AccountModel>,
    log: Map<u32, EventModel>,
    client: u16,
    tx: u32,
)
    requires
        accounts_ok(accounts),
    ensures
        accounts_ok(resolve_apply(accounts, log, client, tx).0),
{
    let applied = resolve_apply(accounts, log, client, tx).0;
    assert forall|k: u16| #[trigger] applied.contains_key(k) implies account_valid(applied[k])
        && account_bounded(applied[k]) by {
        if k == client {
            if accounts.contains_key(client) {
                assert(accounts.contains_key(client));
            }
        } else {
            assert(applied[k] == accounts[k]);
            assert(accounts.contains_key(k));
        }
    }
}

proof fn lemma_chargeback_apply_preserves(
    accounts: Map<u16, AccountModel>,
    log: Map<u32, EventModel>,
    client: u16,
    tx: u32,
)
    requires
        accounts_ok(accounts),
    ensures
        accounts_ok(chargeback_apply(accounts, log, client, tx).0),
{
    let applied = chargeback_apply(accounts, log, client, tx).0;
    assert forall|k: u16| #[trigger] applied.contains_key(k) implies account_valid(applied[k])
        && account_bounded(applied[k]) by {
        if k == client {
            if accounts.contains_key(client) {
                assert(accounts.contains_key(client));
            }
        } else {
            assert(applied[k] == accounts[k]);
            assert(accounts.contains_key(k));
        }
    }
}

/// Dispatching any single event keeps every account consistent:
/// `total == available + held` with no negative balance, and every
/// balance still representable.
pub proof fn lemma_step_preserves_account_invariant(
    accounts: Map<u16, AccountModel>,
    log: Map<u32, EventModel>,
    t: Transaction,
)
    requires
        accounts_ok(accounts),
    ensures
        accounts_ok(step(accounts, log, t).0),
{
    if is_logged_kind(t@.kind) && log.contains_key(t@.tx) {
    } else {
        match t@.kind {
            TransactionType::Deposit => match t@.amount {
                None => {},
                Some(amount) => lemma_deposit_apply_preserves(accounts, t@.client, amount),
            },
            TransactionType::Withdrawal => match t@.amount {
                None => {},
                Some(amount) => lemma_withdrawal_apply_preserves(accounts, t@.client, amount),
            },
            TransactionType::Dispute => lemma_dispute_apply_preserves(
                accounts,
                log,
                t@.client,
                t@.tx,
            ),
            TransactionType::Resolve => lemma_resolve_apply_preserves(
                accounts,
                log,
                t@.client,
                t@.tx,
            ),
            TransactionType::Chargeback => lemma_chargeback_apply_preserves(
                accounts,
                log,
                t@.client,
                t@.tx,
            ),
        }
    }
}

/// The account invariant holds at every point of a run: starting from a
/// ledger whose accounts are all consistent (the empty ledger is), after
/// any sequence of events every account still satisfies
/// `total == available + held` with `available >= 0`, `held >= 0` and
/// `total >= 0`.
pub proof fn lemma_run_preserves_account_invariant(
    accounts: Map<u16, AccountModel>,
    log: Map<u32, EventModel>,
    transactions: Seq<Transaction>,
)
    requires
        accounts_ok(accounts),
    ensures
        accounts_ok(run(accounts, log, transactions).0),
    decreases transactions.len(),
{
    if transactions.len() > 0 {
        lemma_run_preserves_account_invariant(accounts, log, transactions.drop_last());
        let prev = run(accounts, log, transactions.drop_last());
        lemma_step_preserves_account_invariant(prev.0, prev.1, transactions.last());
    }
}

/// Re-submitting a deposit or withdrawal whose event id is already on
/// record is a complete no-op: balances and the event log are unchanged
/// and no error is reported.
pub proof fn lemma_duplicate_event_is_noop(
    accounts: Map<u16, AccountModel>,
    log: Map<u32, EventModel>,
    t: Transaction,
)
    requires
        is_logged_kind(t@.kind),
        log.contains_key(t@.tx),
    ensures
        step(accounts, log, t).0 == accounts,
        step(accounts, log, t).1 == log,
        step(accounts, log, t).2 == None::<TransactionError>,
{
}

/// A dispute followed by a resolve of the same event, by the same client,
/// returns the account to its pre-dispute available/held split exactly:
/// whenever the dispute is accepted, the resolve is accepted too, and
/// afterwards `available` and `held` equal their values before the
/// dispute.
pub proof fn lemma_dispute_resolve_round_trip(
    accounts: Map<u16, AccountModel>,
    log: Map<u32, EventModel>,
    d: Transaction,
    r: Transaction,
)
    requires
        accounts_ok(accounts),
        d@.kind == TransactionType::Dispute,
        r@.kind == TransactionType::Resolve,
        r@.client == d@.client,
        r@.tx == d@.tx,
        step(accounts, log, d).2 == None::<TransactionError>,
    ensures
        ({
            let s1 = step(accounts, log, d);
            let s2 = step(s1.0, s1.1, r);
            &&& s2.2 == None::<TransactionError>
            &&& accounts.contains_key(d@.client)
            &&& s2.0.contains_key(d@.client)
            &&& s2.0[d@.client].available == accounts[d@.client].available
            &&& s2.0[d@.client].held == accounts[d@.client].held
            &&& s2.0 == accounts
        }),
{
    let c = d@.client;
    let tx = d@.tx;
    let s1 = step(accounts, log, d);
    assert(accounts.contains_key(c));
    assert(account_valid(accounts[c]) && account_bounded(accounts[c])) by {
        assert(accounts.contains_key(c));
    }
    let acc = accounts[c];
    let ev = log[tx];
    if ev.kind == TransactionType::Deposit {
        let amount = ev.amount->Some_0;
        let cand1 = AccountModel {
            available: acc.available - amount,
            held: acc.held + amount,
            ..acc
        };
        assert(s1.0 == accounts.insert(c, cand1));
        assert(s1.1 == log.insert(tx, EventModel { in_dispute: true, ..ev }));
        let cand2 = AccountModel {
            available: cand1.available + amount,
            held: cand1.held - amount,
            ..cand1
        };
        assert(cand2.available == acc.available);
        assert(cand2.held == acc.held);
        let s2 = step(s1.0, s1.1, r);
        assert(s2.2 == None::<TransactionError>);
        assert(s2.0[c] == cand2);
        assert(cand2 == acc);
        assert(s2.0 =~= accounts);
    } else {
        assert(s1.0 == accounts);
        assert(s1.1 == log);
    }
}

/// A successful chargeback of a stored deposit locks the client's account.
pub proof fn lemma_chargeback_locks_account(
    accounts: Map<u16, AccountModel>,
    log: Map<u32, EventModel>,
    t: Transaction,
)
    requires
        t@.kind == TransactionType::Chargeback,
        log.contains_key(t@.tx),
        log[t@.tx].kind == TransactionType::Deposit,
        step(accounts, log, t).2 == None::<TransactionError>,
    ensures
        step(accounts, log, t).0.contains_key(t@.client),
        step(accounts, log, t).0[t@.client].locked,
{
}

/// Once an account is locked, every further dispute-lifecycle event that
/// targets it fails with `LockedClient` and changes nothing.
pub proof fn lemma_locked_account_rejects_lifecycle(
    accounts: Map<u16, AccountModel>,
    log: Map<u32, EventModel>,
    t: Transaction,
)
    requires
        accounts.contains_key(t@.client),
        accounts[t@.client].locked,
        t@.kind == TransactionType::Dispute || t@.kind == TransactionType::Resolve || t@.kind
            == TransactionType::Chargeback,
    ensures
        step(accounts, log, t).0 == accounts,
        step(accounts, log, t).1 == log,
        step(accounts, log, t).2 == Some(TransactionError::LockedClient(ClientId(t@.client))),
{
}

/// A deposit or withdrawal that reaches a locked account (it is no
/// duplicate and carries a well-formed amount) fails with `LockedClient`
/// and leaves every balance unchanged; only the event itself is stored.
pub proof fn lemma_locked_account_rejects_funds_movement(
    accounts: Map<u16, AccountModel>,
    log: Map<u32, EventModel>,
    t: Transaction,
)
    requires
        accounts.contains_key(t@.client),
        accounts[t@.client].locked,
        is_logged_kind(t@.kind),
        !log.contains_key(t@.tx),
        t@.amount matches Some(amount) && amount >= 0,
    ensures
        step(accounts, log, t).0 == accounts,
        step(accounts, log, t).1 == log.insert(t@.tx, t@),
        step(accounts, log, t).2 == Some(TransactionError::LockedClient(ClientId(t@.client))),
{
    assert(accounts.insert(t@.client, accounts[t@.client]) =~= accounts);
}

/// A lock is never undone: whatever event is dispatched next, a locked
/// account stays on record and stays locked.
pub proof fn lemma_lock_is_monotone(
    accounts: Map<u16, AccountModel>,
    log: Map<u32, EventModel>,
    t: Transaction,
    c: u16,
)
    requires
        accounts.contains_key(c),
        accounts[c].locked,
    ensures
        step(accounts, log, t).0.contains_key(c),
        step(accounts, log, t).0[c].locked,
{
}

/// A lock is irreversible: a locked account stays on record and stays
/// locked through any further sequence of events.
pub proof fn lemma_lock_survives_any_run(
    accounts: Map<u16, AccountModel>,
    log: Map<u32, EventModel>,
    transactions: Seq<Transaction>,
    c: u16,
)
    requires
        accounts.contains_key(c),
        accounts[c].locked,
    ensures
        run(accounts, log, transactions).0.contains_key(c),
        run(accounts, log, transactions).0[c].locked,
    decreases transactions.len(),
{
    if transactions.len() > 0 {
        lemma_lock_survives_any_run(accounts, log, transactions.drop_last(), c);
        let prev = run(accounts, log, transactions.drop_last());
        lemma_lock_is_monotone(prev.0, prev.1, transactions.last(), c);
    }
}

/// Batch boundaries carry no meaning: running one batch after another is
/// the same as running their concatenation, both for the final ledger
/// state and for the reported errors. Splitting a stream into batches of
/// any size therefore yields identical results.
pub proof fn lemma_run_batches(
    accounts: Map<u16, AccountModel>,
    log: Map<u32, EventModel>,
    first: Seq<Transaction>,
    second: Seq<Transaction>,
)
    ensures
        run(accounts, log, first + second) == run(
            run(accounts, log, first).0,
            run(accounts, log, first).1,
            second,
        ),
        run_errors(accounts, log, first + second) == run_errors(accounts, log, first) + run_errors(
            run(accounts, log, first).0,
            run(accounts, log, first).1,
            second,
        ),
    decreases second.len(),
{
    let mid = run(accounts, log, first);
    if second.len() == 0 {
        assert(first + second =~= first);
        assert(run_errors(accounts, log, first) + run_errors(mid.0, mid.1, second) =~= run_errors(
            accounts,
            log,
            first,
        ));
    } else {
        lemma_run_batches(accounts, log, first, second.drop_last());
        assert((first + second).drop_last() =~= first + second.drop_last());
        assert((first + second).last() == second.last());
        let prev = run(accounts, log, (first + second).drop_last());
        let errs_prev = run_errors(accounts, log, first + second.drop_last());
        match step(prev.0, prev.1, second.last()).2 {
            None => {},
            Some(e) => {
                assert(run_errors(accounts, log, first) + run_errors(
                    mid.0,
                    mid.1,
                    second.drop_last(),
                ).push((second.last(), e)) =~= (run_errors(accounts, log, first) + run_errors(
                    mid.0,
                    mid.1,
                    second.drop_last(),
                )).push((second.last(), e)));
            },
        }
    }
}

} // verus!
