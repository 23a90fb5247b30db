use vstd::prelude::*;
use vstd::string::StringExecFns;

use crate::amount::{
    amount_text, decimal_to_string, digits_of, in_units_range, push_digits, Amount,
};

verus! {

/// Identifier of one client account, a stable integer key.
#[derive(Clone, Copy, Debug, PartialEq, Eq, Structural)]
pub struct ClientId(pub u16);

/// The mathematical content of one account: exact unit counts plus the
/// lock flag.
pub struct AccountModel {
    pub available: int,
    pub held: int,
    pub total: int,
    pub locked: bool,
}

/// The account invariant: the balances are consistent and none is negative.
pub open spec fn account_valid(a: AccountModel) -> bool {
    &&& a.total == a.available + a.held
    &&& a.available >= 0
    &&& a.held >= 0
    &&& a.total >= 0
}

/// All balances of the account fit the machine representation of an `Amount`.
pub open spec fn account_bounded(a: AccountModel) -> bool {
    &&& in_units_range(a.available)
    &&& in_units_range(a.held)
    &&& in_units_range(a.total)
}

/// A freshly created account: all balances zero, not locked.
pub open spec fn zero_account() -> AccountModel {
    AccountModel { available: 0, held: 0, total: 0, locked: false }
}

/// Balance state for one client.
#[derive(Clone, Copy, Debug)]
pub struct Client {
    pub id: ClientId,
    pub available: Amount,
    pub held: Amount,
    pub total: Amount,
    pub locked: bool,
}

impl View for Client {
    type V = AccountModel;

    open spec fn view(&self) -> AccountModel {
        AccountModel {
            available: self.available@,
            held: self.held@,
            total: self.total@,
            locked: self.locked,
        }
    }
}

impl Client {
    /// A zeroed, unlocked account for the given client.
    pub fn new(id: u16) -> (r: Client)
        ensures
            r.id.0 == id,
            r@ == zero_account(),
    {
        Client {
            id: ClientId(id),
            available: Amount::zero(),
            held: Amount::zero(),
            total: Amount::zero(),
            locked: false,
        }
    }

    /// An unlocked account with the given balances.
    pub fn new_with_values(id: u16, available: Amount, held: Amount, total: Amount) -> (r: Client)
        ensures
            r.id.0 == id,
            r@ == (AccountModel {
                available: available@,
                held: held@,
                total: total@,
                locked: false,
            }),
    {
        Client { id: ClientId(id), available, held, total, locked: false }
    }

    /// Decides the account invariant exactly: consistent balances, none
    /// negative. The checks are widened to 128 bits so no intermediate
    /// sum can overflow.
    pub fn is_valid(&self) -> (r: bool)
        ensures
            r == account_valid(self@),
    {
        let available = self.available.units as i128;
        let held = self.held.units as i128;
        let total = self.total.units as i128;
        total == available + held && available >= 0 && held >= 0 && total >= 0
    }
}

/// The finite map from client id to account content held by a row sequence;
/// later rows overwrite earlier ones with the same id.
pub open spec fn accounts_map_of(rows: Seq<Client>) -> Map<u16, AccountModel>
    decreases rows.len(),
{
    if rows.len() == 0 {
        Map::empty()
    } else {
        accounts_map_of(rows.drop_last()).insert(rows.last().id.0, rows.last()@)
    }
}

/// No two rows carry the same client id.
pub open spec fn distinct_client_ids(rows: Seq<Client>) -> bool {
    forall|i: int, j: int|
        0 <= i < j < rows.len() ==> (#[trigger] rows[i]).id.0 != (#[trigger] rows[j]).id.0
}

proof fn lemma_accounts_map_absent(rows: Seq<Client>, k: u16)
    requires
        forall|i: int| 0 <= i < rows.len() ==> (#[trigger] rows[i]).id.0 != k,
    ensures
        !accounts_map_of(rows).contains_key(k),
    decreases rows.len(),
{
    if rows.len() > 0 {
        assert(forall|i: int|
            0 <= i < rows.drop_last().len() ==> (#[trigger] rows.drop_last()[i]).id.0 != k)
            by {
            assert(forall|i: int|
                0 <= i < rows.drop_last().len() ==> rows.drop_last()[i] == rows[i]);
        }
        lemma_accounts_map_absent(rows.drop_last(), k);
        assert(rows[rows.len() - 1].id.0 != k);
    }
}

proof fn lemma_accounts_map_at(rows: Seq<Client>, i: int)
    requires
        distinct_client_ids(rows),
        0 <= i < rows.len(),
    ensures
        accounts_map_of(rows).contains_key(rows[i].id.0),
        accounts_map_of(rows)[rows[i].id.0] == rows[i]@,
    decreases rows.len(),
{
    if i == rows.len() - 1 {
        assert(rows.last() == rows[i]);
    } else {
        assert(distinct_client_ids(rows.drop_last())) by {
            assert(forall|m: int|
                0 <= m < rows.drop_last().len() ==> rows.drop_last()[m] == rows[m]);
        }
        assert(rows.drop_last()[i] == rows[i]);
        lemma_accounts_map_at(rows.drop_last(), i);
        assert(rows[i].id.0 != rows.last().id.0);
    }
}

proof fn lemma_accounts_map_update(rows: Seq<Client>, i: int, c: Client)
    requires
        distinct_client_ids(rows),
        0 <= i < rows.len(),
        c.id == rows[i].id,
    ensures
        accounts_map_of(rows.update(i, c)) == accounts_map_of(rows).insert(c.id.0, c@),
    decreases rows.len(),
{
    let updated = rows.update(i, c);
    if i == rows.len() - 1 {
        assert(updated.drop_last() =~= rows.drop_last());
        assert(updated.last() == c);
        assert(accounts_map_of(rows.drop_last()).insert(rows.last().id.0, rows.last()@).insert(
            c.id.0,
            c@,
        ) =~= accounts_map_of(rows.drop_last()).insert(c.id.0, c@));
    } else {
        assert(distinct_client_ids(rows.drop_last())) by {
            assert(forall|m: int|
                0 <= m < rows.drop_last().len() ==> rows.drop_last()[m] == rows[m]);
        }
        assert(rows.drop_last()[i] == rows[i]);
        lemma_accounts_map_update(rows.drop_last(), i, c);
        assert(updated.drop_last() =~= rows.drop_last().update(i, c));
        assert(updated.last() == rows.last());
        assert(rows.last().id.0 != c.id.0);
        assert(accounts_map_of(rows.drop_last()).insert(c.id.0, c@).insert(
            rows.last().id.0,
            rows.last()@,
        ) =~= accounts_map_of(rows.drop_last()).insert(rows.last().id.0, rows.last()@).insert(
            c.id.0,
            c@,
        ));
    }
}

proof fn lemma_accounts_map_insert_at(rows: Seq<Client>, i: int, c: Client)
    requires
        0 <= i <= rows.len(),
        forall|j: int| 0 <= j < rows.len() ==> (#[trigger] rows[j]).id.0 != c.id.0,
    ensures
        accounts_map_of(rows.insert(i, c)) == accounts_map_of(rows).insert(c.id.0, c@),
    decreases rows.len(),
{
    let grown = rows.insert(i, c);
    if i == rows.len() {
        assert(grown.drop_last() =~= rows);
        assert(grown.last() == c);
    } else {
        assert(forall|j: int|
            0 <= j < rows.drop_last().len() ==> (#[trigger] rows.drop_last()[j]).id.0 != c.id.0)
            by {
            assert(forall|j: int|
                0 <= j < rows.drop_last().len() ==> rows.drop_last()[j] == rows[j]);
        }
        lemma_accounts_map_insert_at(rows.drop_last(), i, c);
        assert(grown.drop_last() =~= rows.drop_last().insert(i, c));
        assert(grown.last() == rows.last());
        assert(rows.last().id.0 != c.id.0);
        assert(accounts_map_of(rows.drop_last()).insert(c.id.0, c@).insert(
            rows.last().id.0,
            rows.last()@,
        ) =~= accounts_map_of(rows.drop_last()).insert(rows.last().id.0, rows.last()@).insert(
            c.id.0,
            c@,
        ));
    }
}

/// The text of one report row: client id, the three balances with four
/// fractional digits, and the lock flag, comma separated.
pub open spec fn account_row_text(c: Client) -> Seq<char> {
    digits_of(c.id.0 as nat) + ", "@ + amount_text(c.available@) + ", "@ + amount_text(c.held@)
        + ", "@ + amount_text(c.total@) + ", "@ + (if c.locked {
        "true"@
    } else {
        "false"@
    }) + "\n"@
}

/// The text of the report rows for a row sequence, in order.
pub open spec fn report_rows_text(rows: Seq<Client>) -> Seq<char>
    decreases rows.len(),
{
    if rows.len() == 0 {
        Seq::empty()
    } else {
        report_rows_text(rows.drop_last()) + account_row_text(rows.last())
    }
}

/// The full report: a header line, then one row per account in
/// registry order.
pub open spec fn report_text(rows: Seq<Client>) -> Seq<char> {
    "client, available, held, total, locked\n"@ + report_rows_text(rows)
}

/// Renders one report row.
fn account_row(c: &Client) -> (r: String)
    ensures
        r@ == account_row_text(*c),
{
    let mut s = String::new();
    push_digits(&mut s, c.id.0 as u64);
    s.append(", ");
    let available = decimal_to_string(c.available);
    s.append(available.as_str());
    s.append(", ");
    let held = decimal_to_string(c.held);
    s.append(held.as_str());
    s.append(", ");
    let total = decimal_to_string(c.total);
    s.append(total.as_str());
    s.append(", ");
    if c.locked {
        s.append("true");
    } else {
        s.append("false");
    }
    s.append("\n");
    proof {
        assert(s@ =~= account_row_text(*c));
    }
    s
}

/// The registry of accounts: owns every `Client`, keyed by client id,
/// kept in increasing id order for deterministic reporting.
#[derive(Debug)]
pub struct ClientList(Vec<Client>);

impl View for ClientList {
    type V = Map<u16, AccountModel>;

    closed spec fn view(&self) -> Map<u16, AccountModel> {
        accounts_map_of(self.0@)
    }
}

impl ClientList {
    /// The rows of the registry, in reporting order.
    pub closed spec fn rows(&self) -> Seq<Client> {
        self.0@
    }

    /// Well-formedness: rows strictly sorted by client id, so every id
    /// occurs at most once and iteration order is deterministic.
    pub open spec fn wf(&self) -> bool {
        forall|i: int, j: int|
            0 <= i < j < self.rows().len() ==> (#[trigger] self.rows()[i]).id.0 < (
            #[trigger] self.rows()[j]).id.0
    }

    /// An empty registry.
    pub fn new() -> (r: ClientList)
        ensures
            r.wf(),
            r@ == Map::<u16, AccountModel>::empty(),
            r.rows() == Seq::<Client>::empty(),
    {
        ClientList(Vec::new())
    }

    /// Index of the row holding the given id, if any.
    fn find_index(&self, id: u16) -> (r: Option<usize>)
        ensures
            match r {
                Some(i) => i < self.rows().len() && self.rows()[i as int].id.0 == id,
                None => forall|j: int|
                    0 <= j < self.rows().len() ==> (#[trigger] self.rows()[j]).id.0 != id,
            },
    {
        let n = self.0.len();
        let mut i: usize = 0;
        while i < n
            invariant
                i <= n,
                n == self.0.len(),
                forall|j: int| 0 <= j < i ==> (#[trigger] self.0@[j]).id.0 != id,
            decreases n - i,
        {
            if self.0[i].id.0 == id {
                return Some(i);
            }
            i += 1;
        }
        None
    }

    proof fn lemma_wf_distinct(&self)
        requires
            self.wf(),
        ensures
            distinct_client_ids(self.rows()),
    {
    }

    /// Read-only lookup; never creates an account.
    pub fn get_client(&self, id: &ClientId) -> (r: Option<&Client>)
        requires
            self.wf(),
        ensures
            match r {
                Some(c) => {
                    &&& c.id == *id
                    &&& self@.contains_key(id.0)
                    &&& self@[id.0] == c@
                },
                None => !self@.contains_key(id.0),
            },
    {
        match self.find_index(id.0) {
            Some(i) => {
                proof {
                    self.lemma_wf_distinct();
                    lemma_accounts_map_at(self.0@, i as int);
                }
                Some(&self.0[i])
            },
            None => {
                proof {
                    lemma_accounts_map_absent(self.0@, id.0);
                }
                None
            },
        }
    }

    /// Stores the given account under its own id, overwriting any account
    /// already held for that id and keeping the rows in id order.
    pub fn insert_client(&mut self, c: Client)
        requires
            old(self).wf(),
        ensures
            final(self).wf(),
            final(self)@ == old(self)@.insert(c.id.0, c@),
    {
        let n = self.0.len();
        let mut i: usize = 0;
        while i < n && self.0[i].id.0 < c.id.0
            invariant
                i <= n,
                n == self.0.len(),
                forall|j: int| 0 <= j < i ==> (#[trigger] self.0@[j]).id.0 < c.id.0,
            decreases n - i,
        {
            i += 1;
        }
        proof {
            self.lemma_wf_distinct();
        }
        if i < n && self.0[i].id.0 == c.id.0 {
            let ghost rows = self.0@;
            self.0[i] = c;
            proof {
                lemma_accounts_map_update(rows, i as int, c);
                assert(forall|m: int|
                    0 <= m < rows.len() ==> (#[trigger] self.0@[m]).id.0 == rows[m].id.0);
            }
        } else {
            let ghost rows = self.0@;
            assert(forall|j: int| 0 <= j < rows.len() ==> (#[trigger] rows[j]).id.0 != c.id.0)
                by {
                assert(forall|j: int| i <= j < rows.len() ==> rows[i as int].id.0 <= (
                #[trigger] rows[j]).id.0);
            }
            self.0.insert(i, c);
            proof {
                lemma_accounts_map_insert_at(rows, i as int, c);
                assert forall|p: int, q: int|
                    0 <= p < q < self.0@.len() implies (#[trigger] self.0@[p]).id.0 < (
                #[trigger] self.0@[q]).id.0 by {
                    if p < i && q == i {
                    } else if p == i && q > i {
                        assert(self.0@[q] == rows[q - 1]);
                        assert(rows[i as int].id.0 <= rows[q - 1].id.0);
                    } else if p < i && q > i {
                        assert(self.0@[q] == rows[q - 1]);
                    } else if p > i && q > i {
                        assert(self.0@[p] == rows[p - 1]);
                        assert(self.0@[q] == rows[q - 1]);
                    }
                }
            }
        }
    }

    /// Renders the registry to its textual report, one account per row in
    /// increasing id order, every balance with exactly four fractional
    /// digits.
    pub fn report(&self) -> (r: String)
        ensures
            r@ == report_text(self.rows()),
    {
        let mut s = String::new();
        s.append("client, available, held, total, locked\n");
        proof {
            assert(self.0@.take(0) =~= Seq::<Client>::empty());
            assert(s@ =~= "client, available, held, total, locked\n"@ + report_rows_text(
                self.0@.take(0),
            ));
        }
        let n = self.0.len();
        let mut i: usize = 0;
        while i < n
            invariant
                i <= n,
                n == self.0.len(),
                s@ == "client, available, held, total, locked\n"@ + report_rows_text(
                    self.0@.take(i as int),
                ),
            decreases n - i,
        {
            let row = account_row(&self.0[i]);
            s.append(row.as_str());
            proof {
                assert(self.0@.take(i as int + 1).drop_last() =~= self.0@.take(i as int));
                assert(self.0@.take(i as int + 1).last() == self.0@[i as int]);
                assert(s@ =~= "client, available, held, total, locked\n"@ + report_rows_text(
                    self.0@.take(i as int + 1),
                ));
            }
            i += 1;
        }
        proof {
            assert(self.0@.take(n as int) =~= self.0@);
        }
        s
    }

    /// Returns the existing account for the id, or creates a zeroed one.
    /// The account is stored in the registry either way.
    pub fn get_or_create_client(&mut self, id: &ClientId) -> (c: Client)
        requires
            old(self).wf(),
        ensures
            final(self).wf(),
            c.id == *id,
            c@ == if old(self)@.contains_key(id.0) {
                old(self)@[id.0]
            } else {
                zero_account()
            },
            final(self)@ == old(self)@.insert(id.0, c@),
    {
        let found: Option<Client> = match self.get_client(id) {
            Some(c) => Some(*c),
            None => None,
        };
        match found {
            Some(c) => {
                proof {
                    assert(self@.insert(id.0, c@) =~= self@);
                }
                c
            },
            None => {
                let c = Client::new(id.0);
                self.insert_client(c);
                c
            },
        }
    }
}

} // verus!
