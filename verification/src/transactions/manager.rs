use vstd::prelude::*;

use crate::transactions::{EventModel, Transaction, TransactionId};

verus! {

/// The finite map from event id to stored event held by a row sequence;
/// later rows overwrite earlier ones with the same id.
pub open spec fn events_map_of(rows: Seq<Transaction>) -> Map<u32, EventModel>
    decreases rows.len(),
{
    if rows.len() == 0 {
        Map::empty()
    } else {
        events_map_of(rows.drop_last()).insert(rows.last().tx_id.0, rows.last()@)
    }
}

/// No two rows carry the same event id.
pub open spec fn distinct_tx_ids(rows: Seq<Transaction>) -> bool {
    forall|i: int, j: int|
        0 <= i < j < rows.len() ==> (#[trigger] rows[i]).tx_id.0 != (#[trigger] rows[j]).tx_id.0
}

proof fn lemma_events_map_absent(rows: Seq<Transaction>, k: u32)
    requires
        forall|i: int| 0 <= i < rows.len() ==> (#[trigger] rows[i]).tx_id.0 != k,
    ensures
        !events_map_of(rows).contains_key(k),
    decreases rows.len(),
{
    if rows.len() > 0 {
        assert(forall|i: int|
            0 <= i < rows.drop_last().len() ==> (#[trigger] rows.drop_last()[i]).tx_id.0 != k)
            by {
            assert(forall|i: int|
                0 <= i < rows.drop_last().len() ==> rows.drop_last()[i] == rows[i]);
        }
        lemma_events_map_absent(rows.drop_last(), k);
        assert(rows[rows.len() - 1].tx_id.0 != k);
    }
}

proof fn lemma_events_map_at(rows: Seq<Transaction>, i: int)
    requires
        distinct_tx_ids(rows),
        0 <= i < rows.len(),
    ensures
        events_map_of(rows).contains_key(rows[i].tx_id.0),
        events_map_of(rows)[rows[i].tx_id.0] == rows[i]@,
    decreases rows.len(),
{
    if i == rows.len() - 1 {
        assert(rows.last() == rows[i]);
    } else {
        assert(distinct_tx_ids(rows.drop_last())) by {
            assert(forall|m: int|
                0 <= m < rows.drop_last().len() ==> rows.drop_last()[m] == rows[m]);
        }
        assert(rows.drop_last()[i] == rows[i]);
        lemma_events_map_at(rows.drop_last(), i);
        assert(rows[i].tx_id.0 != rows.last().tx_id.0);
    }
}

proof fn lemma_events_map_update(rows: Seq<Transaction>, i: int, t: Transaction)
    requires
        distinct_tx_ids(rows),
        0 <= i < rows.len(),
        t.tx_id == rows[i].tx_id,
    ensures
        events_map_of(rows.update(i, t)) == events_map_of(rows).insert(t.tx_id.0, t@),
    decreases rows.len(),
{
    let updated = rows.update(i, t);
    if i == rows.len() - 1 {
        assert(updated.drop_last() =~= rows.drop_last());
        assert(updated.last() == t);
        assert(events_map_of(rows.drop_last()).insert(rows.last().tx_id.0, rows.last()@).insert(
            t.tx_id.0,
            t@,
        ) =~= events_map_of(rows.drop_last()).insert(t.tx_id.0, t@));
    } else {
        assert(distinct_tx_ids(rows.drop_last())) by {
            assert(forall|m: int|
                0 <= m < rows.drop_last().len() ==> rows.drop_last()[m] == rows[m]);
        }
        assert(rows.drop_last()[i] == rows[i]);
        lemma_events_map_update(rows.drop_last(), i, t);
        assert(updated.drop_last() =~= rows.drop_last().update(i, t));
        assert(updated.last() == rows.last());
        assert(rows.last().tx_id.0 != t.tx_id.0);
        assert(events_map_of(rows.drop_last()).insert(t.tx_id.0, t@).insert(
            rows.last().tx_id.0,
            rows.last()@,
        ) =~= events_map_of(rows.drop_last()).insert(rows.last().tx_id.0, rows.last()@).insert(
            t.tx_id.0,
            t@,
        ));
    }
}

/// The event log: owns every stored deposit/withdrawal event, keyed by
/// event id. Pure key-value semantics, no validation.
#[derive(Debug)]
pub struct TransactionManager(Vec<Transaction>);

impl View for TransactionManager {
    type V = Map<u32, EventModel>;

    closed spec fn view(&self) -> Map<u32, EventModel> {
        events_map_of(self.0@)
    }
}

impl TransactionManager {
    /// Well-formedness: every stored event id occurs at most once.
    pub closed spec fn wf(&self) -> bool {
        distinct_tx_ids(self.0@)
    }

    /// An empty event log.
    pub fn new() -> (r: TransactionManager)
        ensures
            r.wf(),
            r@ == Map::<u32, EventModel>::empty(),
    {
        TransactionManager(Vec::new())
    }

    /// Index of the row holding the given id, if any.
    fn find_index(&self, id: u32) -> (r: Option<usize>)
        ensures
            match r {
                Some(i) => i < self.0@.len() && self.0@[i as int].tx_id.0 == id,
                None => forall|j: int|
                    0 <= j < self.0@.len() ==> (#[trigger] self.0@[j]).tx_id.0 != id,
            },
    {
        let n = self.0.len();
        let mut i: usize = 0;
        while i < n
            invariant
                i <= n,
                n == self.0.len(),
                forall|j: int| 0 <= j < i ==> (#[trigger] self.0@[j]).tx_id.0 != id,
            decreases n - i,
        {
            if self.0[i].tx_id.0 == id {
                return Some(i);
            }
            i += 1;
        }
        None
    }

    /// Stores the event under its own id, overwriting any entry already
    /// held for that id. Duplicate suppression happens upstream in the
    /// dispatcher, not here.
    pub fn insert(&mut self, transaction: Transaction)
        requires
            old(self).wf(),
        ensures
            final(self).wf(),
            final(self)@ == old(self)@.insert(transaction.tx_id.0, transaction@),
    {
        match self.find_index(transaction.tx_id.0) {
            Some(i) => {
                let ghost rows = self.0@;
                self.0[i] = transaction;
                proof {
                    lemma_events_map_update(rows, i as int, transaction);
                    assert(forall|m: int|
                        0 <= m < rows.len() ==> (#[trigger] self.0@[m]).tx_id.0
                            == rows[m].tx_id.0);
                }
            },
            None => {
                let ghost rows = self.0@;
                self.0.push(transaction);
                proof {
                    assert(self.0@.drop_last() =~= rows);
                    assert(self.0@.last() == transaction);
                    assert(forall|m: int| 0 <= m < rows.len() ==> self.0@[m] == rows[m]);
                }
            },
        }
    }

    /// Whether an event with this id is on record.
    pub fn contains(&self, tx_id: &TransactionId) -> (r: bool)
        requires
            self.wf(),
        ensures
            r == self@.contains_key(tx_id.0),
    {
        match self.find_index(tx_id.0) {
            Some(i) => {
                proof {
                    lemma_events_map_at(self.0@, i as int);
                }
                true
            },
            None => {
                proof {
                    lemma_events_map_absent(self.0@, tx_id.0);
                }
                false
            },
        }
    }

    /// Looks the stored event up by id.
    pub fn get(&self, tx_id: &TransactionId) -> (r: Option<&Transaction>)
        requires
            self.wf(),
        ensures
            match r {
                Some(t) => {
                    &&& t.tx_id == *tx_id
                    &&& self@.contains_key(tx_id.0)
                    &&& self@[tx_id.0] == t@
                },
                None => !self@.contains_key(tx_id.0),
            },
    {
        match self.find_index(tx_id.0) {
            Some(i) => {
                proof {
                    lemma_events_map_at(self.0@, i as int);
                }
                Some(&self.0[i])
            },
            None => {
                proof {
                    lemma_events_map_absent(self.0@, tx_id.0);
                }
                None
            },
        }
    }
}

} // verus!
