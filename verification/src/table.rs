//! The table of the latest reading of every known sensor, and the actions
//! that change it.

use crate::model::{RecordView, SensorRecord};
use std::collections::HashMap;
use vstd::std_specs::hash::spec_hash_map_iter;
use vstd::std_specs::iter::IteratorSpec;
use vstd::prelude::*;

verus! {

/// What `upsert` makes of a table: an existing entry keeps its identity and
/// takes the new value, an unknown sensor gets the record as given.
pub open spec fn upserted(table: Map<u128, RecordView>, record: RecordView) -> Map<u128, RecordView> {
    let id = record.identity.id;
    if table.contains_key(id) {
        table.insert(
            id,
            RecordView { identity: table[id].identity, latest_value: record.latest_value },
        )
    } else {
        table.insert(id, record)
    }
}

/// Whether every entry of `table` is filed under the id that its own record
/// carries.
pub open spec fn keyed_by_id(table: Map<u128, RecordView>) -> bool {
    forall|k: u128| #[trigger] table.contains_key(k) ==> table[k].identity.id == k
}

/// Whether `records` lists `table`: each entry once, nothing else, in no order
/// in particular.
pub open spec fn lists_table(records: Seq<RecordView>, table: Map<u128, RecordView>) -> bool {
    &&& records.len() == table.dom().len()
    &&& forall|i: int|
        0 <= i < records.len() ==> table.contains_key(#[trigger] records[i].identity.id)
            && table[records[i].identity.id] == records[i]
    &&& forall|i: int, j: int|
        0 <= i < j < records.len() ==> (#[trigger] records[i]).identity.id != (
        #[trigger] records[j]).identity.id
    &&& forall|k: u128| #[trigger]
        table.contains_key(k) ==> exists|i: int|
            0 <= i < records.len() && #[trigger] records[i] == table[k]
}

/// The values of a run of records.
pub open spec fn record_views(records: Seq<SensorRecord>) -> Seq<RecordView> {
    records.map_values(|r: SensorRecord| r@)
}

/// What a step of a session asks of the table.
#[derive(Debug, PartialEq, Eq)]
pub enum TableAction {
    /// Leave the table as it is.
    Nothing,
    /// Store this reading.
    Upsert(SensorRecord),
    /// Forget this sensor.
    Remove(u128),
}

/// The mathematical value of a [`TableAction`].
pub enum ActionView {
    Nothing,
    Upsert(RecordView),
    Remove(u128),
}

impl View for TableAction {
    type V = ActionView;

    open spec fn view(&self) -> ActionView {
        match self {
            TableAction::Nothing => ActionView::Nothing,
            TableAction::Upsert(record) => ActionView::Upsert(record@),
            TableAction::Remove(id) => ActionView::Remove(*id),
        }
    }
}

/// The table after an action.
pub open spec fn applied(table: Map<u128, RecordView>, action: ActionView) -> Map<
    u128,
    RecordView,
> {
    match action {
        ActionView::Nothing => table,
        ActionView::Upsert(record) => upserted(table, record),
        ActionView::Remove(id) => table.remove(id),
    }
}

/// No action breaks the filing: a table whose entries stand under their own
/// ids stays one, so no sensor ever has two entries.
pub proof fn lemma_applied_keeps_filing(table: Map<u128, RecordView>, action: ActionView)
    requires
        keyed_by_id(table),
    ensures
        keyed_by_id(applied(table, action)),
{
}

/// The latest record of each sensor, keyed by the sensor's id.
pub struct SensorTable {
    records: HashMap<u128, SensorRecord>,
}

impl View for SensorTable {
    type V = Map<u128, RecordView>;

    closed spec fn view(&self) -> Map<u128, RecordView> {
        self.records@.map_values(|r: SensorRecord| r@)
    }
}

impl SensorTable {
    #[verifier::type_invariant]
    spec fn filed_by_id(&self) -> bool {
        forall|k: u128| #[trigger]
            self.records@.contains_key(k) ==> self.records@[k].identity.id == k
    }

    /// A table that knows no sensor.
    pub fn new() -> (table: Self)
        ensures
            table@ == Map::<u128, RecordView>::empty(),
            keyed_by_id(table@),
    {
        let table = SensorTable { records: HashMap::new() };
        assert(table@ =~= Map::<u128, RecordView>::empty());
        table
    }

    /// Stores a reading: overwrites the value of the sensor's entry, or makes
    /// the entry if the sensor is new.
    pub fn upsert(&mut self, record: SensorRecord)
        ensures
            final(self)@ == upserted(old(self)@, record@),
            keyed_by_id(old(self)@),
            keyed_by_id(final(self)@),
    {
        proof {
            use_type_invariant(&*self);
        }
        let id: u128 = record.identity.id;
        let mut records: HashMap<u128, SensorRecord> = HashMap::new();
        core::mem::swap(&mut self.records, &mut records);
        match records.remove(&id) {
            Some(existing) => {
                let merged = SensorRecord {
                    identity: existing.identity,
                    latest_value: record.latest_value,
                };
                records.insert(id, merged);
            },
            None => {
                records.insert(id, record);
            },
        }
        self.records = records;
        assert(self@ =~= upserted(old(self)@, record@));
    }

    /// Forgets a sensor, and hands back what was known of it.
    pub fn remove(&mut self, id: u128) -> (removed: Option<SensorRecord>)
        ensures
            final(self)@ == old(self)@.remove(id),
            match removed {
                Some(record) => old(self)@.contains_key(id) && record@ == old(self)@[id],
                None => !old(self)@.contains_key(id),
            },
            keyed_by_id(old(self)@),
            keyed_by_id(final(self)@),
    {
        proof {
            use_type_invariant(&*self);
        }
        let mut records: HashMap<u128, SensorRecord> = HashMap::new();
        core::mem::swap(&mut self.records, &mut records);
        let removed = records.remove(&id);
        self.records = records;
        assert(self@ =~= old(self)@.remove(id));
        removed
    }

    /// What is known of one sensor.
    pub fn get(&self, id: u128) -> (found: Option<&SensorRecord>)
        ensures
            match found {
                Some(record) => self@.contains_key(id) && record@ == self@[id],
                None => !self@.contains_key(id),
            },
            keyed_by_id(self@),
    {
        proof {
            use_type_invariant(self);
        }
        self.records.get(&id)
    }

    /// How many sensors are known.
    pub fn len(&self) -> (n: usize)
        ensures
            n == self@.dom().len(),
            self@.dom().finite(),
            keyed_by_id(self@),
    {
        proof {
            use_type_invariant(self);
        }
        assert(self@.dom() =~= self.records@.dom());
        self.records.len()
    }

    /// A copy of every record as it is now. Later changes to the table do not
    /// reach the copy.
    pub fn snapshot_view(&self) -> (records: Vec<SensorRecord>)
        ensures
            lists_table(record_views(records@), self@),
            keyed_by_id(self@),
    {
        proof {
            use_type_invariant(self);
        }
        let mut records: Vec<SensorRecord> = Vec::new();
        let ghost entries = spec_hash_map_iter(&self.records).remaining();
        for entry in it: self.records.iter()
            invariant
                it.seq() == entries,
                records@.len() == it.index(),
                forall|j: int| 0 <= j < records@.len() ==> records@[j] == *it.seq()[j].1,
        {
            records.push(entry.1.clone());
        }
        proof {
            let listed = record_views(records@);
            let table = self@;
            assert(table.dom() =~= self.records@.dom());
            assert forall|k: u128| #[trigger] table.contains_key(k) implies exists|i: int|
                0 <= i < listed.len() && #[trigger] listed[i] == table[k] by {
                let pair = (&k, &self.records@[k]);
                assert(entries.contains(pair));
                let i = choose|i: int| 0 <= i < entries.len() && entries[i] == pair;
                assert(listed[i] == table[k]);
            }
            assert forall|i: int, j: int| 0 <= i < j < listed.len() implies (
            #[trigger] listed[i]).identity.id != (#[trigger] listed[j]).identity.id by {
                let ki = *entries[i].0;
                let kj = *entries[j].0;
                assert(self.records@.contains_key(ki));
                assert(self.records@.contains_key(kj));
                if ki == kj {
                    assert(entries[i] == entries[j]);
                }
            }
            assert forall|i: int| 0 <= i < listed.len() implies table.contains_key(
                #[trigger] listed[i].identity.id,
            ) && table[listed[i].identity.id] == listed[i] by {
                let ki = *entries[i].0;
                assert(self.records@.contains_key(ki));
            }
        }
        records
    }

    /// Does to the table what a step of a session asked.
    pub fn apply(&mut self, action: TableAction)
        ensures
            final(self)@ == applied(old(self)@, action@),
            keyed_by_id(old(self)@),
            keyed_by_id(final(self)@),
    {
        proof {
            use_type_invariant(&*self);
        }
        match action {
            TableAction::Nothing => {},
            TableAction::Upsert(record) => {
                self.upsert(record);
            },
            TableAction::Remove(id) => {
                let _ = self.remove(id);
            },
        }
    }
}

} // verus!
