use sensor_hub::model::{SensorIdentity, SensorRecord};
use sensor_hub::table::{SensorTable, TableAction};

fn record(id: u128, name: &str, value: u32) -> SensorRecord {
    SensorRecord { identity: SensorIdentity { id, name: name.to_string() }, latest_value: value }
}

#[test]
fn new_table_is_empty() {
    let table = SensorTable::new();
    assert_eq!(table.len(), 0);
    assert_eq!(table.get(1), None);
    assert!(table.snapshot_view().is_empty());
}

#[test]
fn upsert_inserts_then_overwrites_the_value() {
    let mut table = SensorTable::new();
    table.upsert(record(1, "a", 10));
    assert_eq!(table.len(), 1);
    assert_eq!(table.get(1), Some(&record(1, "a", 10)));
    table.upsert(record(1, "a", 11));
    assert_eq!(table.len(), 1);
    assert_eq!(table.get(1), Some(&record(1, "a", 11)));
}

#[test]
fn upsert_keeps_the_identity_of_an_existing_entry() {
    let mut table = SensorTable::new();
    table.upsert(record(1, "first", 10));
    table.upsert(record(1, "second", 20));
    assert_eq!(table.get(1), Some(&record(1, "first", 20)));
}

#[test]
fn remove_forgets_one_sensor_only() {
    let mut table = SensorTable::new();
    table.upsert(record(1, "a", 10));
    table.upsert(record(2, "b", 20));
    assert_eq!(table.remove(1), Some(record(1, "a", 10)));
    assert_eq!(table.remove(1), None);
    assert_eq!(table.len(), 1);
    assert_eq!(table.get(2), Some(&record(2, "b", 20)));
}

#[test]
fn snapshot_lists_every_entry_once() {
    let mut table = SensorTable::new();
    for id in 0..50u128 {
        table.upsert(record(id, "s", id as u32));
    }
    table.upsert(record(7, "s", 700));
    let mut snapshot = table.snapshot_view();
    snapshot.sort_by_key(|r| r.identity.id);
    assert_eq!(snapshot.len(), 50);
    for (i, r) in snapshot.iter().enumerate() {
        assert_eq!(r.identity.id, i as u128);
        assert_eq!(r.latest_value, if i == 7 { 700 } else { i as u32 });
    }
}

#[test]
fn snapshot_is_a_copy() {
    let mut table = SensorTable::new();
    table.upsert(record(1, "a", 10));
    let snapshot = table.snapshot_view();
    table.upsert(record(1, "a", 11));
    table.upsert(record(2, "b", 20));
    let _ = table.remove(1);
    assert_eq!(snapshot, vec![record(1, "a", 10)]);
}

#[test]
fn apply_does_what_the_action_says() {
    let mut table = SensorTable::new();
    table.apply(TableAction::Nothing);
    assert_eq!(table.len(), 0);
    table.apply(TableAction::Upsert(record(3, "c", 30)));
    assert_eq!(table.get(3), Some(&record(3, "c", 30)));
    table.apply(TableAction::Nothing);
    assert_eq!(table.len(), 1);
    table.apply(TableAction::Remove(4));
    assert_eq!(table.len(), 1);
    table.apply(TableAction::Remove(3));
    assert_eq!(table.len(), 0);
}

#[test]
fn records_clone_as_they_are() {
    let r = record(9, "nine", 99);
    assert_eq!(r.clone(), r);
    assert_eq!(r.identity.clone(), r.identity);
}

#[test]
fn fresh_identities_keep_their_name_and_differ() {
    let a = SensorIdentity::fresh("a".to_string());
    let b = SensorIdentity::fresh("a".to_string());
    assert_eq!(a.name, "a");
    assert_eq!(b.name, "a");
    assert_ne!(a.id, b.id);
}
