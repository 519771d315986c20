use sensor_hub::model::{SensorIdentity, SensorRecord};
use sensor_hub::publisher::{
    event_frame, member_json, observer_step, record_json, snapshot_frame, snapshot_json,
    ObserverAction, ObserverEvent, SNAPSHOT_PERIOD_SECS,
};
use sensor_hub::table::SensorTable;

fn record(id: u128, name: &str, value: u32) -> SensorRecord {
    SensorRecord { identity: SensorIdentity { id, name: name.to_string() }, latest_value: value }
}

fn payload(frame: &str) -> serde_json::Value {
    assert!(frame.starts_with("data: "));
    assert!(frame.ends_with("\n\n"));
    let json = &frame["data: ".len()..frame.len() - 2];
    assert!(!json.contains('\n'));
    serde_json::from_str(json).unwrap()
}

fn shown(value: &serde_json::Value) -> Vec<(String, String, String, u64)> {
    let object = value.as_object().unwrap();
    let mut out = Vec::new();
    for (key, member) in object.iter() {
        let member = member.as_object().unwrap();
        assert_eq!(member.len(), 3);
        out.push((
            key.clone(),
            member.get("id").unwrap().as_str().unwrap().to_string(),
            member.get("name").unwrap().as_str().unwrap().to_string(),
            member.get("value").unwrap().as_u64().unwrap(),
        ));
    }
    out.sort();
    out
}

#[test]
fn period_is_three_seconds() {
    assert_eq!(SNAPSHOT_PERIOD_SECS, 3);
}

#[test]
fn an_observer_waits_a_period_before_every_frame() {
    assert_eq!(observer_step(ObserverEvent::Subscribed), ObserverAction::Wait(3));
    assert_eq!(observer_step(ObserverEvent::PeriodElapsed), ObserverAction::Emit);
    assert_eq!(observer_step(ObserverEvent::FrameSent), ObserverAction::Wait(3));
}

#[test]
fn member_has_the_literal_shape() {
    assert_eq!(
        member_json("ID", "\"n\"", 7),
        "\"ID\":{\"id\":\"ID\",\"name\":\"n\",\"value\":7}"
    );
    assert_eq!(
        record_json(&record(0x11111111_1111_1111_1111_111111111111, "temp", 44)),
        "\"11111111-1111-1111-1111-111111111111\":{\"id\":\"11111111-1111-1111-1111-111111111111\",\"name\":\"temp\",\"value\":44}"
    );
}

#[test]
fn ids_are_written_hyphenated_in_lower_case() {
    let json = record_json(&record(0xA1A2A3A4_B1B2_C1C2_D1D2_D3D4D5D6D7D8, "x", 0));
    assert!(json.starts_with("\"a1a2a3a4-b1b2-c1c2-d1d2-d3d4d5d6d7d8\":"));
    let json = record_json(&record(0x0000000f_0000_0000_0000_00000000000a, "x", 0));
    assert!(json.starts_with("\"0000000f-0000-0000-0000-00000000000a\":"));
    let json = record_json(&record(0x0123456789abcdef_fedcba9876543210, "x", 0));
    assert!(json.starts_with("\"01234567-89ab-cdef-fedc-ba9876543210\":"));
}

#[test]
fn empty_snapshot_is_an_empty_object() {
    assert_eq!(snapshot_json(&Vec::new()), "{}");
    assert_eq!(event_frame(&Vec::new()), "data: {}\n\n");
    assert_eq!(snapshot_frame(&SensorTable::new()), "data: {}\n\n");
}

#[test]
fn records_come_in_their_order_with_commas() {
    let records = vec![record(1, "a", 10), record(2, "b", 20), record(3, "c", 30)];
    assert_eq!(
        event_frame(&records),
        "data: {\"00000000-0000-0000-0000-000000000001\":{\"id\":\"00000000-0000-0000-0000-000000000001\",\"name\":\"a\",\"value\":10},\
\"00000000-0000-0000-0000-000000000002\":{\"id\":\"00000000-0000-0000-0000-000000000002\",\"name\":\"b\",\"value\":20},\
\"00000000-0000-0000-0000-000000000003\":{\"id\":\"00000000-0000-0000-0000-000000000003\",\"name\":\"c\",\"value\":30}}\n\n"
    );
}

#[test]
fn names_are_escaped_so_that_the_frame_stays_json() {
    let name = "a \"quoted\" \\ name\nnext line\t\u{0}\u{1f}\u{7f} \u{e9} \u{2028} \u{1f600} </script>";
    let frame = event_frame(&vec![record(5, name, 4294967295)]);
    assert_eq!(
        shown(&payload(&frame)),
        vec![(
            "00000000-0000-0000-0000-000000000005".to_string(),
            "00000000-0000-0000-0000-000000000005".to_string(),
            name.to_string(),
            4294967295
        )]
    );
}

#[test]
fn frame_of_a_table_shows_exactly_the_table() {
    let mut table = SensorTable::new();
    table.upsert(record(0x11111111_1111_1111_1111_111111111111, "temp", 44));
    table.upsert(record(0x22222222_2222_2222_2222_222222222222, "hum\"idity", 99999));
    table.upsert(record(0x33333333_3333_3333_3333_333333333333, "", 0));
    let first = snapshot_frame(&table);
    assert_eq!(
        shown(&payload(&first)),
        vec![
            (
                "11111111-1111-1111-1111-111111111111".to_string(),
                "11111111-1111-1111-1111-111111111111".to_string(),
                "temp".to_string(),
                44
            ),
            (
                "22222222-2222-2222-2222-222222222222".to_string(),
                "22222222-2222-2222-2222-222222222222".to_string(),
                "hum\"idity".to_string(),
                99999
            ),
            (
                "33333333-3333-3333-3333-333333333333".to_string(),
                "33333333-3333-3333-3333-333333333333".to_string(),
                String::new(),
                0
            ),
        ]
    );

    let _ = table.remove(0x22222222_2222_2222_2222_222222222222);
    table.upsert(record(0x11111111_1111_1111_1111_111111111111, "temp", 45));
    let second = snapshot_frame(&table);
    assert_eq!(shown(&payload(&second)).len(), 2);
    assert_eq!(shown(&payload(&second))[0].3, 45);
    assert_eq!(shown(&payload(&first)).len(), 3);
}

#[test]
fn a_frame_is_one_event_whatever_the_names_hold() {
    let mut names = vec![
        "line\nfeed".to_string(),
        "\n\n".to_string(),
        "data: {}\n\ndata: {}\n\n".to_string(),
        "\r\n".to_string(),
    ];
    for code in 0..0x20u32 {
        names.push(char::from_u32(code).unwrap().to_string());
    }
    let records: Vec<SensorRecord> =
        names.iter().enumerate().map(|(i, name)| record(i as u128, name, i as u32)).collect();
    let frame = event_frame(&records);
    assert!(frame.ends_with("\n\n"));
    assert!(frame[..frame.len() - 2].chars().all(|c| c >= ' '));
    let got = shown(&payload(&frame));
    assert_eq!(got.len(), names.len());
    for (i, name) in names.iter().enumerate() {
        let id = format!("00000000-0000-0000-0000-{:012x}", i);
        assert!(got.contains(&(id.clone(), id, name.clone(), i as u64)));
    }
}
