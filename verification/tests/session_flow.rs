use sensor_hub::model::{SensorIdentity, SensorRecord};
use sensor_hub::session::{CloseReason, SensorSession, SessionEvent};
use sensor_hub::table::{SensorTable, TableAction};
use sensor_hub::wire::HandshakeError;

const A_ID: u128 = 0x11111111_1111_1111_1111_111111111111;
const B_ID: u128 = 0x22222222_2222_2222_2222_222222222222;

fn frame(text: &str) -> SessionEvent {
    SessionEvent::Frame(text.as_bytes().to_vec())
}

fn deliver(session: SensorSession, table: &mut SensorTable, event: SessionEvent) -> SensorSession {
    let (next, action) = session.step(&event);
    table.apply(action);
    next
}

fn bound(table: &mut SensorTable, json: &str) -> SensorSession {
    let session = deliver(SensorSession::new(), table, frame(json));
    assert!(matches!(session, SensorSession::Streaming(_)));
    session
}

fn value_of(table: &SensorTable, id: u128) -> Option<u32> {
    table.get(id).map(|r| r.latest_value)
}

#[test]
fn scenario_readings_then_malformed_then_reading() {
    let mut table = SensorTable::new();
    let session = deliver(
        SensorSession::new(),
        &mut table,
        frame("{\"id\":\"11111111-1111-1111-1111-111111111111\",\"name\":\"temp\"}\n"),
    );
    assert_eq!(
        session,
        SensorSession::Streaming(SensorIdentity { id: A_ID, name: "temp".to_string() })
    );
    assert_eq!(table.len(), 0);

    let session = deliver(session, &mut table, frame("42\n"));
    assert_eq!(value_of(&table, A_ID), Some(42));
    let session = deliver(session, &mut table, frame("43\n"));
    assert_eq!(value_of(&table, A_ID), Some(43));
    let session = deliver(session, &mut table, frame("abc\n"));
    assert_eq!(value_of(&table, A_ID), Some(99999));
    assert!(!session.is_closed());
    let session = deliver(session, &mut table, frame("44\n"));
    assert_eq!(value_of(&table, A_ID), Some(44));
    assert_eq!(table.len(), 1);
    assert_eq!(
        table.get(A_ID),
        Some(&SensorRecord {
            identity: SensorIdentity { id: A_ID, name: "temp".to_string() },
            latest_value: 44,
        })
    );

    let session = deliver(session, &mut table, SessionEvent::EndOfStream);
    assert_eq!(session, SensorSession::Closed(CloseReason::PeerClosed));
    assert_eq!(table.get(A_ID), None);
    assert_eq!(table.len(), 0);
}

#[test]
fn transport_failure_keeps_the_last_value() {
    let mut table = SensorTable::new();
    let session = bound(
        &mut table,
        "{\"id\":\"11111111-1111-1111-1111-111111111111\",\"name\":\"temp\"}\n",
    );
    let session = deliver(session, &mut table, frame("7\n"));
    let session = deliver(session, &mut table, SessionEvent::TransportFailure);
    assert_eq!(session, SensorSession::Closed(CloseReason::Transport));
    assert_eq!(value_of(&table, A_ID), Some(7));
}

#[test]
fn malformed_handshake_leaves_the_table_unchanged() {
    let mut table = SensorTable::new();
    table.upsert(SensorRecord {
        identity: SensorIdentity { id: B_ID, name: "other".to_string() },
        latest_value: 5,
    });
    let session = deliver(SensorSession::new(), &mut table, frame("not json\n"));
    assert_eq!(session, SensorSession::Closed(CloseReason::Protocol(HandshakeError::NotAnObject)));
    let session = deliver(session, &mut table, frame("42\n"));
    assert!(session.is_closed());
    let session = deliver(session, &mut table, SessionEvent::EndOfStream);
    assert!(session.is_closed());
    assert_eq!(table.len(), 1);
    assert_eq!(value_of(&table, B_ID), Some(5));
}

#[test]
fn end_of_stream_before_handshake_is_a_protocol_error() {
    let (session, action) = SensorSession::new().step(&SessionEvent::EndOfStream);
    assert_eq!(session, SensorSession::Closed(CloseReason::Protocol(HandshakeError::Unterminated)));
    assert_eq!(action, TableAction::Nothing);
}

#[test]
fn transport_failure_before_handshake_closes_without_action() {
    let (session, action) = SensorSession::new().step(&SessionEvent::TransportFailure);
    assert_eq!(session, SensorSession::Closed(CloseReason::Transport));
    assert_eq!(action, TableAction::Nothing);
}

#[test]
fn handshake_itself_asks_nothing_of_the_table() {
    let (session, action) = SensorSession::new()
        .step(&frame("{\"id\":\"22222222-2222-2222-2222-222222222222\",\"name\":\"b\"}\n"));
    assert_eq!(action, TableAction::Nothing);
    assert_eq!(session, SensorSession::Streaming(SensorIdentity { id: B_ID, name: "b".to_string() }));
}

#[test]
fn streaming_steps_name_their_actions() {
    let identity = SensorIdentity { id: A_ID, name: "temp".to_string() };
    let (session, action) = SensorSession::Streaming(identity.clone()).step(&frame("12\n"));
    assert_eq!(
        action,
        TableAction::Upsert(SensorRecord { identity: identity.clone(), latest_value: 12 })
    );
    let (session, action) = session.step(&SessionEvent::EndOfStream);
    assert_eq!(action, TableAction::Remove(A_ID));
    assert_eq!(session, SensorSession::Closed(CloseReason::PeerClosed));
}

#[test]
fn first_frame_that_is_no_number_stores_the_sentinel() {
    let mut table = SensorTable::new();
    let session = bound(
        &mut table,
        "{\"id\":\"11111111-1111-1111-1111-111111111111\",\"name\":\"temp\"}\n",
    );
    let session = deliver(session, &mut table, frame("\n"));
    assert_eq!(value_of(&table, A_ID), Some(99999));
    assert!(!session.is_closed());
}

#[test]
fn interleaved_sessions_each_keep_their_last_reading() {
    let a_frames = ["1\n", "2\n", "3\n"];
    let b_frames = ["10\n", "20\n"];
    let orders: [[usize; 5]; 4] =
        [[0, 0, 0, 1, 1], [1, 1, 0, 0, 0], [0, 1, 0, 1, 0], [1, 0, 0, 1, 0]];
    for order in orders {
        let mut table = SensorTable::new();
        let mut a = Some(bound(
            &mut table,
            "{\"id\":\"11111111-1111-1111-1111-111111111111\",\"name\":\"a\"}\n",
        ));
        let mut b = Some(bound(
            &mut table,
            "{\"id\":\"22222222-2222-2222-2222-222222222222\",\"name\":\"b\"}\n",
        ));
        let mut next_a = 0;
        let mut next_b = 0;
        for who in order {
            if who == 0 {
                a = Some(deliver(a.take().unwrap(), &mut table, frame(a_frames[next_a])));
                next_a += 1;
            } else {
                b = Some(deliver(b.take().unwrap(), &mut table, frame(b_frames[next_b])));
                next_b += 1;
            }
        }
        assert_eq!(table.len(), 2);
        assert_eq!(value_of(&table, A_ID), Some(3));
        assert_eq!(value_of(&table, B_ID), Some(20));
        assert_eq!(table.get(A_ID).unwrap().identity.name, "a");
        assert_eq!(table.get(B_ID).unwrap().identity.name, "b");
    }
}

#[test]
fn one_sensor_leaving_does_not_touch_the_other() {
    let mut table = SensorTable::new();
    let a = bound(
        &mut table,
        "{\"id\":\"11111111-1111-1111-1111-111111111111\",\"name\":\"a\"}\n",
    );
    let b = bound(
        &mut table,
        "{\"id\":\"22222222-2222-2222-2222-222222222222\",\"name\":\"b\"}\n",
    );
    let a = deliver(a, &mut table, frame("1\n"));
    let b = deliver(b, &mut table, frame("2\n"));
    let _ = deliver(a, &mut table, SessionEvent::EndOfStream);
    assert_eq!(value_of(&table, A_ID), None);
    assert_eq!(value_of(&table, B_ID), Some(2));
    let _ = deliver(b, &mut table, frame("3\n"));
    assert_eq!(value_of(&table, B_ID), Some(3));
}

#[test]
fn handshake_without_its_line_feed_binds_nothing_and_removes_nothing() {
    let mut table = SensorTable::new();
    table.upsert(SensorRecord {
        identity: SensorIdentity { id: A_ID, name: "temp".to_string() },
        latest_value: 5,
    });
    let (session, action) = SensorSession::new()
        .step(&frame("{\"id\":\"11111111-1111-1111-1111-111111111111\",\"name\":\"temp\"}"));
    assert_eq!(session, SensorSession::Closed(CloseReason::Protocol(HandshakeError::Unterminated)));
    assert_eq!(action, TableAction::Nothing);
    table.apply(action);
    let (session, action) = session.step(&SessionEvent::EndOfStream);
    assert_eq!(session, SensorSession::Closed(CloseReason::Protocol(HandshakeError::Unterminated)));
    assert_eq!(action, TableAction::Nothing);
    table.apply(action);
    assert_eq!(table.len(), 1);
    assert_eq!(
        table.get(A_ID),
        Some(&SensorRecord {
            identity: SensorIdentity { id: A_ID, name: "temp".to_string() },
            latest_value: 5,
        })
    );
}

#[test]
fn bytes_without_a_line_feed_never_bind_a_session() {
    let texts = [
        "",
        "{",
        "{\"id\":\"11111111-1111-1111-1111-111111111111\",\"name\":\"temp\"}",
        "{\"id\":\"11111111-1111-1111-1111-111111111111\",\"name\":\"temp\"} ",
        "{\"id\":\"11111111-1111-1111-1111-111111111111\",\"name\":\"temp\"}\r",
        "\n{\"id\":\"11111111-1111-1111-1111-111111111111\",\"name\":\"temp\"}",
    ];
    for text in texts {
        let mut table = SensorTable::new();
        let session = deliver(SensorSession::new(), &mut table, frame(text));
        assert_eq!(
            session,
            SensorSession::Closed(CloseReason::Protocol(HandshakeError::Unterminated)),
            "{:?}",
            text
        );
        let session = deliver(session, &mut table, frame("42\n"));
        let _ = deliver(session, &mut table, SessionEvent::EndOfStream);
        assert_eq!(table.len(), 0);
    }
}

#[test]
fn a_whole_handshake_frame_binds_with_any_line_ending() {
    for ending in ["\n", "\r\n", " \n", "\n\n"] {
        let mut table = SensorTable::new();
        let text = format!(
            "{{\"id\":\"11111111-1111-1111-1111-111111111111\",\"name\":\"temp\"}}{}",
            ending
        );
        let session = deliver(SensorSession::new(), &mut table, frame(&text));
        assert_eq!(
            session,
            SensorSession::Streaming(SensorIdentity { id: A_ID, name: "temp".to_string() })
        );
    }
}
