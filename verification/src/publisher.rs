//! The frames pushed to observers: on every tick, the whole table as one
//! server-sent event that carries a JSON object.
//!
//! A frame is made from a snapshot and from nothing else, so each frame stands
//! alone: an observer that misses one loses nothing that the next one needs.

use crate::decimal::{
    decimal_digits, lemma_decimal_round_trip, lemma_digits_no_c0_controls, render_decimal,
};
use crate::json::{json_quoted, quote};
use crate::model::{RecordView, SensorRecord};
use crate::table::{lists_table, record_views, SensorTable};
use crate::text::{lemma_no_c0_controls_concat, no_c0_controls};
use crate::token::{hyphenated, hyphenated_text, lemma_hyphenated_no_c0_controls};
use vstd::prelude::*;
use vstd::string::StringExecFns;

verus! {

/// Seconds between two frames on one observer's stream.
pub const SNAPSHOT_PERIOD_SECS: u64 = 3;

/// What the stream of one observer has just seen.
#[derive(Clone, Copy, Debug, PartialEq, Eq, Structural)]
pub enum ObserverEvent {
    /// The observer has subscribed.
    Subscribed,
    /// The period since the last frame, or since subscribing, is over.
    PeriodElapsed,
    /// The frame is handed to the observer.
    FrameSent,
}

/// What the stream of one observer does next.
#[derive(Clone, Copy, Debug, PartialEq, Eq, Structural)]
pub enum ObserverAction {
    /// Wait this many seconds.
    Wait(u64),
    /// Take a snapshot of the table now and send it as one frame.
    Emit,
}

/// The rule of one observer's stream: a full period passes before every frame,
/// the first one too, so an observer sees the table as it is at its own ticks
/// and nothing from before it subscribed.
pub open spec fn observer_rule(event: ObserverEvent) -> ObserverAction {
    match event {
        ObserverEvent::Subscribed | ObserverEvent::FrameSent => ObserverAction::Wait(
            SNAPSHOT_PERIOD_SECS,
        ),
        ObserverEvent::PeriodElapsed => ObserverAction::Emit,
    }
}

/// Decides the next move of one observer's stream. Each observer has a stream
/// of its own, which knows nothing of the others.
pub fn observer_step(event: ObserverEvent) -> (action: ObserverAction)
    ensures
        action == observer_rule(event),
{
    match event {
        ObserverEvent::Subscribed => ObserverAction::Wait(SNAPSHOT_PERIOD_SECS),
        ObserverEvent::FrameSent => ObserverAction::Wait(SNAPSHOT_PERIOD_SECS),
        ObserverEvent::PeriodElapsed => ObserverAction::Emit,
    }
}

/// One member of the snapshot object: the id as the member's name, and under
/// it the object with `id`, `name` and `value`.
pub open spec fn member_json_text(id_text: Seq<char>, quoted_name: Seq<char>, value: u32) -> Seq<
    char,
> {
    "\""@ + id_text + "\":{\"id\":\""@ + id_text + "\",\"name\":"@ + quoted_name
        + ",\"value\":"@ + decimal_digits(value as nat) + "}"@
}

/// The member that shows one record.
pub open spec fn record_json_text(record: RecordView) -> Seq<char> {
    member_json_text(
        hyphenated(record.identity.id),
        json_quoted(record.identity.name),
        record.latest_value,
    )
}

/// The members that show `records`, in their order, with commas between them.
pub open spec fn members_json_text(records: Seq<RecordView>) -> Seq<char>
    decreases records.len(),
{
    if records.len() == 0 {
        Seq::empty()
    } else if records.len() == 1 {
        record_json_text(records[0])
    } else {
        members_json_text(records.drop_last()) + ","@ + record_json_text(records.last())
    }
}

/// The JSON object that shows `records`.
pub open spec fn snapshot_json_text(records: Seq<RecordView>) -> Seq<char> {
    "{"@ + members_json_text(records) + "}"@
}

/// The server-sent event that carries `records`.
pub open spec fn event_frame_text(records: Seq<RecordView>) -> Seq<char> {
    "data: "@ + snapshot_json_text(records) + "\n\n"@
}

/// Whether `frame` shows exactly what `table` holds: it is the event of some
/// listing of the table, each entry once and nothing else.
pub open spec fn frame_shows(frame: Seq<char>, table: Map<u128, RecordView>) -> bool {
    exists|records: Seq<RecordView>| #[trigger]
        lists_table(records, table) && frame == event_frame_text(records)
}

/// Whether `frame` is exactly one event: it ends with two line feeds and
/// holds no control character before them, so no line ends inside it.
pub open spec fn is_one_event(frame: Seq<char>) -> bool {
    &&& frame.len() >= 2
    &&& frame[frame.len() - 1] == '\n'
    &&& frame[frame.len() - 2] == '\n'
    &&& no_c0_controls(frame.subrange(0, frame.len() - 2))
}

/// Puts one member together from the id in its hyphenated form, the name as
/// JSON quotes it, and the value. Where neither text holds a control
/// character, the member holds none.
pub fn member_json(id_text: &str, quoted_name: &str, value: u32) -> (json: String)
    ensures
        json@ == member_json_text(id_text@, quoted_name@, value),
        no_c0_controls(id_text@) && no_c0_controls(quoted_name@) ==> no_c0_controls(json@),
{
    let mut json = String::from_str("\"");
    json.append(id_text);
    json.append("\":{\"id\":\"");
    json.append(id_text);
    json.append("\",\"name\":");
    json.append(quoted_name);
    json.append(",\"value\":");
    json.append(render_decimal(value).as_str());
    json.append("}");
    proof {
        reveal_strlit("\"");
        reveal_strlit("\":{\"id\":\"");
        reveal_strlit("\",\"name\":");
        reveal_strlit(",\"value\":");
        reveal_strlit("}");
        let a = "\""@;
        let b = "\":{\"id\":\""@;
        let c = "\",\"name\":"@;
        let d = ",\"value\":"@;
        let e = "}"@;
        let digits = decimal_digits(value as nat);
        assert(no_c0_controls(a));
        assert(no_c0_controls(b));
        assert(no_c0_controls(c));
        assert(no_c0_controls(d));
        assert(no_c0_controls(e));
        lemma_decimal_round_trip(value as nat);
        lemma_digits_no_c0_controls(digits);
        lemma_no_c0_controls_concat(a, id_text@);
        lemma_no_c0_controls_concat(a + id_text@, b);
        lemma_no_c0_controls_concat(a + id_text@ + b, id_text@);
        lemma_no_c0_controls_concat(a + id_text@ + b + id_text@, c);
        lemma_no_c0_controls_concat(a + id_text@ + b + id_text@ + c, quoted_name@);
        lemma_no_c0_controls_concat(a + id_text@ + b + id_text@ + c + quoted_name@, d);
        lemma_no_c0_controls_concat(a + id_text@ + b + id_text@ + c + quoted_name@ + d, digits);
        lemma_no_c0_controls_concat(
            a + id_text@ + b + id_text@ + c + quoted_name@ + d + digits,
            e,
        );
    }
    json
}

/// Writes the member that shows one record.
pub fn record_json(record: &SensorRecord) -> (json: String)
    ensures
        json@ == record_json_text(record@),
        no_c0_controls(json@),
{
    let id_text = hyphenated_text(record.identity.id);
    let quoted_name = quote(record.identity.name.as_str());
    proof {
        lemma_hyphenated_no_c0_controls(record.identity.id);
    }
    member_json(id_text.as_str(), quoted_name.as_str(), record.latest_value)
}

/// Writes the JSON object that shows `records`, in their order.
pub fn snapshot_json(records: &Vec<SensorRecord>) -> (json: String)
    ensures
        json@ == snapshot_json_text(record_views(records@)),
        no_c0_controls(json@),
{
    let ghost views = record_views(records@);
    let mut json = String::from_str("{");
    let mut i: usize = 0;
    proof {
        reveal_strlit("{");
        reveal_strlit(",");
        reveal_strlit("}");
        assert(views.take(0) =~= Seq::<RecordView>::empty());
        assert("{"@ + Seq::<char>::empty() =~= "{"@);
    }
    while i < records.len()
        invariant
            i <= records.len(),
            views == record_views(records@),
            json@ == "{"@ + members_json_text(views.take(i as int)),
            no_c0_controls(json@),
            no_c0_controls(","@),
        decreases records.len() - i,
    {
        let ghost sofar = views.take(i as int);
        let ghost next = views.take(i + 1);
        proof {
            assert(next.drop_last() =~= sofar);
            assert(next.last() == records@[i as int]@);
        }
        if i > 0 {
            proof {
                lemma_no_c0_controls_concat(json@, ","@);
            }
            json.append(",");
        }
        let member = record_json(&records[i]);
        proof {
            lemma_no_c0_controls_concat(json@, member@);
        }
        json.append(member.as_str());
        proof {
            if i == 0 {
                assert(sofar.len() == 0);
                assert(next.len() == 1);
                assert(next[0] == next.last());
                assert(json@ =~= "{"@ + members_json_text(next));
            } else {
                assert(next.len() > 1);
                assert(json@ =~= "{"@ + members_json_text(next));
            }
        }
        i = i + 1;
    }
    assert(views.take(records.len() as int) =~= views);
    proof {
        lemma_no_c0_controls_concat(json@, "}"@);
    }
    json.append("}");
    json
}

/// Writes the server-sent event that carries `records`: one event, whatever
/// the names hold.
pub fn event_frame(records: &Vec<SensorRecord>) -> (frame: String)
    ensures
        frame@ == event_frame_text(record_views(records@)),
        is_one_event(frame@),
{
    let mut frame = String::from_str("data: ");
    let json = snapshot_json(records);
    frame.append(json.as_str());
    frame.append("\n\n");
    proof {
        reveal_strlit("data: ");
        reveal_strlit("\n\n");
        let head = "data: "@ + json@;
        assert(no_c0_controls("data: "@));
        lemma_no_c0_controls_concat("data: "@, json@);
        assert(frame@.subrange(0, frame@.len() - 2) =~= head);
    }
    frame
}

/// The frame of one tick: a snapshot of the table, taken now, as one event.
pub fn snapshot_frame(table: &SensorTable) -> (frame: String)
    ensures
        frame_shows(frame@, table@),
        is_one_event(frame@),
{
    let records = table.snapshot_view();
    let frame = event_frame(&records);
    assert(lists_table(record_views(records@), table@));
    frame
}

} // verus!
