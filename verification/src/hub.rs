//! Many sessions over one table.
//!
//! The controller runs one session per connection, and every session's actions
//! reach the table one at a time, in some order that nobody chooses. That order
//! is a trace here: a run of deliveries, each an event handed to one session.
//! What is proved of every trace holds however the connections interleave.

use crate::decimal::decimal_u32;
use crate::model::RecordView;
use crate::session::{action_of, next_session, CloseReason, EventView, SessionView};
use crate::table::{applied, keyed_by_id, lemma_applied_keeps_filing};
use crate::text::{is_terminated, lenient_text, trimmed};
use crate::wire::{
    handshake_of, lemma_reading_frame_round_trip, reading_frame_text, reading_of, HandshakeError,
    SENTINEL_READING,
};
use vstd::prelude::*;
use vstd::utf8::encode_utf8;

verus! {

/// The table and the sessions that write to it.
pub struct Hub {
    pub table: Map<u128, RecordView>,
    pub sessions: Seq<SessionView>,
}

/// One event, handed to the session at place `session`.
pub struct Delivery {
    pub session: int,
    pub event: EventView,
}

/// The hub after one delivery: the session takes its step and the table does
/// what the step asks, as one. A delivery to a session that does not exist
/// changes nothing.
pub open spec fn deliver(hub: Hub, d: Delivery) -> Hub {
    if 0 <= d.session < hub.sessions.len() {
        Hub {
            table: applied(hub.table, action_of(hub.sessions[d.session], d.event)),
            sessions: hub.sessions.update(
                d.session,
                next_session(hub.sessions[d.session], d.event),
            ),
        }
    } else {
        hub
    }
}

/// The hub after a trace, its deliveries taken in order.
pub open spec fn run(hub: Hub, trace: Seq<Delivery>) -> Hub
    decreases trace.len(),
{
    if trace.len() == 0 {
        hub
    } else {
        deliver(run(hub, trace.drop_last()), trace.last())
    }
}

/// The frames that a trace hands to session `who`, in order.
pub open spec fn frames_of(trace: Seq<Delivery>, who: int) -> Seq<Seq<u8>>
    decreases trace.len(),
{
    if trace.len() == 0 {
        Seq::empty()
    } else {
        let before = frames_of(trace.drop_last(), who);
        match trace.last().event {
            EventView::Frame(bytes) => if trace.last().session == who {
                before.push(bytes)
            } else {
                before
            },
            _ => before,
        }
    }
}

/// The deliveries of a trace that go to session `who`, in order.
pub open spec fn own_deliveries(trace: Seq<Delivery>, who: int) -> Seq<Delivery>
    decreases trace.len(),
{
    if trace.len() == 0 {
        Seq::empty()
    } else if trace.last().session == who {
        own_deliveries(trace.drop_last(), who).push(trace.last())
    } else {
        own_deliveries(trace.drop_last(), who)
    }
}

/// The deliveries of a trace that go to any session but `who`, in order.
pub open spec fn other_deliveries(trace: Seq<Delivery>, who: int) -> Seq<Delivery>
    decreases trace.len(),
{
    if trace.len() == 0 {
        Seq::empty()
    } else if trace.last().session != who {
        other_deliveries(trace.drop_last(), who).push(trace.last())
    } else {
        other_deliveries(trace.drop_last(), who)
    }
}

/// Session `who` never completes a handshake: of the bytes that the trace
/// hands to it, none is a whole frame that names a sensor. Bytes without their
/// line feed count as none, whatever they spell.
pub open spec fn no_handshake(trace: Seq<Delivery>, who: int) -> bool {
    forall|k: int|
        0 <= k < trace.len() && (#[trigger] trace[k]).session == who ==> match trace[k].event {
            EventView::Frame(bytes) => !is_terminated(bytes) || handshake_of(bytes) is Err,
            _ => true,
        }
}

/// Every session is bound to a sensor, and no two to the same id.
pub open spec fn bound_apart(sessions: Seq<SessionView>) -> bool {
    &&& forall|i: int| 0 <= i < sessions.len() ==> #[trigger] sessions[i] is Streaming
    &&& forall|i: int, j: int|
        0 <= i < j < sessions.len() ==> (#[trigger] sessions[i])->Streaming_0.id != (
        #[trigger] sessions[j])->Streaming_0.id
}

/// Every delivery of the trace is a frame.
pub open spec fn only_frames(trace: Seq<Delivery>) -> bool {
    forall|k: int| 0 <= k < trace.len() ==> #[trigger] trace[k].event is Frame
}

/// What the table holds for `id`, if anything.
pub open spec fn entry(table: Map<u128, RecordView>, id: u128) -> Option<RecordView> {
    if table.contains_key(id) {
        Some(table[id])
    } else {
        None
    }
}

/// Whatever is delivered, and in whatever order, every entry of the table
/// stays under its own id: no sensor ever has two entries.
pub proof fn lemma_run_keeps_filing(hub: Hub, trace: Seq<Delivery>)
    requires
        keyed_by_id(hub.table),
    ensures
        keyed_by_id(run(hub, trace).table),
    decreases trace.len(),
{
    if trace.len() > 0 {
        lemma_run_keeps_filing(hub, trace.drop_last());
        let before = run(hub, trace.drop_last());
        let d = trace.last();
        if 0 <= d.session < before.sessions.len() {
            lemma_applied_keeps_filing(before.table, action_of(before.sessions[d.session], d.event));
        }
    }
}

/// A reading frame that writes no number stores exactly the sentinel and the
/// session goes on.
pub proof fn lemma_malformed_reading_stores_sentinel(
    table: Map<u128, RecordView>,
    session: SessionView,
    frame: Seq<u8>,
)
    requires
        session is Streaming,
        decimal_u32(trimmed(lenient_text(frame))) is None,
    ensures
        next_session(session, EventView::Frame(frame)) == session,
        entry(
            applied(table, action_of(session, EventView::Frame(frame))),
            session->Streaming_0.id,
        ) is Some,
        entry(
            applied(table, action_of(session, EventView::Frame(frame))),
            session->Streaming_0.id,
        )->0.latest_value == SENTINEL_READING,
{
}

/// While bound sessions receive frames only, they stay as they are.
proof fn lemma_frames_keep_sessions(hub: Hub, trace: Seq<Delivery>)
    requires
        bound_apart(hub.sessions),
        only_frames(trace),
    ensures
        run(hub, trace).sessions == hub.sessions,
    decreases trace.len(),
{
    if trace.len() > 0 {
        lemma_frames_keep_sessions(hub, trace.drop_last());
        let before = run(hub, trace.drop_last());
        let d = trace.last();
        assert(trace[trace.len() - 1].event is Frame);
        if 0 <= d.session < before.sessions.len() {
            assert(before.sessions[d.session] is Streaming);
            assert(before.sessions.update(d.session, before.sessions[d.session])
                =~= before.sessions);
        }
    }
}

/// The last reading wins: where sessions bound to different sensors send
/// frames, in whatever order the frames reach the table, the value stored for a
/// sensor in the end is the one its own session sent last.
pub proof fn lemma_last_reading_wins(hub: Hub, trace: Seq<Delivery>, who: int)
    requires
        bound_apart(hub.sessions),
        only_frames(trace),
        0 <= who < hub.sessions.len(),
        frames_of(trace, who).len() > 0,
    ensures
        entry(run(hub, trace).table, hub.sessions[who]->Streaming_0.id) is Some,
        entry(run(hub, trace).table, hub.sessions[who]->Streaming_0.id)->0.latest_value
            == reading_of(frames_of(trace, who).last()),
    decreases trace.len(),
{
    let earlier = trace.drop_last();
    let d = trace.last();
    let before = run(hub, earlier);
    lemma_frames_keep_sessions(hub, earlier);
    assert(only_frames(earlier)) by {
        assert forall|k: int| 0 <= k < earlier.len() implies #[trigger] earlier[k].event is Frame by {
            assert(earlier[k] == trace[k]);
        }
    }
    assert(trace[trace.len() - 1].event is Frame);
    if d.session == who {
    } else {
        assert(frames_of(trace, who) == frames_of(earlier, who));
        lemma_last_reading_wins(hub, earlier, who);
        if 0 <= d.session < hub.sessions.len() {
            assert(hub.sessions[d.session] is Streaming);
            if d.session < who {
                assert(hub.sessions[d.session]->Streaming_0.id != hub.sessions[who]->Streaming_0.id);
            } else {
                assert(hub.sessions[who]->Streaming_0.id != hub.sessions[d.session]->Streaming_0.id);
            }
        }
    }
}

/// The last reading wins, in the sensor's own terms: where the frame that a
/// session sent last is the frame written for the reading `value`, the table
/// ends with `value` for that sensor.
pub proof fn lemma_last_sent_reading_is_stored(
    hub: Hub,
    trace: Seq<Delivery>,
    who: int,
    value: u32,
)
    requires
        bound_apart(hub.sessions),
        only_frames(trace),
        0 <= who < hub.sessions.len(),
        frames_of(trace, who).len() > 0,
        frames_of(trace, who).last() == encode_utf8(reading_frame_text(value)),
    ensures
        entry(run(hub, trace).table, hub.sessions[who]->Streaming_0.id) is Some,
        entry(run(hub, trace).table, hub.sessions[who]->Streaming_0.id)->0.latest_value
            == value,
{
    lemma_last_reading_wins(hub, trace, who);
    lemma_reading_frame_round_trip(value);
}

/// Each session is as `began` has it, or closed.
spec fn as_begun_or_closed(began: Seq<SessionView>, now: Seq<SessionView>) -> bool {
    &&& now.len() == began.len()
    &&& forall|j: int|
        0 <= j < now.len() ==> (#[trigger] now[j]) == began[j] || now[j] is Closed
}

proof fn lemma_bound_sessions_only_close(hub: Hub, trace: Seq<Delivery>)
    requires
        bound_apart(hub.sessions),
    ensures
        as_begun_or_closed(hub.sessions, run(hub, trace).sessions),
    decreases trace.len(),
{
    if trace.len() > 0 {
        lemma_bound_sessions_only_close(hub, trace.drop_last());
        let before = run(hub, trace.drop_last());
        let d = trace.last();
        if 0 <= d.session < before.sessions.len() {
            let now = run(hub, trace).sessions;
            assert(hub.sessions[d.session] is Streaming);
            assert forall|j: int| 0 <= j < now.len() implies (#[trigger] now[j])
                == hub.sessions[j] || now[j] is Closed by {
                if j != d.session {
                    assert(now[j] == before.sessions[j]);
                }
            }
        }
    }
}

/// Sessions bound to different sensors do not interfere: what the table holds
/// for a sensor after a trace is what it would hold had only that sensor's own
/// session run, whatever the others did in between and in whatever order.
pub proof fn lemma_sessions_do_not_interfere(hub: Hub, trace: Seq<Delivery>, who: int)
    requires
        bound_apart(hub.sessions),
        0 <= who < hub.sessions.len(),
    ensures
        run(hub, trace).sessions.len() == hub.sessions.len(),
        run(hub, own_deliveries(trace, who)).sessions.len() == hub.sessions.len(),
        run(hub, trace).sessions[who] == run(hub, own_deliveries(trace, who)).sessions[who],
        entry(run(hub, trace).table, hub.sessions[who]->Streaming_0.id) == entry(
            run(hub, own_deliveries(trace, who)).table,
            hub.sessions[who]->Streaming_0.id,
        ),
    decreases trace.len(),
{
    if trace.len() > 0 {
        let earlier = trace.drop_last();
        let d = trace.last();
        lemma_sessions_do_not_interfere(hub, earlier, who);
        lemma_bound_sessions_only_close(hub, earlier);
        let before = run(hub, earlier);
        let alone = run(hub, own_deliveries(earlier, who));
        if d.session == who {
            assert(own_deliveries(trace, who).drop_last() =~= own_deliveries(earlier, who));
            assert(run(hub, own_deliveries(trace, who)) == deliver(alone, d));
        } else if 0 <= d.session < hub.sessions.len() {
            assert(hub.sessions[d.session] is Streaming);
            assert(hub.sessions[who] is Streaming);
            if d.session < who {
                assert(hub.sessions[d.session]->Streaming_0.id != hub.sessions[who]->Streaming_0.id);
            } else {
                assert(hub.sessions[who]->Streaming_0.id != hub.sessions[d.session]->Streaming_0.id);
            }
            assert(before.sessions[d.session] == hub.sessions[d.session]
                || before.sessions[d.session] is Closed);
        }
    }
}

/// Bytes without their line feed never bind a session, whatever they spell:
/// the session closes with a protocol error and asks nothing of the table, and
/// nothing that comes to it afterwards, the end of the stream included, asks
/// anything either.
pub proof fn lemma_unterminated_handshake_binds_nothing(
    table: Map<u128, RecordView>,
    bytes: Seq<u8>,
    later: EventView,
)
    requires
        !is_terminated(bytes),
    ensures
        next_session(SessionView::AwaitingHandshake, EventView::Frame(bytes))
            == SessionView::Closed(CloseReason::Protocol(HandshakeError::Unterminated)),
        applied(table, action_of(SessionView::AwaitingHandshake, EventView::Frame(bytes)))
            == table,
        applied(
            table,
            action_of(
                next_session(SessionView::AwaitingHandshake, EventView::Frame(bytes)),
                later,
            ),
        ) == table,
{
}

/// A session that never completes the handshake leaves the table unchanged:
/// the table ends as if nothing had ever been delivered to that session.
pub proof fn lemma_no_handshake_no_change(hub: Hub, trace: Seq<Delivery>, who: int)
    requires
        0 <= who < hub.sessions.len(),
        hub.sessions[who] is AwaitingHandshake,
        no_handshake(trace, who),
    ensures
        run(hub, trace).table == run(hub, other_deliveries(trace, who)).table,
        run(hub, trace).sessions.len() == hub.sessions.len(),
        run(hub, other_deliveries(trace, who)).sessions.len() == hub.sessions.len(),
        !(run(hub, trace).sessions[who] is Streaming),
        forall|j: int|
            0 <= j < hub.sessions.len() && j != who ==> run(hub, trace).sessions[j] == run(
                hub,
                other_deliveries(trace, who),
            ).sessions[j],
    decreases trace.len(),
{
    if trace.len() > 0 {
        let earlier = trace.drop_last();
        let d = trace.last();
        assert(no_handshake(earlier, who)) by {
            assert forall|k: int|
                0 <= k < earlier.len() && (#[trigger] earlier[k]).session == who implies match earlier[k].event {
                EventView::Frame(bytes) => !is_terminated(bytes) || handshake_of(bytes) is Err,
                _ => true,
            } by {
                assert(earlier[k] == trace[k]);
            }
        }
        lemma_no_handshake_no_change(hub, earlier, who);
        let before = run(hub, earlier);
        let without = run(hub, other_deliveries(earlier, who));
        if d.session == who {
            assert(trace[trace.len() - 1].session == who);
        } else {
            assert(other_deliveries(trace, who).drop_last() =~= other_deliveries(earlier, who));
            assert(run(hub, other_deliveries(trace, who)) == deliver(without, d));
        }
    }
}

} // verus!
