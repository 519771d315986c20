//! The protocol that the controller runs on each connection: one handshake
//! frame binds the connection to a sensor, then every frame is a reading.
//!
//! A session decides; it touches neither the connection nor the table. The
//! caller reads the connection, hands each outcome to [`SensorSession::step`],
//! and applies the action that comes back to the table, in one exclusive
//! access.

use crate::model::{IdentityView, RecordView, SensorIdentity, SensorRecord};
use crate::table::{ActionView, TableAction};
use crate::wire::{decode_handshake, decode_reading, handshake_of, reading_of, HandshakeError};
use vstd::prelude::*;

verus! {

/// Why a session ended.
#[derive(Clone, Copy, Debug, PartialEq, Eq, Structural)]
pub enum CloseReason {
    /// The peer closed the connection after the handshake.
    PeerClosed,
    /// No whole first frame came that names a sensor: the frame named none, or
    /// the stream ended before the frame's line feed.
    Protocol(HandshakeError),
    /// Reading from the connection failed.
    Transport,
}

/// Where a session stands.
#[derive(Debug, PartialEq, Eq)]
pub enum SensorSession {
    /// Accepted; the handshake frame has not arrived.
    AwaitingHandshake,
    /// Bound to a sensor; every frame is a reading.
    Streaming(SensorIdentity),
    /// Over. Nothing that arrives now has any effect.
    Closed(CloseReason),
}

/// The mathematical value of a [`SensorSession`].
pub enum SessionView {
    AwaitingHandshake,
    Streaming(IdentityView),
    Closed(CloseReason),
}

impl View for SensorSession {
    type V = SessionView;

    open spec fn view(&self) -> SessionView {
        match self {
            SensorSession::AwaitingHandshake => SessionView::AwaitingHandshake,
            SensorSession::Streaming(identity) => SessionView::Streaming(identity@),
            SensorSession::Closed(reason) => SessionView::Closed(*reason),
        }
    }
}

/// What reading the connection once gave.
#[derive(Debug, PartialEq, Eq)]
pub enum SessionEvent {
    /// The bytes that one read gave: a whole frame, up to and with its line
    /// feed, or, where the stream ended in the middle of a frame, the bytes
    /// that came before the end, without a line feed.
    Frame(Vec<u8>),
    /// The read gave no bytes: the peer has closed the connection.
    EndOfStream,
    /// The read failed.
    TransportFailure,
}

/// The mathematical value of a [`SessionEvent`].
pub enum EventView {
    Frame(Seq<u8>),
    EndOfStream,
    TransportFailure,
}

impl View for SessionEvent {
    type V = EventView;

    open spec fn view(&self) -> EventView {
        match self {
            SessionEvent::Frame(bytes) => EventView::Frame(bytes@),
            SessionEvent::EndOfStream => EventView::EndOfStream,
            SessionEvent::TransportFailure => EventView::TransportFailure,
        }
    }
}

/// Where a session stands after an event.
///
/// Before the handshake, a whole frame that names a sensor binds the session
/// to it. Anything else ends the session with a protocol error: a whole frame
/// that names none, bytes that never got their line feed, whatever they spell,
/// and the end of the stream. Once bound, frames keep the session as it is,
/// whatever they hold; the end of the stream and a failed read end it.
pub open spec fn next_session(session: SessionView, event: EventView) -> SessionView {
    match session {
        SessionView::AwaitingHandshake => match event {
            EventView::Frame(bytes) => match handshake_of(bytes) {
                Ok(identity) => SessionView::Streaming(identity),
                Err(e) => SessionView::Closed(CloseReason::Protocol(e)),
            },
            EventView::EndOfStream => SessionView::Closed(
                CloseReason::Protocol(HandshakeError::Unterminated),
            ),
            EventView::TransportFailure => SessionView::Closed(CloseReason::Transport),
        },
        SessionView::Streaming(identity) => match event {
            EventView::Frame(_) => session,
            EventView::EndOfStream => SessionView::Closed(CloseReason::PeerClosed),
            EventView::TransportFailure => SessionView::Closed(CloseReason::Transport),
        },
        SessionView::Closed(_) => session,
    }
}

/// What an event asks of the table.
///
/// Only a bound session asks anything: a frame stores its reading under the
/// sensor's identity, the end of the stream removes the sensor. A failed read
/// leaves the sensor's last value in the table. Bytes that came without a line
/// feed, which a stream gives only right before it ends, are read as a reading
/// like a whole frame.
pub open spec fn action_of(session: SessionView, event: EventView) -> ActionView {
    match session {
        SessionView::Streaming(identity) => match event {
            EventView::Frame(bytes) => ActionView::Upsert(
                RecordView { identity, latest_value: reading_of(bytes) },
            ),
            EventView::EndOfStream => ActionView::Remove(identity.id),
            EventView::TransportFailure => ActionView::Nothing,
        },
        _ => ActionView::Nothing,
    }
}

impl SensorSession {
    /// The session of a connection that has just been accepted.
    pub fn new() -> (session: Self)
        ensures
            session@ == SessionView::AwaitingHandshake,
    {
        SensorSession::AwaitingHandshake
    }

    /// Whether the session is over.
    pub fn is_closed(&self) -> (closed: bool)
        ensures
            closed == (self@ is Closed),
    {
        match self {
            SensorSession::Closed(_) => true,
            _ => false,
        }
    }

    /// Takes one event: gives the session as it stands afterwards, and what
    /// the table is to do.
    pub fn step(self, event: &SessionEvent) -> (r: (SensorSession, TableAction))
        ensures
            r.0@ == next_session(self@, event@),
            r.1@ == action_of(self@, event@),
    {
        match self {
            SensorSession::AwaitingHandshake => match event {
                SessionEvent::Frame(bytes) => match decode_handshake(bytes.as_slice()) {
                    Ok(identity) => (SensorSession::Streaming(identity), TableAction::Nothing),
                    Err(e) => (
                        SensorSession::Closed(CloseReason::Protocol(e)),
                        TableAction::Nothing,
                    ),
                },
                SessionEvent::EndOfStream => (
                    SensorSession::Closed(CloseReason::Protocol(HandshakeError::Unterminated)),
                    TableAction::Nothing,
                ),
                SessionEvent::TransportFailure => (
                    SensorSession::Closed(CloseReason::Transport),
                    TableAction::Nothing,
                ),
            },
            SensorSession::Streaming(identity) => match event {
                SessionEvent::Frame(bytes) => {
                    let record = SensorRecord {
                        identity: identity.clone(),
                        latest_value: decode_reading(bytes.as_slice()),
                    };
                    (SensorSession::Streaming(identity), TableAction::Upsert(record))
                },
                SessionEvent::EndOfStream => {
                    let id: u128 = identity.id;
                    (SensorSession::Closed(CloseReason::PeerClosed), TableAction::Remove(id))
                },
                SessionEvent::TransportFailure => (
                    SensorSession::Closed(CloseReason::Transport),
                    TableAction::Nothing,
                ),
            },
            SensorSession::Closed(reason) => (SensorSession::Closed(reason), TableAction::Nothing),
        }
    }
}

/// How far a session has come: awaiting, bound, closed.
pub open spec fn stage(session: SessionView) -> nat {
    match session {
        SessionView::AwaitingHandshake => 0,
        SessionView::Streaming(_) => 1,
        SessionView::Closed(_) => 2,
    }
}

/// A session only moves forward: it never returns to an earlier stage, a
/// bound session stays bound to the same sensor until it closes, a closed
/// session stays as it is, and only a bound session asks anything of the
/// table.
pub proof fn lemma_session_moves_forward(session: SessionView, event: EventView)
    ensures
        stage(next_session(session, event)) >= stage(session),
        session is Streaming && next_session(session, event) is Streaming ==> next_session(
            session,
            event,
        ) == session,
        session is Closed ==> next_session(session, event) == session,
        !(session is Streaming) ==> action_of(session, event) is Nothing,
{
}

} // verus!
