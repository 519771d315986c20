//! The control loop of one sensor: find the controller, connect, announce
//! itself once, then send a reading at every interval until a write fails.
//!
//! The loop's decisions are here; its waiting and its I/O are the caller's. The
//! caller does what an [`AgentAction`] says and reports what came of it as the
//! next [`AgentEvent`].

use crate::discovery::{
    endpoint_in, endpoint_of, resolution_of, Endpoint, RecordKind, Resolution, QUERY_INTERVAL_SECS,
    RETRY_BACKOFF_SECS,
};
use crate::model::{IdentityView, SensorIdentity};
use crate::text::is_one_line;
use crate::wire::{handshake_frame, handshake_frame_text, reading_frame, reading_frame_text};
use rand::Rng;
use vstd::prelude::*;

verus! {

/// Seconds between two readings.
pub const READING_INTERVAL_SECS: u64 = 2;

/// Readings are drawn below this bound.
pub const READING_LIMIT: u32 = 100;

/// `Rng::gen_range` of rand over `0..limit`, on the generator of the calling
/// thread (`rand::thread_rng`): some value of the range, not always the same.
/// An empty range makes it panic, so the limit is above zero.
#[verifier::external_body]
fn draw_below(limit: u32) -> (value: u32)
    requires
        limit > 0,
    ensures
        value < limit,
{
    rand::thread_rng().gen_range(0..limit)
}

/// Produces the next reading: a number below [`READING_LIMIT`], drawn at
/// random.
pub fn produce_reading() -> (value: u32)
    ensures
        value < READING_LIMIT,
{
    draw_below(READING_LIMIT)
}

/// Why an agent stopped.
#[derive(Clone, Copy, Debug, PartialEq, Eq, Structural)]
pub enum StopReason {
    /// The discovery query could not be issued at all.
    DiscoveryUnavailable,
    /// No controller was found within the queries that the agent was allowed.
    NotFound,
    /// The controller was found and did not take the connection.
    ConnectFailed,
    /// The handshake could not be written.
    HandshakeFailed,
    /// A reading could not be written: the connection is broken.
    StreamBroken,
}

/// Where an agent stands.
#[derive(Clone, Copy, Debug, PartialEq, Eq, Structural)]
pub enum AgentState {
    /// Nothing has happened yet.
    Starting,
    /// A query is out; answers are awaited.
    Resolving,
    /// The last query found nothing; the back-off runs.
    BackingOff,
    /// The controller is found; the connection is being opened.
    Connecting(Endpoint),
    /// The handshake is being written.
    Handshaking,
    /// The next reading is being produced.
    AwaitingReading,
    /// A reading is being written.
    Sending,
    /// The interval between two readings runs.
    Pausing,
    /// The loop is over.
    Stopped(StopReason),
}

/// What the caller reports.
#[derive(Debug, PartialEq, Eq)]
pub enum AgentEvent {
    /// The loop starts, and has to find the controller.
    Started,
    /// The loop starts, and the controller's endpoint is known beforehand.
    Located(Endpoint),
    /// One answer to the query, with its records in the order they came.
    Answer(Vec<RecordKind>),
    /// The query is over without a controller: the time is up, or the stream
    /// of answers broke.
    DiscoveryEnded,
    /// The query could not be issued.
    DiscoveryUnavailable,
    /// The wait that was asked for is over.
    TimerElapsed,
    /// The connection is open.
    Connected,
    /// The connection could not be opened.
    ConnectFailed,
    /// The frame is written.
    Written,
    /// The frame could not be written.
    WriteFailed,
    /// The reading that was asked for.
    Reading(u32),
}

/// The mathematical value of an [`AgentEvent`].
pub enum AgentEventView {
    Started,
    Located(Endpoint),
    Answer(Seq<RecordKind>),
    DiscoveryEnded,
    DiscoveryUnavailable,
    TimerElapsed,
    Connected,
    ConnectFailed,
    Written,
    WriteFailed,
    Reading(u32),
}

impl View for AgentEvent {
    type V = AgentEventView;

    open spec fn view(&self) -> AgentEventView {
        match self {
            AgentEvent::Started => AgentEventView::Started,
            AgentEvent::Located(endpoint) => AgentEventView::Located(*endpoint),
            AgentEvent::Answer(records) => AgentEventView::Answer(records@),
            AgentEvent::DiscoveryEnded => AgentEventView::DiscoveryEnded,
            AgentEvent::DiscoveryUnavailable => AgentEventView::DiscoveryUnavailable,
            AgentEvent::TimerElapsed => AgentEventView::TimerElapsed,
            AgentEvent::Connected => AgentEventView::Connected,
            AgentEvent::ConnectFailed => AgentEventView::ConnectFailed,
            AgentEvent::Written => AgentEventView::Written,
            AgentEvent::WriteFailed => AgentEventView::WriteFailed,
            AgentEvent::Reading(value) => AgentEventView::Reading(*value),
        }
    }
}

/// What the caller is to do next.
#[derive(Debug, PartialEq, Eq)]
pub enum AgentAction {
    /// Issue a query for the controller and listen for answers for this many
    /// seconds at most.
    Resolve(u64),
    /// Go on listening for answers to the query that is out.
    Listen,
    /// Wait this many seconds, then report `TimerElapsed`.
    Wait(u64),
    /// Stop listening and open a connection to this endpoint.
    Connect(Endpoint),
    /// Write this frame to the connection.
    Send(String),
    /// Produce the next reading and report it.
    Produce,
    /// Stop: the loop is over.
    Halt,
    /// Nothing: the event was out of place.
    Ignore,
}

/// The mathematical value of an [`AgentAction`].
pub enum AgentActionView {
    Resolve(u64),
    Listen,
    Wait(u64),
    Connect(Endpoint),
    Send(Seq<char>),
    Produce,
    Halt,
    Ignore,
}

impl View for AgentAction {
    type V = AgentActionView;

    open spec fn view(&self) -> AgentActionView {
        match self {
            AgentAction::Resolve(seconds) => AgentActionView::Resolve(*seconds),
            AgentAction::Listen => AgentActionView::Listen,
            AgentAction::Wait(seconds) => AgentActionView::Wait(*seconds),
            AgentAction::Connect(endpoint) => AgentActionView::Connect(*endpoint),
            AgentAction::Send(frame) => AgentActionView::Send(frame@),
            AgentAction::Produce => AgentActionView::Produce,
            AgentAction::Halt => AgentActionView::Halt,
            AgentAction::Ignore => AgentActionView::Ignore,
        }
    }
}

/// The times that rule an agent, and how often it may ask.
#[derive(Clone, Copy, Debug, PartialEq, Eq)]
pub struct AgentConfig {
    /// Seconds that one query listens for answers.
    pub resolve_timeout_secs: u64,
    /// Seconds between a query that found nothing and the next one.
    pub retry_backoff_secs: u64,
    /// Seconds between two readings.
    pub reading_interval_secs: u64,
    /// How many queries the agent may issue; `None` for as many as it takes.
    pub max_queries: Option<u32>,
}

impl AgentConfig {
    /// The times of an unattended sensor, which asks until it is answered.
    pub fn standard() -> (config: Self)
        ensures
            config == (AgentConfig {
                resolve_timeout_secs: QUERY_INTERVAL_SECS,
                retry_backoff_secs: RETRY_BACKOFF_SECS,
                reading_interval_secs: READING_INTERVAL_SECS,
                max_queries: None,
            }),
    {
        AgentConfig {
            resolve_timeout_secs: QUERY_INTERVAL_SECS,
            retry_backoff_secs: RETRY_BACKOFF_SECS,
            reading_interval_secs: READING_INTERVAL_SECS,
            max_queries: None,
        }
    }
}

/// What changes as an agent runs.
pub struct AgentProgress {
    /// Where the loop stands.
    pub state: AgentState,
    /// How many queries may still be issued; `None` for no limit.
    pub queries_left: Option<u32>,
}

/// Whether another query may be issued.
pub open spec fn may_query(queries_left: Option<u32>) -> bool {
    queries_left != Some(0u32)
}

/// The queries that are left once one more is issued.
pub open spec fn after_query(queries_left: Option<u32>) -> Option<u32> {
    match queries_left {
        Some(n) => if n > 0 {
            Some((n - 1) as u32)
        } else {
            Some(0u32)
        },
        None => None,
    }
}

/// The agent's rule: where it stands after an event, and the action that the
/// event calls for.
///
/// A query that ends without a controller is followed by the back-off, and a
/// new query goes out only when the back-off is over; this repeats for as long
/// as queries are left, which without a limit is for ever. The first answer
/// that gives an endpoint ends the listening. The handshake is sent once, right
/// after the connection opens. A failed write ends the loop. An event that the
/// state does not expect changes nothing.
pub open spec fn agent_rule(
    now: AgentProgress,
    event: AgentEventView,
    identity: IdentityView,
    config: AgentConfig,
) -> (AgentProgress, AgentActionView) {
    let left = now.queries_left;
    match (now.state, event) {
        (AgentState::Starting, AgentEventView::Started) => if may_query(left) {
            (
                AgentProgress { state: AgentState::Resolving, queries_left: after_query(left) },
                AgentActionView::Resolve(config.resolve_timeout_secs),
            )
        } else {
            (
                AgentProgress { state: AgentState::Stopped(StopReason::NotFound), queries_left: left },
                AgentActionView::Halt,
            )
        },
        (AgentState::Starting, AgentEventView::Located(endpoint)) => (
            AgentProgress { state: AgentState::Connecting(endpoint), queries_left: left },
            AgentActionView::Connect(endpoint),
        ),
        (AgentState::Resolving, AgentEventView::Answer(records)) => match endpoint_of(records) {
            Some(endpoint) => (
                AgentProgress { state: AgentState::Connecting(endpoint), queries_left: left },
                AgentActionView::Connect(endpoint),
            ),
            None => (now, AgentActionView::Listen),
        },
        (AgentState::Resolving, AgentEventView::DiscoveryEnded) => if may_query(left) {
            (
                AgentProgress { state: AgentState::BackingOff, queries_left: left },
                AgentActionView::Wait(config.retry_backoff_secs),
            )
        } else {
            (
                AgentProgress { state: AgentState::Stopped(StopReason::NotFound), queries_left: left },
                AgentActionView::Halt,
            )
        },
        (AgentState::Resolving, AgentEventView::DiscoveryUnavailable) => (
            AgentProgress {
                state: AgentState::Stopped(StopReason::DiscoveryUnavailable),
                queries_left: left,
            },
            AgentActionView::Halt,
        ),
        (AgentState::BackingOff, AgentEventView::TimerElapsed) => (
            AgentProgress { state: AgentState::Resolving, queries_left: after_query(left) },
            AgentActionView::Resolve(config.resolve_timeout_secs),
        ),
        (AgentState::Connecting(_), AgentEventView::Connected) => (
            AgentProgress { state: AgentState::Handshaking, queries_left: left },
            AgentActionView::Send(handshake_frame_text(identity)),
        ),
        (AgentState::Connecting(_), AgentEventView::ConnectFailed) => (
            AgentProgress { state: AgentState::Stopped(StopReason::ConnectFailed), queries_left: left },
            AgentActionView::Halt,
        ),
        (AgentState::Handshaking, AgentEventView::Written) => (
            AgentProgress { state: AgentState::AwaitingReading, queries_left: left },
            AgentActionView::Produce,
        ),
        (AgentState::Handshaking, AgentEventView::WriteFailed) => (
            AgentProgress {
                state: AgentState::Stopped(StopReason::HandshakeFailed),
                queries_left: left,
            },
            AgentActionView::Halt,
        ),
        (AgentState::AwaitingReading, AgentEventView::Reading(value)) => (
            AgentProgress { state: AgentState::Sending, queries_left: left },
            AgentActionView::Send(reading_frame_text(value)),
        ),
        (AgentState::Sending, AgentEventView::Written) => (
            AgentProgress { state: AgentState::Pausing, queries_left: left },
            AgentActionView::Wait(config.reading_interval_secs),
        ),
        (AgentState::Sending, AgentEventView::WriteFailed) => (
            AgentProgress { state: AgentState::Stopped(StopReason::StreamBroken), queries_left: left },
            AgentActionView::Halt,
        ),
        (AgentState::Pausing, AgentEventView::TimerElapsed) => (
            AgentProgress { state: AgentState::AwaitingReading, queries_left: left },
            AgentActionView::Produce,
        ),
        _ => (now, AgentActionView::Ignore),
    }
}

/// One sensor's control loop.
#[derive(Debug, PartialEq, Eq)]
pub struct SensorAgent {
    /// Who the sensor is; set once, never changed.
    pub identity: SensorIdentity,
    /// The times that rule the loop; set once, never changed.
    pub config: AgentConfig,
    /// Where the loop stands.
    pub state: AgentState,
    /// How many queries may still be issued; `None` for no limit.
    pub queries_left: Option<u32>,
}

impl SensorAgent {
    /// What changes as the agent runs.
    pub open spec fn progress(&self) -> AgentProgress {
        AgentProgress { state: self.state, queries_left: self.queries_left }
    }

    /// The agent of a sensor that has not started yet, with the standard times
    /// and no limit on its queries.
    pub fn new(identity: SensorIdentity) -> (agent: Self)
        ensures
            agent.identity == identity,
            agent.config == (AgentConfig {
                resolve_timeout_secs: QUERY_INTERVAL_SECS,
                retry_backoff_secs: RETRY_BACKOFF_SECS,
                reading_interval_secs: READING_INTERVAL_SECS,
                max_queries: None,
            }),
            agent.state == AgentState::Starting,
            agent.queries_left == None::<u32>,
    {
        SensorAgent::with_config(identity, AgentConfig::standard())
    }

    /// The agent of a sensor that has not started yet, with times and a limit
    /// of the caller's choice.
    pub fn with_config(identity: SensorIdentity, config: AgentConfig) -> (agent: Self)
        ensures
            agent.identity == identity,
            agent.config == config,
            agent.state == AgentState::Starting,
            agent.queries_left == config.max_queries,
    {
        SensorAgent {
            identity,
            config,
            state: AgentState::Starting,
            queries_left: config.max_queries,
        }
    }

    fn query(&mut self) -> (action: AgentAction)
        requires
            may_query(old(self).queries_left),
        ensures
            final(self).identity == old(self).identity,
            final(self).config == old(self).config,
            final(self).state == AgentState::Resolving,
            final(self).queries_left == after_query(old(self).queries_left),
            action@ == AgentActionView::Resolve(old(self).config.resolve_timeout_secs),
    {
        match self.queries_left {
            Some(n) => {
                self.queries_left = Some(n - 1);
            },
            None => {},
        }
        self.state = AgentState::Resolving;
        AgentAction::Resolve(self.config.resolve_timeout_secs)
    }

    fn stop(&mut self, reason: StopReason) -> (action: AgentAction)
        ensures
            final(self).identity == old(self).identity,
            final(self).config == old(self).config,
            final(self).state == AgentState::Stopped(reason),
            final(self).queries_left == old(self).queries_left,
            action@ == AgentActionView::Halt,
    {
        self.state = AgentState::Stopped(reason);
        AgentAction::Halt
    }

    fn may_query_now(&self) -> (may: bool)
        ensures
            may == may_query(self.queries_left),
    {
        match self.queries_left {
            Some(n) => n != 0,
            None => true,
        }
    }

    /// Takes what the caller reports and says what to do next. What it gives
    /// to send is always exactly one frame.
    pub fn step(&mut self, event: &AgentEvent) -> (action: AgentAction)
        ensures
            final(self).identity == old(self).identity,
            final(self).config == old(self).config,
            final(self).progress() == agent_rule(
                old(self).progress(),
                event@,
                old(self).identity@,
                old(self).config,
            ).0,
            action@ == agent_rule(
                old(self).progress(),
                event@,
                old(self).identity@,
                old(self).config,
            ).1,
            action matches AgentAction::Send(frame) ==> is_one_line(frame@),
    {
        match (self.state, event) {
            (AgentState::Starting, AgentEvent::Started) => {
                if self.may_query_now() {
                    self.query()
                } else {
                    self.stop(StopReason::NotFound)
                }
            },
            (AgentState::Starting, AgentEvent::Located(endpoint)) => {
                self.state = AgentState::Connecting(*endpoint);
                AgentAction::Connect(*endpoint)
            },
            (AgentState::Resolving, AgentEvent::Answer(records)) => match endpoint_in(records) {
                Some(endpoint) => {
                    self.state = AgentState::Connecting(endpoint);
                    AgentAction::Connect(endpoint)
                },
                None => AgentAction::Listen,
            },
            (AgentState::Resolving, AgentEvent::DiscoveryEnded) => {
                if self.may_query_now() {
                    self.state = AgentState::BackingOff;
                    AgentAction::Wait(self.config.retry_backoff_secs)
                } else {
                    self.stop(StopReason::NotFound)
                }
            },
            (AgentState::Resolving, AgentEvent::DiscoveryUnavailable) => self.stop(
                StopReason::DiscoveryUnavailable,
            ),
            (AgentState::BackingOff, AgentEvent::TimerElapsed) => {
                if self.may_query_now() {
                    self.query()
                } else {
                    self.state = AgentState::Resolving;
                    AgentAction::Resolve(self.config.resolve_timeout_secs)
                }
            },
            (AgentState::Connecting(_), AgentEvent::Connected) => {
                self.state = AgentState::Handshaking;
                AgentAction::Send(handshake_frame(&self.identity))
            },
            (AgentState::Connecting(_), AgentEvent::ConnectFailed) => self.stop(
                StopReason::ConnectFailed,
            ),
            (AgentState::Handshaking, AgentEvent::Written) => {
                self.state = AgentState::AwaitingReading;
                AgentAction::Produce
            },
            (AgentState::Handshaking, AgentEvent::WriteFailed) => self.stop(
                StopReason::HandshakeFailed,
            ),
            (AgentState::AwaitingReading, AgentEvent::Reading(value)) => {
                self.state = AgentState::Sending;
                AgentAction::Send(reading_frame(*value))
            },
            (AgentState::Sending, AgentEvent::Written) => {
                self.state = AgentState::Pausing;
                AgentAction::Wait(self.config.reading_interval_secs)
            },
            (AgentState::Sending, AgentEvent::WriteFailed) => self.stop(StopReason::StreamBroken),
            (AgentState::Pausing, AgentEvent::TimerElapsed) => {
                self.state = AgentState::AwaitingReading;
                AgentAction::Produce
            },
            _ => AgentAction::Ignore,
        }
    }
}

/// Where an agent stands after a run of answers, each reported in its turn.
pub open spec fn after_answers(
    now: AgentProgress,
    answers: Seq<Seq<RecordKind>>,
    identity: IdentityView,
    config: AgentConfig,
) -> AgentProgress
    decreases answers.len(),
{
    if answers.len() == 0 {
        now
    } else {
        after_answers(
            agent_rule(now, AgentEventView::Answer(answers[0]), identity, config).0,
            answers.drop_first(),
            identity,
            config,
        )
    }
}

/// A query goes out at the start and after a back-off that has run its time,
/// and at no other moment; and a query that ends without a controller, while
/// queries are left, is answered with the back-off.
pub proof fn lemma_query_only_after_backoff(
    now: AgentProgress,
    event: AgentEventView,
    identity: IdentityView,
    config: AgentConfig,
)
    ensures
        agent_rule(now, event, identity, config).1 is Resolve <==> (now.state is Starting
            && event is Started && may_query(now.queries_left)) || (now.state is BackingOff
            && event is TimerElapsed),
        now.state is Resolving && event is DiscoveryEnded && may_query(now.queries_left)
            ==> agent_rule(now, event, identity, config) == (
            AgentProgress { state: AgentState::BackingOff, queries_left: now.queries_left },
            AgentActionView::Wait(config.retry_backoff_secs),
        ),
{
}

/// First seen wins: an agent that listens connects to the endpoint of the
/// first answer that has one, whatever comes after it, and goes on listening
/// while no answer has one.
pub proof fn lemma_first_answer_wins(
    queries_left: Option<u32>,
    answers: Seq<Seq<RecordKind>>,
    identity: IdentityView,
    config: AgentConfig,
)
    ensures
        after_answers(
            AgentProgress { state: AgentState::Resolving, queries_left },
            answers,
            identity,
            config,
        ) == (AgentProgress {
            state: match resolution_of(answers) {
                Resolution::Found(endpoint) => AgentState::Connecting(endpoint),
                Resolution::NotFound => AgentState::Resolving,
            },
            queries_left,
        }),
    decreases answers.len(),
{
    if answers.len() > 0 {
        match endpoint_of(answers[0]) {
            Some(endpoint) => {
                lemma_connecting_ignores_answers(
                    queries_left,
                    endpoint,
                    answers.drop_first(),
                    identity,
                    config,
                );
            },
            None => {
                lemma_first_answer_wins(queries_left, answers.drop_first(), identity, config);
            },
        }
    }
}

proof fn lemma_connecting_ignores_answers(
    queries_left: Option<u32>,
    endpoint: Endpoint,
    answers: Seq<Seq<RecordKind>>,
    identity: IdentityView,
    config: AgentConfig,
)
    ensures
        after_answers(
            AgentProgress { state: AgentState::Connecting(endpoint), queries_left },
            answers,
            identity,
            config,
        ) == (AgentProgress { state: AgentState::Connecting(endpoint), queries_left }),
    decreases answers.len(),
{
    if answers.len() > 0 {
        lemma_connecting_ignores_answers(
            queries_left,
            endpoint,
            answers.drop_first(),
            identity,
            config,
        );
    }
}

/// How many times a run of events makes the agent send its handshake: once
/// for every connection that opens while the agent is connecting.
pub open spec fn handshakes_sent(
    now: AgentProgress,
    events: Seq<AgentEventView>,
    identity: IdentityView,
    config: AgentConfig,
) -> nat
    decreases events.len(),
{
    if events.len() == 0 {
        0
    } else {
        let here: nat = if now.state is Connecting && events[0] is Connected {
            1
        } else {
            0
        };
        here + handshakes_sent(
            agent_rule(now, events[0], identity, config).0,
            events.drop_first(),
            identity,
            config,
        )
    }
}

/// Whether the agent has already opened its connection, or stopped.
pub open spec fn past_connecting(state: AgentState) -> bool {
    !(state is Starting || state is Resolving || state is BackingOff || state is Connecting)
}

/// The handshake is sent at the step that leaves `Connecting` on an open
/// connection, and at no other.
pub proof fn lemma_handshake_on_connected_only(
    now: AgentProgress,
    event: AgentEventView,
    identity: IdentityView,
    config: AgentConfig,
)
    ensures
        now.state is Connecting && event is Connected ==> agent_rule(now, event, identity, config).1
            == AgentActionView::Send(handshake_frame_text(identity)),
        agent_rule(now, event, identity, config).0.state is Handshaking <==> now.state
            is Connecting && event is Connected || now.state is Handshaking && !(event is Written
            || event is WriteFailed),
        past_connecting(now.state) ==> past_connecting(
            agent_rule(now, event, identity, config).0.state,
        ),
{
}

/// Exactly one handshake: whatever is reported to an agent, and in whatever
/// order, it sends its handshake once at most, and never after its connection
/// has opened.
pub proof fn lemma_handshake_sent_once(
    now: AgentProgress,
    events: Seq<AgentEventView>,
    identity: IdentityView,
    config: AgentConfig,
)
    ensures
        handshakes_sent(now, events, identity, config) <= 1,
        past_connecting(now.state) ==> handshakes_sent(now, events, identity, config) == 0,
    decreases events.len(),
{
    if events.len() > 0 {
        let next = agent_rule(now, events[0], identity, config).0;
        lemma_handshake_on_connected_only(now, events[0], identity, config);
        lemma_handshake_sent_once(next, events.drop_first(), identity, config);
    }
}

} // verus!
