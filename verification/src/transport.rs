//! The reconnecting connection to the daemon: what is sent, what is answered, and when.

use crate::clock;
use crate::clock::{Nanos, LONGEST, MILLISECOND, SECOND};
use crate::json::{Json, JsonView};
use crate::path;
use crate::path::FilePath;
use crate::rpc;
use crate::rpc::{Frame, Reply, RequestError, RpcId, WireMessage};
use crate::supervisor;
use crate::table::{Key, Table};
use crate::text;
use vstd::arithmetic::power2::*;
use vstd::prelude::*;
use vstd::utf8::*;

verus! {

/// Where the daemon listens, how long to wait for it, and who connects.
#[derive(Clone, Debug)]
pub struct TransportConfig {
    pub socket_path: FilePath,
    pub connect_timeout: Nanos,
    pub read_idle_timeout: Nanos,
    pub request_timeout: Nanos,
    pub retry_initial: Nanos,
    pub retry_max: Nanos,
    /// Maximum size of one trusted local app-server message or frame.
    pub max_incoming_bytes: usize,
    pub client_name: String,
    pub client_version: String,
}

/// Where a connection stands.
#[derive(Clone, Copy, Debug, PartialEq, Eq, Structural)]
pub enum ConnectionPhase {
    Connecting,
    Handshaking,
    Reconciling,
    Connected,
    Degraded,
    Stopped,
}

/// What is known of a connection.
#[derive(Debug)]
pub struct Health {
    pub phase: ConnectionPhase,
    pub reconnect_attempts: u64,
    pub last_frame_sequence: u64,
    pub detail: Option<String>,
}

/// How far a request has come.
#[derive(Clone, Copy, Debug, PartialEq, Eq, Structural)]
pub enum PendingWriteState {
    NotWritten,
    WrittenOutcomeUnknown,
    Answered,
}

impl TransportConfig {
    /// Spans that a clock can count, also when they are doubled.
    pub open spec fn valid(&self) -> bool {
        self.connect_timeout <= LONGEST && self.request_timeout <= LONGEST
            && self.read_idle_timeout * 2 <= LONGEST && self.retry_initial * 2 <= LONGEST
            && self.retry_max * 2 <= LONGEST
    }

    /// What the configuration of a client is for a user whose home directory is `home`.
    pub open spec fn is_for_home(&self, home: Option<FilePath>, version: Seq<char>) -> bool {
        &&& self.socket_path@ == path::joined(
            supervisor::home_or_nowhere(home),
            encode_utf8(".codex/app-server-control/app-server-control.sock"@),
        )
        &&& self.connect_timeout == 3 * SECOND
        &&& self.read_idle_timeout == 30 * SECOND
        &&& self.request_timeout == 15 * SECOND
        &&& self.retry_initial == 100 * MILLISECOND
        &&& self.retry_max == 5 * SECOND
        &&& self.max_incoming_bytes == 0x1000_0000
        &&& self.client_name@ == "codex-control"@
        &&& self.client_version@ == version
    }

    /// The configuration of the client `version` for a user whose home directory is `home`.
    /// Without one, the path leads nowhere.
    pub fn for_home(home: Option<FilePath>, version: &str) -> (config: TransportConfig)
        ensures
            config.valid(),
            config.is_for_home(home, version@),
    {
        let home = match home {
            Some(home) => home,
            None => FilePath::from_text("/var/empty"),
        };
        TransportConfig {
            socket_path: home.join(".codex/app-server-control/app-server-control.sock"),
            connect_timeout: 3 * SECOND,
            read_idle_timeout: 30 * SECOND,
            request_timeout: 15 * SECOND,
            retry_initial: 100 * MILLISECOND,
            retry_max: 5 * SECOND,
            max_incoming_bytes: 0x1000_0000,
            client_name: "codex-control".to_owned(),
            client_version: version.to_owned(),
        }
    }
}

impl Default for Health {
    fn default() -> (health: Self)
        ensures
            health == (Health {
                phase: ConnectionPhase::Connecting,
                reconnect_attempts: 0,
                last_frame_sequence: 0,
                detail: None,
            }),
    {
        Health {
            phase: ConnectionPhase::Connecting,
            reconnect_attempts: 0,
            last_frame_sequence: 0,
            detail: None,
        }
    }
}

impl Clone for Health {
    fn clone(&self) -> (copy: Self)
        ensures
            copy == *self,
    {
        Health {
            phase: self.phase,
            reconnect_attempts: self.reconnect_attempts,
            last_frame_sequence: self.last_frame_sequence,
            detail: match &self.detail {
                Some(detail) => Some(detail.clone()),
                None => None,
            },
        }
    }
}

impl Health {
    /// The same health after one more frame.
    pub fn after_frame(self, sequence: u64) -> (health: Health)
        ensures
            health == (Health { last_frame_sequence: sequence, ..self }),
    {
        Health {
            phase: self.phase,
            reconnect_attempts: self.reconnect_attempts,
            last_frame_sequence: sequence,
            detail: self.detail,
        }
    }
}

/// What a caller of the transport holds: the identifiers it gives out, the barrier before requests
/// that act, and the one receiver of everything that arrives.
#[derive(Debug)]
pub struct TransportHandle<I> {
    next_id: u64,
    reconcile_ready: bool,
    ingress: Option<I>,
}

/// What became of the news that reconciliation is done.
#[derive(Clone, Copy, Debug, PartialEq, Eq, Structural)]
pub enum Marking {
    /// Nobody took it.
    Refused,
    /// It was taken, and not confirmed.
    Dropped,
    /// It was confirmed.
    Done,
}

/// What became of a request that was handed to the connection.
#[derive(Debug)]
pub enum Waited {
    /// Nobody took it.
    Refused,
    /// It was taken, and nothing came back.
    Dropped,
    /// Nothing came back in time.
    Elapsed,
    /// It was answered.
    Answered(Reply),
}

/// Why a request that acts is refused before reconciliation.
pub const BARRIER_CLOSED: &'static str = "reconciliation gate is closed";

impl<I> TransportHandle<I> {
    /// The identifier of the next request.
    pub closed spec fn next(&self) -> u64 {
        self.next_id
    }

    /// Whether requests that act may be made.
    pub closed spec fn barrier(&self) -> bool {
        self.reconcile_ready
    }

    /// The receiver, while nobody has taken it.
    pub closed spec fn held(&self) -> Option<I> {
        self.ingress
    }

    /// A handle with a closed barrier that still holds the receiver.
    pub fn new(ingress: I) -> (handle: Self)
        ensures
            handle.next() == 1,
            !handle.barrier(),
            handle.held() == Some(ingress),
    {
        TransportHandle { next_id: 1, reconcile_ready: false, ingress: Some(ingress) }
    }

    /// Takes the one receiver. Only the first call gets it.
    pub fn take_ingress(&mut self) -> (ingress: Option<I>)
        ensures
            ingress == old(self).held(),
            final(self).held() is None,
            final(self).barrier() == old(self).barrier(),
            final(self).next() == old(self).next(),
    {
        self.ingress.take()
    }

    /// Whether requests that act may be made.
    pub fn is_reconciled(&self) -> (yes: bool)
        ensures
            yes == self.barrier(),
    {
        self.reconcile_ready
    }

    /// Opens or closes the barrier.
    pub fn set_barrier(&mut self, open: bool)
        ensures
            final(self).barrier() == open,
            final(self).held() == old(self).held(),
            final(self).next() == old(self).next(),
    {
        self.reconcile_ready = open;
    }

    /// Concludes the marking of a reconciliation, for which the barrier was opened: where nobody took
    /// the news, the barrier closes again.
    pub fn mark_reconciled(&mut self, marking: Marking) -> (result: Result<(), RequestError>)
        ensures
            final(self).barrier() == (marking != Marking::Refused && old(self).barrier()),
            final(self).held() == old(self).held(),
            final(self).next() == old(self).next(),
            result == (if marking == Marking::Done {
                Ok(())
            } else {
                Err(RequestError::Closed)
            }),
    {
        match marking {
            Marking::Refused => {
                self.reconcile_ready = false;
                Err(RequestError::Closed)
            },
            Marking::Dropped => Err(RequestError::Closed),
            Marking::Done => Ok(()),
        }
    }

    /// Gives a request its identifier. A request that acts needs an open barrier.
    pub fn admit_request(&mut self, action: bool) -> (admitted: Result<RpcId, RequestError>)
        ensures
            final(self).barrier() == old(self).barrier(),
            final(self).held() == old(self).held(),
            match admitted {
                Ok(id) => (action ==> old(self).barrier()) && id == RpcId::Number(old(self).next())
                    && final(self).next() == old(self).next().wrapping_add(1),
                Err(error) => action && !old(self).barrier() && error@
                    == rpc::RequestErrorView::NotWritten(BARRIER_CLOSED@) && final(self).next() == old(
                    self,
                ).next(),
            },
    {
        if action && !self.reconcile_ready {
            return Err(RequestError::NotWritten(BARRIER_CLOSED.to_owned()));
        }
        let id = RpcId::Number(self.next_id);
        self.next_id = self.next_id.wrapping_add(1);
        Ok(id)
    }
}

/// What a caller learns of its request.
pub fn conclude_request(method: &str, waited: Waited) -> (reply: Reply)
    ensures
        match waited {
            Waited::Refused | Waited::Dropped => reply == Reply::Err(RequestError::Closed),
            Waited::Elapsed => rpc::reply_view(reply) == Err::<JsonView, rpc::RequestErrorView>(
                rpc::RequestErrorView::TimedOut { method: method@ },
            ),
            Waited::Answered(answer) => reply == answer,
        },
{
    match waited {
        Waited::Refused => Err(RequestError::Closed),
        Waited::Dropped => Err(RequestError::Closed),
        Waited::Elapsed => Err(RequestError::TimedOut { method: method.to_owned() }),
        Waited::Answered(answer) => answer,
    }
}

/// How an attempt to connect went.
#[derive(Debug)]
pub enum ConnectOutcome {
    SocketTimedOut,
    SocketFailed(String),
    HandshakeTimedOut,
    HandshakeFailed(String),
    /// The peer answered with a status: its code, and its words.
    Answered { code: u16, status: String },
}

/// Why there is no connection, where there is none.
pub open spec fn connect_failure(outcome: ConnectOutcome) -> Option<Seq<char>> {
    match outcome {
        ConnectOutcome::SocketTimedOut => Some("unix socket connect timed out"@),
        ConnectOutcome::SocketFailed(error) => Some("unix socket connect: "@ + error@),
        ConnectOutcome::HandshakeTimedOut => Some("websocket handshake timed out"@),
        ConnectOutcome::HandshakeFailed(error) => Some("websocket handshake: "@ + error@),
        ConnectOutcome::Answered { code, status } => if code == 101 {
            None
        } else {
            Some("unexpected websocket status "@ + status@)
        },
    }
}

/// Whether an attempt to connect succeeded, or why not.
pub fn connect(outcome: ConnectOutcome) -> (result: Result<(), String>)
    ensures
        match result {
            Ok(()) => connect_failure(outcome) is None,
            Err(words) => connect_failure(outcome) == Some(words@),
        },
{
    match outcome {
        ConnectOutcome::SocketTimedOut => Err("unix socket connect timed out".to_owned()),
        ConnectOutcome::SocketFailed(error) => {
            Err(text::joined("unix socket connect: ", error.as_str()))
        },
        ConnectOutcome::HandshakeTimedOut => Err("websocket handshake timed out".to_owned()),
        ConnectOutcome::HandshakeFailed(error) => {
            Err(text::joined("websocket handshake: ", error.as_str()))
        },
        ConnectOutcome::Answered { code, status } => if code == 101 {
            Ok(())
        } else {
            Err(text::joined("unexpected websocket status ", status.as_str()))
        },
    }
}

/// The connection over its whole life: how often it failed, how long it waits before the next
/// attempt, and how many frames it has numbered.
#[derive(Debug)]
pub struct Link {
    pub stage: LinkStage,
    pub attempts: u64,
    pub backoff: Nanos,
    pub sequence: u64,
    pub retry_initial: Nanos,
    pub retry_max: Nanos,
}

/// What the connection is doing.
#[derive(Debug)]
pub enum LinkStage {
    /// A connection is being made.
    Connecting,
    /// The daemon is being greeted.
    Handshaking,
    /// A failure, `detail`, is being waited out.
    Waiting { detail: String },
    /// Requests and frames pass.
    Driving,
    /// The connection is being closed.
    Closing,
    /// The end.
    Stopped,
}

/// What happened to the connection.
#[derive(Debug)]
pub enum LinkEvent {
    Connected,
    ConnectFailed(String),
    Initialized,
    InitializeFailed(String),
    /// The wait is over.
    Waited,
    /// A command was refused during the wait; `stop` says whether it was the last.
    Refused { stop: bool },
    /// A shutdown was asked for.
    ShutDown,
    Disconnected(String),
    /// Nobody can command the connection any more.
    CommandsClosed,
    /// The connection has been closed.
    Closed,
}

/// What the connection does next.
#[derive(Debug)]
pub enum LinkNext {
    Connect,
    Initialize,
    Wait(Nanos),
    Drive,
    Close,
    Stop,
}

/// What the connection does about an event: first it closes the barrier, if it has to, then it
/// publishes what is known, in order, and then it goes on.
#[derive(Debug)]
pub struct LinkStep {
    pub barrier_closes: bool,
    pub healths: Vec<Health>,
    pub next: LinkNext,
}

/// What is known of the connection in a phase.
pub open spec fn link_health(link: Link, phase: ConnectionPhase, detail: Option<String>) -> Health {
    Health {
        phase,
        reconnect_attempts: link.attempts,
        last_frame_sequence: link.sequence,
        detail,
    }
}

/// An event that can happen in a stage.
pub open spec fn link_expects(stage: LinkStage, event: LinkEvent) -> bool {
    match stage {
        LinkStage::Connecting => event is Connected || event is ConnectFailed,
        LinkStage::Handshaking => event is Initialized || event is InitializeFailed,
        LinkStage::Waiting { .. } => event is Waited || event is Refused,
        LinkStage::Driving => event is ShutDown || event is Disconnected || event is CommandsClosed,
        LinkStage::Closing => event is Closed,
        LinkStage::Stopped => false,
    }
}

/// A failure of the connection.
pub open spec fn link_fails(event: LinkEvent) -> bool {
    event is ConnectFailed || event is InitializeFailed || event is Disconnected
}

/// The connection counts a failure and waits before it tries again.
pub open spec fn link_retreats(before: Link, detail: String, after: Link, step: LinkStep) -> bool {
    &&& after == Link {
        stage: LinkStage::Waiting { detail },
        attempts: (before.attempts + 1) as u64,
        ..before
    }
    &&& !step.barrier_closes
    &&& step.healths@ =~= seq![link_health(after, ConnectionPhase::Degraded, Some(detail))]
    &&& step.next == LinkNext::Wait(before.backoff)
}

/// What an event changes, and what is done about it.
pub open spec fn link_follows(
    before: Link,
    event: LinkEvent,
    after: Link,
    step: LinkStep,
) -> bool {
    match event {
        LinkEvent::Connected => {
            &&& after == Link { stage: LinkStage::Handshaking, ..before }
            &&& !step.barrier_closes
            &&& step.healths@ =~= seq![link_health(before, ConnectionPhase::Handshaking, None)]
            &&& step.next is Initialize
        },
        LinkEvent::ConnectFailed(detail) => link_retreats(before, detail, after, step),
        LinkEvent::InitializeFailed(detail) => link_retreats(before, detail, after, step),
        LinkEvent::Initialized => {
            &&& after == Link { stage: LinkStage::Driving, backoff: before.retry_initial, ..before }
            &&& step.barrier_closes
            &&& step.healths@ =~= seq![link_health(before, ConnectionPhase::Reconciling, None)]
            &&& step.next is Drive
        },
        LinkEvent::Waited | LinkEvent::Refused { stop: false } => {
            &&& after == Link {
                stage: LinkStage::Connecting,
                backoff: clock::doubled_up_to(before.backoff, before.retry_max),
                ..before
            }
            &&& !step.barrier_closes
            &&& step.healths@ =~= seq![link_health(before, ConnectionPhase::Connecting, None)]
            &&& step.next is Connect
        },
        LinkEvent::Refused { stop: true } | LinkEvent::CommandsClosed => {
            &&& after == Link { stage: LinkStage::Stopped, ..before }
            &&& !step.barrier_closes
            &&& step.healths@ =~= Seq::<Health>::empty()
            &&& step.next is Stop
        },
        LinkEvent::ShutDown => {
            &&& after == Link { stage: LinkStage::Closing, ..before }
            &&& !step.barrier_closes
            &&& step.healths@ =~= Seq::<Health>::empty()
            &&& step.next is Close
        },
        LinkEvent::Closed => {
            &&& after == Link { stage: LinkStage::Stopped, ..before }
            &&& !step.barrier_closes
            &&& step.healths@ =~= seq![link_health(before, ConnectionPhase::Stopped, None)]
            &&& step.next is Stop
        },
        LinkEvent::Disconnected(detail) => {
            &&& after == Link {
                stage: LinkStage::Connecting,
                attempts: (before.attempts + 1) as u64,
                ..before
            }
            &&& step.barrier_closes
            &&& step.healths@ =~= seq![
                link_health(after, ConnectionPhase::Degraded, Some(detail)),
                link_health(after, ConnectionPhase::Connecting, None),
            ]
            &&& step.next is Connect
        },
    }
}

impl Link {
    /// Waits that a clock can count, of which none is longer than the first or the longest.
    pub open spec fn valid(&self) -> bool {
        &&& self.retry_initial * 2 <= LONGEST
        &&& self.retry_max * 2 <= LONGEST
        &&& self.backoff <= self.retry_initial || self.backoff <= self.retry_max
    }

    /// The connection that has not been made yet, and the first thing to do for it.
    pub fn new(config: &TransportConfig) -> (started: (Link, LinkStep))
        requires
            config.valid(),
        ensures
            started.0.valid(),
            started.0 == (Link {
                stage: LinkStage::Connecting,
                attempts: 0,
                backoff: config.retry_initial,
                sequence: 0,
                retry_initial: config.retry_initial,
                retry_max: config.retry_max,
            }),
            !started.1.barrier_closes,
            started.1.healths@ == seq![
                link_health(started.0, ConnectionPhase::Connecting, None),
            ],
            started.1.next is Connect,
    {
        let link = Link {
            stage: LinkStage::Connecting,
            attempts: 0,
            backoff: config.retry_initial,
            sequence: 0,
            retry_initial: config.retry_initial,
            retry_max: config.retry_max,
        };
        let healths = vec![link.health(ConnectionPhase::Connecting, None)];
        (link, LinkStep { barrier_closes: false, healths, next: LinkNext::Connect })
    }

    fn health(&self, phase: ConnectionPhase, detail: Option<String>) -> (health: Health)
        ensures
            health == link_health(*self, phase, detail),
    {
        Health {
            phase,
            reconnect_attempts: self.attempts,
            last_frame_sequence: self.sequence,
            detail,
        }
    }

    fn retreat(&mut self, detail: String) -> (step: LinkStep)
        requires
            old(self).attempts < u64::MAX,
        ensures
            link_retreats(*old(self), detail, *final(self), step),
    {
        self.attempts += 1;
        self.stage = LinkStage::Waiting { detail: detail.clone() };
        LinkStep {
            barrier_closes: false,
            healths: vec![self.health(ConnectionPhase::Degraded, Some(detail))],
            next: LinkNext::Wait(self.backoff),
        }
    }

    /// Takes an event in.
    pub fn advance(&mut self, event: LinkEvent) -> (step: LinkStep)
        requires
            old(self).valid(),
            link_expects(old(self).stage, event),
            link_fails(event) ==> old(self).attempts < u64::MAX,
        ensures
            final(self).valid(),
            link_follows(*old(self), event, *final(self), step),
    {
        match event {
            LinkEvent::Connected => {
                self.stage = LinkStage::Handshaking;
                LinkStep {
                    barrier_closes: false,
                    healths: vec![self.health(ConnectionPhase::Handshaking, None)],
                    next: LinkNext::Initialize,
                }
            },
            LinkEvent::ConnectFailed(detail) => self.retreat(detail),
            LinkEvent::InitializeFailed(detail) => self.retreat(detail),
            LinkEvent::Initialized => {
                self.stage = LinkStage::Driving;
                self.backoff = self.retry_initial;
                LinkStep {
                    barrier_closes: true,
                    healths: vec![self.health(ConnectionPhase::Reconciling, None)],
                    next: LinkNext::Drive,
                }
            },
            LinkEvent::Waited | LinkEvent::Refused { stop: false } => {
                self.stage = LinkStage::Connecting;
                self.backoff = clock::double_up_to(self.backoff, self.retry_max);
                LinkStep {
                    barrier_closes: false,
                    healths: vec![self.health(ConnectionPhase::Connecting, None)],
                    next: LinkNext::Connect,
                }
            },
            LinkEvent::Refused { stop: true } | LinkEvent::CommandsClosed => {
                self.stage = LinkStage::Stopped;
                LinkStep { barrier_closes: false, healths: Vec::new(), next: LinkNext::Stop }
            },
            LinkEvent::ShutDown => {
                self.stage = LinkStage::Closing;
                LinkStep { barrier_closes: false, healths: Vec::new(), next: LinkNext::Close }
            },
            LinkEvent::Closed => {
                self.stage = LinkStage::Stopped;
                LinkStep {
                    barrier_closes: false,
                    healths: vec![self.health(ConnectionPhase::Stopped, None)],
                    next: LinkNext::Stop,
                }
            },
            LinkEvent::Disconnected(detail) => {
                self.attempts += 1;
                self.stage = LinkStage::Connecting;
                let degraded = self.health(ConnectionPhase::Degraded, Some(detail));
                let connecting = self.health(ConnectionPhase::Connecting, None);
                LinkStep {
                    barrier_closes: true,
                    healths: vec![degraded, connecting],
                    next: LinkNext::Connect,
                }
            },
        }
    }

    /// Numbers a frame.
    pub fn number_frame(&mut self) -> (sequence: u64)
        requires
            old(self).sequence < u64::MAX,
        ensures
            sequence == old(self).sequence + 1,
            *final(self) == (Link { sequence, ..*old(self) }),
    {
        self.sequence += 1;
        self.sequence
    }
}

/// Where the greeting of the daemon stands.
#[derive(Debug)]
pub enum Handshake {
    /// The greeting is being written.
    Requesting,
    /// A message is awaited.
    Reading,
    /// A value that was read is being taken for a frame.
    Parsing,
    /// A frame is being passed on; `verdict` is what it means for the greeting.
    Delivering { sequence: u64, verdict: Verdict },
    /// The end of the greeting is being written.
    Confirming,
    /// The end.
    Finished,
}

/// What a frame means for the greeting.
#[derive(Clone, Copy, Debug, PartialEq, Eq, Structural)]
pub enum Verdict {
    /// Nothing.
    Unrelated,
    Accepted,
    Rejected,
}

/// What happened during the greeting.
#[derive(Debug)]
pub enum HandshakeEvent {
    Written(Result<(), String>),
    TimedOut,
    Ended,
    ReadFailed(String),
    Read(WireMessage),
    Parsed(Result<Frame, String>),
    /// Whether a frame could be passed on.
    Delivered(bool),
}

/// What the greeting does next.
#[derive(Debug)]
pub enum HandshakeNext {
    /// Write a request.
    Request { id: RpcId, method: String, params: Json },
    /// Wait for a message.
    Read,
    /// Take a value for a frame.
    Parse(Json),
    /// Pass the frame on, under its number.
    Deliver(u64),
    /// Write a notification.
    Notify { method: String, params: Json },
    Done(Result<(), String>),
}

/// What the greeting does about an event: it publishes what is known, and then it goes on.
#[derive(Debug)]
pub struct HandshakeStep {
    pub health: Option<Health>,
    pub next: HandshakeNext,
}

/// What a frame means for the greeting, which is request 0.
pub open spec fn verdict_on(frame: Frame) -> Verdict {
    match frame {
        Frame::Response { id: RpcId::Number(0), result, error: None } => Verdict::Accepted,
        Frame::Response { id: RpcId::Number(0), result, error: Some(error) } => Verdict::Rejected,
        _ => Verdict::Unrelated,
    }
}

/// Who connects, and that this side takes no requests.
pub open spec fn greeting(name: Seq<char>, version: Seq<char>) -> JsonView {
    JsonView::object().with(
        "clientInfo"@,
        JsonView::object().with("name"@, JsonView::Text(name)).with(
            "title"@,
            JsonView::Text("Codex Control"@),
        ).with("version"@, JsonView::Text(version)),
    ).with("capabilities"@, JsonView::object().with("serverRequests"@, JsonView::Bool(false)))
}

/// An event that can happen at a point of the greeting.
pub open spec fn handshake_expects(at: Handshake, event: HandshakeEvent) -> bool {
    match at {
        Handshake::Requesting => event is Written,
        Handshake::Reading => event is TimedOut || event is Ended || event is ReadFailed
            || event is Read,
        Handshake::Parsing => event is Parsed,
        Handshake::Delivering { .. } => event is Delivered,
        Handshake::Confirming => event is Written,
        Handshake::Finished => false,
    }
}

/// The greeting fails with `words`.
pub open spec fn handshake_fails(words: Seq<char>, after: Handshake, step: HandshakeStep) -> bool {
    &&& after is Finished
    &&& step.next matches HandshakeNext::Done(Err(said))
    &&& said@ == words
}

/// What the reading of a message does to the greeting.
pub open spec fn handshake_reads(
    reading: Result<Option<JsonView>, Seq<char>>,
    after: Handshake,
    next: HandshakeNext,
) -> bool {
    match reading {
        Ok(Some(value)) => {
            &&& after is Parsing
            &&& next matches HandshakeNext::Parse(read)
            &&& read@ == value
        },
        Ok(None) => after is Reading && next is Read,
        Err(words) => {
            &&& after is Finished
            &&& next matches HandshakeNext::Done(Err(said))
            &&& said@ == words
        },
    }
}

/// What an event changes, and what is done about it.
pub open spec fn handshake_follows(
    before: Handshake,
    link: Link,
    event: HandshakeEvent,
    after: Handshake,
    linked: Link,
    step: HandshakeStep,
) -> bool {
    &&& linked == if event is Parsed && event->Parsed_0 is Ok {
        Link { sequence: (link.sequence + 1) as u64, ..link }
    } else {
        link
    }
    &&& step.health == if event == HandshakeEvent::Delivered(true) {
        Some(
            Health {
                phase: ConnectionPhase::Handshaking,
                reconnect_attempts: link.attempts,
                last_frame_sequence: before->Delivering_sequence,
                detail: None,
            },
        )
    } else {
        None::<Health>
    }
    &&& match event {
        HandshakeEvent::Written(Ok(())) => if before is Requesting {
            after is Reading && step.next is Read
        } else {
            after is Finished && step.next == HandshakeNext::Done(Ok(()))
        },
        HandshakeEvent::Written(Err(error)) => handshake_fails(error@, after, step),
        HandshakeEvent::TimedOut => handshake_fails("initialize response timed out"@, after, step),
        HandshakeEvent::Ended => handshake_fails("socket closed during initialize"@, after, step),
        HandshakeEvent::ReadFailed(error) => handshake_fails(error@, after, step),
        HandshakeEvent::Read(message) => handshake_reads(
            rpc::message_reads(message),
            after,
            step.next,
        ),
        HandshakeEvent::Parsed(Err(error)) => handshake_fails(error@, after, step),
        HandshakeEvent::Parsed(Ok(frame)) => {
            &&& after == Handshake::Delivering {
                sequence: linked.sequence,
                verdict: verdict_on(frame),
            }
            &&& step.next == HandshakeNext::Deliver(linked.sequence)
        },
        HandshakeEvent::Delivered(false) => handshake_fails(
            "authoritative ingress closed"@,
            after,
            step,
        ),
        HandshakeEvent::Delivered(true) => match before->verdict {
            Verdict::Unrelated => after is Reading && step.next is Read,
            Verdict::Accepted => {
                &&& after is Confirming
                &&& step.next matches HandshakeNext::Notify { method, params }
                &&& method@ == "initialized"@
                &&& params@ == JsonView::object()
            },
            Verdict::Rejected => handshake_fails("initialize rejected"@, after, step),
        },
    }
}

fn verdict(frame: &Frame) -> (verdict: Verdict)
    ensures
        verdict == verdict_on(*frame),
{
    match frame {
        Frame::Response { id: RpcId::Number(id), error, .. } => if *id != 0 {
            Verdict::Unrelated
        } else {
            match error {
                None => Verdict::Accepted,
                Some(_) => Verdict::Rejected,
            }
        },
        _ => Verdict::Unrelated,
    }
}

/// Begins the greeting.
pub fn initialize(config: &TransportConfig) -> (begun: (Handshake, HandshakeStep))
    ensures
        begun.0 is Requesting,
        begun.1.health is None,
        begun.1.next matches HandshakeNext::Request { id, method, params } && id == RpcId::Number(0)
            && method@ == "initialize"@ && params@ == greeting(
            config.client_name@,
            config.client_version@,
        ),
{
    let client = Json::object().with("name", Json::text(config.client_name.as_str())).with(
        "title",
        Json::text("Codex Control"),
    ).with("version", Json::text(config.client_version.as_str()));
    let params = Json::object().with("clientInfo", client).with(
        "capabilities",
        Json::object().with("serverRequests", Json::Bool(false)),
    );
    let next = HandshakeNext::Request {
        id: RpcId::Number(0),
        method: "initialize".to_owned(),
        params,
    };
    (Handshake::Requesting, HandshakeStep { health: None, next })
}

/// What the reading of a message does to the greeting.
pub fn initialize_after_reading(reading: Result<Option<Json>, String>) -> (read: (
    Handshake,
    HandshakeNext,
))
    ensures
        handshake_reads(rpc::reading_view(reading), read.0, read.1),
{
    match reading {
        Ok(Some(value)) => (Handshake::Parsing, HandshakeNext::Parse(value)),
        Ok(None) => (Handshake::Reading, HandshakeNext::Read),
        Err(words) => (Handshake::Finished, HandshakeNext::Done(Err(words))),
    }
}

/// Takes an event of the greeting in.
pub fn initialize_after(at: Handshake, link: &mut Link, event: HandshakeEvent) -> (went: (
    Handshake,
    HandshakeStep,
))
    requires
        handshake_expects(at, event),
        event is Parsed && event->Parsed_0 is Ok ==> old(link).sequence < u64::MAX,
    ensures
        handshake_follows(at, *old(link), event, went.0, *final(link), went.1),
{
    match event {
        HandshakeEvent::Written(Ok(())) => match at {
            Handshake::Requesting => (
                Handshake::Reading,
                HandshakeStep { health: None, next: HandshakeNext::Read },
            ),
            _ => (
                Handshake::Finished,
                HandshakeStep { health: None, next: HandshakeNext::Done(Ok(())) },
            ),
        },
        HandshakeEvent::Written(Err(error)) => failed_handshake(error),
        HandshakeEvent::TimedOut => failed_handshake("initialize response timed out".to_owned()),
        HandshakeEvent::Ended => failed_handshake("socket closed during initialize".to_owned()),
        HandshakeEvent::ReadFailed(error) => failed_handshake(error),
        HandshakeEvent::Read(message) => {
            let (after, next) = initialize_after_reading(rpc::message_json(&message));
            (after, HandshakeStep { health: None, next })
        },
        HandshakeEvent::Parsed(Err(error)) => failed_handshake(error),
        HandshakeEvent::Parsed(Ok(frame)) => {
            let sequence = link.number_frame();
            (
                Handshake::Delivering { sequence, verdict: verdict(&frame) },
                HandshakeStep { health: None, next: HandshakeNext::Deliver(sequence) },
            )
        },
        HandshakeEvent::Delivered(false) => {
            failed_handshake("authoritative ingress closed".to_owned())
        },
        HandshakeEvent::Delivered(true) => match at {
            Handshake::Delivering { sequence, verdict } => {
                let health = Some(
                    Health {
                        phase: ConnectionPhase::Handshaking,
                        reconnect_attempts: link.attempts,
                        last_frame_sequence: sequence,
                        detail: None,
                    },
                );
                match verdict {
                    Verdict::Unrelated => (
                        Handshake::Reading,
                        HandshakeStep { health, next: HandshakeNext::Read },
                    ),
                    Verdict::Accepted => (
                        Handshake::Confirming,
                        HandshakeStep {
                            health,
                            next: HandshakeNext::Notify {
                                method: "initialized".to_owned(),
                                params: Json::object(),
                            },
                        },
                    ),
                    Verdict::Rejected => {
                        let words = "initialize rejected".to_owned();
                        (
                            Handshake::Finished,
                            HandshakeStep { health, next: HandshakeNext::Done(Err(words)) },
                        )
                    },
                }
            },
            _ => vstd::pervasive::unreached(),
        },
    }
}

fn failed_handshake(words: String) -> (failed: (Handshake, HandshakeStep))
    ensures
        failed.1.health is None,
        handshake_fails(words@, failed.0, failed.1),
{
    (Handshake::Finished, HandshakeStep { health: None, next: HandshakeNext::Done(Err(words)) })
}

/// What a caller asks of the connection. `response` and `done` are where the caller waits.
#[derive(Debug)]
pub enum Command<R, D> {
    Request { id: RpcId, method: String, params: Json, response: R },
    Notify { method: String, params: Json },
    Reconciled { done: D },
    Shutdown { done: D },
}

/// How a command is refused while there is no connection.
#[derive(Debug)]
pub enum Refusal<R, D> {
    /// The request is answered, and the wait is over.
    Answer { response: R, error: RequestError },
    /// Nobody waits for an answer, and the wait is over.
    Ignore,
    /// The caller is told that it is done, and the wait is over.
    Confirm(D),
    /// The caller is told that it is done, and the connection ends.
    Stop(Option<D>),
}

/// How a command is refused while there is no connection, for the reason `detail`.
pub open spec fn refusal_of<R, D>(
    command: Option<Command<R, D>>,
    detail: Seq<char>,
    refusal: Refusal<R, D>,
) -> bool {
    match command {
        Some(Command::Request { id, method, params, response }) => {
            &&& refusal matches Refusal::Answer { response: told, error }
            &&& told == response
            &&& error@ == rpc::RequestErrorView::NotWritten(detail)
        },
        Some(Command::Shutdown { done }) => refusal == Refusal::<R, D>::Stop(Some(done)),
        Some(Command::Notify { method, params }) => refusal is Ignore,
        Some(Command::Reconciled { done }) => refusal == Refusal::<R, D>::Confirm(done),
        None => refusal == Refusal::<R, D>::Stop(None),
    }
}

/// Refuses a command while there is no connection.
pub fn reject_while_disconnected<R, D>(command: Option<Command<R, D>>, detail: &str) -> (refusal:
    Refusal<R, D>)
    ensures
        refusal_of(command, detail@, refusal),
{
    match command {
        Some(Command::Request { response, .. }) => Refusal::Answer {
            response,
            error: RequestError::NotWritten(detail.to_owned()),
        },
        Some(Command::Shutdown { done }) => Refusal::Stop(Some(done)),
        Some(Command::Notify { .. }) => Refusal::Ignore,
        Some(Command::Reconciled { done }) => Refusal::Confirm(done),
        None => Refusal::Stop(None),
    }
}

impl<R, D> Refusal<R, D> {
    /// Whether the connection ends with this refusal.
    pub fn stops(&self) -> (yes: bool)
        ensures
            yes == (*self is Stop),
    {
        match self {
            Refusal::Stop(_) => true,
            _ => false,
        }
    }
}

/// A request that was written and not answered yet.
#[derive(Debug)]
pub struct Pending<R> {
    pub method: String,
    pub response: R,
}

/// A connection in use: the requests that wait for an answer, and when something last arrived.
#[derive(Debug)]
pub struct Drive<R> {
    pub pending: Table<RpcId, Pending<R>>,
    pub last_read: Nanos,
}

/// Why the use of a connection ended.
#[derive(Debug)]
pub enum DriveExit<D> {
    Shutdown(D),
    Disconnected(String),
    CommandsClosed,
}

/// What is done about a command.
#[derive(Debug)]
pub enum CommandStep<R, D> {
    /// Write a request, and report how that went.
    Write { id: RpcId, method: String, params: Json, response: R },
    /// Write a notification, and report how that went.
    Notify { method: String, params: Json },
    /// Open the barrier, publish that the connection is ready, and confirm.
    Open { health: Health, done: D },
    Exit(DriveExit<D>),
}

/// What is done about a request that could not be written.
#[derive(Debug)]
pub struct WriteFailure<R> {
    pub response: R,
    pub error: RequestError,
    /// Why the connection ends.
    pub detail: String,
}

/// What came from the connection.
#[derive(Debug)]
pub enum StreamEvent {
    Ended,
    Failed(String),
    Message(WireMessage),
}

/// What is done about what came.
#[derive(Debug)]
pub enum MessageStep {
    /// Nothing.
    Ignore,
    /// Answer a ping; it does not matter whether that succeeds.
    Pong(Vec<u8>),
    /// Take a value for a frame.
    Parse(Json),
    /// The connection ends.
    Disconnect(String),
}

/// What is done about a frame: the request that it answers is answered, and the frame is passed on
/// under its number.
#[derive(Debug)]
pub struct FrameStep<R> {
    pub sequence: u64,
    pub answer: Option<(R, Reply)>,
}

/// What is done at a tick of the clock.
#[derive(Debug)]
pub enum TickStep {
    Rest,
    Ping,
    /// The connection ends.
    Disconnect(String),
}

/// How a span of so many seconds and nanoseconds is shown to a developer.
pub uninterp spec fn span_words(seconds: u64, nanos: u32) -> Seq<char>;

/// The `Debug` output of a `std::time::Duration`, as a function of its seconds and of the
/// nanoseconds beyond them.
#[verifier::external_body]
fn shown_span(seconds: u64, nanos: u32) -> (words: String)
    requires
        nanos < 1_000_000_000,
    ensures
        words@ == span_words(seconds, nanos),
{
    format!("{:?}", std::time::Duration::new(seconds, nanos))
}

/// How long nothing has arrived.
pub open spec fn idle(last_read: Nanos, now: Nanos) -> Nanos {
    if now >= last_read {
        (now - last_read) as Nanos
    } else {
        0
    }
}

/// The time between two ticks of a connection whose reads may take `read_idle_timeout`.
pub open spec fn tick_span(read_idle_timeout: Nanos) -> Nanos {
    if read_idle_timeout / 2 >= 20 * MILLISECOND {
        read_idle_timeout / 2
    } else {
        (20 * MILLISECOND) as Nanos
    }
}

/// What a message means for a connection in use.
pub open spec fn message_step(
    reading: Result<Option<JsonView>, Seq<char>>,
    step: MessageStep,
) -> bool {
    match reading {
        Ok(Some(value)) => {
            &&& step matches MessageStep::Parse(read)
            &&& read@ == value
        },
        Ok(None) => step is Ignore,
        Err(words) => {
            &&& step matches MessageStep::Disconnect(said)
            &&& said@ == words
        },
    }
}

/// What the daemon's answer to a request comes to.
pub open spec fn answer_of(
    method: Seq<char>,
    result: Option<Json>,
    error: Option<Json>,
) -> Result<JsonView, rpc::RequestErrorView> {
    match error {
        Some(error) => Err(rpc::RequestErrorView::Rejected { method, error: error@ }),
        None => match result {
            Some(result) => Ok(result@),
            None => Ok(JsonView::Null),
        },
    }
}

/// What changes which requests wait for an answer.
pub enum Move<R> {
    /// A request was written.
    Written { id: rpc::RpcIdView, pending: Pending<R> },
    /// A frame answered a request, or would have.
    Answered { id: rpc::RpcIdView },
}

/// The requests that wait after a change.
pub open spec fn moved<R>(
    waiting: Map<rpc::RpcIdView, Pending<R>>,
    change: Move<R>,
) -> Map<rpc::RpcIdView, Pending<R>> {
    match change {
        Move::Written { id, pending } => waiting.insert(id, pending),
        Move::Answered { id } => waiting.remove(id),
    }
}

/// The requests that wait after a row of changes.
pub open spec fn waiting_after<R>(changes: Seq<Move<R>>) -> Map<rpc::RpcIdView, Pending<R>>
    decreases changes.len(),
{
    if changes.len() == 0 {
        Map::empty()
    } else {
        moved(waiting_after(changes.drop_last()), changes.last())
    }
}

/// Whether the request that was written in the change at `i` is still without an answer.
pub open spec fn still_open<R>(changes: Seq<Move<R>>, i: int, id: rpc::RpcIdView) -> bool {
    &&& 0 <= i < changes.len()
    &&& changes[i] matches Move::Written { id: written, .. }
    &&& written == id
    &&& forall|j: int| i < j < changes.len() ==> #[trigger] changes[j] != Move::<R>::Answered { id }
}

/// Why requests without an answer have none, when the use of a connection ended so.
pub open spec fn exit_detail<D>(exit: DriveExit<D>) -> Seq<char> {
    match exit {
        DriveExit::Disconnected(detail) => detail@,
        _ => "connection closed"@,
    }
}

/// Whether the callers of the requests in `rows` are told, one by one, that the outcome is unknown
/// because of `detail`.
pub open spec fn told_unknown<R>(
    rows: Seq<(RpcId, Pending<R>)>,
    detail: Seq<char>,
    told: Seq<(R, RequestError)>,
) -> bool {
    &&& told.len() == rows.len()
    &&& forall|i: int|
        0 <= i < rows.len() ==> (#[trigger] told[i]).0 == rows[i].1.response && told[i].1@
            == rpc::RequestErrorView::WrittenOutcomeUnknown {
            id: rows[i].0@,
            method: rows[i].1.method@,
            detail,
        }
}

/// What is done about a command while the connection is in use.
pub fn drive_command<R, D>(link: &Link, command: Option<Command<R, D>>) -> (step: CommandStep<R, D>)
    ensures
        step == (match command {
            Some(Command::Request { id, method, params, response }) => CommandStep::Write {
                id,
                method,
                params,
                response,
            },
            Some(Command::Notify { method, params }) => CommandStep::Notify { method, params },
            Some(Command::Reconciled { done }) => CommandStep::Open {
                health: link_health(*link, ConnectionPhase::Connected, None),
                done,
            },
            Some(Command::Shutdown { done }) => CommandStep::Exit(DriveExit::Shutdown(done)),
            None => CommandStep::Exit(DriveExit::CommandsClosed),
        }),
{
    match command {
        Some(Command::Request { id, method, params, response }) => CommandStep::Write {
            id,
            method,
            params,
            response,
        },
        Some(Command::Notify { method, params }) => CommandStep::Notify { method, params },
        Some(Command::Reconciled { done }) => CommandStep::Open {
            health: link.health(ConnectionPhase::Connected, None),
            done,
        },
        Some(Command::Shutdown { done }) => CommandStep::Exit(DriveExit::Shutdown(done)),
        None => CommandStep::Exit(DriveExit::CommandsClosed),
    }
}

/// Whether the use of the connection ends because a notification could not be written.
pub fn drive_notified<D>(written: Result<(), String>) -> (exit: Option<DriveExit<D>>)
    ensures
        exit == (match written {
            Ok(_) => None,
            Err(error) => Some(DriveExit::<D>::Disconnected(error)),
        }),
{
    match written {
        Ok(()) => None,
        Err(error) => Some(DriveExit::Disconnected(error)),
    }
}

/// Whether the use of the connection ends because nobody takes frames any more.
pub fn drive_delivered<D>(delivered: bool) -> (exit: Option<DriveExit<D>>)
    ensures
        exit == (if delivered {
            None
        } else {
            Some(DriveExit::<D>::CommandsClosed)
        }),
{
    if delivered {
        None
    } else {
        Some(DriveExit::CommandsClosed)
    }
}

/// Whether the use of the connection ends because a ping could not be written.
pub fn drive_pinged<D>(written: bool) -> (exit: Option<DriveExit<D>>)
    ensures
        if written {
            exit is None
        } else {
            exit matches Some(DriveExit::Disconnected(detail)) && detail@ == "ping write failed"@
        },
{
    if written {
        None
    } else {
        Some(DriveExit::Disconnected("ping write failed".to_owned()))
    }
}

/// What the reading of a message means for a connection in use.
pub fn read_step(reading: Result<Option<Json>, String>) -> (step: MessageStep)
    ensures
        message_step(rpc::reading_view(reading), step),
{
    match reading {
        Ok(Some(value)) => MessageStep::Parse(value),
        Ok(None) => MessageStep::Ignore,
        Err(words) => MessageStep::Disconnect(words),
    }
}

/// The time between two ticks.
pub fn tick_interval(config: &TransportConfig) -> (span: Nanos)
    ensures
        span == tick_span(config.read_idle_timeout),
{
    let half = config.read_idle_timeout / 2;
    if half >= 20 * MILLISECOND {
        half
    } else {
        20 * MILLISECOND
    }
}

impl<R> Drive<R> {
    /// No identifier waits twice.
    pub open spec fn valid(&self) -> bool {
        self.pending.valid()
    }

    /// A connection whose use begins at `now`.
    pub fn new(now: Nanos) -> (drive: Self)
        ensures
            drive.valid(),
            drive.pending@ == Map::<rpc::RpcIdView, Pending<R>>::empty(),
            drive.last_read == now,
    {
        Drive { pending: Table::new(), last_read: now }
    }

    /// Takes in how the writing of a request went. A request that was written waits for its
    /// answer; one that was not is answered so, and the connection ends.
    pub fn request_written(
        &mut self,
        id: RpcId,
        method: String,
        response: R,
        written: Result<(), String>,
    ) -> (failure: Option<WriteFailure<R>>)
        requires
            old(self).valid(),
        ensures
            final(self).valid(),
            final(self).last_read == old(self).last_read,
            match written {
                Ok(()) => failure is None && final(self).pending@ == moved(
                    old(self).pending@,
                    Move::Written { id: id@, pending: Pending { method, response } },
                ),
                Err(error) => failure == Some(
                    WriteFailure {
                        response,
                        error: RequestError::NotWritten(error),
                        detail: error,
                    },
                ) && final(self).pending@ == old(self).pending@,
            },
    {
        match written {
            Ok(()) => {
                self.pending.insert(id, Pending { method, response });
                None
            },
            Err(error) => Some(
                WriteFailure {
                    response,
                    error: RequestError::NotWritten(error.clone()),
                    detail: error,
                },
            ),
        }
    }

    /// Takes in what came from the connection.
    pub fn receive(&mut self, now: Nanos, event: StreamEvent) -> (step: MessageStep)
        ensures
            final(self).pending == old(self).pending,
            final(self).last_read == (if event is Message {
                now
            } else {
                old(self).last_read
            }),
            match event {
                StreamEvent::Ended => {
                    &&& step matches MessageStep::Disconnect(detail)
                    &&& detail@ == "websocket stream ended"@
                },
                StreamEvent::Failed(error) => step == MessageStep::Disconnect(error),
                StreamEvent::Message(WireMessage::Ping(payload)) => step == MessageStep::Pong(
                    payload,
                ),
                StreamEvent::Message(message) => message_step(rpc::message_reads(message), step),
            },
    {
        match event {
            StreamEvent::Ended => MessageStep::Disconnect("websocket stream ended".to_owned()),
            StreamEvent::Failed(error) => MessageStep::Disconnect(error),
            StreamEvent::Message(message) => {
                self.last_read = now;
                match message {
                    WireMessage::Ping(payload) => MessageStep::Pong(payload),
                    other => read_step(rpc::message_json(&other)),
                }
            },
        }
    }

    /// Takes in a value that was read as a frame. What is no frame is ignored; a frame gets the
    /// next number, and the answer to a request goes to whoever waits for it.
    pub fn take_frame(&mut self, link: &mut Link, parsed: Result<Frame, String>) -> (step: Option<
        FrameStep<R>,
    >)
        requires
            old(self).valid(),
            parsed is Ok ==> old(link).sequence < u64::MAX,
        ensures
            final(self).valid(),
            final(self).last_read == old(self).last_read,
            match parsed {
                Err(_) => step is None && final(self).pending@ == old(self).pending@
                    && *final(link) == *old(link),
                Ok(frame) => {
                    &&& step matches Some(taken)
                    &&& taken.sequence == old(link).sequence + 1
                    &&& *final(link) == (Link { sequence: taken.sequence, ..*old(link) })
                    &&& match frame {
                        Frame::Response { id, result, error } => {
                            &&& final(self).pending@ == moved(
                                old(self).pending@,
                                Move::Answered { id: id@ },
                            )
                            &&& if old(self).pending@.contains_key(id@) {
                                &&& taken.answer matches Some((response, reply))
                                &&& response == old(self).pending@[id@].response
                                &&& rpc::reply_view(reply) == answer_of(
                                    old(self).pending@[id@].method@,
                                    result,
                                    error,
                                )
                            } else {
                                taken.answer is None
                            }
                        },
                        Frame::Other => taken.answer is None && final(self).pending@ == old(
                            self,
                        ).pending@,
                    }
                },
            },
    {
        match parsed {
            Err(_) => None,
            Ok(frame) => {
                let sequence = link.number_frame();
                let answer = match frame {
                    Frame::Response { id, result, error } => match self.pending.remove(&id) {
                        Some(pending) => {
                            let reply: Reply = match error {
                                Some(error) => Err(
                                    RequestError::Rejected { method: pending.method, error },
                                ),
                                None => Ok(
                                    match result {
                                        Some(result) => result,
                                        None => Json::Null,
                                    },
                                ),
                            };
                            Some((pending.response, reply))
                        },
                        None => None,
                    },
                    Frame::Other => None,
                };
                Some(FrameStep { sequence, answer })
            },
        }
    }

    /// What is done at a tick: a connection that has been silent for long is asked for a sign of
    /// life, and one that has been silent for twice as long is given up.
    pub fn tick(&self, now: Nanos, read_idle_timeout: Nanos) -> (step: TickStep)
        requires
            now <= LONGEST,
            read_idle_timeout * 2 <= LONGEST,
        ensures
            ({
                let idle = idle(self.last_read, now);
                if idle >= read_idle_timeout * 2 {
                    &&& step matches TickStep::Disconnect(detail)
                    &&& detail@ == "read idle for "@ + span_words(
                        (idle / SECOND) as u64,
                        (idle % SECOND) as u32,
                    )
                } else if idle >= read_idle_timeout {
                    step is Ping
                } else {
                    step is Rest
                }
            }),
    {
        let idle: Nanos = if now >= self.last_read {
            now - self.last_read
        } else {
            0
        };
        if idle >= read_idle_timeout * 2 {
            let seconds = (idle / SECOND) as u64;
            let nanos = (idle % SECOND) as u32;
            let shown = shown_span(seconds, nanos);
            TickStep::Disconnect(text::joined("read idle for ", shown.as_str()))
        } else if idle >= read_idle_timeout {
            TickStep::Ping
        } else {
            TickStep::Rest
        }
    }

    /// Ends the use of the connection: every request that was written and not answered is told
    /// that its outcome is unknown.
    pub fn finish<D>(self, exit: &DriveExit<D>) -> (told: Vec<(R, RequestError)>)
        ensures
            told_unknown(self.pending.rows(), exit_detail(*exit), told@),
    {
        let detail: String = match exit {
            DriveExit::Disconnected(detail) => detail.clone(),
            _ => "connection closed".to_owned(),
        };
        let ghost rows = self.pending.rows();
        assert(rows.take(0) =~= Seq::<(RpcId, Pending<R>)>::empty());
        let mut told: Vec<(R, RequestError)> = Vec::new();
        for row in iter: self.pending.into_rows()
            invariant
                iter.seq() == rows,
                detail@ == exit_detail(*exit),
                told@.len() == iter.index(),
                told_unknown(rows.take(told@.len() as int), detail@, told@),
        {
            let (id, pending) = row;
            assert(rows[iter.index()] == row);
            told.push(
                (
                    pending.response,
                    RequestError::WrittenOutcomeUnknown {
                        id,
                        method: pending.method,
                        detail: detail.clone(),
                    },
                ),
            );
        }
        assert(rows.take(rows.len() as int) =~= rows);
        told
    }
}

/// Before frames and requests pass, and whenever a connection is lost, the barrier is closed: a
/// request that acts has to wait for a reconciliation of the very connection that it would use.
pub proof fn law_barrier_closes_with_the_connection(
    before: Link,
    event: LinkEvent,
    after: Link,
    step: LinkStep,
)
    requires
        link_follows(before, event, after, step),
    ensures
        step.next is Drive ==> step.barrier_closes,
        event is Disconnected ==> step.barrier_closes,
        after.stage is Driving <==> step.next is Drive,
{
}

/// Failures are counted one by one, and nothing else is counted.
pub proof fn law_attempts_count_failures(
    before: Link,
    event: LinkEvent,
    after: Link,
    step: LinkStep,
)
    requires
        before.attempts < u64::MAX,
        link_follows(before, event, after, step),
    ensures
        after.attempts == before.attempts + (if link_fails(event) {
            1int
        } else {
            0
        }),
        after.sequence == before.sequence,
        forall|i: int|
            0 <= i < step.healths@.len() ==> (#[trigger] step.healths@[i]).reconnect_attempts
                == after.attempts && step.healths@[i].last_frame_sequence == after.sequence,
{
}

/// A wait is never longer than the first or the longest wait, each wait that is over or broken off
/// makes the next twice as long, up to the longest, and a greeting that succeeds brings back the
/// first.
pub proof fn law_waits_double_up_to_the_longest(
    before: Link,
    event: LinkEvent,
    after: Link,
    step: LinkStep,
)
    requires
        before.valid(),
        link_follows(before, event, after, step),
    ensures
        after.valid(),
        step.next matches LinkNext::Wait(span) ==> span == before.backoff && (span
            <= before.retry_initial || span <= before.retry_max),
        retries(event) ==> after.backoff == clock::doubled_up_to(before.backoff, before.retry_max),
        event is Initialized ==> after.backoff == before.retry_initial,
        !retries(event) && !(event is Initialized) ==> after.backoff == before.backoff,
{
}

/// An event after which a connection is tried again.
pub open spec fn retries(event: LinkEvent) -> bool {
    event is Waited || event == (LinkEvent::Refused { stop: false })
}

/// How often a connection is tried again in a row of events.
pub open spec fn retry_count(events: Seq<LinkEvent>) -> nat
    decreases events.len(),
{
    if events.len() == 0 {
        0
    } else {
        retry_count(events.drop_last()) + if retries(events.last()) {
            1nat
        } else {
            0
        }
    }
}

/// Whether an event makes the connection go from `before` to `after`.
pub open spec fn link_moves(before: Link, event: LinkEvent, after: Link) -> bool {
    exists|step: LinkStep| link_follows(before, event, after, step)
}

/// The connection at each point of a row of events.
pub open spec fn link_history(links: Seq<Link>, events: Seq<LinkEvent>) -> bool {
    &&& links.len() == events.len() + 1
    &&& forall|i: int|
        0 <= i < events.len() ==> link_moves(links[i], #[trigger] events[i], links[i + 1])
}

/// The wait after so many retries in a row: the first, doubled as often, but not longer than the
/// longest.
pub open spec fn wait_after(initial: Nanos, longest: Nanos, retries: nat) -> int {
    let grown = initial * pow2(retries);
    if retries == 0 || grown <= longest {
        grown
    } else {
        longest as int
    }
}

proof fn lemma_next_wait(initial: Nanos, longest: Nanos, count: nat)
    requires
        initial * 2 <= LONGEST,
        longest * 2 <= LONGEST,
    ensures
        0 <= wait_after(initial, longest, count) * 2 <= LONGEST,
        clock::doubled_up_to(wait_after(initial, longest, count) as Nanos, longest) == wait_after(
            initial,
            longest,
            count + 1,
        ),
{
    lemma_pow2_unfold(count + 1);
    lemma_pow2_pos(count);
    lemma2_to64();
    let grown = initial * pow2(count);
    assert(initial * pow2(count + 1) == 2 * grown) by (nonlinear_arith)
        requires
            pow2(count + 1) == 2 * pow2(count),
            grown == initial * pow2(count),
    ;
    assert(grown >= 0) by (nonlinear_arith)
        requires
            grown == initial * pow2(count),
    ;
    assert(pow2(0) == 1);
}

/// However a connection fails, in a row of failures without a greeting that succeeds the wait
/// after the `k`-th retry is the first wait doubled `k` times, but not longer than the longest.
pub proof fn law_wait_after_a_row_of_failures(links: Seq<Link>, events: Seq<LinkEvent>)
    requires
        link_history(links, events),
        links[0].valid(),
        links[0].backoff == links[0].retry_initial,
        forall|i: int| 0 <= i < events.len() ==> !(#[trigger] events[i] is Initialized),
    ensures
        links.last().backoff == wait_after(
            links[0].retry_initial,
            links[0].retry_max,
            retry_count(events),
        ),
        links.last().retry_initial == links[0].retry_initial,
        links.last().retry_max == links[0].retry_max,
    decreases events.len(),
{
    lemma2_to64();
    if events.len() > 0 {
        let last = events.len() - 1;
        let fewer = links.drop_last();
        let rest = events.drop_last();
        assert forall|i: int| 0 <= i < rest.len() implies link_moves(
            fewer[i],
            #[trigger] rest[i],
            fewer[i + 1],
        ) by {
            assert(events[i] == rest[i]);
        }
        law_wait_after_a_row_of_failures(fewer, rest);
        let (before, event, after) = (links[last], events[last], links[last + 1]);
        assert(link_moves(before, event, after));
        let step = choose|step: LinkStep| link_follows(before, event, after, step);
        assert(link_follows(before, event, after, step));
        lemma_next_wait(links[0].retry_initial, links[0].retry_max, retry_count(rest));
    }
}

/// The greeting ends well only after the daemon has answered it without an error, and that answer
/// has been passed on.
pub proof fn law_greeting_needs_the_answer(
    before: Handshake,
    link: Link,
    event: HandshakeEvent,
    after: Handshake,
    linked: Link,
    step: HandshakeStep,
)
    requires
        handshake_expects(before, event),
        handshake_follows(before, link, event, after, linked, step),
    ensures
        step.next matches HandshakeNext::Done(Ok(_)) ==> before is Confirming,
        after is Confirming ==> before is Delivering && before->verdict == Verdict::Accepted
            && event == HandshakeEvent::Delivered(true),
        (after is Delivering && after->verdict == Verdict::Accepted) ==> {
            &&& event matches HandshakeEvent::Parsed(Ok(frame))
            &&& frame matches Frame::Response { id, error, .. }
            &&& id == RpcId::Number(0)
            &&& error is None
        },
{
}

/// Frames are numbered without a gap and without a repetition: each frame gets the number after
/// the last, and neither a reconnection nor anything else of the greeting gives one out.
pub proof fn law_frames_are_numbered_in_order(
    before: Handshake,
    link: Link,
    event: HandshakeEvent,
    after: Handshake,
    linked: Link,
    step: HandshakeStep,
)
    requires
        link.sequence < u64::MAX,
        handshake_follows(before, link, event, after, linked, step),
    ensures
        linked.sequence == link.sequence + (if step.next is Deliver {
            1int
        } else {
            0
        }),
        step.next matches HandshakeNext::Deliver(sequence) ==> sequence == linked.sequence,
{
}

/// A request waits for an answer exactly if it was written and no frame has answered it since. So
/// it is answered at most once, and never before it was written.
pub proof fn law_requests_wait_from_writing_to_answer<R>(
    changes: Seq<Move<R>>,
    id: rpc::RpcIdView,
)
    ensures
        waiting_after(changes).contains_key(id) <==> exists|i: int| still_open(changes, i, id),
    decreases changes.len(),
{
    if changes.len() > 0 {
        let rest = changes.drop_last();
        let last = changes.len() - 1;
        law_requests_wait_from_writing_to_answer(rest, id);
        if waiting_after(changes).contains_key(id) {
            if changes[last] matches Move::Written { id: written, .. } && written == id {
                assert(still_open(changes, last, id));
            } else {
                let i = choose|i: int| still_open(rest, i, id);
                assert forall|j: int| i < j < changes.len() implies #[trigger] changes[j]
                    != Move::<R>::Answered { id } by {
                    if j < last {
                        assert(rest[j] == changes[j]);
                    }
                }
                assert(still_open(changes, i, id));
            }
        }
        if exists|i: int| still_open(changes, i, id) {
            let i = choose|i: int| still_open(changes, i, id);
            assert(changes[last] != Move::<R>::Answered { id } || i == last);
            if i < last {
                assert forall|j: int| i < j < rest.len() implies #[trigger] rest[j]
                    != Move::<R>::Answered { id } by {
                    assert(rest[j] == changes[j]);
                }
                assert(still_open(rest, i, id));
            }
        }
    }
}

/// When the use of a connection ends, each request that waits is told exactly once that its
/// outcome is unknown.
pub proof fn law_every_waiting_request_is_told_once<R>(
    drive: Drive<R>,
    detail: Seq<char>,
    told: Seq<(R, RequestError)>,
    id: rpc::RpcIdView,
)
    requires
        drive.valid(),
        told_unknown(drive.pending.rows(), detail, told),
        drive.pending@.contains_key(id),
    ensures
        exists|i: int|
            {
                &&& 0 <= i < told.len()
                &&& (#[trigger] told[i]).0 == drive.pending@[id].response
                &&& told[i].1@ == rpc::RequestErrorView::WrittenOutcomeUnknown {
                    id,
                    method: drive.pending@[id].method@,
                    detail,
                }
            },
        forall|i: int, j: int|
            0 <= i < told.len() && 0 <= j < told.len() && (#[trigger] told[i]).1@->id == id && (
            #[trigger] told[j]).1@->id == id ==> i == j,
{
    drive.pending.lemma_rows();
    let rows = drive.pending.rows();
    let i = choose|i: int|
        0 <= i < drive.pending.rows().len() && (#[trigger] drive.pending.rows()[i]).0.form() == id;
    assert(told[i].0 == rows[i].1.response);
    assert forall|i: int, j: int|
        0 <= i < told.len() && 0 <= j < told.len() && (#[trigger] told[i]).1@->id == id && (
        #[trigger] told[j]).1@->id == id implies i == j by {
        assert(rows[i].0.form() == rows[j].0.form());
    }
}

} // verus!
