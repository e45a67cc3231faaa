use codex_control::clock::{Nanos, MILLISECOND, SECOND};
use codex_control::control;
use codex_control::control::{
    CodexControl, Config, Restoration, RestorationEvent, RestorationStep, RunEvent, RunStep,
};
use codex_control::ingest::{
    AuthoritativeIngress, Consumer, Discovery, DiscoveryEvent, DiscoveryOutcome, DiscoverySource,
    DiscoveryStep, IngestConfig, IngestError, ReconcileEvent, ReconcileStep, SubscriptionState,
    ThreadIngestor,
};
use codex_control::json;
use codex_control::json::Json;
use codex_control::mock::{Fault, MockAppServer, MockStep, MockThread};
use codex_control::path::FilePath;
use codex_control::rpc;
use codex_control::rpc::{Frame, Reply, RequestError, RpcId, WireMessage};
use codex_control::skills;
use codex_control::skills::{RootsReply, SkillController};
use codex_control::threads::{ListedThread, ListingEvent, ListingStep, ThreadListPage, ThreadListing};
use codex_control::transport;
use codex_control::transport::{
    Command, CommandStep, ConnectOutcome, ConnectionPhase, Drive, DriveExit, Handshake,
    HandshakeEvent, HandshakeNext, Health, Link, LinkEvent, LinkNext, LinkStage, LinkStep, Marking,
    MessageStep, Refusal, StreamEvent, TickStep, TransportConfig, TransportHandle, Verdict, Waited,
};

fn value(text: &str) -> Json {
    json::parse_text(text).unwrap()
}

fn config() -> TransportConfig {
    TransportConfig {
        socket_path: FilePath::from_text("/rpc.sock"),
        connect_timeout: 300 * MILLISECOND,
        read_idle_timeout: 100 * MILLISECOND,
        request_timeout: 2 * SECOND,
        retry_initial: 20 * MILLISECOND,
        retry_max: 50 * MILLISECOND,
        ..TransportConfig::for_home(None, "1.2.3")
    }
}

fn id_of(id: &Json) -> RpcId {
    match id.as_number() {
        Some(number) => RpcId::Number(number),
        None => RpcId::Text(id.as_text().unwrap().clone()),
    }
}

/// What a value from the daemon is.
fn frame_of(message: &Json) -> Result<Frame, String> {
    match (message.get("id"), message.get("method")) {
        (Some(id), None) => Ok(Frame::Response {
            id: id_of(id),
            result: message.get("result").cloned(),
            error: message.get("error").cloned(),
        }),
        (_, Some(_)) => Ok(Frame::Other),
        _ => Err("neither a response nor a request".to_owned()),
    }
}

fn request_text(id: &RpcId, method: &str, params: &Json) -> Json {
    let id = match id {
        RpcId::Number(number) => Json::Number(*number),
        RpcId::Text(text) => Json::text(text),
    };
    Json::object()
        .with("jsonrpc", Json::text("2.0"))
        .with("id", id)
        .with("method", Json::text(method))
        .with("params", params.clone())
}

fn text_of(message: &Json) -> WireMessage {
    WireMessage::Text(message.to_text())
}

/// A client and the stand-in for the daemon, with a clock that is set by hand.
struct World {
    config: TransportConfig,
    server: MockAppServer,
    handle: TransportHandle<&'static str>,
    link: Link,
    drive: Option<Drive<u64>>,
    healths: Vec<Health>,
    frames: Vec<(u64, Json)>,
    answers: Vec<(u64, Reply)>,
    next_key: u64,
    now: Nanos,
}

impl World {
    fn new(config: TransportConfig) -> World {
        let (link, step) = Link::new(&config);
        let mut world = World {
            config,
            server: MockAppServer::new(),
            handle: TransportHandle::new("ingress"),
            link,
            drive: None,
            healths: Vec::new(),
            frames: Vec::new(),
            answers: Vec::new(),
            next_key: 0,
            now: 0,
        };
        world.go_on(step);
        world
    }

    fn phase(&self) -> ConnectionPhase {
        self.healths.last().unwrap().phase
    }

    fn go_on(&mut self, step: LinkStep) {
        let mut step = step;
        loop {
            if step.barrier_closes {
                self.handle.set_barrier(false);
            }
            self.healths.extend(step.healths);
            step = match step.next {
                LinkNext::Connect => {
                    let outcome = ConnectOutcome::Answered {
                        code: 101,
                        status: "101 Switching Protocols".to_owned(),
                    };
                    match transport::connect(outcome) {
                        Ok(()) => self.link.advance(LinkEvent::Connected),
                        Err(detail) => self.link.advance(LinkEvent::ConnectFailed(detail)),
                    }
                }
                LinkNext::Initialize => match self.greet() {
                    Ok(()) => self.link.advance(LinkEvent::Initialized),
                    Err(detail) => self.link.advance(LinkEvent::InitializeFailed(detail)),
                },
                LinkNext::Wait(span) => {
                    self.now += span;
                    self.link.advance(LinkEvent::Waited)
                }
                LinkNext::Drive => {
                    self.drive = Some(Drive::new(self.now));
                    return;
                }
                LinkNext::Close => self.link.advance(LinkEvent::Closed),
                LinkNext::Stop => return,
            };
        }
    }

    fn send(&mut self, message: &Json) -> MockStep {
        self.server.take_message(text_of(message))
    }

    fn greet(&mut self) -> Result<(), String> {
        let mut incoming: Vec<Json> = Vec::new();
        let (mut at, mut step) = transport::initialize(&self.config);
        loop {
            self.healths.extend(step.health);
            let event = match step.next {
                HandshakeNext::Request { id, method, params } => {
                    if let MockStep::Send(sent) = self.send(&request_text(&id, &method, &params)) {
                        incoming.extend(sent);
                    }
                    HandshakeEvent::Written(Ok(()))
                }
                HandshakeNext::Read => {
                    if incoming.is_empty() {
                        HandshakeEvent::TimedOut
                    } else {
                        HandshakeEvent::Read(text_of(&incoming.remove(0)))
                    }
                }
                HandshakeNext::Parse(read) => HandshakeEvent::Parsed(frame_of(&read)),
                HandshakeNext::Deliver(_) => HandshakeEvent::Delivered(true),
                HandshakeNext::Notify { method, params } => {
                    let message = Json::object()
                        .with("jsonrpc", Json::text("2.0"))
                        .with("method", Json::text(&method))
                        .with("params", params);
                    self.send(&message);
                    HandshakeEvent::Written(Ok(()))
                }
                HandshakeNext::Done(result) => return result,
            };
            let (next, then) = transport::initialize_after(at, &mut self.link, event);
            at = next;
            step = then;
        }
    }

    fn disconnect(&mut self, detail: String) {
        let exit: DriveExit<()> = DriveExit::Disconnected(detail.clone());
        for (key, error) in self.drive.take().unwrap().finish(&exit) {
            self.answers.push((key, Err(error)));
        }
        let step = self.link.advance(LinkEvent::Disconnected(detail));
        self.go_on(step);
    }

    fn hear(&mut self, event: StreamEvent) {
        match self.drive.as_mut().unwrap().receive(self.now, event) {
            MessageStep::Ignore | MessageStep::Pong(_) => {}
            MessageStep::Parse(read) => {
                let parsed = frame_of(&read);
                let drive = self.drive.as_mut().unwrap();
                if let Some(taken) = drive.take_frame(&mut self.link, parsed) {
                    if let Some(answer) = taken.answer {
                        self.answers.push(answer);
                    }
                    self.frames.push((taken.sequence, read));
                    let last = self.healths.pop().unwrap();
                    self.healths.push(last.after_frame(taken.sequence));
                }
            }
            MessageStep::Disconnect(detail) => self.disconnect(detail),
        }
    }

    fn carry(&mut self, step: MockStep) {
        match step {
            MockStep::Send(sent) => {
                for message in sent {
                    self.hear(StreamEvent::Message(text_of(&message)));
                }
            }
            MockStep::End(_) => self.hear(StreamEvent::Ended),
            MockStep::Ignore | MockStep::Pong(_) => {}
        }
    }

    fn ask(&mut self, method: &str, params: Json, action: bool) -> Reply {
        let id = self.handle.admit_request(action)?;
        let response = self.next_key;
        self.next_key += 1;
        let command: Command<u64, ()> = Command::Request {
            id,
            method: method.to_owned(),
            params,
            response,
        };
        match transport::drive_command(&self.link, Some(command)) {
            CommandStep::Write {
                id,
                method,
                params,
                response,
            } => {
                let message = request_text(&id, &method, &params);
                let drive = self.drive.as_mut().unwrap();
                assert!(drive.request_written(id, method, response, Ok(())).is_none());
                let step = self.send(&message);
                self.carry(step);
            }
            other => panic!("{:?}", other),
        }
        let waited = match self.answers.iter().position(|answer| answer.0 == response) {
            Some(at) => Waited::Answered(self.answers.remove(at).1),
            None => Waited::Elapsed,
        };
        transport::conclude_request(method, waited)
    }

    fn request(&mut self, method: &str, params: Json) -> Reply {
        self.ask(method, params, false)
    }

    fn mark_reconciled(&mut self) {
        self.handle.set_barrier(true);
        let command: Command<u64, ()> = Command::Reconciled { done: () };
        match transport::drive_command(&self.link, Some(command)) {
            CommandStep::Open { health, .. } => self.healths.push(health),
            other => panic!("{:?}", other),
        }
        self.handle.mark_reconciled(Marking::Done).unwrap();
    }

    fn tick(&mut self) -> bool {
        self.now += transport::tick_interval(&self.config);
        let drive = self.drive.as_ref().unwrap();
        match drive.tick(self.now, self.config.read_idle_timeout) {
            TickStep::Rest => true,
            TickStep::Ping => {
                let step = self.server.take_message(WireMessage::Ping(Vec::new()));
                if let MockStep::Pong(_) = step {
                    self.hear(StreamEvent::Message(WireMessage::Pong));
                }
                true
            }
            TickStep::Disconnect(detail) => {
                self.disconnect(detail);
                false
            }
        }
    }
}

#[test]
fn handshake_path_correlation_and_server_request_silence() {
    let mut world = World::new(config());
    let result = world.request("thread/list", Json::object()).unwrap();
    assert!(result.get_items("data").is_some());
    let message = world.server.emit_server_request(
        "item/commandExecution/requestApproval",
        value("{\"threadId\":\"t\"}"),
    );
    assert!(world.server.forwards(&message));
    world.hear(StreamEvent::Message(text_of(&message)));
    let (_, event) = world.frames.last().unwrap();
    assert!(event.get("id").is_some() && event.get("method").is_some());
    assert_eq!(world.server.responses_to_server_requests(), 0);
    let greeting = &world.server.received()[0];
    assert_eq!(
        greeting.get("params").unwrap().to_text(),
        value("{\"clientInfo\":{\"name\":\"codex-control\",\"title\":\"Codex Control\",\"version\":\"1.2.3\"},\"capabilities\":{\"serverRequests\":false}}").to_text()
    );
    assert_eq!(
        world.server.received()[1].get_text("method").unwrap(),
        "initialized"
    );
}

#[test]
fn receives_a_legitimate_frame_larger_than_tungstenites_default() {
    let config = TransportConfig {
        read_idle_timeout: 30 * SECOND,
        ..config()
    };
    assert!(config.max_incoming_bytes > (17 << 20) + 1024);
    let mut world = World::new(config);
    world.request("thread/list", Json::object()).unwrap();
    let text = "x".repeat((17 << 20) + 1);
    let params = Json::object().with("text", Json::Text(text));
    let message = MockAppServer::emit_notification("large/local-frame", params);
    world.hear(StreamEvent::Message(text_of(&message)));
    let (_, event) = world.frames.last().unwrap();
    assert_eq!(event.get_text("method").unwrap(), "large/local-frame");
    assert_eq!(
        event.get("params").unwrap().get_text("text").unwrap().len(),
        (17 << 20) + 1
    );
}

#[test]
fn disconnect_after_read_is_ambiguous_and_reconnects() {
    let mut world = World::new(config());
    assert!(world.request("thread/list", Json::object()).is_ok());
    world.mark_reconciled();
    world
        .server
        .set_fault(Fault::DisconnectOnMethod("turn/start".to_owned()));
    let error = world
        .ask(
            "turn/start",
            value("{\"threadId\":\"t\",\"input\":[]}"),
            true,
        )
        .unwrap_err();
    assert!(matches!(error, RequestError::WrittenOutcomeUnknown { .. }));
    assert_eq!(
        error.message(),
        "request turn/start (Number(2)) was written but its outcome is unknown: websocket stream ended"
    );
    world.server.set_fault(Fault::NoFault);
    assert_eq!(world.phase(), ConnectionPhase::Reconciling);
    assert!(!world.handle.is_reconciled());
    assert!(world.request("thread/list", Json::object()).is_ok());
}

#[test]
fn half_open_is_detected() {
    let mut world = World::new(config());
    assert!(world.request("thread/list", Json::object()).is_ok());
    world.server.set_fault(Fault::HalfOpen);
    let mut ticks = 0;
    while world.tick() {
        ticks += 1;
        assert!(ticks < 10);
        if ticks == 3 {
            world.server.set_fault(Fault::NoFault);
        }
    }
    assert!(world.healths.last().unwrap().reconnect_attempts > 0);
    let degraded = world
        .healths
        .iter()
        .find(|health| health.phase == ConnectionPhase::Degraded)
        .unwrap();
    assert_eq!(degraded.detail.as_deref(), Some("read idle for 200ms"));
}

#[test]
fn a_peer_that_answers_pings_is_kept() {
    let mut world = World::new(config());
    for _ in 0..20 {
        assert!(world.tick());
    }
    assert_eq!(world.healths.last().unwrap().reconnect_attempts, 0);
}

#[test]
fn actions_wait_for_reconciliation() {
    let mut world = World::new(config());
    let refused = world
        .ask("turn/start", Json::object(), true)
        .unwrap_err();
    assert_eq!(
        refused.message(),
        "request was not written: reconciliation gate is closed"
    );
    world.mark_reconciled();
    assert_eq!(world.phase(), ConnectionPhase::Connected);
    assert!(world.ask("turn/start", Json::object(), true).is_ok());
    world.hear(StreamEvent::Failed("reset".to_owned()));
    assert!(world.ask("turn/start", Json::object(), true).is_err());
}

#[test]
fn a_rejection_names_the_method() {
    let mut world = World::new(config());
    world.server.set_request_failures("thread/read", 1);
    let error = world.request("thread/read", Json::object()).unwrap_err();
    assert_eq!(
        error.message(),
        "request thread/read was rejected: {\"code\":-32000,\"message\":\"mock request failure\"}"
    );
    assert!(world.request("thread/read", Json::object()).is_ok());
}

#[test]
fn frames_are_numbered_across_reconnections() {
    let mut world = World::new(config());
    world.request("thread/list", Json::object()).unwrap();
    world.hear(StreamEvent::Message(WireMessage::Close));
    world.request("thread/list", Json::object()).unwrap();
    let numbers: Vec<u64> = world.frames.iter().map(|frame| frame.0).collect();
    assert_eq!(numbers, vec![2, 4]);
    assert_eq!(world.link.sequence, 4);
    assert_eq!(world.link.attempts, 1);
    let phases: Vec<ConnectionPhase> = world.healths.iter().map(|health| health.phase).collect();
    assert_eq!(
        phases,
        vec![
            ConnectionPhase::Connecting,
            ConnectionPhase::Handshaking,
            ConnectionPhase::Handshaking,
            ConnectionPhase::Reconciling,
            ConnectionPhase::Degraded,
            ConnectionPhase::Connecting,
            ConnectionPhase::Handshaking,
            ConnectionPhase::Handshaking,
            ConnectionPhase::Reconciling,
        ]
    );
}

#[test]
fn what_is_no_frame_is_ignored_and_what_is_no_json_ends_the_connection() {
    let mut world = World::new(config());
    let before = world.link.sequence;
    world.hear(StreamEvent::Message(WireMessage::Text("{}".to_owned())));
    assert_eq!(world.link.sequence, before);
    world.hear(StreamEvent::Message(WireMessage::Binary(
        b"{\"method\":\"x\"}".to_vec(),
    )));
    assert_eq!(world.link.sequence, before + 1);
    world.hear(StreamEvent::Message(WireMessage::Text("{".to_owned())));
    assert_eq!(world.link.attempts, 1);
}

#[test]
fn waits_between_attempts_double_and_start_over_after_a_greeting() {
    let (mut link, _) = Link::new(&config());
    let mut waits = Vec::new();
    for _ in 0..4 {
        match link.advance(LinkEvent::ConnectFailed("no".to_owned())).next {
            LinkNext::Wait(span) => waits.push(span / MILLISECOND),
            other => panic!("{:?}", other),
        }
        link.advance(LinkEvent::Waited);
    }
    assert_eq!(waits, vec![20, 40, 50, 50]);
    assert_eq!(link.attempts, 4);
    let (mut broken_off, _) = Link::new(&config());
    broken_off.advance(LinkEvent::ConnectFailed("no".to_owned()));
    broken_off.advance(LinkEvent::Refused { stop: false });
    assert_eq!(broken_off.backoff, 40 * MILLISECOND);
    link.advance(LinkEvent::Connected);
    let step = link.advance(LinkEvent::Initialized);
    assert!(step.barrier_closes);
    assert_eq!(link.backoff, 20 * MILLISECOND);
}

#[test]
fn a_shutdown_closes_before_it_stops() {
    let mut world = World::new(config());
    let step = world.link.advance(LinkEvent::ShutDown);
    assert!(matches!(step.next, LinkNext::Close) && step.healths.is_empty());
    let step = world.link.advance(LinkEvent::Closed);
    assert!(matches!(step.next, LinkNext::Stop));
    assert_eq!(step.healths[0].phase, ConnectionPhase::Stopped);
    assert!(matches!(world.link.stage, LinkStage::Stopped));
}

#[test]
fn commands_are_refused_while_there_is_no_connection() {
    let request: Command<u8, char> = Command::Request {
        id: RpcId::Number(1),
        method: "m".to_owned(),
        params: Json::Null,
        response: 7,
    };
    match transport::reject_while_disconnected(Some(request), "why") {
        Refusal::Answer { response, error } => {
            assert_eq!(response, 7);
            assert_eq!(error.message(), "request was not written: why");
        }
        other => panic!("{:?}", other),
    }
    let stop: Refusal<u8, char> =
        transport::reject_while_disconnected(Some(Command::Shutdown { done: 'd' }), "why");
    assert!(stop.stops());
    assert!(matches!(stop, Refusal::Stop(Some('d'))));
    let confirmed: Refusal<u8, char> =
        transport::reject_while_disconnected(Some(Command::Reconciled { done: 'd' }), "why");
    assert!(!confirmed.stops());
    assert!(matches!(confirmed, Refusal::Confirm('d')));
    let closed: Refusal<u8, char> = transport::reject_while_disconnected(None, "why");
    assert!(closed.stops());
}

#[test]
fn connection_failures_have_words() {
    let words = |outcome: ConnectOutcome| transport::connect(outcome).unwrap_err();
    assert_eq!(
        words(ConnectOutcome::SocketTimedOut),
        "unix socket connect timed out"
    );
    assert_eq!(
        words(ConnectOutcome::SocketFailed("e".to_owned())),
        "unix socket connect: e"
    );
    assert_eq!(
        words(ConnectOutcome::HandshakeTimedOut),
        "websocket handshake timed out"
    );
    assert_eq!(
        words(ConnectOutcome::HandshakeFailed("e".to_owned())),
        "websocket handshake: e"
    );
    assert_eq!(
        words(ConnectOutcome::Answered {
            code: 404,
            status: "404 Not Found".to_owned()
        }),
        "unexpected websocket status 404 Not Found"
    );
}

fn greeting_after(at: Handshake, event: HandshakeEvent) -> HandshakeNext {
    let (mut link, _) = Link::new(&config());
    transport::initialize_after(at, &mut link, event).1.next
}

fn failed_greeting(at: Handshake, event: HandshakeEvent) -> String {
    match greeting_after(at, event) {
        HandshakeNext::Done(Err(words)) => words,
        other => panic!("{:?}", other),
    }
}

#[test]
fn greetings_fail_with_words() {
    assert_eq!(
        failed_greeting(Handshake::Reading, HandshakeEvent::TimedOut),
        "initialize response timed out"
    );
    assert_eq!(
        failed_greeting(Handshake::Reading, HandshakeEvent::Ended),
        "socket closed during initialize"
    );
    assert_eq!(
        failed_greeting(
            Handshake::Reading,
            HandshakeEvent::Read(WireMessage::Close)
        ),
        "peer closed websocket"
    );
    assert_eq!(
        failed_greeting(
            Handshake::Delivering {
                sequence: 1,
                verdict: Verdict::Accepted
            },
            HandshakeEvent::Delivered(false)
        ),
        "authoritative ingress closed"
    );
    assert_eq!(
        failed_greeting(
            Handshake::Delivering {
                sequence: 1,
                verdict: Verdict::Rejected
            },
            HandshakeEvent::Delivered(true)
        ),
        "initialize rejected"
    );
    assert_eq!(
        failed_greeting(
            Handshake::Parsing,
            HandshakeEvent::Parsed(Err("no frame".to_owned()))
        ),
        "no frame"
    );
    assert!(matches!(
        greeting_after(
            Handshake::Reading,
            HandshakeEvent::Read(WireMessage::Ping(Vec::new()))
        ),
        HandshakeNext::Read
    ));
    assert!(matches!(
        greeting_after(
            Handshake::Reading,
            HandshakeEvent::Read(WireMessage::Text("7".to_owned()))
        ),
        HandshakeNext::Parse(Json::Number(7))
    ));
}

#[test]
fn a_request_that_could_not_be_written_is_not_pending() {
    let mut drive: Drive<u8> = Drive::new(0);
    let failure = drive
        .request_written(
            RpcId::Number(1),
            "m".to_owned(),
            9,
            Err("broken pipe".to_owned()),
        )
        .unwrap();
    assert_eq!(failure.response, 9);
    assert_eq!(
        failure.error.message(),
        "request was not written: broken pipe"
    );
    assert_eq!(failure.detail, "broken pipe");
    let exit: DriveExit<()> = DriveExit::CommandsClosed;
    assert!(drive.finish(&exit).is_empty());
}

#[test]
fn every_pending_request_is_told_once() {
    let mut drive: Drive<u8> = Drive::new(0);
    for key in 0..3u8 {
        drive.request_written(
            RpcId::Number(key as u64),
            "m".to_owned(),
            key,
            Ok(()),
        );
    }
    let (mut link, _) = Link::new(&config());
    let answer = Frame::Response {
        id: RpcId::Number(1),
        result: None,
        error: None,
    };
    let taken = drive.take_frame(&mut link, Ok(answer)).unwrap();
    assert!(matches!(taken.answer, Some((1, Ok(Json::Null)))));
    let exit: DriveExit<()> = DriveExit::CommandsClosed;
    let told = drive.finish(&exit);
    assert_eq!(
        told.iter().map(|one| one.0).collect::<Vec<_>>(),
        vec![0, 2]
    );
    assert_eq!(
        told[1].1.message(),
        "request m (Number(2)) was written but its outcome is unknown: connection closed"
    );
}

#[test]
fn writes_and_deliveries_that_fail_end_the_use_of_a_connection() {
    let exit: Option<DriveExit<()>> = transport::drive_notified(Err("e".to_owned()));
    assert!(matches!(exit, Some(DriveExit::Disconnected(detail)) if detail == "e"));
    let exit: Option<DriveExit<()>> = transport::drive_notified(Ok(()));
    assert!(exit.is_none());
    let exit: Option<DriveExit<()>> = transport::drive_delivered(false);
    assert!(matches!(exit, Some(DriveExit::CommandsClosed)));
    let exit: Option<DriveExit<()>> = transport::drive_delivered(true);
    assert!(exit.is_none());
    let exit: Option<DriveExit<()>> = transport::drive_pinged(false);
    assert!(
        matches!(exit, Some(DriveExit::Disconnected(detail)) if detail == "ping write failed")
    );
}

#[test]
fn callers_learn_how_their_request_ended() {
    assert!(matches!(
        transport::conclude_request("m", Waited::Refused),
        Err(RequestError::Closed)
    ));
    assert!(matches!(
        transport::conclude_request("m", Waited::Dropped),
        Err(RequestError::Closed)
    ));
    assert_eq!(
        transport::conclude_request("m", Waited::Elapsed)
            .unwrap_err()
            .message(),
        "request timed out after it may have been written: m"
    );
    let odd = RequestError::WrittenOutcomeUnknown {
        id: RpcId::Text("a\"b".to_owned()),
        method: "m".to_owned(),
        detail: "d".to_owned(),
    };
    assert_eq!(
        odd.clone().message(),
        "request m (Text(\"a\\\"b\")) was written but its outcome is unknown: d"
    );
}

#[test]
fn the_receiver_is_taken_once_and_a_refused_marking_closes_again() {
    let mut handle = TransportHandle::new('r');
    assert_eq!(handle.take_ingress(), Some('r'));
    assert_eq!(handle.take_ingress(), None);
    handle.set_barrier(true);
    assert!(handle.mark_reconciled(Marking::Refused).is_err());
    assert!(!handle.is_reconciled());
    handle.set_barrier(true);
    assert!(handle.mark_reconciled(Marking::Dropped).is_err());
    assert!(handle.is_reconciled());
}

#[test]
fn messages_are_read() {
    assert!(matches!(
        rpc::message_json(&WireMessage::Binary(b"[]".to_vec())),
        Ok(Some(Json::Array(_)))
    ));
    assert!(matches!(rpc::message_json(&WireMessage::Pong), Ok(None)));
    assert!(matches!(rpc::message_json(&WireMessage::Frame), Ok(None)));
    assert!(rpc::message_json(&WireMessage::Text("nope".to_owned())).is_err());
}

#[test]
fn the_default_transport_is_bounded() {
    let config = TransportConfig::for_home(Some(FilePath::from_text("/h")), "9");
    assert_eq!(config.max_incoming_bytes, 256 << 20);
    assert_eq!(config.retry_initial, 100 * MILLISECOND);
    assert_eq!(config.retry_max, 5 * SECOND);
    assert_eq!(transport::tick_interval(&config), 15 * SECOND);
    let brisk = TransportConfig {
        read_idle_timeout: 10 * MILLISECOND,
        ..config
    };
    assert_eq!(transport::tick_interval(&brisk), 20 * MILLISECOND);
    let health = Health::default();
    assert_eq!(health.phase, ConnectionPhase::Connecting);
    assert_eq!(health.clone().after_frame(5).last_frame_sequence, 5);
}

/// Carries a discovery on to its end. `shown` counts the threads that the reducer is shown.
fn carry_on(
    world: &mut World,
    ingestor: &mut ThreadIngestor,
    shown: &mut usize,
    begun: (Discovery, DiscoveryStep),
) -> DiscoveryOutcome {
    let (mut run, mut step) = begun;
    loop {
        let event = match step {
            DiscoveryStep::Request { method, params } => {
                DiscoveryEvent::Replied(world.request(&method, params))
            }
            DiscoveryStep::Sleep(_) => DiscoveryEvent::Slept,
            DiscoveryStep::Restore { .. } => {
                *shown += 1;
                DiscoveryEvent::Told
            }
            DiscoveryStep::Begin | DiscoveryStep::Finish | DiscoveryStep::Cancel => {
                DiscoveryEvent::Told
            }
            DiscoveryStep::Done(outcome) => return outcome,
        };
        let (went, then) = ingestor.discover_after(run, event);
        run = went;
        step = then;
    }
}

fn reconcile(
    world: &mut World,
    ingestor: &mut ThreadIngestor,
    shown: &mut usize,
) -> Result<(), IngestError> {
    let (mut run, mut step) = ingestor.reconcile();
    loop {
        let event = match step {
            ReconcileStep::Request { method, params } => {
                ReconcileEvent::Replied(world.request(&method, params))
            }
            ReconcileStep::Restore { .. } => {
                *shown += 1;
                ReconcileEvent::Told
            }
            ReconcileStep::Discover { thread_id } => {
                let begun = ingestor.discover(&thread_id, DiscoverySource::Reconciliation);
                ReconcileEvent::Discovered(carry_on(world, ingestor, shown, begun))
            }
            ReconcileStep::Done(result) => return result.map(|_| ()),
        };
        let (went, then) = ingestor.reconcile_after(run, event);
        run = went;
        step = then;
    }
}

fn roots_reply(reply: Reply) -> RootsReply {
    match reply {
        Ok(answer) => match json::require_object(&answer) {
            Ok(()) => RootsReply::Done,
            Err(words) => RootsReply::Malformed(words),
        },
        Err(error) => RootsReply::Failed(error),
    }
}

/// Restores a connection that waits for it.
fn restore(world: &mut World, ingestor: &mut ThreadIngestor, skills: &SkillController) -> usize {
    let mut pauses = 0;
    let due = control::restoration_due(world.phase(), world.handle.is_reconciled());
    let (mut at, mut step) =
        control::restore_after(Restoration::Watching, RestorationEvent::Health { due });
    loop {
        let event = match step {
            RestorationStep::Reconcile => RestorationEvent::Reconciled(
                reconcile(world, ingestor, &mut 0).is_ok(),
            ),
            RestorationStep::Reapply => {
                let reply = skills
                    .reapply_extra_roots()
                    .map(|params| roots_reply(world.request(skills::SET_ROOTS, params)));
                RestorationEvent::Reapplied(
                    SkillController::reapply_extra_roots_after(reply).is_ok(),
                )
            }
            RestorationStep::Mark => {
                world.mark_reconciled();
                RestorationEvent::Marked
            }
            RestorationStep::Pause(_) => {
                pauses += 1;
                let due = control::restoration_due(world.phase(), world.handle.is_reconciled());
                RestorationEvent::Paused { stop: false, due }
            }
            RestorationStep::Watch | RestorationStep::Stop => return pauses,
        };
        let (next, then) = control::restore_after(at, event);
        at = next;
        step = then;
    }
}

#[test]
fn skill_roots_and_forced_refresh_follow_the_mock_contract_and_survive_reconnect() {
    let mut world = World::new(config());
    let mut ingestor = ThreadIngestor::new(IngestConfig::default());
    let mut controller = SkillController::new();
    assert_eq!(restore(&mut world, &mut ingestor, &controller), 0);

    let skill_root = FilePath::from_text("/dir/generated-skills");
    let project = FilePath::from_text("/dir/project");
    let roots = vec![skill_root];
    let params = controller.set_extra_roots(&roots).unwrap();
    let reply = roots_reply(world.request(skills::SET_ROOTS, params));
    controller.set_extra_roots_after(roots, reply).unwrap();
    let params = SkillController::force_refresh(&vec![project]).unwrap();
    let listed = world.request(skills::LIST, params).unwrap();
    let data = listed.get_items("data").unwrap();
    assert_eq!(data.len(), 1);
    assert_eq!(data[0].get_text("cwd").unwrap(), "/dir/project");

    let received = world.server.received();
    assert!(received.iter().any(|request| {
        request.get_text("method").map(String::as_str) == Some("skills/extraRoots/set")
            && request.get("params").unwrap().to_text()
                == "{\"extraRoots\":[\"/dir/generated-skills\"]}"
    }));
    assert!(received.iter().any(|request| {
        request.get_text("method").map(String::as_str) == Some("skills/list")
            && request.get("params").unwrap().to_text()
                == "{\"cwds\":[\"/dir/project\"],\"forceReload\":true}"
    }));

    world.server.set_request_failures("skills/extraRoots/set", 1);
    world
        .server
        .set_fault(Fault::DisconnectOnMethod("skills/list".to_owned()));
    let params = SkillController::force_refresh(&Vec::new()).unwrap();
    let lost = world.request(skills::LIST, params);
    assert!(matches!(
        lost,
        Err(RequestError::WrittenOutcomeUnknown { .. })
    ));
    world.server.set_fault(Fault::NoFault);

    assert_eq!(world.phase(), ConnectionPhase::Reconciling);
    assert_eq!(restore(&mut world, &mut ingestor, &controller), 1);
    assert_eq!(world.phase(), ConnectionPhase::Connected);
    let root_sets: Vec<&Json> = world
        .server
        .received()
        .iter()
        .filter(|request| {
            request.get_text("method").map(String::as_str) == Some("skills/extraRoots/set")
        })
        .collect();
    assert_eq!(root_sets.len(), 3);
    assert!(root_sets.iter().all(|request| {
        request.get("params").unwrap().to_text() == "{\"extraRoots\":[\"/dir/generated-skills\"]}"
    }));
}

fn mock_thread(id: &str, cwd: &str, status: &str, turn: Option<&str>) -> MockThread {
    MockThread {
        id: id.to_owned(),
        cwd: FilePath::from_text(cwd),
        status: status.to_owned(),
        turn_id: turn.map(str::to_owned),
        ephemeral: false,
        updated_at: 1,
    }
}

/// Runs `operation` in the midst of everything that a run brings up.
fn run<T>(
    mut threads: Vec<MockThread>,
    operation: impl FnOnce(&mut World, &mut ThreadIngestor, usize) -> T,
) -> T {
    let config = Config {
        manage_gui: false,
        transport: config(),
        ..Config::for_home(None, "1.2.3")
    };
    let mut operation = Some(operation);
    let mut world: Option<World> = None;
    let mut ingestor = ThreadIngestor::new(config.ingest);
    let mut shown = 0;
    let mut result = None;
    let (mut at, mut step) = CodexControl::run(&config);
    loop {
        let event = match step {
            RunStep::Connect => {
                let mut connected = World::new(config.transport.clone());
                for thread in threads.drain(..) {
                    connected.server.add_thread(thread);
                }
                let ingress = connected.handle.take_ingress().is_some();
                world = Some(connected);
                RunEvent::Connected { ingress }
            }
            RunStep::Reconcile => {
                let world = world.as_mut().unwrap();
                RunEvent::Reconciled(reconcile(world, &mut ingestor, &mut shown))
            }
            RunStep::Mark => {
                world.as_mut().unwrap().mark_reconciled();
                RunEvent::Marked(Ok(()))
            }
            RunStep::Operate { monitor } => {
                assert!(!monitor);
                let operation = operation.take().unwrap();
                result = Some(operation(world.as_mut().unwrap(), &mut ingestor, shown));
                RunEvent::Operated
            }
            RunStep::Close => {
                for id in ingestor.unsubscribe_all_best_effort() {
                    let params = Json::object().with("threadId", Json::text(&id));
                    let world = world.as_mut().unwrap();
                    world.request("thread/unsubscribe", params).unwrap();
                }
                RunEvent::Closed
            }
            RunStep::Done(done) => {
                done.unwrap();
                return result.unwrap();
            }
            other => panic!("{:?}", other),
        };
        let (next, then) = CodexControl::run_after(at, event);
        at = next;
        step = then;
    }
}

#[test]
fn run_invokes_closure_with_live_background_loops_and_cleans_up() {
    let threads = vec![mock_thread("active", "/mock/active", "active", Some("turn"))];
    let result = run(threads, |world, ingestor, _| {
        assert!(world.phase() == ConnectionPhase::Connected);
        assert_eq!(ingestor.state("active"), SubscriptionState::Subscribed);
        let message = MockAppServer::emit_notification(
            "turn/completed",
            value("{\"threadId\":\"active\",\"turn\":{\"id\":\"turn\"}}"),
        );
        world.hear(StreamEvent::Message(text_of(&message)));
        let (_, event) = world.frames.last().unwrap();
        assert_eq!(event.get_text("method").unwrap(), "turn/completed");
        let mut consumers = Vec::new();
        let mut next = AuthoritativeIngress.process(None);
        while let Some(consumer) = next {
            consumers.push(consumer);
            next = AuthoritativeIngress.process(Some(consumer));
        }
        assert!(matches!(consumers.last(), Some(Consumer::Hub)));
        42
    });
    assert_eq!(result, 42);
}

fn page_of(answer: &Json) -> ThreadListPage {
    let data = answer.get_items("data").unwrap();
    ThreadListPage {
        data: data
            .iter()
            .map(|thread| ListedThread {
                id: thread.get_text("id").unwrap().clone(),
                cwd: FilePath::from_text(thread.get_text("cwd").unwrap()),
                metadata: thread.clone(),
            })
            .collect(),
        next_cursor: answer.get_text("nextCursor").cloned(),
    }
}

#[test]
fn typed_thread_list_includes_idle_threads_absent_from_the_reducer() {
    let threads = vec![mock_thread("idle", "/dir/idle-project", "idle", None)];
    run(threads, |world, ingestor, shown| {
        assert_eq!(shown, 0);
        let (mut listing, mut step) = ThreadListing::list_all();
        let threads = loop {
            step = match step {
                ListingStep::Request { method, params } => {
                    let reply = world.request(&method, params);
                    listing.list_all_after(ListingEvent::Replied(reply))
                }
                ListingStep::Parse(answer) => {
                    listing.list_all_after(ListingEvent::Parsed(Ok(page_of(&answer))))
                }
                ListingStep::Done(result) => break result.unwrap(),
            };
        };
        assert_eq!(threads.len(), 1);
        assert_eq!(threads[0].id, "idle");
        assert_eq!(threads[0].cwd.to_text().unwrap(), "/dir/idle-project");
        let begun = ingestor.discover("idle", DiscoverySource::Reconciliation);
        assert_eq!(
            carry_on(world, ingestor, &mut 0, begun),
            DiscoveryOutcome::Subscribed
        );
        assert_eq!(ingestor.state("idle"), SubscriptionState::Subscribed);
        assert!(world.server.received().iter().any(|request| {
            request.get_text("method").map(String::as_str) == Some("thread/list")
                && request
                    .get("params")
                    .is_some_and(|params| {
                        params.get_text("sortKey").map(String::as_str) == Some("updated_at")
                            && params.get("limit").and_then(Json::as_number) == Some(100)
                    })
        }));
    });
}
