//! What the connection to the daemon promises.

use crate::clock;
use crate::clock::{Nanos, LONGEST};
use crate::json;
use crate::json::{Json, JsonView};
use crate::path;
use crate::path::FilePath;
use crate::rpc;
use crate::rpc::{Frame, Reply, RequestError, RequestErrorView, RpcId, RpcIdView, WireMessage};
use crate::table::Key;
use crate::transport;
use crate::transport::{
    Command, CommandStep, ConnectOutcome, ConnectionPhase, Drive, DriveExit, FrameStep, Handshake,
    HandshakeEvent, HandshakeNext, HandshakeStep, Health, Link, LinkEvent, LinkNext, LinkStage,
    LinkStep, Marking, MessageStep, Refusal, StreamEvent, TickStep, TransportConfig,
    TransportHandle, Waited, WriteFailure,
};
use vstd::prelude::*;
use vstd::utf8::*;

verus! {

/// A failure that is counted: of connecting, of the greeting, or of use.
pub open spec fn is_failure(event: LinkEvent) -> bool {
    match event {
        LinkEvent::ConnectFailed(_) => true,
        LinkEvent::InitializeFailed(_) => true,
        LinkEvent::Disconnected(_) => true,
        _ => false,
    }
}

/// The connection ends only on command: it stops exactly after a refused last command, closed
/// commands or the end of closing, and it closes exactly after a shutdown. Every failure that is
/// counted leads to another attempt to connect, at once where the connection was in use, and else
/// after a wait.
pub proof fn law_connection_ends_only_on_command(
    link: &mut Link,
    event: LinkEvent,
    step: LinkStep,
)
    requires
        link.valid(),
        transport::link_expects(link.stage, event),
        is_failure(event) ==> link.attempts < u64::MAX,
        call_ensures(Link::advance, (link, event), step),
    ensures
        step.next is Stop <==> event is Closed || event is CommandsClosed || event == (
        LinkEvent::Refused { stop: true }),
        final(link).stage is Stopped <==> step.next is Stop,
        step.next is Close <==> event is ShutDown,
        final(link).stage is Closing <==> step.next is Close,
        is_failure(event) ==> step.next is Wait || step.next is Connect,
        event is Disconnected ==> step.next is Connect,
        step.next is Wait <==> event is ConnectFailed || event is InitializeFailed,
        step.next is Connect <==> event is Disconnected || event is Waited || event == (
        LinkEvent::Refused { stop: false }),
        final(link).stage is Connecting <==> step.next is Connect,
        final(link).stage is Waiting <==> step.next is Wait,
        step.next is Initialize <==> event is Connected,
        final(link).stage is Handshaking <==> step.next is Initialize,
        step.next is Drive <==> event is Initialized,
        final(link).stage is Driving <==> step.next is Drive,
{
}

/// The number of failures grows by one at each failure and at nothing else; the number of frames
/// does not change; and the barrier before requests that act closes exactly when a greeting has
/// succeeded and when a connection in use is lost.
pub proof fn law_failures_are_counted_and_the_barrier_closed(
    link: &mut Link,
    event: LinkEvent,
    step: LinkStep,
)
    requires
        link.valid(),
        transport::link_expects(link.stage, event),
        is_failure(event) ==> link.attempts < u64::MAX,
        call_ensures(Link::advance, (link, event), step),
    ensures
        final(link).attempts == old(link).attempts + if is_failure(event) {
            1int
        } else {
            0
        },
        final(link).sequence == old(link).sequence,
        final(link).retry_initial == old(link).retry_initial,
        final(link).retry_max == old(link).retry_max,
        step.barrier_closes <==> event is Initialized || event is Disconnected,
{
}

/// A failed attempt waits for as long as the connection remembers. A wait that is over, or broken
/// off by a command, doubles what it remembers, up to the longest wait, and a greeting that succeeds
/// brings it back to the first.
pub proof fn law_waits_grow_until_a_greeting(link: &mut Link, event: LinkEvent, step: LinkStep)
    requires
        link.valid(),
        transport::link_expects(link.stage, event),
        is_failure(event) ==> link.attempts < u64::MAX,
        call_ensures(Link::advance, (link, event), step),
    ensures
        step.next matches LinkNext::Wait(span) ==> span == old(link).backoff,
        final(link).backoff == match event {
            LinkEvent::Initialized => old(link).retry_initial as int,
            LinkEvent::Waited | LinkEvent::Refused { stop: false } => if old(link).backoff * 2
                < old(link).retry_max {
                old(link).backoff * 2
            } else {
                old(link).retry_max as int
            },
            _ => old(link).backoff as int,
        },
{
}

/// What an event says went wrong.
pub open spec fn failure_told(event: LinkEvent) -> Option<Seq<char>> {
    match event {
        LinkEvent::ConnectFailed(detail) => Some(detail@),
        LinkEvent::InitializeFailed(detail) => Some(detail@),
        LinkEvent::Disconnected(detail) => Some(detail@),
        _ => None,
    }
}

/// What is published counts the failures and the frames of the connection as it now is, and ends
/// with the phase that it is now in. It speaks of degradation exactly at a failure, first, and then
/// says what went wrong; nothing else is said. A failed attempt is remembered for those who ask in
/// the meantime.
pub proof fn law_published_health_tells_the_stage(link: &mut Link, event: LinkEvent, step: LinkStep)
    requires
        link.valid(),
        transport::link_expects(link.stage, event),
        is_failure(event) ==> link.attempts < u64::MAX,
        call_ensures(Link::advance, (link, event), step),
    ensures
        forall|i: int|
            0 <= i < step.healths@.len() ==> (#[trigger] step.healths@[i]).reconnect_attempts
                == final(link).attempts && step.healths@[i].last_frame_sequence == final(link).sequence,
        step.healths@.len() == 0 <==> event is ShutDown || event is CommandsClosed || event == (
        LinkEvent::Refused { stop: true }),
        step.healths@.len() == 2 <==> event is Disconnected,
        step.healths@.len() <= 2,
        step.healths@.len() > 0 ==> step.healths@.last().phase == match final(link).stage {
            LinkStage::Connecting => ConnectionPhase::Connecting,
            LinkStage::Handshaking => ConnectionPhase::Handshaking,
            LinkStage::Waiting { .. } => ConnectionPhase::Degraded,
            LinkStage::Driving => ConnectionPhase::Reconciling,
            LinkStage::Closing | LinkStage::Stopped => ConnectionPhase::Stopped,
        },
        failure_told(event) matches Some(words) ==> {
            &&& step.healths@[0].phase is Degraded
            &&& step.healths@[0].detail matches Some(said)
            &&& said@ == words
        },
        forall|i: int|
            0 <= i < step.healths@.len() && !((#[trigger] step.healths@[i]).phase is Degraded)
                ==> step.healths@[i].detail is None,
        forall|i: int|
            0 <= i < step.healths@.len() && (#[trigger] step.healths@[i]).phase is Degraded ==> i
                == 0 && is_failure(event),
        final(link).stage matches LinkStage::Waiting { detail } ==> failure_told(event) == Some(
            detail@,
        ),
{
}

/// A connection begins by being made, without failures or frames, and says so.
pub proof fn law_connection_begins_by_connecting(
    config: TransportConfig,
    link: Link,
    step: LinkStep,
)
    requires
        config.valid(),
        call_ensures(Link::new, (&config,), (link, step)),
    ensures
        link.stage is Connecting,
        link.attempts == 0,
        link.sequence == 0,
        link.backoff == config.retry_initial,
        link.retry_initial == config.retry_initial,
        link.retry_max == config.retry_max,
        step.next is Connect,
        !step.barrier_closes,
        step.healths@.len() == 1,
        step.healths@[0].phase is Connecting,
        step.healths@[0].reconnect_attempts == 0,
        step.healths@[0].last_frame_sequence == 0,
        step.healths@[0].detail is None,
{
}

/// A frame gets the number after the last, and numbering changes nothing else.
pub proof fn law_frames_get_the_next_number(link: &mut Link, sequence: u64)
    requires
        link.sequence < u64::MAX,
        call_ensures(Link::number_frame, (link,), sequence),
    ensures
        sequence == old(link).sequence + 1,
        final(link).sequence == sequence,
        final(link).stage == old(link).stage,
        final(link).attempts == old(link).attempts,
        final(link).backoff == old(link).backoff,
        final(link).retry_initial == old(link).retry_initial,
        final(link).retry_max == old(link).retry_max,
{
}

/// A wait doubles, but never beyond the longest: the next wait is no longer than twice the wait and
/// no longer than the longest, and as long as one of the two.
pub proof fn law_wait_doubles_within_the_longest(current: Nanos, limit: Nanos, next: Nanos)
    requires
        current * 2 <= LONGEST,
        call_ensures(clock::double_up_to, (current, limit), next),
    ensures
        next <= current * 2,
        next <= limit,
        next == current * 2 || next == limit,
{
}

/// There is a connection exactly if the peer answered with the code for switching protocols. Else
/// the words say at which of the two steps it failed, and how.
pub proof fn law_only_switching_protocols_connects(
    outcome: ConnectOutcome,
    result: Result<(), String>,
)
    requires
        call_ensures(transport::connect, (outcome,), result),
    ensures
        result is Ok <==> (outcome matches ConnectOutcome::Answered { code, .. } && code == 101),
        result matches Err(words) ==> words@ == match outcome {
            ConnectOutcome::SocketTimedOut => "unix socket connect timed out"@,
            ConnectOutcome::SocketFailed(error) => "unix socket connect: "@ + error@,
            ConnectOutcome::HandshakeTimedOut => "websocket handshake timed out"@,
            ConnectOutcome::HandshakeFailed(error) => "websocket handshake: "@ + error@,
            ConnectOutcome::Answered { status, .. } => "unexpected websocket status "@ + status@,
        },
{
}

/// The greeting is request 0: it names the client and says that this side takes no requests.
pub proof fn law_greeting_names_the_client(
    config: TransportConfig,
    at: Handshake,
    step: HandshakeStep,
)
    requires
        call_ensures(transport::initialize, (&config,), (at, step)),
    ensures
        at is Requesting,
        step.health is None,
        step.next matches HandshakeNext::Request { id, method, params } && id == RpcId::Number(0)
            && method@ == "initialize"@ && params@ == JsonView::Object(
            map![
                "clientInfo"@ => JsonView::Object(map![
                    "name"@ => JsonView::Text(config.client_name@),
                    "title"@ => JsonView::Text("Codex Control"@),
                    "version"@ => JsonView::Text(config.client_version@),
                ]),
                "capabilities"@ => JsonView::Object(map![
                    "serverRequests"@ => JsonView::Bool(false),
                ]),
            ],
        ),
{
}

/// A step of the greeting, of the connection `link`.
pub open spec fn greeting_step(
    at: Handshake,
    link: &mut Link,
    event: HandshakeEvent,
    after: Handshake,
    step: HandshakeStep,
) -> bool {
    &&& transport::handshake_expects(at, event)
    &&& event is Parsed && event->Parsed_0 is Ok ==> link.sequence < u64::MAX
    &&& call_ensures(transport::initialize_after, (at, link, event), (after, step))
}

/// What the greeting does next is what the point where it stands waits for, and it has ended
/// exactly if there is nothing more to do.
pub proof fn law_greeting_asks_for_what_it_waits_for(
    at: Handshake,
    link: &mut Link,
    event: HandshakeEvent,
    after: Handshake,
    step: HandshakeStep,
)
    requires
        greeting_step(at, link, event, after, step),
    ensures
        match step.next {
            HandshakeNext::Request { .. } => false,
            HandshakeNext::Read => after is Reading,
            HandshakeNext::Parse(_) => after is Parsing,
            HandshakeNext::Deliver(number) => after matches Handshake::Delivering { sequence, .. }
                && sequence == number,
            HandshakeNext::Notify { .. } => after is Confirming,
            HandshakeNext::Done(_) => after is Finished,
        },
{
}

/// The answer that the greeting waits for: the response to request 0.
pub open spec fn answers_the_greeting(frame: Frame) -> bool {
    frame matches Frame::Response { id: RpcId::Number(number), .. } && number == 0
}

/// Each frame that is read during the greeting is numbered next and passed on. It accepts the
/// greeting exactly if it is the response to request 0 and holds no error, and rejects it exactly if
/// it is that response and holds one.
pub proof fn law_greeting_is_decided_by_its_answer(
    at: Handshake,
    link: &mut Link,
    event: HandshakeEvent,
    after: Handshake,
    step: HandshakeStep,
)
    requires
        greeting_step(at, link, event, after, step),
    ensures
        step.next is Deliver <==> (event matches HandshakeEvent::Parsed(Ok(_))),
        final(link).sequence == old(link).sequence + if step.next is Deliver {
            1int
        } else {
            0
        },
        final(link).attempts == old(link).attempts,
        final(link).backoff == old(link).backoff,
        final(link).stage == old(link).stage,
        final(link).retry_initial == old(link).retry_initial,
        final(link).retry_max == old(link).retry_max,
        event matches HandshakeEvent::Parsed(Ok(frame)) ==> {
            &&& after matches Handshake::Delivering { sequence, verdict }
            &&& sequence == old(link).sequence + 1
            &&& verdict is Accepted <==> answers_the_greeting(frame) && frame->error is None
            &&& verdict is Rejected <==> answers_the_greeting(frame) && frame->error is Some
        },
{
}

/// The greeting is confirmed exactly after an accepting answer has been passed on, and succeeds
/// exactly when the confirmation has been written. A frame that decides nothing, or a message with
/// nothing in it, leads to the next one. What is known is published exactly when a frame has been
/// passed on, with the number of that frame.
pub proof fn law_greeting_is_confirmed_once_accepted(
    at: Handshake,
    link: &mut Link,
    event: HandshakeEvent,
    after: Handshake,
    step: HandshakeStep,
)
    requires
        greeting_step(at, link, event, after, step),
    ensures
        step.next is Notify <==> event == HandshakeEvent::Delivered(true) && (at
            matches Handshake::Delivering { verdict, .. } && verdict is Accepted),
        step.next matches HandshakeNext::Notify { method, params } ==> method@ == "initialized"@
            && params@ == JsonView::Object(Map::empty()),
        (step.next matches HandshakeNext::Done(Ok(_))) <==> at is Confirming && (event
            matches HandshakeEvent::Written(Ok(_))),
        step.next is Read <==> (at is Requesting && (event matches HandshakeEvent::Written(Ok(_))))
            || (event matches HandshakeEvent::Read(message) && rpc::message_reads(message) == Ok::<
            Option<JsonView>,
            Seq<char>,
        >(None)) || (event == HandshakeEvent::Delivered(true) && (at
            matches Handshake::Delivering { verdict, .. } && verdict is Unrelated)),
        step.next is Parse <==> (event matches HandshakeEvent::Read(message)
            && rpc::message_reads(message) is Ok && rpc::message_reads(message)->Ok_0 is Some),
        step.next matches HandshakeNext::Parse(value) ==> rpc::message_reads(event->Read_0) == Ok::<
            Option<JsonView>,
            Seq<char>,
        >(Some(value@)),
        step.health is Some <==> event == HandshakeEvent::Delivered(true),
        step.health matches Some(health) ==> health.phase is Handshaking && health.detail is None
            && health.reconnect_attempts == old(link).attempts && health.last_frame_sequence
            == at->Delivering_sequence,
{
}

/// The greeting fails exactly when something could not be written, read, taken for a frame or
/// passed on, when no message came in time or the connection ended, and when the daemon rejected
/// it; and it says which.
pub proof fn law_greeting_says_why_it_failed(
    at: Handshake,
    link: &mut Link,
    event: HandshakeEvent,
    after: Handshake,
    step: HandshakeStep,
)
    requires
        greeting_step(at, link, event, after, step),
    ensures
        (step.next matches HandshakeNext::Done(Err(_))) <==> match event {
            HandshakeEvent::Written(result) => result is Err,
            HandshakeEvent::TimedOut | HandshakeEvent::Ended => true,
            HandshakeEvent::ReadFailed(_) => true,
            HandshakeEvent::Read(message) => rpc::message_reads(message) is Err,
            HandshakeEvent::Parsed(result) => result is Err,
            HandshakeEvent::Delivered(passed) => !passed || (at matches Handshake::Delivering {
                verdict,
                ..
            } && verdict is Rejected),
        },
        step.next matches HandshakeNext::Done(Err(words)) ==> words@ == match event {
            HandshakeEvent::Written(result) => result->Err_0@,
            HandshakeEvent::TimedOut => "initialize response timed out"@,
            HandshakeEvent::Ended => "socket closed during initialize"@,
            HandshakeEvent::ReadFailed(error) => error@,
            HandshakeEvent::Read(message) => rpc::message_reads(message)->Err_0,
            HandshakeEvent::Parsed(result) => result->Err_0@,
            HandshakeEvent::Delivered(passed) => if passed {
                "initialize rejected"@
            } else {
                "authoritative ingress closed"@
            },
        },
{
}

/// A text and a binary message hold a value or end the connection, a closing message ends it, and
/// any other message holds nothing.
pub proof fn law_messages_hold_values_or_nothing(
    message: WireMessage,
    reading: Result<Option<Json>, String>,
)
    requires
        call_ensures(rpc::message_json, (&message,), reading),
    ensures
        match message {
            WireMessage::Text(text) => match json::json_of_text(text@) {
                Ok(value) => reading matches Ok(Some(read)) && read@ == value,
                Err(words) => reading matches Err(said) && said@ == words,
            },
            WireMessage::Binary(bytes) => match json::json_of_bytes(bytes@) {
                Ok(value) => reading matches Ok(Some(read)) && read@ == value,
                Err(words) => reading matches Err(said) && said@ == words,
            },
            WireMessage::Close => reading matches Err(said) && said@ == "peer closed websocket"@,
            WireMessage::Ping(_) | WireMessage::Pong | WireMessage::Frame => reading matches Ok(
                None,
            ),
        },
{
}

/// While there is no connection, a request is answered that it was not written, and why; a
/// notification is dropped; a caller that marks a reconciliation is told that it is done; and a
/// shutdown, or the end of all commands, ends the connection. Nothing else ends it.
pub proof fn law_commands_are_refused_without_a_connection<R, D>(
    command: Option<Command<R, D>>,
    detail: &str,
    refusal: Refusal<R, D>,
    stops: bool,
)
    requires
        call_ensures(transport::reject_while_disconnected::<R, D>, (command, detail), refusal),
        call_ensures(Refusal::<R, D>::stops, (&refusal,), stops),
    ensures
        stops <==> command is None || command->Some_0 is Shutdown,
        match command {
            Some(Command::Request { response, .. }) => refusal matches Refusal::Answer {
                response: told,
                error,
            } && told == response && error@ == RequestErrorView::NotWritten(detail@),
            Some(Command::Notify { .. }) => refusal is Ignore,
            Some(Command::Reconciled { done }) => refusal matches Refusal::Confirm(told) && told
                == done,
            Some(Command::Shutdown { done }) => refusal matches Refusal::Stop(told) && told
                == Some(done),
            None => refusal matches Refusal::Stop(told) && told is None,
        },
{
}

/// While the connection is in use, a request is written as it is, a reconciliation opens the
/// barrier and publishes that the connection is ready, and only a shutdown or the end of all
/// commands ends the use.
pub proof fn law_commands_act_on_a_connection_in_use<R, D>(
    link: Link,
    command: Option<Command<R, D>>,
    step: CommandStep<R, D>,
)
    requires
        call_ensures(transport::drive_command::<R, D>, (&link, command), step),
    ensures
        step is Exit <==> command is None || command->Some_0 is Shutdown,
        step is Open <==> command is Some && command->Some_0 is Reconciled,
        step is Write <==> command is Some && command->Some_0 is Request,
        step is Notify <==> command is Some && command->Some_0 is Notify,
        match step {
            CommandStep::Write { id, method, params, response } => command == Some(
                Command::<R, D>::Request { id, method, params, response },
            ),
            CommandStep::Notify { method, params } => command == Some(
                Command::<R, D>::Notify { method, params },
            ),
            CommandStep::Open { health, done } => command == Some(
                Command::<R, D>::Reconciled { done },
            ) && health.phase is Connected && health.reconnect_attempts == link.attempts
                && health.last_frame_sequence == link.sequence && health.detail is None,
            CommandStep::Exit(exit) => match command {
                None => exit is CommandsClosed,
                Some(command) => exit matches DriveExit::Shutdown(done) && command
                    == Command::<R, D>::Shutdown { done },
            },
        },
{
}

/// A notification or a ping that cannot be written ends the use as a failure; frames that nobody
/// takes end it for good; and nothing else does.
pub proof fn law_use_ends_when_nothing_can_be_written<D>(
    notified: Result<(), String>,
    after_notifying: Option<DriveExit<D>>,
    pinged: bool,
    after_pinging: Option<DriveExit<D>>,
    delivered: bool,
    after_delivering: Option<DriveExit<D>>,
)
    requires
        call_ensures(transport::drive_notified::<D>, (notified,), after_notifying),
        call_ensures(transport::drive_pinged::<D>, (pinged,), after_pinging),
        call_ensures(transport::drive_delivered::<D>, (delivered,), after_delivering),
    ensures
        match notified {
            Ok(_) => after_notifying is None,
            Err(error) => after_notifying matches Some(DriveExit::Disconnected(detail)) && detail@
                == error@,
        },
        if pinged {
            after_pinging is None
        } else {
            after_pinging matches Some(DriveExit::Disconnected(detail)) && detail@
                == "ping write failed"@
        },
        if delivered {
            after_delivering is None
        } else {
            after_delivering matches Some(DriveExit::CommandsClosed)
        },
{
}

/// The use of a connection begins with no request waiting.
pub proof fn law_use_begins_without_requests<R>(now: Nanos, drive: Drive<R>)
    requires
        call_ensures(Drive::<R>::new, (now,), drive),
    ensures
        drive.last_read == now,
        forall|id: RpcIdView| !(#[trigger] drive.pending@.contains_key(id)),
{
}

/// A request waits for its answer exactly from when it was written: it is then found under its
/// identifier, with its method and its caller, and no other request is touched. One that could not
/// be written does not wait, and its caller learns that it was not written.
pub proof fn law_written_requests_wait<R>(
    drive: &mut Drive<R>,
    id: RpcId,
    method: String,
    response: R,
    written: Result<(), String>,
    failure: Option<WriteFailure<R>>,
)
    requires
        drive.valid(),
        call_ensures(Drive::<R>::request_written, (drive, id, method, response, written), failure),
    ensures
        final(drive).last_read == old(drive).last_read,
        forall|other: RpcIdView|
            other != id@ ==> (#[trigger] final(drive).pending@.contains_key(other)
                <==> old(drive).pending@.contains_key(other)),
        forall|other: RpcIdView|
            other != id@ && old(drive).pending@.contains_key(other)
                ==> #[trigger] final(drive).pending@[other] == old(drive).pending@[other],
        match written {
            Ok(_) => {
                &&& failure is None
                &&& final(drive).pending@.contains_key(id@)
                &&& final(drive).pending@[id@].method == method
                &&& final(drive).pending@[id@].response == response
            },
            Err(error) => {
                &&& failure matches Some(failed)
                &&& failed.response == response
                &&& failed.error@ == RequestErrorView::NotWritten(error@)
                &&& failed.detail@ == error@
                &&& final(drive).pending@.contains_key(id@) == old(drive).pending@.contains_key(id@)
            },
        },
{
}

/// A frame with an identifier under which a request waits answers that request, once: the request
/// no longer waits. It fails exactly if the frame holds an error, and else succeeds with the frame's
/// result, or with null where it has none. Other requests go on waiting, and a frame that answers
/// nothing, or is none, changes none.
pub proof fn law_frames_answer_the_request_that_waits<R>(
    drive: &mut Drive<R>,
    link: &mut Link,
    parsed: Result<Frame, String>,
    step: Option<FrameStep<R>>,
)
    requires
        drive.valid(),
        parsed is Ok ==> link.sequence < u64::MAX,
        call_ensures(Drive::<R>::take_frame, (drive, link, parsed), step),
    ensures
        step is Some <==> parsed is Ok,
        final(link).sequence == old(link).sequence + if parsed is Ok {
            1int
        } else {
            0
        },
        final(link).attempts == old(link).attempts,
        final(link).backoff == old(link).backoff,
        final(link).stage == old(link).stage,
        final(link).retry_initial == old(link).retry_initial,
        final(link).retry_max == old(link).retry_max,
        final(drive).last_read == old(drive).last_read,
        step matches Some(taken) ==> taken.sequence == final(link).sequence,
        forall|id: RpcIdView| #[trigger]
            final(drive).pending@.contains_key(id) <==> old(drive).pending@.contains_key(id) && !(
            parsed matches Ok(Frame::Response { id: answered, .. }) && answered@ == id),
        forall|id: RpcIdView|
            final(drive).pending@.contains_key(id) ==> #[trigger] final(drive).pending@[id]
                == old(drive).pending@[id],
        step is Some ==> (step->Some_0.answer is Some <==> (parsed matches Ok(
            Frame::Response { id, .. },
        ) && old(drive).pending@.contains_key(id@))),
        step is Some && step->Some_0.answer is Some ==> {
            &&& parsed matches Ok(Frame::Response { id, result, error })
            &&& step->Some_0.answer matches Some((told, reply))
            &&& told == old(drive).pending@[id@].response
            &&& match error {
                Some(error) => reply matches Err(failed) && failed@ == (
                RequestErrorView::Rejected {
                    method: old(drive).pending@[id@].method@,
                    error: error@,
                }),
                None => reply matches Ok(value) && value@ == match result {
                    Some(result) => result@,
                    None => JsonView::Null,
                },
            }
        },
{
    if let Ok(Frame::Response { id, result, error }) = parsed {
        if old(drive).pending@.contains_key(id@) {
            let (told, reply) = step->Some_0.answer->Some_0;
            assert(rpc::reply_view(reply) == transport::answer_of(
                old(drive).pending@[id@].method@,
                result,
                error,
            ));
        }
    }
}

/// A message shows that the connection lives, and nothing else does. A ping is answered with its
/// own payload; the end of the stream and its failures end the connection, and so does a message
/// that cannot be read.
pub proof fn law_only_messages_show_life<R>(
    drive: &mut Drive<R>,
    now: Nanos,
    event: StreamEvent,
    step: MessageStep,
)
    requires
        call_ensures(Drive::<R>::receive, (drive, now, event), step),
    ensures
        final(drive).pending == old(drive).pending,
        final(drive).last_read == match event {
            StreamEvent::Message(_) => now,
            StreamEvent::Ended | StreamEvent::Failed(_) => old(drive).last_read,
        },
        match event {
            StreamEvent::Ended => step matches MessageStep::Disconnect(detail) && detail@
                == "websocket stream ended"@,
            StreamEvent::Failed(error) => step matches MessageStep::Disconnect(detail) && detail@
                == error@,
            StreamEvent::Message(WireMessage::Ping(payload)) => step matches MessageStep::Pong(
                sent,
            ) && sent@ == payload@,
            StreamEvent::Message(message) => match rpc::message_reads(message) {
                Ok(Some(value)) => step matches MessageStep::Parse(read) && read@ == value,
                Ok(None) => step is Ignore,
                Err(words) => step matches MessageStep::Disconnect(detail) && detail@ == words,
            },
        },
{
}

/// How long a connection has been silent.
pub open spec fn silence(last_read: Nanos, now: Nanos) -> int {
    if now > last_read {
        now - last_read
    } else {
        0
    }
}

/// A connection is left alone as long as its silence is shorter than the timeout, asked for a sign
/// of life from then on, and given up exactly when the silence has lasted twice as long.
pub proof fn law_silence_is_broken_at_the_timeout<R>(
    drive: Drive<R>,
    now: Nanos,
    timeout: Nanos,
    step: TickStep,
)
    requires
        now <= LONGEST,
        timeout * 2 <= LONGEST,
        call_ensures(Drive::<R>::tick, (&drive, now, timeout), step),
    ensures
        step is Rest <==> silence(drive.last_read, now) < timeout,
        step is Ping <==> timeout <= silence(drive.last_read, now) < timeout * 2,
        step is Disconnect <==> silence(drive.last_read, now) >= timeout * 2,
        step matches TickStep::Disconnect(detail) ==> detail@ == "read idle for "@
            + transport::span_words(
            (silence(drive.last_read, now) / 1_000_000_000) as u64,
            (silence(drive.last_read, now) % 1_000_000_000) as u32,
        ),
{
}

/// The clock ticks twice in the time that a connection may be silent, but never faster than every
/// twenty milliseconds.
pub proof fn law_ticks_come_twice_in_the_timeout(config: TransportConfig, span: Nanos)
    requires
        call_ensures(transport::tick_interval, (&config,), span),
    ensures
        span >= 20_000_000,
        config.read_idle_timeout >= 40_000_000 ==> span * 2 <= config.read_idle_timeout < span * 2
            + 2,
        config.read_idle_timeout < 40_000_000 ==> span == 20_000_000,
{
}

/// When the use of a connection ends, every request that waits, and no other, is told that its
/// outcome is unknown, under its own identifier and method; and the reason is the failure where it
/// was one, and else that the connection was closed.
pub proof fn law_waiting_requests_learn_that_the_outcome_is_unknown<R, D>(
    drive: Drive<R>,
    exit: DriveExit<D>,
    told: Vec<(R, RequestError)>,
)
    requires
        drive.valid(),
        call_ensures(Drive::<R>::finish::<D>, (drive, &exit), told),
    ensures
        forall|i: int|
            0 <= i < told@.len() ==> {
                &&& (#[trigger] told@[i]).1@ matches RequestErrorView::WrittenOutcomeUnknown {
                    id,
                    method,
                    detail,
                }
                &&& drive.pending@.contains_key(id)
                &&& told@[i].0 == drive.pending@[id].response
                &&& method == drive.pending@[id].method@
                &&& detail == match exit {
                    DriveExit::Disconnected(words) => words@,
                    DriveExit::Shutdown(_) | DriveExit::CommandsClosed => "connection closed"@,
                }
            },
        forall|id: RpcIdView| #[trigger]
            drive.pending@.contains_key(id) ==> exists|i: int|
                0 <= i < told@.len() && (#[trigger] told@[i]).1@->id == id,
{
    drive.pending.lemma_rows();
    let rows = drive.pending.rows();
    assert forall|id: RpcIdView| #[trigger] drive.pending@.contains_key(id) implies exists|i: int|
        0 <= i < told@.len() && (#[trigger] told@[i]).1@->id == id by {
        let i = choose|i: int|
            0 <= i < drive.pending.rows().len() && (#[trigger] drive.pending.rows()[i]).0.form()
                == id;
        assert(told@[i].1@->id == id);
    }
    assert forall|i: int| 0 <= i < told@.len() implies drive.pending@.contains_key(
        (#[trigger] told@[i]).1@->id,
    ) && told@[i].0 == drive.pending@[told@[i].1@->id].response by {
        assert(drive.pending@.contains_key(rows[i].0.form()));
    }
}

/// A caller learns what became of its request: an answer as it is, a timeout under the method, and
/// that the connection is closed where nobody took the request or nothing came back.
pub proof fn law_callers_learn_what_became_of_a_request(
    method: &str,
    waited: Waited,
    reply: Reply,
)
    requires
        call_ensures(transport::conclude_request, (method, waited), reply),
    ensures
        match waited {
            Waited::Answered(answer) => reply == answer,
            Waited::Elapsed => reply matches Err(error) && error@ == (RequestErrorView::TimedOut {
                method: method@,
            }),
            Waited::Refused | Waited::Dropped => reply matches Err(error) && error@
                == RequestErrorView::Closed,
        },
{
}

/// A request that acts is admitted exactly if the barrier is open, and any other request always.
/// Only what is admitted uses up an identifier, and so no two requests in a row share one.
pub proof fn law_acting_requests_need_the_open_barrier<I>(
    handle: &mut TransportHandle<I>,
    action: bool,
    admitted: Result<RpcId, RequestError>,
)
    requires
        call_ensures(TransportHandle::<I>::admit_request, (handle, action), admitted),
    ensures
        admitted is Ok <==> !action || old(handle).barrier(),
        admitted matches Ok(id) ==> id == RpcId::Number(old(handle).next()) && final(handle).next()
            != old(handle).next() && final(handle).next() == if old(handle).next() < u64::MAX {
            old(handle).next() + 1
        } else {
            0
        },
        admitted matches Err(error) ==> error@ == RequestErrorView::NotWritten(
            "reconciliation gate is closed"@,
        ) && final(handle).next() == old(handle).next(),
        final(handle).barrier() == old(handle).barrier(),
        final(handle).held() == old(handle).held(),
{
}

/// The news of a reconciliation counts only where it was confirmed, and where nobody took it the
/// barrier closes again.
pub proof fn law_unconfirmed_reconciliations_fail<I>(
    handle: &mut TransportHandle<I>,
    marking: Marking,
    result: Result<(), RequestError>,
)
    requires
        call_ensures(TransportHandle::<I>::mark_reconciled, (handle, marking), result),
    ensures
        result is Ok <==> marking is Done,
        result matches Err(error) ==> error@ == RequestErrorView::Closed,
        marking is Refused ==> !final(handle).barrier(),
        !(marking is Refused) ==> final(handle).barrier() == old(handle).barrier(),
        final(handle).next() == old(handle).next(),
        final(handle).held() == old(handle).held(),
{
}

/// The receiver of what arrives is handed out once: the first to ask gets it, and nobody after.
pub proof fn law_receiver_is_handed_out_once<I>(
    handle: &mut TransportHandle<I>,
    again: &mut TransportHandle<I>,
    first: Option<I>,
    second: Option<I>,
)
    requires
        call_ensures(TransportHandle::<I>::take_ingress, (handle,), first),
        *old(again) == *final(handle),
        call_ensures(TransportHandle::<I>::take_ingress, (again,), second),
    ensures
        first == old(handle).held(),
        second is None,
        final(again).barrier() == old(handle).barrier(),
        final(again).next() == old(handle).next(),
{
}

/// A handle begins with a closed barrier, the receiver, and request 1.
pub proof fn law_handles_begin_closed<I>(ingress: I, handle: TransportHandle<I>)
    requires
        call_ensures(TransportHandle::<I>::new, (ingress,), handle),
    ensures
        handle.next() == 1,
        !handle.barrier(),
        handle.held() == Some(ingress),
{
}

/// The barrier is open exactly if it was last opened, and opening or closing it changes nothing
/// else.
pub proof fn law_barrier_is_as_it_was_set<I>(
    handle: &mut TransportHandle<I>,
    open: bool,
    seen: bool,
)
    requires
        call_ensures(TransportHandle::<I>::set_barrier, (handle, open), ()),
        call_ensures(TransportHandle::<I>::is_reconciled, (final(handle),), seen),
    ensures
        seen == open,
        final(handle).held() == old(handle).held(),
        final(handle).next() == old(handle).next(),
{
}

/// The configuration for a home directory keeps the socket under that directory, or under one that
/// holds nothing where there is none.
pub proof fn law_connection_is_configured_for_the_home(
    home: Option<FilePath>,
    version: &str,
    config: TransportConfig,
)
    requires
        call_ensures(TransportConfig::for_home, (home, version), config),
    ensures
        config.socket_path@ == path::joined(
            match home {
                Some(home) => home@,
                None => encode_utf8("/var/empty"@),
            },
            encode_utf8(".codex/app-server-control/app-server-control.sock"@),
        ),
        config.connect_timeout == 3_000_000_000,
        config.read_idle_timeout == 30_000_000_000,
        config.request_timeout == 15_000_000_000,
        config.retry_initial == 100_000_000,
        config.retry_max == 5_000_000_000,
        config.max_incoming_bytes == 256 * 1024 * 1024,
        config.client_name@ == "codex-control"@,
        config.client_version@ == version@,
{
}

/// The words of a request's failure begin with what kind it is and go on with what it carries.
pub proof fn law_request_failures_say_what_happened(error: RequestError, words: String)
    requires
        call_ensures(RequestError::message, (&error,), words),
    ensures
        words@ == match error {
            RequestError::NotWritten(detail) => "request was not written: "@ + detail@,
            RequestError::WrittenOutcomeUnknown { id, method, detail } => "request "@ + method@
                + " ("@ + rpc::shown_id(id@) + ") was written but its outcome is unknown: "@
                + detail@,
            RequestError::Rejected { method, error } => "request "@ + method@ + " was rejected: "@
                + json::text_of_json(error@),
            RequestError::TimedOut { method } =>
            "request timed out after it may have been written: "@ + method@,
            RequestError::Closed => "transport is shut down"@,
        },
{
}

/// What a reading of a message leads to, during the greeting and in use: a value is taken for a frame,
/// nothing leads to the next message, and what ends the connection does so with its words.
pub proof fn law_readings_lead_to_frames(
    reading: Result<Option<Json>, String>,
    greeting: (Handshake, HandshakeNext),
    used: MessageStep,
)
    requires
        call_ensures(transport::initialize_after_reading, (reading,), greeting),
        call_ensures(transport::read_step, (reading,), used),
    ensures
        match reading {
            Ok(Some(value)) => {
                &&& greeting.0 is Parsing
                &&& greeting.1 matches HandshakeNext::Parse(read) && read@ == value@
                &&& used matches MessageStep::Parse(read) && read@ == value@
            },
            Ok(None) => greeting.0 is Reading && greeting.1 is Read && used is Ignore,
            Err(words) => {
                &&& greeting.0 is Finished
                &&& greeting.1 matches HandshakeNext::Done(end) && (end matches Err(said) && said@
                    == words@)
                &&& used matches MessageStep::Disconnect(said) && said@ == words@
            },
        },
{
}

/// A connection of which nothing is known is being made; and a frame changes of its health nothing
/// but the number of the last frame.
pub proof fn law_frames_change_only_their_number(
    nothing: Health,
    health: Health,
    sequence: u64,
    later: Health,
)
    requires
        call_ensures(Health::default, (), nothing),
        call_ensures(Health::after_frame, (health, sequence), later),
    ensures
        nothing.phase is Connecting,
        nothing.reconnect_attempts == 0,
        nothing.last_frame_sequence == 0,
        nothing.detail is None,
        later.last_frame_sequence == sequence,
        later.phase == health.phase,
        later.reconnect_attempts == health.reconnect_attempts,
        later.detail == health.detail,
{
}

} // verus!
