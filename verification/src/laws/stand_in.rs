//! What the stand-in for the daemon promises.

use crate::json;
use crate::json::{Json, JsonView};
use crate::laws::discovery;
use crate::mock;
use crate::mock::{Fault, MockAppServer, MockStep, MockThread};
use crate::rpc;
use crate::rpc::WireMessage;
use vstd::prelude::*;
use vstd::utf8::*;

verus! {

/// A thread as the stand-in speaks of it: its turn, where it has one, has the status of the thread.
pub open spec fn speaks_of(thread: MockThread) -> JsonView {
    JsonView::Object(
        map![
            "id"@ => JsonView::Text(thread.id@),
            "cwd"@ => JsonView::Text(decode_utf8(thread.cwd@)),
            "status"@ => JsonView::Object(map!["type"@ => JsonView::Text(thread.status@)]),
            "turns"@ => JsonView::Array(
                match thread.turn_id {
                    Some(id) => seq![
                        JsonView::Object(map![
                            "id"@ => JsonView::Text(id@),
                            "status"@ => JsonView::Text(thread.status@),
                        ]),
                    ],
                    None => Seq::empty(),
                }
            ),
            "ephemeral"@ => JsonView::Bool(thread.ephemeral),
            "updatedAt"@ => JsonView::Number(thread.updated_at),
        ],
    )
}

/// The stand-in speaks of a thread by everything that it knows of it.
pub proof fn law_threads_are_spoken_of_in_full(thread: MockThread, json: Json)
    requires
        valid_utf8(thread.cwd@),
        call_ensures(MockThread::json, (&thread,), json),
    ensures
        json@ == speaks_of(thread),
        mock::thread_view(thread) == speaks_of(thread),
{
}

/// What an object holds under `key`, or null.
pub open spec fn under(value: JsonView, key: Seq<char>) -> JsonView {
    match value {
        JsonView::Object(members) => if members.contains_key(key) {
            members[key]
        } else {
            JsonView::Null
        },
        _ => JsonView::Null,
    }
}

/// Whether an object holds anything under `key`.
pub open spec fn has_member(value: JsonView, key: Seq<char>) -> bool {
    value matches JsonView::Object(members) && members.contains_key(key)
}

/// An answer to the request `id`, with one member more.
pub open spec fn answer_to(id: JsonView, key: Seq<char>, value: JsonView) -> JsonView {
    JsonView::Object(map!["jsonrpc"@ => JsonView::Text("2.0"@), "id"@ => id, key => value])
}

/// The error with which a request is refused.
pub open spec fn refuses_with(message: Seq<char>) -> JsonView {
    JsonView::Object(
        map!["code"@ => JsonView::Negative(-32000 as i64), "message"@ => JsonView::Text(message)],
    )
}

/// The thread that a request names.
pub open spec fn names_thread(params: JsonView) -> Seq<char> {
    match under(params, "threadId"@) {
        JsonView::Text(id) => id,
        _ => Seq::empty(),
    }
}

/// Whether requests of `method` are still to fail.
pub open spec fn is_to_fail(server: MockAppServer, method: Seq<char>) -> bool {
    server.request_failures@.contains_key(method) && server.request_failures@[method] > 0
}

/// A row of values has each known thread once, the last changed first: `order` says which thread
/// stands where.
pub open spec fn lists_in_order(
    rows: Seq<(String, MockThread)>,
    data: Seq<JsonView>,
    order: Seq<int>,
) -> bool {
    &&& data.len() == rows.len()
    &&& order.len() == rows.len()
    &&& forall|i: int| 0 <= i < order.len() ==> 0 <= #[trigger] order[i] < rows.len()
    &&& forall|i: int, j: int|
        0 <= i < j < order.len() ==> #[trigger] order[i] != #[trigger] order[j]
            && rows[order[i]].1.updated_at >= rows[order[j]].1.updated_at
    &&& forall|i: int| 0 <= i < data.len() ==> #[trigger] data[i] == speaks_of(rows[order[i]].1)
}

/// A row of values has each known thread once, the last changed first.
pub open spec fn lists_every_thread(rows: Seq<(String, MockThread)>, data: Seq<JsonView>) -> bool {
    exists|order: Seq<int>| lists_in_order(rows, data, order)
}

/// What the stand-in answers to a request that it does not refuse.
pub open spec fn grants(
    server: MockAppServer,
    method: Seq<char>,
    params: JsonView,
    result: JsonView,
) -> bool {
    if method == "initialize"@ {
        result == JsonView::Object(
            map![
                "serverInfo"@ => JsonView::Object(map![
                    "name"@ => JsonView::Text("mock"@),
                    "version"@ => JsonView::Text("0.144.6"@),
                ]),
            ],
        )
    } else if method == "thread/list"@ {
        exists|data: Seq<JsonView>| #[trigger]
            lists_every_thread(server.threads.rows(), data) && result == JsonView::Object(
                map!["data"@ => JsonView::Array(data), "nextCursor"@ => JsonView::Null],
            )
    } else if method == "thread/read"@ || method == "thread/resume"@ {
        result == JsonView::Object(
            map![
                "thread"@ => if server.threads@.contains_key(names_thread(params)) {
                    speaks_of(server.threads@[names_thread(params)])
                } else {
                    JsonView::Object(map![
                        "id"@ => JsonView::Text(names_thread(params)),
                        "cwd"@ => JsonView::Text("/mock/project"@),
                        "status"@ => JsonView::Object(map!["type"@ => JsonView::Text("idle"@)]),
                        "turns"@ => JsonView::Array(Seq::empty()),
                        "ephemeral"@ => JsonView::Bool(false),
                        "updatedAt"@ => JsonView::Number(0),
                    ])
                },
            ],
        )
    } else if method == "thread/subscribe"@ {
        result == JsonView::Object(
            map!["subscriptionId"@ => JsonView::Text("sub-"@ + names_thread(params))],
        )
    } else if method == "thread/unsubscribe"@ {
        result == JsonView::Object(map!["status"@ => JsonView::Text("unsubscribed"@)])
    } else if method == "skills/list"@ {
        result == JsonView::Object(
            map![
                "data"@ => JsonView::Array(seq![
                    JsonView::Object(map![
                        "cwd"@ => match under(params, "cwds"@) {
                            JsonView::Array(cwds) if cwds.len() > 0 => cwds[0],
                            _ => JsonView::Text("/mock/project"@),
                        },
                        "skills"@ => JsonView::Array(Seq::empty()),
                        "errors"@ => JsonView::Array(Seq::empty()),
                    ]),
                ]),
            ],
        )
    } else if method == "turn/start"@ {
        result == JsonView::Object(
            map!["turn"@ => JsonView::Object(map!["id"@ => JsonView::Text("mock-turn"@)])],
        )
    } else if method == "turn/steer"@ {
        result == JsonView::Object(map!["turnId"@ => under(params, "expectedTurnId"@)])
    } else {
        result == JsonView::Object(Map::empty())
    }
}

/// What the stand-in answers to a message: nothing, unless it has an identity and names a method.
/// A request whose method is to fail, or to resume a thread where that is to fail, is refused.
pub open spec fn replies(
    server: MockAppServer,
    value: JsonView,
    response: Option<JsonView>,
) -> bool {
    if !has_member(value, "id"@) || !(under(value, "method"@) is Text) {
        response is None
    } else {
        let id = under(value, "id"@);
        let method = under(value, "method"@)->Text_0;
        if is_to_fail(server, method) {
            response == Some(answer_to(id, "error"@, refuses_with("mock request failure"@)))
        } else if method == "thread/resume"@ && server.resume_failures_remaining > 0 {
            response == Some(answer_to(id, "error"@, refuses_with("no rollout found"@)))
        } else {
            exists|result: JsonView|
                grants(server, method, under(value, "params"@), result) && response == Some(
                    #[trigger] answer_to(id, "result"@, result),
                )
        }
    }
}

/// Each refusal uses up one of the failures that it is for, and no other.
pub open spec fn uses_up_failures(
    before: MockAppServer,
    value: JsonView,
    after: MockAppServer,
) -> bool {
    let asks = has_member(value, "id"@) && under(value, "method"@) is Text;
    let method = under(value, "method"@)->Text_0;
    &&& after.resume_failures_remaining == before.resume_failures_remaining - if asks && !is_to_fail(
        before,
        method,
    ) && method == "thread/resume"@ && before.resume_failures_remaining > 0 {
        1int
    } else {
        0
    }
    &&& forall|other: Seq<char>| #[trigger]
        after.request_failures@.contains_key(other) == before.request_failures@.contains_key(other)
    &&& forall|other: Seq<char>|
        before.request_failures@.contains_key(other)
            ==> #[trigger] after.request_failures@[other] == before.request_failures@[other] - if asks
            && other == method && before.request_failures@[other] > 0 {
            1int
        } else {
            0
        }
}

proof fn lemma_replies(
    before: MockAppServer,
    value: JsonView,
    after: MockAppServer,
    response: Option<JsonView>,
)
    requires
        mock::request_follows(before, value, after, response),
    ensures
        replies(before, value, response),
        uses_up_failures(before, value, after),
{
    let params = mock::member_or_null(value, "params"@);
    assert(params == under(value, "params"@));
    if let (Some(id), Some(method)) = (value.member("id"@), value.member_text("method"@)) {
        let envelope = mock::envelope().with("id"@, id);
        assert(forall|key: Seq<char>, said: JsonView|
            #![trigger answer_to(id, key, said)]
            envelope.with(key, said) == answer_to(id, key, said));
        if !is_to_fail(before, method) && !(method == "thread/resume"@
            && before.resume_failures_remaining > 0) {
            let result = choose|result: JsonView| #[trigger]
                mock::answers(before, method, params, result) && response == Some(
                    envelope.with("result"@, result),
                );
            lemma_grants(before, method, params, result);
            assert(response == Some(answer_to(id, "result"@, result)));
        } else {
            let refused = mock::refusal_view(
                if is_to_fail(before, method) {
                    "mock request failure"@
                } else {
                    "no rollout found"@
                },
            );
            assert(answer_to(id, "error"@, refused) == envelope.with("error"@, refused));
        }
    }
}

proof fn lemma_grants(
    server: MockAppServer,
    method: Seq<char>,
    params: JsonView,
    result: JsonView,
)
    requires
        mock::answers(server, method, params, result),
    ensures
        grants(server, method, params, result),
{
    assert(mock::text_or_empty(params, "threadId"@) == names_thread(params));
    if method == "thread/list"@ && method != "initialize"@ {
        let threads = mock::known_threads(server.threads.rows());
        let order = choose|order: Seq<int>| #[trigger]
            mock::newest_first(threads, order) && result == JsonView::object().with(
                "data"@,
                JsonView::Array(mock::views_at(threads, order)),
            ).with("nextCursor"@, JsonView::Null);
        let data = mock::views_at(threads, order);
        let rows = server.threads.rows();
        assert forall|i: int| 0 <= i < rows.len() implies threads[i] == (#[trigger] rows[i]).1 by {}
        assert forall|i: int| 0 <= i < data.len() implies #[trigger] data[i] == speaks_of(
            rows[order[i]].1,
        ) by {
            assert(data[i] == mock::thread_view(threads[order[i]]));
        }
        assert forall|i: int, j: int| 0 <= i < j < order.len() implies #[trigger] order[i]
            != #[trigger] order[j] && rows[order[i]].1.updated_at >= rows[order[j]].1.updated_at by {
            assert(threads[order[i]].updated_at >= threads[order[j]].updated_at);
        }
        assert(lists_in_order(rows, data, order));
        assert(lists_every_thread(rows, data));
    }
}

/// A request is answered under its own identity, with a result or with an error. It is refused
/// exactly as often as was asked for, and each refusal uses up one. Nothing else of the stand-in
/// changes.
pub proof fn law_requests_are_answered_or_refused(
    server: &mut MockAppServer,
    value: Json,
    response: Option<Json>,
)
    requires
        server.valid(),
        call_ensures(MockAppServer::handle_request, (server, &value), response),
    ensures
        replies(
            *old(server),
            value@,
            match response {
                Some(response) => Some(response@),
                None => None,
            },
        ),
        uses_up_failures(*old(server), value@, *final(server)),
        final(server).threads == old(server).threads,
        final(server).received == old(server).received,
        final(server).fault == old(server).fault,
        final(server).next_server_id == old(server).next_server_id,
        final(server).responses_to_server_requests == old(server).responses_to_server_requests,
{
    lemma_replies(*old(server), value@, *final(server), json::optional_json(response));
}

/// The report that the turn of a request was interrupted.
pub open spec fn reports_the_end(value: JsonView) -> JsonView {
    JsonView::Object(
        map![
            "jsonrpc"@ => JsonView::Text("2.0"@),
            "method"@ => JsonView::Text("turn/completed"@),
            "params"@ => JsonView::Object(map![
                "threadId"@ => under(under(value, "params"@), "threadId"@),
                "turn"@ => JsonView::Object(map![
                    "id"@ => under(under(value, "params"@), "turnId"@),
                    "status"@ => JsonView::Text("interrupted"@),
                ]),
            ]),
        ],
    )
}

/// Whether the stand-in ends the connection when it reads `value`.
pub open spec fn ends_at(server: MockAppServer, value: JsonView) -> bool {
    server.fault matches Fault::DisconnectOnMethod(target) && under(value, "method"@)
        == JsonView::Text(target@)
}

/// The meanings of a row of values.
pub open spec fn meanings(row: Seq<Json>) -> Seq<JsonView> {
    row.map_values(|value: Json| value@)
}

/// What is done about a value that was read. It is noted behind what was read before, and counted
/// exactly if it is the answer to a request of the stand-in. The connection ends exactly at the
/// method that it was to end at. Else the answer is sent, and before it the report of an interruption
/// exactly if that fault was asked for and this is the request to interrupt.
pub open spec fn deals_with(
    before: MockAppServer,
    value: JsonView,
    after: MockAppServer,
    step: MockStep,
) -> bool {
    &&& after.fault == before.fault
    &&& after.threads == before.threads
    &&& after.next_server_id == before.next_server_id
    &&& after.received@.len() == before.received@.len() + 1
    &&& after.received@.last()@ == value
    &&& forall|i: int|
        0 <= i < before.received@.len() ==> (#[trigger] after.received@[i])@ == before.received@[i]@
    &&& after.responses_to_server_requests == before.responses_to_server_requests + if !has_member(
        value,
        "method"@,
    ) && has_member(value, "id"@) {
        1int
    } else {
        0
    }
    &&& match step {
        MockStep::End(end) => end is Ok && ends_at(before, value),
        MockStep::Send(sent) => !ends_at(before, value) && exists|response: Option<JsonView>|
            {
                &&& #[trigger] replies(before, value, response)
                &&& meanings(sent@) =~= (if before.fault is InterruptCompletionBeforeResponse
                    && under(value, "method"@) == JsonView::Text("turn/interrupt"@) {
                    seq![reports_the_end(value)]
                } else {
                    Seq::empty()
                }) + (match response {
                    Some(response) => seq![response],
                    None => Seq::empty(),
                })
            },
        _ => false,
    }
}

proof fn lemma_deals_with(
    before: MockAppServer,
    value: JsonView,
    after: MockAppServer,
    step: MockStep,
)
    requires
        mock::value_follows(before, value, after, step),
    ensures
        deals_with(before, value, after, step),
{
    let (was, is) = (before.received@, after.received@);
    json::lemma_items_view(was);
    json::lemma_items_view(is);
    assert(json::items_view(is) == json::items_view(was).push(value));
    assert(is.len() == was.len() + 1);
    assert(json::items_view(is)[was.len() as int] == value);
    assert forall|i: int| 0 <= i < was.len() implies (#[trigger] is[i])@ == was[i]@ by {
        assert(json::items_view(is)[i] == json::items_view(was)[i]);
    }
    assert(mock::hangs_up(before, value) == ends_at(before, value));
    if !mock::hangs_up(before, value) {
        if let MockStep::Send(sent) = step {
            let (response, mid) = choose|response: Option<JsonView>, mid: MockAppServer|
                {
                    &&& mock::noted(before, value, mid)
                    &&& mid.request_failures == before.request_failures
                    &&& mid.resume_failures_remaining == before.resume_failures_remaining
                    &&& #[trigger] mock::request_follows(mid, value, after, response)
                    &&& json::items_view(sent@) == mock::sent_for(before, value, response)
                };
            lemma_replies(mid, value, after, response);
            lemma_same_reply(mid, before, value, response);
            json::lemma_items_view(sent@);
            assert(meanings(sent@) =~= json::items_view(sent@));
            assert(mock::interrupted_view(value) == reports_the_end(value));
            assert(replies(before, value, response));
        }
    }
}

proof fn lemma_same_reply(
    left: MockAppServer,
    right: MockAppServer,
    value: JsonView,
    response: Option<JsonView>,
)
    requires
        left.threads == right.threads,
        left.request_failures == right.request_failures,
        left.resume_failures_remaining == right.resume_failures_remaining,
        replies(left, value, response),
    ensures
        replies(right, value, response),
{
    let id = under(value, "id"@);
    let method = under(value, "method"@)->Text_0;
    if has_member(value, "id"@) && under(value, "method"@) is Text && !is_to_fail(left, method) && !(method
        == "thread/resume"@ && left.resume_failures_remaining > 0) {
        let result = choose|result: JsonView|
            grants(left, method, under(value, "params"@), result) && response == Some(
                #[trigger] answer_to(id, "result"@, result),
            );
        assert(grants(right, method, under(value, "params"@), result));
        assert(response == Some(answer_to(id, "result"@, result)));
    }
}

/// What is read is noted, counted where it is an answer, and answered, unless the connection was to
/// end there.
pub proof fn law_values_are_noted_and_answered(
    server: &mut MockAppServer,
    value: Json,
    step: MockStep,
)
    requires
        server.valid(),
        server.responses_to_server_requests < usize::MAX,
        call_ensures(MockAppServer::take_value, (server, value), step),
    ensures
        deals_with(*old(server), value@, *final(server), step),
{
    lemma_deals_with(*old(server), value@, *final(server), step);
}

/// A half-open stand-in does nothing about any message. Else a ping is answered with its payload, a
/// close ends the connection, a value is dealt with, what cannot be read ends the connection with the
/// words of that, and any other message is ignored; only a value changes anything.
pub proof fn law_messages_are_dealt_with_by_kind(
    server: &mut MockAppServer,
    message: WireMessage,
    step: MockStep,
)
    requires
        server.valid(),
        server.responses_to_server_requests < usize::MAX,
        call_ensures(MockAppServer::take_message, (server, message), step),
    ensures
        old(server).fault is HalfOpen ==> step is Ignore && *final(server) == *old(server),
        !(old(server).fault is HalfOpen) ==> match message {
            WireMessage::Ping(payload) => (step matches MockStep::Pong(sent) && sent@ == payload@)
                && *final(server) == *old(server),
            WireMessage::Close => (step matches MockStep::End(end) && end is Ok) && *final(server)
                == *old(server),
            WireMessage::Pong | WireMessage::Frame => step is Ignore && *final(server) == *old(server),
            WireMessage::Text(_) | WireMessage::Binary(_) => match rpc::message_reads(message) {
                Ok(Some(value)) => deals_with(*old(server), value, *final(server), step),
                Ok(None) => false,
                Err(words) => (step matches MockStep::End(end) && (end matches Err(said) && said@
                    == words)) && *final(server) == *old(server),
            },
        },
{
    if !(old(server).fault is HalfOpen) {
        if let Ok(Some(value)) = rpc::message_reads(message) {
            lemma_deals_with(*old(server), value, *final(server), step);
        }
    }
}

/// A stand-in begins without threads, without faults and without failures to come.
pub proof fn law_stand_ins_begin_without_faults(server: MockAppServer)
    requires
        call_ensures(MockAppServer::new, (), server),
    ensures
        server.fault is NoFault,
        forall|id: Seq<char>| !(#[trigger] server.threads@.contains_key(id)),
        forall|method: Seq<char>| !(#[trigger] server.request_failures@.contains_key(method)),
        server.received@.len() == 0,
        server.responses_to_server_requests == 0,
        server.resume_failures_remaining == 0,
        server.next_server_id == 9000,
{
}

/// What a test sets up is what the stand-in then has: a thread under its identity, in place of the
/// one there, the fault, and the failures to come; each changes nothing else.
pub proof fn law_stand_ins_are_as_they_were_set_up(
    server: &mut MockAppServer,
    thread: MockThread,
    faulty: &mut MockAppServer,
    fault: Fault,
    resuming: &mut MockAppServer,
    resumes: usize,
    failing: &mut MockAppServer,
    method: &str,
    failures: usize,
)
    requires
        server.valid(),
        valid_utf8(thread.cwd@),
        call_ensures(MockAppServer::add_thread, (server, thread), ()),
        call_ensures(MockAppServer::set_fault, (faulty, fault), ()),
        call_ensures(MockAppServer::set_resume_failures, (resuming, resumes), ()),
        failing.valid(),
        call_ensures(MockAppServer::set_request_failures, (failing, method, failures), ()),
    ensures
        final(server).threads@ == old(server).threads@.insert(thread.id@, thread),
        final(server).fault == old(server).fault,
        final(server).received == old(server).received,
        final(server).request_failures == old(server).request_failures,
        final(server).resume_failures_remaining == old(server).resume_failures_remaining,
        final(faulty).fault == fault,
        final(faulty).threads == old(faulty).threads,
        final(faulty).request_failures == old(faulty).request_failures,
        final(faulty).resume_failures_remaining == old(faulty).resume_failures_remaining,
        final(resuming).resume_failures_remaining == resumes,
        final(resuming).threads == old(resuming).threads,
        final(resuming).fault == old(resuming).fault,
        final(resuming).request_failures == old(resuming).request_failures,
        final(failing).request_failures@ == old(failing).request_failures@.insert(
            method@,
            failures,
        ),
        final(failing).threads == old(failing).threads,
        final(failing).fault == old(failing).fault,
        final(failing).resume_failures_remaining == old(failing).resume_failures_remaining,
{
}

/// A notification of the stand-in carries its method and parameters and no identity; a request of
/// its own carries them too, under a number that none before it had.
pub proof fn law_messages_of_the_stand_in(
    method: &str,
    params: Json,
    notification: Json,
    server: &mut MockAppServer,
    request: Json,
)
    requires
        call_ensures(MockAppServer::emit_notification, (method, params), notification),
        server.next_server_id < u64::MAX,
        call_ensures(MockAppServer::emit_server_request, (server, method, params), request),
    ensures
        notification@ == JsonView::Object(
            map![
                "jsonrpc"@ => JsonView::Text("2.0"@),
                "method"@ => JsonView::Text(method@),
                "params"@ => params@,
            ],
        ),
        request@ == JsonView::Object(
            map![
                "jsonrpc"@ => JsonView::Text("2.0"@),
                "id"@ => JsonView::Number((old(server).next_server_id + 1) as u64),
                "method"@ => JsonView::Text(method@),
                "params"@ => params@,
            ],
        ),
        final(server).next_server_id == old(server).next_server_id + 1,
        final(server).threads == old(server).threads,
        final(server).received == old(server).received,
{
}

/// A client may connect only at the one path, and a message is passed on unless the stand-in is half
/// open or there is nothing in it.
pub proof fn law_clients_connect_at_one_path(
    path: &str,
    accepted: Result<(), u16>,
    server: MockAppServer,
    value: Json,
    passed: bool,
)
    requires
        call_ensures(mock::accept_path, (path,), accepted),
        call_ensures(MockAppServer::forwards, (&server, &value), passed),
    ensures
        accepted is Ok <==> path@ == "/rpc"@,
        accepted matches Err(code) ==> code == 404,
        passed <==> !(server.fault is HalfOpen) && !(value is Null),
{
}

/// What the stand-in was sent and how many answers it saw are shown as they are.
pub proof fn law_what_was_received_is_shown(
    server: MockAppServer,
    received: &Vec<Json>,
    count: usize,
)
    requires
        call_ensures(MockAppServer::received, (&server,), received),
        call_ensures(MockAppServer::responses_to_server_requests, (&server,), count),
    ensures
        received@ == server.received@,
        count == server.responses_to_server_requests,
{
}

/// A thread of the stand-in with a turn that has not come to an end has that turn in flight.
pub proof fn law_open_turns_of_the_stand_in_are_in_flight(thread: MockThread, id: String)
    requires
        thread.turn_id == Some(id),
        thread.status@ != "completed"@,
        thread.status@ != "failed"@,
        thread.status@ != "interrupted"@,
    ensures
        ({
            let turns = discovery::turns_of(speaks_of(thread));
            &&& turns is Some
            &&& discovery::is_last_open(turns.unwrap(), 0)
            &&& discovery::text_under(turns.unwrap()[0], "id"@) == Some(id@)
        }),
{
    reveal_strlit("id");
    reveal_strlit("status");
    reveal_strlit("turns");
    reveal_strlit("ephemeral");
    reveal_strlit("updatedAt");
    assert("id"@.len() == 2 && "status"@.len() == 6 && "turns"@.len() == 5);
    assert("ephemeral"@.len() == 9 && "updatedAt"@.len() == 9);
    assert("ephemeral"@[0] != "updatedAt"@[0]);
    let turn = JsonView::Object(
        map!["id"@ => JsonView::Text(id@), "status"@ => JsonView::Text(thread.status@)],
    );
    assert(discovery::turns_of(speaks_of(thread)) == Some(seq![turn]));
}

} // verus!
