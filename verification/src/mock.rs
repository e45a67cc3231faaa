//! A stand-in for the daemon, for tests of everything that talks to it.

use crate::json;
use crate::json::{Json, JsonView};
use crate::path::FilePath;
use crate::rpc;
use crate::rpc::WireMessage;
use crate::table::{Key, Table};
use crate::text;
use vstd::prelude::*;
use vstd::utf8::*;

verus! {

/// How the stand-in misbehaves.
#[derive(Clone, Debug, PartialEq, Eq)]
pub enum Fault {
    /// It does not.
    NoFault,
    /// It ends the connection when it reads this method.
    DisconnectOnMethod(String),
    /// It neither reads nor writes.
    HalfOpen,
    /// It reports that a turn was interrupted before it answers the request to interrupt it.
    InterruptCompletionBeforeResponse,
}

/// A thread of the stand-in.
#[derive(Debug)]
pub struct MockThread {
    pub id: String,
    pub cwd: FilePath,
    pub status: String,
    pub turn_id: Option<String>,
    pub ephemeral: bool,
    pub updated_at: u64,
}

impl Clone for MockThread {
    fn clone(&self) -> (copy: Self)
        ensures
            thread_view(copy) == thread_view(*self),
            copy.cwd@ == self.cwd@,
            copy.updated_at == self.updated_at,
    {
        MockThread {
            id: self.id.clone(),
            cwd: self.cwd.clone(),
            status: self.status.clone(),
            turn_id: match &self.turn_id {
                Some(id) => Some(id.clone()),
                None => None,
            },
            ephemeral: self.ephemeral,
            updated_at: self.updated_at,
        }
    }
}

/// The turns of a thread.
pub open spec fn turns_view(thread: MockThread) -> Seq<JsonView> {
    match thread.turn_id {
        Some(id) => seq![
            JsonView::object().with("id"@, JsonView::Text(id@)).with(
                "status"@,
                JsonView::Text(thread.status@),
            ),
        ],
        None => Seq::empty(),
    }
}

/// A thread as the stand-in speaks of it.
pub open spec fn thread_view(thread: MockThread) -> JsonView {
    JsonView::object().with("id"@, JsonView::Text(thread.id@)).with(
        "cwd"@,
        JsonView::Text(decode_utf8(thread.cwd@)),
    ).with("status"@, JsonView::object().with("type"@, JsonView::Text(thread.status@))).with(
        "turns"@,
        JsonView::Array(turns_view(thread)),
    ).with("ephemeral"@, JsonView::Bool(thread.ephemeral)).with(
        "updatedAt"@,
        JsonView::Number(thread.updated_at),
    )
}

impl MockThread {
    /// This thread as the stand-in speaks of it.
    pub fn json(&self) -> (json: Json)
        requires
            valid_utf8(self.cwd@),
        ensures
            json@ == thread_view(*self),
    {
        let turns = match &self.turn_id {
            Some(id) => {
                let turn = Json::object().with("id", Json::text(id.as_str())).with(
                    "status",
                    Json::text(self.status.as_str()),
                );
                Json::array().and(turn)
            },
            None => Json::array(),
        };
        assert(turns@->Array_0 =~= turns_view(*self));
        let cwd = match self.cwd.to_text() {
            Some(text) => text,
            None => vstd::pervasive::unreached(),
        };
        Json::object().with("id", Json::text(self.id.as_str())).with("cwd", Json::Text(cwd)).with(
            "status",
            Json::object().with("type", Json::text(self.status.as_str())),
        ).with("turns", turns).with("ephemeral", Json::Bool(self.ephemeral)).with(
            "updatedAt",
            Json::Number(self.updated_at),
        )
    }
}

/// The stand-in: its threads, what it was sent, and how it is to misbehave.
#[derive(Debug)]
pub struct MockAppServer {
    pub fault: Fault,
    pub threads: Table<String, MockThread>,
    pub received: Vec<Json>,
    pub responses_to_server_requests: usize,
    pub next_server_id: u64,
    pub resume_failures_remaining: usize,
    pub request_failures: Table<String, usize>,
}

/// What the stand-in does about a message.
#[derive(Debug)]
pub enum MockStep {
    /// Nothing.
    Ignore,
    /// Answer a ping.
    Pong(Vec<u8>),
    /// Send these values, in order.
    Send(Vec<Json>),
    /// End the connection.
    End(Result<(), String>),
}

/// The directory of a thread that the stand-in knows nothing of.
pub const NO_PROJECT: &'static str = "/mock/project";

/// The code with which the stand-in refuses a request.
pub const REFUSED: i64 = -32000;

/// The error with which the stand-in refuses a request.
pub open spec fn refusal_view(message: Seq<char>) -> JsonView {
    JsonView::object().with("code"@, JsonView::Negative(REFUSED)).with(
        "message"@,
        JsonView::Text(message),
    )
}

/// The member of a value, or null.
pub open spec fn member_or_null(value: JsonView, key: Seq<char>) -> JsonView {
    match value.member(key) {
        Some(member) => member,
        None => JsonView::Null,
    }
}

/// The text of a member, or no text.
pub open spec fn text_or_empty(value: JsonView, key: Seq<char>) -> Seq<char> {
    match value.member_text(key) {
        Some(text) => text,
        None => Seq::empty(),
    }
}

/// A thread that the stand-in knows nothing of.
pub open spec fn unknown_thread(id: Seq<char>) -> JsonView {
    JsonView::object().with("id"@, JsonView::Text(id)).with(
        "cwd"@,
        JsonView::Text(NO_PROJECT@),
    ).with("status"@, JsonView::object().with("type"@, JsonView::Text("idle"@))).with(
        "turns"@,
        JsonView::Array(Seq::empty()),
    ).with("ephemeral"@, JsonView::Bool(false)).with("updatedAt"@, JsonView::Number(0))
}

/// A thread as the stand-in speaks of it, whether it knows it or not.
pub open spec fn known_or_unknown(
    threads: Map<Seq<char>, MockThread>,
    id: Seq<char>,
) -> JsonView {
    if threads.contains_key(id) {
        thread_view(threads[id])
    } else {
        unknown_thread(id)
    }
}

/// The directory that the skills of a listing are attributed to: the first that was asked for.
pub open spec fn listed_cwd(params: JsonView) -> JsonView {
    match params.member_items("cwds"@) {
        Some(cwds) => if cwds.len() > 0 {
            cwds[0]
        } else {
            JsonView::Text(NO_PROJECT@)
        },
        None => JsonView::Text(NO_PROJECT@),
    }
}

/// Whether `order` has the threads of `rows`, each as often as there, the newest first.
pub open spec fn newest_first(rows: Seq<MockThread>, order: Seq<int>) -> bool {
    &&& order.len() == rows.len()
    &&& order.no_duplicates()
    &&& forall|i: int| 0 <= i < order.len() ==> 0 <= #[trigger] order[i] < rows.len()
    &&& forall|i: int, j: int|
        0 <= i < j < order.len() ==> rows[#[trigger] order[i]].updated_at
            >= rows[#[trigger] order[j]].updated_at
}

/// The threads of the stand-in, in the order in which it learned of them.
pub open spec fn known_threads(rows: Seq<(String, MockThread)>) -> Seq<MockThread> {
    rows.map_values(|row: (String, MockThread)| row.1)
}

/// The threads at some places of a row, as the stand-in speaks of them.
pub open spec fn views_at(rows: Seq<MockThread>, order: Seq<int>) -> Seq<JsonView> {
    order.map_values(|i: int| thread_view(rows[i]))
}

/// The answer to a request for the threads.
pub open spec fn lists_threads(rows: Seq<MockThread>, result: JsonView) -> bool {
    exists|order: Seq<int>| #[trigger]
        newest_first(rows, order) && result == JsonView::object().with(
            "data"@,
            JsonView::Array(views_at(rows, order)),
        ).with("nextCursor"@, JsonView::Null)
}

/// Whether `result` is the stand-in's answer to a request.
pub open spec fn answers(
    server: MockAppServer,
    method: Seq<char>,
    params: JsonView,
    result: JsonView,
) -> bool {
    let thread_id = text_or_empty(params, "threadId"@);
    if method == "initialize"@ {
        result == JsonView::object().with(
            "serverInfo"@,
            JsonView::object().with("name"@, JsonView::Text("mock"@)).with(
                "version"@,
                JsonView::Text("0.144.6"@),
            ),
        )
    } else if method == "thread/list"@ {
        lists_threads(known_threads(server.threads.rows()), result)
    } else if method == "thread/read"@ || method == "thread/resume"@ {
        result == JsonView::object().with("thread"@, known_or_unknown(server.threads@, thread_id))
    } else if method == "thread/subscribe"@ {
        result == JsonView::object().with("subscriptionId"@, JsonView::Text("sub-"@ + thread_id))
    } else if method == "thread/unsubscribe"@ {
        result == JsonView::object().with("status"@, JsonView::Text("unsubscribed"@))
    } else if method == "skills/list"@ {
        result == JsonView::object().with(
            "data"@,
            JsonView::Array(
                seq![
                    JsonView::object().with("cwd"@, listed_cwd(params)).with(
                        "skills"@,
                        JsonView::Array(Seq::empty()),
                    ).with("errors"@, JsonView::Array(Seq::empty())),
                ],
            ),
        )
    } else if method == "turn/start"@ {
        result == JsonView::object().with(
            "turn"@,
            JsonView::object().with("id"@, JsonView::Text("mock-turn"@)),
        )
    } else if method == "turn/steer"@ {
        result == JsonView::object().with("turnId"@, member_or_null(params, "expectedTurnId"@))
    } else {
        result == JsonView::object()
    }
}

/// A message of this protocol, to which more is to be added.
pub open spec fn envelope() -> JsonView {
    JsonView::object().with("jsonrpc"@, JsonView::Text("2.0"@))
}

/// Everything but the failures to come is as it was.
pub open spec fn only_failures_change(before: MockAppServer, after: MockAppServer) -> bool {
    after.fault == before.fault && after.threads == before.threads && after.received
        == before.received && after.responses_to_server_requests
        == before.responses_to_server_requests && after.next_server_id == before.next_server_id
}

/// Whether requests of `method` are still to fail.
pub open spec fn fails_next(server: MockAppServer, method: Seq<char>) -> bool {
    server.request_failures@.contains_key(method) && server.request_failures@[method] > 0
}

/// What a request does to the stand-in, and how it is answered.
pub open spec fn request_follows(
    before: MockAppServer,
    value: JsonView,
    after: MockAppServer,
    response: Option<JsonView>,
) -> bool {
    let params = member_or_null(value, "params"@);
    &&& only_failures_change(before, after)
    &&& match (value.member("id"@), value.member_text("method"@)) {
        (Some(id), Some(method)) => {
            let answer = envelope().with("id"@, id);
            if fails_next(before, method) {
                &&& after.request_failures@ == before.request_failures@.insert(
                    method,
                    (before.request_failures@[method] - 1) as usize,
                )
                &&& after.resume_failures_remaining == before.resume_failures_remaining
                &&& response == Some(
                    answer.with("error"@, refusal_view("mock request failure"@)),
                )
            } else if method == "thread/resume"@ && before.resume_failures_remaining > 0 {
                &&& after.request_failures@ == before.request_failures@
                &&& after.resume_failures_remaining == before.resume_failures_remaining - 1
                &&& response == Some(answer.with("error"@, refusal_view("no rollout found"@)))
            } else {
                &&& after.request_failures@ == before.request_failures@
                &&& after.resume_failures_remaining == before.resume_failures_remaining
                &&& exists|result: JsonView| #[trigger]
                    answers(before, method, params, result) && response == Some(
                        answer.with("result"@, result),
                    )
            }
        },
        _ => {
            &&& after.request_failures@ == before.request_failures@
            &&& after.resume_failures_remaining == before.resume_failures_remaining
            &&& response is None
        },
    }
}

/// The report that a turn was interrupted.
pub open spec fn interrupted_view(value: JsonView) -> JsonView {
    let params = member_or_null(value, "params"@);
    envelope().with("method"@, JsonView::Text("turn/completed"@)).with(
        "params"@,
        JsonView::object().with("threadId"@, member_or_null(params, "threadId"@)).with(
            "turn"@,
            JsonView::object().with("id"@, member_or_null(params, "turnId"@)).with(
                "status"@,
                JsonView::Text("interrupted"@),
            ),
        ),
    )
}

/// Whether the stand-in answers a message with the report of an interruption before the response.
pub open spec fn reports_interruption(server: MockAppServer, value: JsonView) -> bool {
    server.fault is InterruptCompletionBeforeResponse && value.member_text("method"@) == Some(
        "turn/interrupt"@,
    )
}

/// Whether the stand-in ends the connection at a message.
pub open spec fn hangs_up(server: MockAppServer, value: JsonView) -> bool {
    server.fault matches Fault::DisconnectOnMethod(target) && value.member_text("method"@) == Some(
        target@,
    )
}

/// Whether a message is an answer, which only a client that answers the daemon's requests sends.
pub open spec fn is_response(value: JsonView) -> bool {
    value.member("method"@) is None && value.member("id"@) is Some
}

/// What the stand-in sends for a message.
pub open spec fn sent_for(
    server: MockAppServer,
    value: JsonView,
    response: Option<JsonView>,
) -> Seq<JsonView> {
    let report = if reports_interruption(server, value) {
        seq![interrupted_view(value)]
    } else {
        Seq::empty()
    };
    match response {
        Some(response) => report.push(response),
        None => report,
    }
}

/// The stand-in after it has noted a message.
pub open spec fn noted(before: MockAppServer, value: JsonView, after: MockAppServer) -> bool {
    &&& after.fault == before.fault
    &&& after.threads == before.threads
    &&& json::items_view(after.received@) == json::items_view(before.received@).push(value)
    &&& after.responses_to_server_requests == before.responses_to_server_requests + (
    if is_response(value) {
        1int
    } else {
        0
    })
    &&& after.next_server_id == before.next_server_id
}

/// What a value that the stand-in reads does to it, and what it does about it.
pub open spec fn value_follows(
    before: MockAppServer,
    value: JsonView,
    after: MockAppServer,
    step: MockStep,
) -> bool {
    &&& noted(before, value, after)
    &&& if hangs_up(before, value) {
        &&& after.request_failures == before.request_failures
        &&& after.resume_failures_remaining == before.resume_failures_remaining
        &&& step == MockStep::End(Ok(()))
    } else {
        &&& step matches MockStep::Send(sent)
        &&& exists|response: Option<JsonView>, mid: MockAppServer|
            {
                &&& noted(before, value, mid)
                &&& mid.request_failures == before.request_failures
                &&& mid.resume_failures_remaining == before.resume_failures_remaining
                &&& #[trigger] request_follows(mid, value, after, response)
                &&& json::items_view(sent@) == sent_for(before, value, response)
            }
    }
}

fn copied_member(value: &Json, key: &str) -> (member: Json)
    ensures
        member@ == member_or_null(value@, key@),
{
    match value.get(key) {
        Some(member) => member.clone(),
        None => Json::Null,
    }
}

fn copied_text(value: &Json, key: &str) -> (text: String)
    ensures
        text@ == text_or_empty(value@, key@),
{
    match value.get_text(key) {
        Some(text) => text.clone(),
        None => {
            let empty = String::new();
            assert(empty@ =~= Seq::<char>::empty());
            empty
        },
    }
}

fn start_envelope() -> (json: Json)
    ensures
        json@ == envelope(),
{
    Json::object().with("jsonrpc", Json::text("2.0"))
}

fn refusal(message: &str) -> (json: Json)
    ensures
        json@ == refusal_view(message@),
{
    Json::object().with("code", Json::Negative(REFUSED)).with(
        "message",
        Json::text(message),
    )
}

/// Where a client may connect.
pub fn accept_path(path: &str) -> (accepted: Result<(), u16>)
    ensures
        accepted == (if path@ == "/rpc"@ {
            Ok(())
        } else {
            Err(404u16)
        }),
{
    if text::same(path, "/rpc") {
        Ok(())
    } else {
        Err(404)
    }
}

impl MockAppServer {
    /// Threads that can be spoken of, and tables in order.
    pub open spec fn valid(&self) -> bool {
        &&& self.threads.valid()
        &&& self.request_failures.valid()
        &&& forall|id: Seq<char>| #[trigger]
            self.threads@.contains_key(id) ==> valid_utf8(self.threads@[id].cwd@)
    }

    /// A stand-in without threads that does nothing wrong.
    pub fn new() -> (server: Self)
        ensures
            server.valid(),
            server.fault is NoFault,
            server.threads@ == Map::<Seq<char>, MockThread>::empty(),
            server.received@ == Seq::<Json>::empty(),
            server.responses_to_server_requests == 0,
            server.next_server_id == 9000,
            server.resume_failures_remaining == 0,
            server.request_failures@ == Map::<Seq<char>, usize>::empty(),
    {
        MockAppServer {
            fault: Fault::NoFault,
            threads: Table::new(),
            received: Vec::new(),
            responses_to_server_requests: 0,
            next_server_id: 9000,
            resume_failures_remaining: 0,
            request_failures: Table::new(),
        }
    }

    /// Gives the stand-in a thread, in place of the one with the same identity.
    pub fn add_thread(&mut self, thread: MockThread)
        requires
            old(self).valid(),
            valid_utf8(thread.cwd@),
        ensures
            final(self).valid(),
            final(self).threads@ == old(self).threads@.insert(thread.id@, thread),
            *final(self) == (MockAppServer { threads: final(self).threads, ..*old(self) }),
    {
        self.threads.insert(thread.id.clone(), thread);
    }

    /// Makes the stand-in misbehave.
    pub fn set_fault(&mut self, fault: Fault)
        ensures
            *final(self) == (MockAppServer { fault, ..*old(self) }),
    {
        self.fault = fault;
    }

    /// Makes the next `count` requests to resume a thread fail.
    pub fn set_resume_failures(&mut self, count: usize)
        ensures
            *final(self) == (MockAppServer { resume_failures_remaining: count, ..*old(self) }),
    {
        self.resume_failures_remaining = count;
    }

    /// Makes the next `count` requests of `method` fail.
    pub fn set_request_failures(&mut self, method: &str, count: usize)
        requires
            old(self).valid(),
        ensures
            final(self).valid(),
            final(self).request_failures@ == old(self).request_failures@.insert(method@, count),
            *final(self) == (MockAppServer {
                request_failures: final(self).request_failures,
                ..*old(self)
            }),
    {
        self.request_failures.insert(method.to_owned(), count);
    }

    /// A notification of the stand-in.
    pub fn emit_notification(method: &str, params: Json) -> (message: Json)
        ensures
            message@ == envelope().with("method"@, JsonView::Text(method@)).with(
                "params"@,
                params@,
            ),
    {
        start_envelope().with("method", Json::text(method)).with("params", params)
    }

    /// A request of the stand-in to its client, under the next number.
    pub fn emit_server_request(&mut self, method: &str, params: Json) -> (message: Json)
        requires
            old(self).next_server_id < u64::MAX,
        ensures
            *final(self) == (MockAppServer {
                next_server_id: (old(self).next_server_id + 1) as u64,
                ..*old(self)
            }),
            message@ == envelope().with("id"@, JsonView::Number(final(self).next_server_id)).with(
                "method"@,
                JsonView::Text(method@),
            ).with("params"@, params@),
    {
        self.next_server_id += 1;
        start_envelope().with("id", Json::Number(self.next_server_id)).with(
            "method",
            Json::text(method),
        ).with("params", params)
    }

    /// What the stand-in was sent, in order.
    pub fn received(&self) -> (received: &Vec<Json>)
        ensures
            *received == self.received,
    {
        &self.received
    }

    /// How many of its own requests the stand-in saw answered.
    pub fn responses_to_server_requests(&self) -> (count: usize)
        ensures
            count == self.responses_to_server_requests,
    {
        self.responses_to_server_requests
    }

    /// Whether the stand-in passes a message of its own on to a client.
    pub fn forwards(&self, value: &Json) -> (yes: bool)
        ensures
            yes == !(self.fault is HalfOpen || value@ is Null),
    {
        match (&self.fault, value) {
            (Fault::HalfOpen, _) => false,
            (_, Json::Null) => false,
            _ => true,
        }
    }
}

/// The places of the threads of a row, the newest first.
fn order_newest_first(threads: &Vec<&MockThread>) -> (order: Vec<usize>)
    ensures
        newest_first(
            threads@.map_values(|thread: &MockThread| *thread),
            order@.map_values(|i: usize| i as int),
        ),
{
    let ghost rows = threads@.map_values(|thread: &MockThread| *thread);
    let mut order: Vec<usize> = Vec::new();
    let mut i: usize = 0;
    while i < threads.len()
        invariant
            i <= threads@.len(),
            rows == threads@.map_values(|thread: &MockThread| *thread),
            order@.len() == i,
            sorted_places(rows, order@, i as int),
        decreases threads@.len() - i,
    {
        let mut at: usize = 0;
        while at < order.len() && threads[order[at]].updated_at >= threads[i].updated_at
            invariant
                i < threads@.len(),
                rows == threads@.map_values(|thread: &MockThread| *thread),
                at <= order@.len(),
                order@.len() == i,
                sorted_places(rows, order@, i as int),
                forall|k: int|
                    0 <= k < at ==> rows[#[trigger] order@[k] as int].updated_at
                        >= rows[i as int].updated_at,
            decreases order@.len() - at,
        {
            assert(order@[at as int] < i);
            at += 1;
        }
        let ghost before = order@;
        order.insert(at, i);
        proof {
            let after = order@;
            assert(after =~= before.insert(at as int, i));
            assert forall|k: int| 0 <= k < after.len() implies #[trigger] after[k] < i + 1 by {
                if k < at {
                    assert(before[k] < i);
                } else if k > at {
                    assert(before[k - 1] < i);
                }
            }
            assert forall|j: int, k: int| 0 <= j < k < after.len() implies #[trigger] after[j]
                != #[trigger] after[k] && rows[after[j] as int].updated_at
                >= rows[after[k] as int].updated_at by {
                if at < before.len() {
                    assert(before[at as int] < i);
                    assert(rows[before[at as int] as int].updated_at < rows[i as int].updated_at);
                }
                let was_j = if j < at { j } else { j - 1 };
                let was_k = if k < at { k } else { k - 1 };
                if j != at {
                    assert(before[was_j] == after[j] && before[was_j] < i);
                }
                if k != at {
                    assert(before[was_k] == after[k] && before[was_k] < i);
                }
                if j == at {
                    assert(before[at as int] < i);
                    if was_k > at {
                        assert(rows[before[at as int] as int].updated_at
                            >= rows[before[was_k] as int].updated_at);
                    }
                }
            }
        }
        i += 1;
    }
    proof {
        let places = order@.map_values(|i: usize| i as int);
        assert forall|j: int, k: int| 0 <= j < places.len() && 0 <= k < places.len() && j
            != k implies places[j] != places[k] by {
            if j < k {
                assert(order@[j] != order@[k]);
            } else {
                assert(order@[k] != order@[j]);
            }
        }
        assert forall|k: int| 0 <= k < places.len() implies 0 <= #[trigger] places[k] < rows.len() by {
            assert(order@[k] < i);
        }
        assert forall|j: int, k: int| 0 <= j < k < places.len() implies rows[
            #[trigger] places[j]].updated_at >= rows[#[trigger] places[k]].updated_at by {
            assert(order@[j] != order@[k]);
        }
    }
    order
}

/// Distinct places before `bound`, the newest thread first.
spec fn sorted_places(rows: Seq<MockThread>, order: Seq<usize>, bound: int) -> bool {
    &&& forall|k: int| 0 <= k < order.len() ==> #[trigger] order[k] < bound
    &&& forall|j: int, k: int|
        0 <= j < k < order.len() ==> #[trigger] order[j] != #[trigger] order[k]
            && rows[order[j] as int].updated_at >= rows[order[k] as int].updated_at
}

impl MockAppServer {
    fn list_threads(&self) -> (result: Json)
        requires
            self.valid(),
        ensures
            lists_threads(known_threads(self.threads.rows()), result@),
    {
        let ghost rows = known_threads(self.threads.rows());
        proof {
            self.threads.lemma_rows();
        }
        let mut threads: Vec<&MockThread> = Vec::new();
        let mut i: usize = 0;
        let len = self.threads.len();
        while i < len
            invariant
                i <= len,
                len == rows.len(),
                rows == known_threads(self.threads.rows()),
                threads@.len() == i,
                forall|k: int| 0 <= k < i ==> *(#[trigger] threads@[k]) == rows[k],
            decreases len - i,
        {
            threads.push(self.threads.value_at(i));
            i += 1;
        }
        assert(threads@.map_values(|thread: &MockThread| *thread) =~= rows);
        let order = order_newest_first(&threads);
        let ghost places = order@.map_values(|i: usize| i as int);
        let mut data: Vec<Json> = Vec::new();
        let mut k: usize = 0;
        while k < order.len()
            invariant
                k <= order@.len(),
                places == order@.map_values(|i: usize| i as int),
                newest_first(rows, places),
                threads@.map_values(|thread: &MockThread| *thread) == rows,
                rows == known_threads(self.threads.rows()),
                self.valid(),
                data@.len() == k,
                forall|j: int| 0 <= j < k ==> #[trigger] data@[j]@ == thread_view(rows[places[j]]),
            decreases order@.len() - k,
        {
            assert(places[k as int] == order@[k as int]);
            proof {
                self.threads.lemma_rows();
                let at = order@[k as int] as int;
                assert(threads@.map_values(|thread: &MockThread| *thread)[at] == rows[at]);
                let row = self.threads.rows()[at];
                assert(self.threads@.contains_key(row.0.form()));
            }
            let thread = threads[order[k]];
            data.push(thread.json());
            k += 1;
        }
        proof {
            json::lemma_items_view(data@);
            assert(json::items_view(data@) =~= views_at(rows, places));
        }
        Json::object().with("data", Json::Array(data)).with("nextCursor", Json::Null)
    }

    fn show_thread(&self, id: String) -> (json: Json)
        requires
            self.valid(),
        ensures
            json@ == known_or_unknown(self.threads@, id@),
    {
        match self.threads.get(&id) {
            Some(thread) => thread.json(),
            None => {
                let turns = Json::array();
                Json::object().with("id", Json::Text(id)).with("cwd", Json::text(NO_PROJECT)).with(
                    "status",
                    Json::object().with("type", Json::text("idle")),
                ).with("turns", turns).with("ephemeral", Json::Bool(false)).with(
                    "updatedAt",
                    Json::Number(0),
                )
            },
        }
    }

    fn answer(&self, method: &str, params: &Json) -> (result: Json)
        requires
            self.valid(),
        ensures
            answers(*self, method@, params@, result@),
    {
        if text::same(method, "initialize") {
            let info = Json::object().with("name", Json::text("mock")).with(
                "version",
                Json::text("0.144.6"),
            );
            return Json::object().with("serverInfo", info);
        }
        if text::same(method, "thread/list") {
            return self.list_threads();
        }
        if text::same(method, "thread/read") || text::same(method, "thread/resume") {
            return Json::object().with("thread", self.show_thread(copied_text(params, "threadId")));
        }
        if text::same(method, "thread/subscribe") {
            let id = text::joined("sub-", copied_text(params, "threadId").as_str());
            return Json::object().with("subscriptionId", Json::Text(id));
        }
        if text::same(method, "thread/unsubscribe") {
            return Json::object().with("status", Json::text("unsubscribed"));
        }
        if text::same(method, "skills/list") {
            let cwd = first_cwd(params);
            let entry = Json::object().with("cwd", cwd).with("skills", Json::array()).with(
                "errors",
                Json::array(),
            );
            let ghost one = entry@;
            let data = Json::array().and(entry);
            assert(Seq::<JsonView>::empty().push(one) =~= seq![one]);
            return Json::object().with("data", data);
        }
        if text::same(method, "turn/start") {
            return Json::object().with("turn", Json::object().with("id", Json::text("mock-turn")));
        }
        if text::same(method, "turn/steer") {
            return Json::object().with("turnId", copied_member(params, "expectedTurnId"));
        }
        Json::object()
    }

    /// Answers a request, if the value is one.
    pub fn handle_request(&mut self, value: &Json) -> (response: Option<Json>)
        requires
            old(self).valid(),
        ensures
            final(self).valid(),
            request_follows(*old(self), value@, *final(self), json::optional_json(response)),
    {
        let id = match value.get("id") {
            Some(id) => id.clone(),
            None => {
                return None;
            },
        };
        let method = match value.get_text("method") {
            Some(method) => method.clone(),
            None => {
                return None;
            },
        };
        let answer = start_envelope().with("id", id);
        let params = copied_member(value, "params");
        let left: usize = match self.request_failures.get(&method) {
            Some(left) => *left,
            None => 0,
        };
        if left > 0 {
            self.request_failures.insert(method, left - 1);
            return Some(answer.with("error", refusal("mock request failure")));
        }
        if text::same(method.as_str(), "thread/resume") && self.resume_failures_remaining > 0 {
            self.resume_failures_remaining -= 1;
            return Some(answer.with("error", refusal("no rollout found")));
        }
        let result = self.answer(method.as_str(), &params);
        assert(answers(*old(self), method@, params@, result@));
        Some(answer.with("result", result))
    }

    /// Takes in a value that was read: notes it, and answers it or ends the connection.
    pub fn take_value(&mut self, value: Json) -> (step: MockStep)
        requires
            old(self).valid(),
            is_response(value@) ==> old(self).responses_to_server_requests < usize::MAX,
        ensures
            final(self).valid(),
            value_follows(*old(self), value@, *final(self), step),
    {
        if value.get("method").is_none() && value.get("id").is_some() {
            self.responses_to_server_requests += 1;
        }
        let ghost before = self.received@;
        let kept = value.clone();
        assert(before.push(kept).drop_last() =~= before);
        self.received.push(kept);
        let method: Option<&String> = value.get_text("method");
        if let Fault::DisconnectOnMethod(target) = &self.fault {
            if let Some(method) = method {
                if text::same(method.as_str(), target.as_str()) {
                    return MockStep::End(Ok(()));
                }
            }
        }
        let mut sent: Vec<Json> = Vec::new();
        if let Fault::InterruptCompletionBeforeResponse = &self.fault {
            if let Some(method) = method {
                if text::same(method.as_str(), "turn/interrupt") {
                    let params = copied_member(&value, "params");
                    let turn = Json::object().with("id", copied_member(&params, "turnId")).with(
                        "status",
                        Json::text("interrupted"),
                    );
                    let said = Json::object().with(
                        "threadId",
                        copied_member(&params, "threadId"),
                    ).with("turn", turn);
                    sent.push(
                        start_envelope().with("method", Json::text("turn/completed")).with(
                            "params",
                            said,
                        ),
                    );
                }
            }
        }
        let ghost mid = *self;
        let ghost report = sent@;
        proof {
            json::lemma_items_view(report);
            assert(json::items_view(report) =~= sent_for(*old(self), value@, None));
        }
        let response = self.handle_request(&value);
        let ghost said = json::optional_json(response);
        if let Some(response) = response {
            assert(report.push(response).drop_last() =~= report);
            sent.push(response);
        }
        assert(request_follows(mid, value@, *self, said));
        MockStep::Send(sent)
    }

    /// Takes in a message.
    pub fn take_message(&mut self, message: WireMessage) -> (step: MockStep)
        requires
            old(self).valid(),
            old(self).responses_to_server_requests < usize::MAX,
        ensures
            final(self).valid(),
            if old(self).fault is HalfOpen {
                step is Ignore && *final(self) == *old(self)
            } else {
                match message {
                    WireMessage::Ping(payload) => step == MockStep::Pong(payload) && *final(self)
                        == *old(self),
                    WireMessage::Close => step == MockStep::End(Ok(())) && *final(self) == *old(
                        self,
                    ),
                    other => match rpc::message_reads(other) {
                        Ok(Some(value)) => value_follows(*old(self), value, *final(self), step),
                        Ok(None) => step is Ignore && *final(self) == *old(self),
                        Err(words) => {
                            &&& *final(self) == *old(self)
                            &&& step matches MockStep::End(Err(said))
                            &&& said@ == words
                        },
                    },
                }
            },
    {
        if let Fault::HalfOpen = &self.fault {
            return MockStep::Ignore;
        }
        match message {
            WireMessage::Ping(payload) => MockStep::Pong(payload),
            WireMessage::Close => MockStep::End(Ok(())),
            other => match rpc::message_json(&other) {
                Ok(Some(value)) => self.take_value(value),
                Ok(None) => MockStep::Ignore,
                Err(words) => MockStep::End(Err(words)),
            },
        }
    }
}

fn first_cwd(params: &Json) -> (cwd: Json)
    ensures
        cwd@ == listed_cwd(params@),
{
    match params.get_items("cwds") {
        Some(cwds) => {
            proof {
                json::lemma_items_view(cwds@);
            }
            if cwds.len() > 0 {
                cwds[0].clone()
            } else {
                Json::text(NO_PROJECT)
            }
        },
        None => Json::text(NO_PROJECT),
    }
}

} // verus!
