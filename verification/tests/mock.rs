use codex_control::json;
use codex_control::json::Json;
use codex_control::mock;
use codex_control::mock::{Fault, MockAppServer, MockStep, MockThread};
use codex_control::path::FilePath;
use codex_control::rpc::WireMessage;

fn value(text: &str) -> Json {
    json::parse_text(text).unwrap()
}

fn thread(id: &str, updated: u64) -> MockThread {
    MockThread {
        id: id.to_owned(),
        cwd: FilePath::from_text("/mock/a"),
        status: "active".to_owned(),
        turn_id: Some("x".to_owned()),
        ephemeral: false,
        updated_at: updated,
    }
}

fn result(server: &mut MockAppServer, method: &str, params: &str) -> String {
    let message = Json::object()
        .with("id", Json::Number(7))
        .with("method", Json::text(method))
        .with("params", value(params));
    let response = server.handle_request(&message).unwrap();
    assert_eq!(response.get("id").unwrap().as_number(), Some(7));
    assert_eq!(response.get_text("jsonrpc").unwrap(), "2.0");
    response.get("result").unwrap().to_text()
}

#[test]
fn a_thread_is_spoken_of_with_its_directory() {
    assert_eq!(
        thread("a", 2).json().to_text(),
        "{\"cwd\":\"/mock/a\",\"ephemeral\":false,\"id\":\"a\",\"status\":{\"type\":\"active\"},\"turns\":[{\"id\":\"x\",\"status\":\"active\"}],\"updatedAt\":2}"
    );
}

#[test]
fn requests_are_answered() {
    let mut server = MockAppServer::new();
    assert_eq!(
        result(&mut server, "initialize", "{}"),
        "{\"serverInfo\":{\"name\":\"mock\",\"version\":\"0.144.6\"}}"
    );
    assert_eq!(
        result(&mut server, "thread/read", "{\"threadId\":\"u\"}"),
        "{\"thread\":{\"cwd\":\"/mock/project\",\"ephemeral\":false,\"id\":\"u\",\"status\":{\"type\":\"idle\"},\"turns\":[],\"updatedAt\":0}}"
    );
    assert_eq!(
        result(&mut server, "thread/subscribe", "{\"threadId\":\"u\"}"),
        "{\"subscriptionId\":\"sub-u\"}"
    );
    assert_eq!(
        result(&mut server, "thread/unsubscribe", "{}"),
        "{\"status\":\"unsubscribed\"}"
    );
    assert_eq!(
        result(&mut server, "skills/list", "{\"cwds\":[\"/p\",\"/q\"]}"),
        "{\"data\":[{\"cwd\":\"/p\",\"errors\":[],\"skills\":[]}]}"
    );
    assert_eq!(
        result(&mut server, "skills/list", "{\"cwds\":[]}"),
        "{\"data\":[{\"cwd\":\"/mock/project\",\"errors\":[],\"skills\":[]}]}"
    );
    assert_eq!(
        result(&mut server, "turn/start", "{}"),
        "{\"turn\":{\"id\":\"mock-turn\"}}"
    );
    assert_eq!(
        result(&mut server, "turn/steer", "{\"expectedTurnId\":\"t\"}"),
        "{\"turnId\":\"t\"}"
    );
    assert_eq!(result(&mut server, "turn/interrupt", "{}"), "{}");
    assert_eq!(result(&mut server, "skills/extraRoots/set", "{}"), "{}");
    assert_eq!(result(&mut server, "anything", "null"), "{}");
}

#[test]
fn threads_are_listed_with_the_newest_first() {
    let mut server = MockAppServer::new();
    for (id, updated) in [("a", 1), ("b", 3), ("c", 2), ("d", 3)] {
        server.add_thread(thread(id, updated));
    }
    server.add_thread(thread("a", 9));
    let listed = value(&result(&mut server, "thread/list", "{}"));
    let data = listed.get_items("data").unwrap();
    let times: Vec<u64> = data
        .iter()
        .map(|thread| thread.get("updatedAt").unwrap().as_number().unwrap())
        .collect();
    assert_eq!(times, vec![9, 3, 3, 2]);
    assert!(matches!(listed.get("nextCursor"), Some(Json::Null)));
}

#[test]
fn what_is_no_request_is_not_answered() {
    let mut server = MockAppServer::new();
    for text in ["{\"id\":1}", "{\"method\":\"x\"}", "{\"id\":1,\"method\":2}", "[]"] {
        assert!(server.handle_request(&value(text)).is_none(), "{}", text);
    }
}

#[test]
fn failures_are_counted_down() {
    let mut server = MockAppServer::new();
    server.set_resume_failures(1);
    server.set_request_failures("turn/start", 2);
    let mut words = |method: &str| {
        let message = Json::object()
            .with("id", Json::Number(1))
            .with("method", Json::text(method));
        server
            .handle_request(&message)
            .unwrap()
            .get("error")
            .map(|error| error.get_text("message").unwrap().clone())
    };
    assert_eq!(
        words("thread/resume").as_deref(),
        Some("no rollout found")
    );
    assert_eq!(words("thread/resume"), None);
    assert_eq!(words("turn/start").as_deref(), Some("mock request failure"));
    assert_eq!(words("turn/start").as_deref(), Some("mock request failure"));
    assert_eq!(words("turn/start"), None);
}

#[test]
fn answers_to_the_daemons_requests_are_counted() {
    let mut server = MockAppServer::new();
    server.take_value(value("{\"id\":9001,\"result\":{}}"));
    server.take_value(value("{\"id\":1,\"method\":\"x\"}"));
    server.take_value(value("{\"method\":\"x\"}"));
    assert_eq!(server.responses_to_server_requests(), 1);
    assert_eq!(server.received().len(), 3);
}

#[test]
fn an_interruption_is_reported_before_the_response() {
    let mut server = MockAppServer::new();
    server.set_fault(Fault::InterruptCompletionBeforeResponse);
    let step = server.take_value(value(
        "{\"id\":1,\"method\":\"turn/interrupt\",\"params\":{\"threadId\":\"t\",\"turnId\":\"u\"}}",
    ));
    match step {
        MockStep::Send(sent) => {
            assert_eq!(sent.len(), 2);
            assert_eq!(
                sent[0].to_text(),
                "{\"jsonrpc\":\"2.0\",\"method\":\"turn/completed\",\"params\":{\"threadId\":\"t\",\"turn\":{\"id\":\"u\",\"status\":\"interrupted\"}}}"
            );
            assert_eq!(sent[1].to_text(), "{\"id\":1,\"jsonrpc\":\"2.0\",\"result\":{}}");
        }
        other => panic!("{:?}", other),
    }
}

#[test]
fn faults_end_or_silence_the_connection() {
    let mut server = MockAppServer::new();
    let message = || WireMessage::Text("{\"id\":1,\"method\":\"m\"}".to_owned());
    server.set_fault(Fault::DisconnectOnMethod("m".to_owned()));
    assert!(matches!(
        server.take_message(message()),
        MockStep::End(Ok(()))
    ));
    assert_eq!(server.received().len(), 1);
    server.set_fault(Fault::HalfOpen);
    assert!(matches!(server.take_message(message()), MockStep::Ignore));
    assert!(!server.forwards(&Json::object()));
    server.set_fault(Fault::NoFault);
    assert!(server.forwards(&Json::object()));
    assert!(!server.forwards(&Json::Null));
    assert!(
        matches!(server.take_message(WireMessage::Ping(vec![1])), MockStep::Pong(payload) if payload == vec![1])
    );
    assert!(matches!(
        server.take_message(WireMessage::Close),
        MockStep::End(Ok(()))
    ));
    assert!(matches!(
        server.take_message(WireMessage::Text("{".to_owned())),
        MockStep::End(Err(_))
    ));
    assert!(matches!(
        server.take_message(WireMessage::Pong),
        MockStep::Ignore
    ));
}

#[test]
fn messages_of_the_stand_in_are_numbered() {
    let mut server = MockAppServer::new();
    assert_eq!(
        server
            .emit_server_request("m", Json::Null)
            .to_text(),
        "{\"id\":9001,\"jsonrpc\":\"2.0\",\"method\":\"m\",\"params\":null}"
    );
    assert_eq!(
        server
            .emit_server_request("m", Json::Null)
            .get("id")
            .unwrap()
            .as_number(),
        Some(9002)
    );
    assert_eq!(
        MockAppServer::emit_notification("n", Json::object()).to_text(),
        "{\"jsonrpc\":\"2.0\",\"method\":\"n\",\"params\":{}}"
    );
}

#[test]
fn only_one_path_is_served() {
    assert_eq!(mock::accept_path("/rpc"), Ok(()));
    assert_eq!(mock::accept_path("/"), Err(404));
}
