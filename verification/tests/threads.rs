use codex_control::json;
use codex_control::json::Json;
use codex_control::path::FilePath;
use codex_control::rpc::RequestError;
use codex_control::threads;
use codex_control::threads::{
    ListedThread, ListingEvent, ListingStep, ReadThread, ReadTurn, ThreadListError, ThreadListPage,
    ThreadListing, ThreadReadError, PAGE_SIZE,
};

fn value(text: &str) -> Json {
    json::parse_text(text).unwrap()
}

/// What a typed reading of a `thread/list` answer gives.
fn page_of(answer: &Json) -> ThreadListPage {
    let mut data = Vec::new();
    for thread in answer.get_items("data").unwrap() {
        data.push(ListedThread {
            id: thread.get_text("id").unwrap().clone(),
            cwd: FilePath::from_text(thread.get_text("cwd").unwrap()),
            metadata: thread.clone(),
        });
    }
    ThreadListPage {
        data,
        next_cursor: answer.get_text("nextCursor").cloned(),
    }
}

fn list_all(
    client: &mut dyn FnMut(&str, &Json) -> Result<Json, RequestError>,
) -> Result<Vec<ListedThread>, ThreadListError> {
    let (mut listing, mut step) = ThreadListing::list_all();
    loop {
        step = match step {
            ListingStep::Request { method, params } => {
                let reply = client(&method, &params);
                listing.list_all_after(ListingEvent::Replied(reply))
            }
            ListingStep::Parse(answer) => {
                let page = page_of(&answer);
                listing.list_all_after(ListingEvent::Parsed(Ok(page)))
            }
            ListingStep::Done(result) => return result,
        };
    }
}

#[test]
fn list_all_uses_typed_paginated_thread_contract_and_keeps_idle_threads() {
    let mut requests: Vec<(String, String)> = Vec::new();
    let threads = list_all(&mut |method, params| {
        requests.push((method.to_owned(), params.to_text()));
        Ok(if matches!(params.get("cursor"), Some(Json::Null)) {
            value(
                "{\"data\":[{\"id\":\"idle\",\"cwd\":\"/tmp/idle-project\",\"status\":{\"type\":\"idle\"},\"updatedAt\":2}],\"nextCursor\":\"next-page\"}",
            )
        } else {
            value(
                "{\"data\":[{\"id\":\"active\",\"cwd\":\"/tmp/active-project\",\"status\":{\"type\":\"active\"},\"updatedAt\":1}],\"nextCursor\":null}",
            )
        })
    })
    .unwrap();

    assert_eq!(
        threads
            .iter()
            .map(|thread| (thread.id.clone(), thread.cwd.to_text().unwrap()))
            .collect::<Vec<_>>(),
        vec![
            ("idle".to_owned(), "/tmp/idle-project".to_owned()),
            ("active".to_owned(), "/tmp/active-project".to_owned()),
        ]
    );
    assert_eq!(
        threads[0]
            .metadata
            .get("status")
            .unwrap()
            .get_text("type")
            .unwrap(),
        "idle"
    );
    assert_eq!(PAGE_SIZE, 100);
    assert_eq!(
        requests,
        vec![
            (
                "thread/list".to_owned(),
                value("{\"cursor\":null,\"limit\":100,\"sortKey\":\"updated_at\",\"sortDirection\":\"desc\"}").to_text(),
            ),
            (
                "thread/list".to_owned(),
                value("{\"cursor\":\"next-page\",\"limit\":100,\"sortKey\":\"updated_at\",\"sortDirection\":\"desc\"}").to_text(),
            ),
        ]
    );
}

#[test]
fn read_retains_turn_items_omitted_from_turn_started() {
    assert_eq!(
        threads::reading_params("thread").to_text(),
        value("{\"threadId\":\"thread\",\"includeTurns\":true}").to_text()
    );
    let answer = value(
        "{\"thread\":{\"id\":\"thread\",\"cwd\":\"/tmp/project\",\"turns\":[{\"id\":\"turn\",\"status\":\"inProgress\",\"items\":[{\"id\":\"user\",\"type\":\"userMessage\",\"content\":[{\"type\":\"text\",\"text\":\"hello\"}]}]}]}}",
    );
    let read = answer.get("thread").unwrap();
    let turns = read
        .get_items("turns")
        .unwrap()
        .iter()
        .map(|turn| ReadTurn {
            id: turn.get_text("id").unwrap().clone(),
            items: turn.get_items("items").unwrap().clone(),
            metadata: turn.clone(),
        })
        .collect();
    let thread = threads::read(Ok(Ok(ReadThread {
        id: read.get_text("id").unwrap().clone(),
        turns,
        metadata: read.clone(),
    })))
    .unwrap();
    assert_eq!(thread.id, "thread");
    assert_eq!(thread.turns[0].id, "turn");
    assert_eq!(
        thread.turns[0].items[0].get_text("type").unwrap(),
        "userMessage"
    );
    assert_eq!(thread.metadata.get_text("cwd").unwrap(), "/tmp/project");
    assert_eq!(
        thread.turns[0].metadata.get_text("status").unwrap(),
        "inProgress"
    );
}

fn thread(id: &str, cwd: &str) -> ListedThread {
    ListedThread {
        id: id.to_owned(),
        cwd: FilePath::from_text(cwd),
        metadata: Json::object(),
    }
}

fn page(threads: Vec<ListedThread>, cursor: Option<&str>) -> ListingEvent {
    ListingEvent::Parsed(Ok(ThreadListPage {
        data: threads,
        next_cursor: cursor.map(str::to_owned),
    }))
}

#[test]
fn a_thread_is_listed_once_as_it_was_first_seen() {
    let (mut listing, _) = ThreadListing::list_all();
    listing.list_all_after(ListingEvent::Replied(Ok(Json::Null)));
    listing.list_all_after(page(vec![thread("a", "/1"), thread("a", "/2")], Some("c")));
    listing.list_all_after(ListingEvent::Replied(Ok(Json::Null)));
    match listing.list_all_after(page(vec![thread("b", "/3"), thread("a", "/4")], None)) {
        ListingStep::Done(Ok(threads)) => {
            assert_eq!(threads.len(), 2);
            assert_eq!(threads[0].id, "a");
            assert_eq!(threads[0].cwd.to_text().unwrap(), "/1");
            assert_eq!(threads[1].id, "b");
        }
        other => panic!("{:?}", other),
    }
}

#[test]
fn a_repeated_cursor_ends_the_listing() {
    let (mut listing, _) = ThreadListing::list_all();
    listing.list_all_after(ListingEvent::Replied(Ok(Json::Null)));
    listing.list_all_after(page(Vec::new(), Some("x\"y")));
    listing.list_all_after(ListingEvent::Replied(Ok(Json::Null)));
    match listing.list_all_after(page(Vec::new(), Some("x\"y"))) {
        ListingStep::Done(Err(error)) => assert_eq!(
            error.message(),
            "thread/list repeated pagination cursor \"x\\\"y\""
        ),
        other => panic!("{:?}", other),
    }
}

#[test]
fn a_failed_listing_says_why() {
    let (mut listing, _) = ThreadListing::list_all();
    match listing.list_all_after(ListingEvent::Replied(Err(RequestError::Closed))) {
        ListingStep::Done(Err(error)) => assert_eq!(error.message(), "transport is shut down"),
        other => panic!("{:?}", other),
    }
    let (mut listing, _) = ThreadListing::list_all();
    listing.list_all_after(ListingEvent::Replied(Ok(Json::Null)));
    match listing.list_all_after(ListingEvent::Parsed(Err("no data".to_owned()))) {
        ListingStep::Done(Err(error)) => assert_eq!(
            error.message(),
            "invalid response from thread/list: no data"
        ),
        other => panic!("{:?}", other),
    }
}

#[test]
fn a_failed_reading_says_why() {
    assert_eq!(
        threads::read(Ok(Err("bad".to_owned()))).unwrap_err().message(),
        "invalid response from thread/read: bad"
    );
    assert!(matches!(
        threads::read(Err(RequestError::Closed)),
        Err(ThreadReadError::Request(RequestError::Closed))
    ));
}
