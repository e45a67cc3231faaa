use codex_control::clock::{Nanos, MILLISECOND};
use codex_control::ingest;
use codex_control::ingest::{
    AuthoritativeIngress, Consumer, Discovery, DiscoveryEvent, DiscoveryOutcome, DiscoverySource,
    DiscoveryStep, IngestConfig, IngestError, ReconcileEvent, ReconcileStep, Signal,
    SubscriptionState, ThreadIngestor,
};
use codex_control::json;
use codex_control::json::Json;
use codex_control::mock::{MockAppServer, MockStep, MockThread};
use codex_control::path::FilePath;
use codex_control::rpc::{Reply, RequestError};

fn value(text: &str) -> Json {
    json::parse_text(text).unwrap()
}

fn mock_thread(id: &str, cwd: &str, status: &str, turn: Option<&str>, updated: u64) -> MockThread {
    MockThread {
        id: id.to_owned(),
        cwd: FilePath::from_text(cwd),
        status: status.to_owned(),
        turn_id: turn.map(str::to_owned),
        ephemeral: false,
        updated_at: updated,
    }
}

fn setup(cap: usize, release: bool) -> (MockAppServer, ThreadIngestor) {
    (
        MockAppServer::new(),
        ThreadIngestor::new(IngestConfig {
            subscription_cap: cap,
            release_idle_subscriptions: release,
            retry_delay: 5 * MILLISECOND,
            ..IngestConfig::default()
        }),
    )
}

fn ask(server: &mut MockAppServer, method: &str, params: Json) -> Reply {
    let message = Json::object()
        .with("jsonrpc", Json::text("2.0"))
        .with("id", Json::Number(1))
        .with("method", Json::text(method))
        .with("params", params);
    match server.take_value(message) {
        MockStep::Send(sent) => {
            let answer = sent.last().unwrap();
            match answer.get("error") {
                Some(error) => Err(RequestError::Rejected {
                    method: method.to_owned(),
                    error: error.clone(),
                }),
                None => Ok(answer.get("result").unwrap().clone()),
            }
        }
        other => panic!("{:?}", other),
    }
}

/// What the reducer and the store were told.
#[derive(Default)]
struct Told {
    begun: usize,
    finished: usize,
    cancelled: usize,
    restored: usize,
    anchors: Vec<String>,
    slept: Nanos,
}

fn go_on(
    ingestor: &mut ThreadIngestor,
    server: &mut MockAppServer,
    told: &mut Told,
    begun: (Discovery, DiscoveryStep),
) -> DiscoveryOutcome {
    let (mut run, mut step) = begun;
    loop {
        let event = match step {
            DiscoveryStep::Begin => {
                told.begun += 1;
                DiscoveryEvent::Told
            }
            DiscoveryStep::Request { method, params } => {
                DiscoveryEvent::Replied(ask(server, &method, params))
            }
            DiscoveryStep::Sleep(span) => {
                told.slept += span;
                DiscoveryEvent::Slept
            }
            DiscoveryStep::Finish => {
                told.finished += 1;
                DiscoveryEvent::Told
            }
            DiscoveryStep::Restore { anchor, .. } => {
                told.restored += 1;
                told.anchors.extend(anchor);
                DiscoveryEvent::Told
            }
            DiscoveryStep::Cancel => {
                told.cancelled += 1;
                DiscoveryEvent::Told
            }
            DiscoveryStep::Done(outcome) => return outcome,
        };
        let (went, then) = ingestor.discover_after(run, event);
        run = went;
        step = then;
    }
}

fn discover(
    ingestor: &mut ThreadIngestor,
    server: &mut MockAppServer,
    told: &mut Told,
    id: &str,
    source: DiscoverySource,
) -> DiscoveryOutcome {
    let begun = ingestor.discover(id, source);
    go_on(ingestor, server, told, begun)
}

fn reconcile(
    ingestor: &mut ThreadIngestor,
    server: &mut MockAppServer,
    told: &mut Told,
) -> Result<Vec<(String, DiscoveryOutcome)>, IngestError> {
    let (mut run, mut step) = ingestor.reconcile();
    loop {
        let event = match step {
            ReconcileStep::Request { method, params } => {
                ReconcileEvent::Replied(ask(server, &method, params))
            }
            ReconcileStep::Restore { .. } => {
                told.restored += 1;
                ReconcileEvent::Told
            }
            ReconcileStep::Discover { thread_id } => ReconcileEvent::Discovered(discover(
                ingestor,
                server,
                told,
                &thread_id,
                DiscoverySource::Reconciliation,
            )),
            ReconcileStep::Done(result) => return result,
        };
        let (went, then) = ingestor.reconcile_after(run, event);
        run = went;
        step = then;
    }
}

fn resumes(server: &MockAppServer) -> usize {
    server
        .received()
        .iter()
        .filter(|request| request.get_text("method").map(String::as_str) == Some("thread/resume"))
        .count()
}

#[test]
fn reconciliation_duplicate_discovery_and_capacity() {
    let (mut server, mut ingestor) = setup(1, false);
    let mut told = Told::default();
    server.add_thread(mock_thread("a", "/mock/a", "active", Some("x"), 2));
    server.add_thread(mock_thread("b", "/mock/b", "active", Some("y"), 1));
    let outcomes = reconcile(&mut ingestor, &mut server, &mut told).unwrap();
    assert_eq!(outcomes.len(), 2);
    assert_eq!(ingestor.state("a"), SubscriptionState::Subscribed);
    assert_eq!(ingestor.state("b"), SubscriptionState::CapacityDegraded);
    assert_eq!(
        discover(
            &mut ingestor,
            &mut server,
            &mut told,
            "a",
            DiscoverySource::ThreadStarted
        ),
        DiscoveryOutcome::AlreadyManaged
    );
    assert_eq!(resumes(&server), 1);
}

#[test]
fn idle_release_requires_verified_global_reactivation() {
    let (mut server, mut ingestor) = setup(2, true);
    let mut told = Told::default();
    assert_eq!(
        discover(
            &mut ingestor,
            &mut server,
            &mut told,
            "a",
            DiscoverySource::ThreadStarted
        ),
        DiscoveryOutcome::Subscribed
    );
    assert!(ingestor.release_if_idle("a", None).is_none());
    ingestor.set_reactivation_verified(true);
    assert!(ingestor.release_if_idle("a", Some("active")).is_none());
    let (method, params) = ingestor.release_if_idle("a", Some("idle")).unwrap();
    let reply = ask(&mut server, &method, params);
    assert!(ingestor.release_after("a", &reply));
    assert_eq!(ingestor.state("a"), SubscriptionState::Released);
}

#[test]
fn a_release_that_fails_changes_nothing() {
    let (_, mut ingestor) = setup(2, true);
    assert!(!ingestor.release_after("a", &Err(RequestError::Closed)));
    assert_eq!(ingestor.state("a"), SubscriptionState::Unseen);
}

#[test]
fn in_flight_turn_at_subscribe_yields_reconstructed_anchor() {
    let (mut server, ingestor) = setup(4, false);
    let mut ingestor = ingestor.with_store();
    let mut told = Told::default();
    server.add_thread(mock_thread("a", "/mock/a", "active", Some("t1"), 1));
    assert_eq!(
        discover(
            &mut ingestor,
            &mut server,
            &mut told,
            "a",
            DiscoverySource::ThreadStarted
        ),
        DiscoveryOutcome::Subscribed
    );
    assert_eq!(
        told.anchors.len(),
        1,
        "expected exactly one reconstructed anchor"
    );
    assert_eq!(told.anchors[0], "t1");
    assert_eq!((told.begun, told.finished, told.cancelled), (1, 1, 0));
}

#[test]
fn without_a_store_there_is_no_anchor() {
    let (mut server, mut ingestor) = setup(4, false);
    let mut told = Told::default();
    server.add_thread(mock_thread("a", "/mock/a", "active", Some("t1"), 1));
    discover(
        &mut ingestor,
        &mut server,
        &mut told,
        "a",
        DiscoverySource::ThreadStarted,
    );
    assert!(told.anchors.is_empty());
    assert_eq!(told.restored, 1);
}

#[test]
fn retry_wait_deduplicates_concurrent_discovery() {
    let (mut server, mut ingestor) = setup(4, false);
    let mut told = Told::default();
    server.set_resume_failures(1);
    let (run, step) = ingestor.discover("retrying", DiscoverySource::ThreadStarted);
    assert!(matches!(step, DiscoveryStep::Begin));
    let (run, step) = ingestor.discover_after(run, DiscoveryEvent::Told);
    let (method, params) = match step {
        DiscoveryStep::Request { method, params } => (method, params),
        other => panic!("{:?}", other),
    };
    let reply = ask(&mut server, &method, params);
    let (run, step) = ingestor.discover_after(run, DiscoveryEvent::Replied(reply));
    assert!(matches!(step, DiscoveryStep::Sleep(span) if span == 5 * MILLISECOND));
    assert!(matches!(
        ingestor.state("retrying"),
        SubscriptionState::RetryWait { .. }
    ));
    assert_eq!(
        discover(
            &mut ingestor,
            &mut server,
            &mut told,
            "retrying",
            DiscoverySource::ActivationStatus
        ),
        DiscoveryOutcome::AlreadyManaged
    );
    let resumed = ingestor.discover_after(run, DiscoveryEvent::Slept);
    assert_eq!(
        go_on(&mut ingestor, &mut server, &mut told, resumed),
        DiscoveryOutcome::Subscribed
    );
    assert_eq!(
        resumes(&server),
        2,
        "one failed attempt and one bounded retry"
    );
}

#[test]
fn rollout_race_retries_then_ephemeral_threads_give_up() {
    let (mut server, mut ingestor) = setup(2, false);
    let mut told = Told::default();
    server.set_resume_failures(2);
    assert_eq!(
        discover(
            &mut ingestor,
            &mut server,
            &mut told,
            "persisted",
            DiscoverySource::ThreadStarted
        ),
        DiscoveryOutcome::Subscribed
    );
    server.set_resume_failures(20);
    assert_eq!(
        discover(
            &mut ingestor,
            &mut server,
            &mut told,
            "ephemeral",
            DiscoverySource::ThreadStarted
        ),
        DiscoveryOutcome::Ephemeral
    );
    assert_eq!(resumes(&server), 3 + 8);
    assert_eq!(told.cancelled, 1);
    assert_eq!(told.slept, (2 + 7) * 5 * MILLISECOND);
    assert_eq!(ingestor.state("ephemeral"), SubscriptionState::Ephemeral);
}

fn refuse(limit: usize, error: RequestError) -> (SubscriptionState, bool) {
    let mut ingestor = ThreadIngestor::new(IngestConfig {
        resume_retry_limit: limit,
        ..IngestConfig::default()
    });
    let (run, _) = ingestor.discover("t", DiscoverySource::ThreadStarted);
    let (run, _) = ingestor.discover_after(run, DiscoveryEvent::Told);
    let (_, step) = ingestor.discover_after(run, DiscoveryEvent::Replied(Err(error)));
    (
        ingestor.state("t"),
        matches!(step, DiscoveryStep::Cancel),
    )
}

#[test]
fn only_what_was_not_written_or_is_not_there_is_tried_again() {
    assert_eq!(
        refuse(2, RequestError::NotWritten("x".to_owned())),
        (SubscriptionState::RetryWait { attempt: 2 }, false)
    );
    assert_eq!(
        refuse(1, RequestError::NotWritten("x".to_owned())),
        (
            SubscriptionState::Failed("request was not written: x".to_owned()),
            true
        )
    );
    assert_eq!(
        refuse(8, RequestError::Closed),
        (
            SubscriptionState::Failed("transport is shut down".to_owned()),
            true
        )
    );
    let denied = RequestError::Rejected {
        method: "thread/resume".to_owned(),
        error: Json::text("denied"),
    };
    assert_eq!(
        refuse(8, denied),
        (
            SubscriptionState::Failed("request thread/resume was rejected: \"denied\"".to_owned()),
            true
        )
    );
    let missing = RequestError::Rejected {
        method: "thread/resume".to_owned(),
        error: Json::text("Thread NOT found"),
    };
    assert_eq!(
        refuse(0, missing),
        (SubscriptionState::Ephemeral, true)
    );
}

#[test]
fn a_failed_read_leaves_the_subscription() {
    let (mut server, mut ingestor) = setup(2, false);
    let mut told = Told::default();
    server.set_request_failures("thread/read", 1);
    assert_eq!(
        discover(
            &mut ingestor,
            &mut server,
            &mut told,
            "t",
            DiscoverySource::ThreadStarted
        ),
        DiscoveryOutcome::Subscribed
    );
    assert_eq!(told.restored, 0);
    assert_eq!(ingestor.state("t"), SubscriptionState::Subscribed);
}

#[test]
fn signals_lead_to_discoveries() {
    let (_, mut ingestor) = setup(8, false);
    let mut signal = |thread: Option<&str>, method: Option<&str>, params: Option<&str>| {
        ingestor
            .handle_signal(&Signal {
                thread_id: thread.map(str::to_owned),
                method: method.map(str::to_owned),
                params: params.map(value),
            })
            .map(|begun| begun.0.source)
    };
    assert_eq!(
        signal(Some("a"), Some("thread/started"), None),
        Some(DiscoverySource::ThreadStarted)
    );
    assert_eq!(
        signal(
            Some("b"),
            Some("thread/status/changed"),
            Some("{\"status\":{\"type\":\"active\"}}")
        ),
        Some(DiscoverySource::ActivationStatus)
    );
    assert_eq!(
        signal(
            Some("c"),
            Some("thread/status/changed"),
            Some("{\"status\":\"active\"}")
        ),
        Some(DiscoverySource::ActivationStatus)
    );
    assert_eq!(
        signal(
            Some("d"),
            Some("thread/status/changed"),
            Some("{\"status\":{\"type\":\"idle\"}}")
        ),
        None
    );
    assert_eq!(signal(Some("e"), Some("turn/started"), None), None);
    assert_eq!(signal(None, Some("thread/started"), None), None);
    assert_eq!(signal(Some("f"), None, None), None);
    assert_eq!(ingestor.states().len(), 3);
}

fn listed(page: &str) -> ReconcileEvent {
    ReconcileEvent::Replied(Ok(value(page)))
}

#[test]
fn a_reconciliation_keeps_to_its_bounds() {
    let mut ingestor = ThreadIngestor::new(IngestConfig {
        reconcile_page_size: 2,
        reconcile_page_bound: 2,
        reconcile_candidate_limit: 3,
        ..IngestConfig::default()
    });
    let (run, step) = ingestor.reconcile();
    match step {
        ReconcileStep::Request { method, params } => {
            assert_eq!(method, "thread/list");
            assert_eq!(
                params.to_text(),
                "{\"cursor\":null,\"limit\":2,\"sortDirection\":\"desc\",\"sortKey\":\"updated_at\"}"
            );
        }
        other => panic!("{:?}", other),
    }
    let (run, step) = ingestor.reconcile_after(
        run,
        listed("{\"data\":[{\"id\":\"a\",\"updatedAt\":\"9\"},{\"updatedAt\":99},{\"id\":\"b\"}],\"nextCursor\":\"n\"}"),
    );
    assert!(
        matches!(step, ReconcileStep::Request { params, .. } if params.get_text("cursor").unwrap() == "n")
    );
    let (run, step) = ingestor.reconcile_after(
        run,
        listed("{\"data\":[{\"id\":\"c\"},{\"id\":\"d\"}],\"nextCursor\":\"m\"}"),
    );
    assert_eq!(run.candidates, vec!["a", "b", "c"]);
    assert_eq!(ingestor.watermark, 9);
    assert!(matches!(step, ReconcileStep::Request { method, .. } if method == "thread/read"));
}

#[test]
fn a_reconciliation_stops_at_what_had_been_seen() {
    let mut ingestor = ThreadIngestor::new(IngestConfig::default());
    ingestor.watermark = 5;
    let (run, _) = ingestor.reconcile();
    let (run, step) = ingestor.reconcile_after(
        run,
        listed("{\"data\":[{\"id\":\"a\",\"updatedAt\":6},{\"id\":\"b\",\"updatedAt\":5},{\"id\":\"c\",\"updatedAt\":7}],\"nextCursor\":\"n\"}"),
    );
    assert_eq!(run.candidates, vec!["a"]);
    assert_eq!(ingestor.watermark, 6);
    assert!(matches!(step, ReconcileStep::Request { method, .. } if method == "thread/read"));
}

#[test]
fn a_failed_reconciliation_is_repeated_from_where_it_was() {
    let mut ingestor = ThreadIngestor::new(IngestConfig::default());
    ingestor.watermark = 5;
    let (run, _) = ingestor.reconcile();
    let (run, _) = ingestor.reconcile_after(
        run,
        listed("{\"data\":[{\"id\":\"a\",\"updatedAt\":6}],\"nextCursor\":\"n\"}"),
    );
    let (_, step) = ingestor.reconcile_after(run, listed("{\"data\":7}"));
    match step {
        ReconcileStep::Done(Err(error)) => {
            assert_eq!(error.message(), "malformed thread/list response")
        }
        other => panic!("{:?}", other),
    }
    assert_eq!(ingestor.watermark, 5);
    let (run, _) = ingestor.reconcile();
    let failed = ReconcileEvent::Replied(Err(RequestError::Closed));
    match ingestor.reconcile_after(run, failed).1 {
        ReconcileStep::Done(Err(error)) => assert_eq!(
            error.message(),
            "reconciliation request failed: transport is shut down"
        ),
        other => panic!("{:?}", other),
    }
    assert_eq!(ingestor.watermark, 5);
}

#[test]
fn idle_threads_are_not_discovered() {
    let (mut server, mut ingestor) = setup(8, false);
    let mut told = Told::default();
    server.add_thread(mock_thread("idle", "/mock/i", "idle", None, 3));
    server.add_thread(mock_thread("done", "/mock/d", "completed", Some("t"), 2));
    server.add_thread(mock_thread("busy", "/mock/b", "running", Some("t"), 1));
    let outcomes = reconcile(&mut ingestor, &mut server, &mut told).unwrap();
    assert_eq!(
        outcomes,
        vec![("busy".to_owned(), DiscoveryOutcome::Subscribed)]
    );
    assert_eq!(ingestor.watermark, 3);
    assert_eq!(
        reconcile(&mut ingestor, &mut server, &mut told).unwrap(),
        Vec::new()
    );
}

#[test]
fn a_reconciliation_without_pages_does_nothing() {
    let ingestor = ThreadIngestor::new(IngestConfig {
        reconcile_page_bound: 0,
        ..IngestConfig::default()
    });
    assert!(
        matches!(ingestor.reconcile().1, ReconcileStep::Done(Ok(outcomes)) if outcomes.is_empty())
    );
}

#[test]
fn only_subscribed_threads_are_unsubscribed() {
    let (mut server, mut ingestor) = setup(2, false);
    let mut told = Told::default();
    for id in ["a", "b", "c"] {
        discover(
            &mut ingestor,
            &mut server,
            &mut told,
            id,
            DiscoverySource::ThreadStarted,
        );
    }
    assert_eq!(ingestor.unsubscribe_all_best_effort(), vec!["a", "b"]);
}

#[test]
fn the_turn_in_flight_is_the_last_that_has_not_ended() {
    let thread = value(
        "{\"turns\":[{\"id\":\"1\",\"status\":\"inProgress\"},{\"id\":\"2\"},{\"id\":\"3\",\"status\":\"failed\"}]}",
    );
    assert_eq!(ingest::in_flight_turn_id(&thread).as_deref(), Some("2"));
    assert!(ingest::thread_is_active(&thread));
    let ended = value("{\"turns\":[{\"id\":\"1\",\"status\":\"interrupted\"}]}");
    assert_eq!(ingest::in_flight_turn_id(&ended), None);
    assert!(!ingest::thread_is_active(&ended));
    assert!(ingest::thread_is_active(&value(
        "{\"status\":{\"type\":\"active\"}}"
    )));
    assert!(!ingest::thread_is_active(&value("{\"status\":\"active\"}")));
}

#[test]
fn times_are_numbers_or_texts_that_spell_them() {
    assert_eq!(ingest::numeric_timestamp(Some(&Json::Number(4))), Some(4));
    assert_eq!(ingest::numeric_timestamp(Some(&Json::text("12"))), Some(12));
    assert_eq!(ingest::numeric_timestamp(Some(&value("-1"))), None);
    assert_eq!(ingest::numeric_timestamp(Some(&Json::text("x"))), None);
    assert_eq!(ingest::numeric_timestamp(None), None);
}

#[test]
fn errors_about_missing_threads_are_recognised() {
    for words in ["EPHEMERAL thread", "no Rollout found", "was Not Found"] {
        assert!(ingest::is_ephemeral_text(words), "{}", words);
        let error = Json::object().with("message", Json::text(words));
        assert!(ingest::is_ephemeral_error(&error), "{}", words);
    }
    assert!(!ingest::is_ephemeral_text("notfound"));
}

#[test]
fn events_reach_observers_last() {
    let ingress = AuthoritativeIngress;
    let mut order = Vec::new();
    let mut next = ingress.process(None);
    while let Some(consumer) = next {
        order.push(consumer);
        next = ingress.process(Some(consumer));
    }
    assert_eq!(
        order,
        vec![Consumer::Reducer, Consumer::Store, Consumer::Hub]
    );
}

#[test]
fn discoveries_beside_each_other_share_the_places() {
    let (mut server, mut ingestor) = setup(1, true);
    let mut told = Told::default();
    let (first, _) = ingestor.discover("a", DiscoverySource::ThreadStarted);
    let (_, second) = ingestor.discover("b", DiscoverySource::ThreadStarted);
    assert!(matches!(
        second,
        DiscoveryStep::Done(DiscoveryOutcome::CapacityDegraded)
    ));
    let resumed = ingestor.discover_after(first, DiscoveryEvent::Told);
    assert_eq!(
        go_on(&mut ingestor, &mut server, &mut told, resumed),
        DiscoveryOutcome::Subscribed
    );
    assert!(ingestor.release_after("a", &Ok(Json::object())));
    assert_eq!(
        discover(
            &mut ingestor,
            &mut server,
            &mut told,
            "b",
            DiscoverySource::ActivationStatus
        ),
        DiscoveryOutcome::Subscribed
    );
    assert_eq!(ingestor.state("a"), SubscriptionState::Released);
}
