use codex_control::clock::{MILLISECOND, SECOND};
use codex_control::control;
use codex_control::control::{
    CodexControl, Config, Error, Handle, Restoration, RestorationEvent, RestorationStep, Run,
    RunEvent, RunStage, RunStep, ShutdownStep,
};
use codex_control::ingest::IngestError;
use codex_control::path::FilePath;
use codex_control::rpc::RequestError;
use codex_control::supervisor::{DaemonOwnership, SupervisionState, SupervisorError};
use codex_control::transport::ConnectionPhase;

fn config(manage_gui: bool) -> Config {
    Config {
        manage_gui,
        ..Config::for_home(Some(FilePath::from_text("/h")), "1")
    }
}

fn state() -> SupervisionState {
    SupervisionState {
        daemon_ownership: DaemonOwnership::Started,
        daemon_version: "v".to_owned(),
        gui_attached: true,
        daemon_left_running: true,
    }
}

fn run_at(stage: RunStage) -> Run {
    Run {
        manage_gui: true,
        supervision: None,
        stage,
    }
}

#[test]
fn defaults_are_bounded_and_agree_on_the_socket() {
    let config = Config::for_home(Some(FilePath::from_text("/h")), "1");
    assert!(config.manage_gui);
    assert_eq!(
        config.transport.socket_path.to_text(),
        config.supervisor.socket_path.to_text()
    );
    assert_eq!(config.transport.max_incoming_bytes, 268_435_456);
    assert_eq!(config.ingest.reconcile_page_size, 50);
    assert_eq!(config.ingest.reconcile_page_bound, 4);
    assert_eq!(config.ingest.reconcile_candidate_limit, 200);
    assert_eq!(config.ingest.subscription_cap, 512);
    assert_eq!(config.ingest.resume_retry_limit, 8);
    assert_eq!(config.ingest.retry_delay, 250 * MILLISECOND);
    assert_eq!(config.lifecycle_replay_capacity, 4096);
    assert_eq!(config.lifecycle_broadcast_capacity, 1024);
    assert_eq!(config.delta_broadcast_capacity, 2048);
}

#[test]
fn a_run_goes_from_supervision_to_shutdown() {
    let (run, step) = CodexControl::run(&config(true));
    assert!(matches!(step, RunStep::Supervise));
    let (run, step) = CodexControl::run_after(run, RunEvent::Supervised(Ok(state())));
    assert!(matches!(step, RunStep::Connect));
    let (run, step) = CodexControl::run_after(run, RunEvent::Connected { ingress: true });
    assert!(matches!(step, RunStep::Reconcile));
    let (run, step) = CodexControl::run_after(run, RunEvent::Reconciled(Ok(())));
    assert!(matches!(step, RunStep::Mark));
    let (run, step) = CodexControl::run_after(run, RunEvent::Marked(Ok(())));
    assert!(matches!(step, RunStep::Operate { monitor: true }));
    assert_eq!(run.supervision, Some(state()));
    let (run, step) = CodexControl::run_after(run, RunEvent::Operated);
    assert!(matches!(step, RunStep::Close));
    let (_, step) = CodexControl::run_after(run, RunEvent::Closed);
    assert!(matches!(step, RunStep::Done(Ok(()))));
}

#[test]
fn an_unmanaged_run_begins_with_the_connection() {
    let (run, step) = CodexControl::run(&config(false));
    assert!(matches!(step, RunStep::Connect));
    let (run, _) = CodexControl::run_after(run, RunEvent::Connected { ingress: true });
    let (run, _) = CodexControl::run_after(run, RunEvent::Reconciled(Ok(())));
    let (_, step) = CodexControl::run_after(run, RunEvent::Marked(Ok(())));
    assert!(matches!(step, RunStep::Operate { monitor: false }));
}

fn failure(stage: RunStage, event: RunEvent) -> Error {
    match CodexControl::run_after(run_at(stage), event).1 {
        RunStep::Done(Err(error)) => error,
        other => panic!("{:?}", other),
    }
}

#[test]
fn a_run_that_fails_says_why() {
    let error = failure(
        RunStage::Supervising,
        RunEvent::Supervised(Err(SupervisorError::Inspection("x".to_owned()))),
    );
    assert_eq!(error.message(), "process inspection failed: x");
    let error = failure(
        RunStage::Connecting,
        RunEvent::Connected { ingress: false },
    );
    assert_eq!(
        error.message(),
        "transport authoritative ingress receiver was already taken"
    );
    let error = failure(
        RunStage::Marking,
        RunEvent::Marked(Err(RequestError::Closed)),
    );
    assert_eq!(error.message(), "transport is shut down");
}

#[test]
fn the_connection_is_closed_before_a_failed_reconciliation_is_reported() {
    let (run, step) = CodexControl::run_after(
        run_at(RunStage::Reconciling),
        RunEvent::Reconciled(Err(IngestError::MalformedList)),
    );
    assert!(matches!(step, RunStep::Withdraw));
    match CodexControl::run_after(run, RunEvent::Withdrawn).1 {
        RunStep::Done(Err(error)) => {
            assert_eq!(error.message(), "malformed thread/list response")
        }
        other => panic!("{:?}", other),
    }
}

#[test]
fn a_restoration_is_repeated_with_growing_pauses() {
    let mut pauses = Vec::new();
    let (mut at, mut step) =
        control::restore_after(Restoration::Watching, RestorationEvent::Health { due: true });
    while pauses.len() < 8 {
        let event = match step {
            RestorationStep::Reconcile => RestorationEvent::Reconciled(pauses.len() % 2 == 0),
            RestorationStep::Reapply => RestorationEvent::Reapplied(false),
            RestorationStep::Pause(span) => {
                pauses.push(span / MILLISECOND);
                RestorationEvent::Paused {
                    stop: false,
                    due: true,
                }
            }
            other => panic!("{:?}", other),
        };
        let (next, then) = control::restore_after(at, event);
        at = next;
        step = then;
    }
    assert_eq!(pauses, vec![50, 100, 200, 400, 800, 1600, 2000, 2000]);
    assert_eq!(control::RESTORE_MAX, 2 * SECOND);
}

#[test]
fn the_barrier_opens_after_both_halves_of_a_restoration() {
    let (at, step) = control::restore_after(
        Restoration::Reconciling {
            retry: 50 * MILLISECOND,
        },
        RestorationEvent::Reconciled(true),
    );
    assert_eq!(step, RestorationStep::Reapply);
    let (at, step) = control::restore_after(at, RestorationEvent::Reapplied(true));
    assert_eq!(step, RestorationStep::Mark);
    let (at, step) = control::restore_after(at, RestorationEvent::Marked);
    assert_eq!((at, step), (Restoration::Watching, RestorationStep::Watch));
}

#[test]
fn a_restoration_ends_with_a_shutdown() {
    let watching = Restoration::Watching;
    let stopped = (Restoration::Ended, RestorationStep::Stop);
    assert_eq!(
        control::restore_after(watching, RestorationEvent::Shutdown { stop: true }),
        stopped
    );
    assert_eq!(
        control::restore_after(watching, RestorationEvent::HealthClosed),
        stopped
    );
    assert_eq!(
        control::restore_after(watching, RestorationEvent::Shutdown { stop: false }).1,
        RestorationStep::Watch
    );
    let pausing = Restoration::Pausing {
        retry: 50 * MILLISECOND,
    };
    assert_eq!(
        control::restore_after(
            pausing,
            RestorationEvent::Paused {
                stop: true,
                due: true
            }
        ),
        stopped
    );
    assert_eq!(
        control::restore_after(
            pausing,
            RestorationEvent::Paused {
                stop: false,
                due: false
            }
        )
        .1,
        RestorationStep::Watch
    );
}

#[test]
fn only_an_unreconciled_connection_is_restored() {
    assert!(control::restoration_due(ConnectionPhase::Reconciling, false));
    assert!(!control::restoration_due(ConnectionPhase::Reconciling, true));
    assert!(!control::restoration_due(ConnectionPhase::Connected, false));
}

#[test]
fn some_methods_may_signal_a_thread() {
    assert!(control::may_signal(Some("thread/started")));
    assert!(control::may_signal(Some("thread/status/changed")));
    assert!(!control::may_signal(Some("turn/started")));
    assert!(!control::may_signal(None));
}

#[test]
fn a_shutdown_happens_once_and_in_order() {
    let mut handle = Handle::new(Some(state()));
    assert_eq!(handle.supervision(), Some(&state()));
    assert!(handle.shutdown_in_background());
    let mut order = Vec::new();
    let mut step = handle.shutdown();
    while let Some(next) = step {
        order.push(next);
        step = Handle::shutdown_after(next);
    }
    assert_eq!(
        order,
        vec![
            ShutdownStep::Signal,
            ShutdownStep::Unsubscribe,
            ShutdownStep::Close
        ]
    );
    assert_eq!(handle.shutdown(), None);
    assert!(!handle.shutdown_in_background());
}
