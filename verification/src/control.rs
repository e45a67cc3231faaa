//! The whole: supervision, connection, reconciliation, and the operation that runs on top.

use crate::clock;
use crate::clock::Nanos;
use crate::ingest;
use crate::ingest::{IngestConfig, IngestError};
use crate::json::JsonView;
use crate::path::FilePath;
use crate::rpc;
use crate::rpc::RequestError;
use crate::supervisor::{SupervisionState, SupervisorConfig, SupervisorError};
use crate::text;
use crate::transport::{ConnectionPhase, TransportConfig};
use vstd::prelude::*;

verus! {

/// Complete runtime configuration. Defaults are deliberately bounded and conservative.
#[derive(Clone, Debug)]
pub struct Config {
    /// Launch/repair the macOS GUI and shared daemon. Defaults to `true`.
    pub manage_gui: bool,
    /// Unix socket, bounded timeouts/reconnects, and a 256 MiB trusted-local frame limit.
    pub transport: TransportConfig,
    /// Four pages/200 candidates, 512 retained subscriptions, eight resume attempts.
    pub ingest: IngestConfig,
    /// Retained lifecycle event count used before returning `GapTooOld + snapshot`.
    pub lifecycle_replay_capacity: usize,
    pub lifecycle_broadcast_capacity: usize,
    pub delta_broadcast_capacity: usize,
    pub supervisor: SupervisorConfig,
}

impl Config {
    /// The configuration of the client `version` for a user whose home directory is `home`. The
    /// connection goes to the socket that is supervised.
    pub fn for_home(home: Option<FilePath>, version: &str) -> (config: Config)
        ensures
            config.manage_gui,
            config.transport.valid(),
            config.supervisor.valid(),
            config.transport.socket_path@ == config.supervisor.socket_path@,
            config.supervisor.is_for_home(home),
            config.transport.is_for_home(home, version@),
            config.ingest == ingest::default_bounds(),
            config.lifecycle_replay_capacity == 4096,
            config.lifecycle_broadcast_capacity == 1024,
            config.delta_broadcast_capacity == 2048,
    {
        let home_again: Option<FilePath> = match &home {
            Some(home) => Some(home.clone()),
            None => None,
        };
        Config {
            manage_gui: true,
            transport: TransportConfig::for_home(home_again, version),
            ingest: IngestConfig::default(),
            lifecycle_replay_capacity: 4096,
            lifecycle_broadcast_capacity: 1024,
            delta_broadcast_capacity: 2048,
            supervisor: SupervisorConfig::for_home(home),
        }
    }
}

/// Why the operation could not be run.
#[derive(Debug)]
pub enum Error {
    Supervisor(SupervisorError),
    Ingest(IngestError),
    IngressAlreadyTaken,
    Transport(RequestError),
}

/// The words of a failure.
pub open spec fn control_words(error: Error) -> Seq<char> {
    match error {
        Error::Supervisor(error) => error.words(),
        Error::Ingest(error) => ingest::ingest_words(error),
        Error::IngressAlreadyTaken => {
            "transport authoritative ingress receiver was already taken"@
        },
        Error::Transport(error) => rpc::failure_words(error@),
    }
}

impl Error {
    /// The words of this failure.
    pub fn message(&self) -> (words: String)
        ensures
            words@ == control_words(*self),
    {
        match self {
            Error::Supervisor(error) => error.message(),
            Error::Ingest(error) => error.message(),
            Error::IngressAlreadyTaken => {
                "transport authoritative ingress receiver was already taken".to_owned()
            },
            Error::Transport(error) => error.message(),
        }
    }
}

/// The way in: everything is brought up, the operation runs, and everything is taken down.
#[derive(Clone, Copy, Debug)]
pub struct CodexControl;

/// A run: whether the GUI is managed, what supervision has established, and what it waits for.
#[derive(Debug)]
pub struct Run {
    pub manage_gui: bool,
    pub supervision: Option<SupervisionState>,
    pub stage: RunStage,
}

/// What a run waits for.
#[derive(Debug)]
pub enum RunStage {
    Supervising,
    Connecting,
    Reconciling,
    /// The connection is being closed because reconciliation failed.
    Withdrawing { error: IngestError },
    Marking,
    Operating,
    Closing,
    Ended,
}

/// What happened to a run.
#[derive(Debug)]
pub enum RunEvent {
    Supervised(Result<SupervisionState, SupervisorError>),
    /// The connection was brought up; `ingress` says whether its receiver was there to take.
    Connected { ingress: bool },
    Reconciled(Result<(), IngestError>),
    /// The connection has been closed.
    Withdrawn,
    Marked(Result<(), RequestError>),
    /// The operation has returned.
    Operated,
    /// Everything has been taken down.
    Closed,
}

/// What a run does next.
#[derive(Debug)]
pub enum RunStep {
    /// Establish supervision.
    Supervise,
    /// Bring the connection up, take its receiver, and start to take events in.
    Connect,
    /// Reconcile with the daemon.
    Reconcile,
    /// Close the connection.
    Withdraw,
    /// Open the barrier.
    Mark,
    /// Watch for reconnections, and the GUI if it is managed, and run the operation.
    Operate { monitor: bool },
    /// Take everything down.
    Close,
    Done(Result<(), Error>),
}

/// An event that can happen at a stage.
pub open spec fn run_expects(stage: RunStage, event: RunEvent) -> bool {
    match stage {
        RunStage::Supervising => event is Supervised,
        RunStage::Connecting => event is Connected,
        RunStage::Reconciling => event is Reconciled,
        RunStage::Withdrawing { .. } => event is Withdrawn,
        RunStage::Marking => event is Marked,
        RunStage::Operating => event is Operated,
        RunStage::Closing => event is Closed,
        RunStage::Ended => false,
    }
}

/// What an event changes, and what is done about it.
pub open spec fn run_follows(before: Run, event: RunEvent, after: Run, step: RunStep) -> bool {
    &&& after.manage_gui == before.manage_gui
    &&& after.supervision == match event {
        RunEvent::Supervised(Ok(state)) => Some(state),
        _ => before.supervision,
    }
    &&& match event {
        RunEvent::Supervised(Ok(_)) => after.stage is Connecting && step is Connect,
        RunEvent::Supervised(Err(error)) => after.stage is Ended && step == RunStep::Done(
            Err(Error::Supervisor(error)),
        ),
        RunEvent::Connected { ingress: true } => after.stage is Reconciling && step is Reconcile,
        RunEvent::Connected { ingress: false } => after.stage is Ended && step == RunStep::Done(
            Err(Error::IngressAlreadyTaken),
        ),
        RunEvent::Reconciled(Ok(())) => after.stage is Marking && step is Mark,
        RunEvent::Reconciled(Err(error)) => after.stage == RunStage::Withdrawing { error }
            && step is Withdraw,
        RunEvent::Withdrawn => after.stage is Ended && step == RunStep::Done(
            Err(Error::Ingest(before.stage->error)),
        ),
        RunEvent::Marked(Ok(())) => after.stage is Operating && step == RunStep::Operate {
            monitor: before.manage_gui,
        },
        RunEvent::Marked(Err(error)) => after.stage is Ended && step == RunStep::Done(
            Err(Error::Transport(error)),
        ),
        RunEvent::Operated => after.stage is Closing && step is Close,
        RunEvent::Closed => after.stage is Ended && step == RunStep::Done(Ok(())),
    }
}

impl CodexControl {
    /// Begins a run.
    pub fn run(config: &Config) -> (begun: (Run, RunStep))
        ensures
            begun.0.manage_gui == config.manage_gui,
            begun.0.supervision is None,
            if config.manage_gui {
                begun.0.stage is Supervising && begun.1 is Supervise
            } else {
                begun.0.stage is Connecting && begun.1 is Connect
            },
    {
        if config.manage_gui {
            let run = Run { manage_gui: true, supervision: None, stage: RunStage::Supervising };
            (run, RunStep::Supervise)
        } else {
            let run = Run { manage_gui: false, supervision: None, stage: RunStage::Connecting };
            (run, RunStep::Connect)
        }
    }

    /// Takes an event of a run in.
    pub fn run_after(run: Run, event: RunEvent) -> (went: (Run, RunStep))
        requires
            run_expects(run.stage, event),
        ensures
            run_follows(run, event, went.0, went.1),
    {
        let Run { manage_gui, supervision, stage } = run;
        match event {
            RunEvent::Supervised(Ok(state)) => (
                Run { manage_gui, supervision: Some(state), stage: RunStage::Connecting },
                RunStep::Connect,
            ),
            RunEvent::Supervised(Err(error)) => (
                Run { manage_gui, supervision, stage: RunStage::Ended },
                RunStep::Done(Err(Error::Supervisor(error))),
            ),
            RunEvent::Connected { ingress } => if ingress {
                let stage = RunStage::Reconciling;
                (Run { manage_gui, supervision, stage }, RunStep::Reconcile)
            } else {
                (
                    Run { manage_gui, supervision, stage: RunStage::Ended },
                    RunStep::Done(Err(Error::IngressAlreadyTaken)),
                )
            },
            RunEvent::Reconciled(Ok(())) => (
                Run { manage_gui, supervision, stage: RunStage::Marking },
                RunStep::Mark,
            ),
            RunEvent::Reconciled(Err(error)) => (
                Run { manage_gui, supervision, stage: RunStage::Withdrawing { error } },
                RunStep::Withdraw,
            ),
            RunEvent::Withdrawn => match stage {
                RunStage::Withdrawing { error } => (
                    Run { manage_gui, supervision, stage: RunStage::Ended },
                    RunStep::Done(Err(Error::Ingest(error))),
                ),
                _ => vstd::pervasive::unreached(),
            },
            RunEvent::Marked(Ok(())) => (
                Run { manage_gui, supervision, stage: RunStage::Operating },
                RunStep::Operate { monitor: manage_gui },
            ),
            RunEvent::Marked(Err(error)) => (
                Run { manage_gui, supervision, stage: RunStage::Ended },
                RunStep::Done(Err(Error::Transport(error))),
            ),
            RunEvent::Operated => (
                Run { manage_gui, supervision, stage: RunStage::Closing },
                RunStep::Close,
            ),
            RunEvent::Closed => (
                Run { manage_gui, supervision, stage: RunStage::Ended },
                RunStep::Done(Ok(())),
            ),
        }
    }
}

/// The operation runs only after supervision, where the GUI is managed, the connection, the
/// reconciliation and the opening of the barrier have each succeeded; and where the reconciliation
/// fails, the connection is closed before the failure is reported.
pub proof fn law_operation_runs_on_solid_ground(
    before: Run,
    event: RunEvent,
    after: Run,
    step: RunStep,
)
    requires
        run_expects(before.stage, event),
        run_follows(before, event, after, step),
    ensures
        after.stage is Connecting ==> after.supervision is Some,
        after.stage is Reconciling ==> before.stage is Connecting && event == (
        RunEvent::Connected { ingress: true }),
        after.stage is Marking ==> before.stage is Reconciling && event->Reconciled_0 is Ok,
        step is Operate <==> before.stage is Marking && event->Marked_0 is Ok,
        step matches RunStep::Done(Err(Error::Ingest(_))) ==> before.stage is Withdrawing,
        step matches RunStep::Done(Ok(_)) ==> before.stage is Closing,
{
}

/// The first wait before a failed restoration is tried again.
pub const RESTORE_INITIAL: Nanos = 50_000_000;

/// The longest wait before a failed restoration is tried again.
pub const RESTORE_MAX: Nanos = 2_000_000_000;

/// What watches for reconnections, and what it waits for.
#[derive(Clone, Copy, Debug, PartialEq, Eq, Structural)]
pub enum Restoration {
    /// News of the connection, or of a shutdown.
    Watching,
    /// The reconciliation of a new connection.
    Reconciling { retry: Nanos },
    /// The giving again of the extra skill roots.
    Reapplying { retry: Nanos },
    /// The opening of the barrier.
    Marking,
    /// A pause after a failure.
    Pausing { retry: Nanos },
    Ended,
}

/// What happened to a restoration.
#[derive(Clone, Copy, Debug, PartialEq, Eq, Structural)]
pub enum RestorationEvent {
    /// There is news of the connection; `due` says whether it waits for a restoration.
    Health { due: bool },
    /// There will be no more news of the connection.
    HealthClosed,
    /// There is news of a shutdown; `stop` says whether it has been asked for.
    Shutdown { stop: bool },
    /// Whether the reconciliation succeeded.
    Reconciled(bool),
    /// Whether the extra skill roots were given again.
    Reapplied(bool),
    /// The barrier has been opened, or could not be.
    Marked,
    /// The pause is over; `stop` says whether a shutdown has been asked for, and `due` whether the
    /// connection still waits for a restoration.
    Paused { stop: bool, due: bool },
}

/// What a restoration does next.
#[derive(Clone, Copy, Debug, PartialEq, Eq, Structural)]
pub enum RestorationStep {
    Watch,
    Reconcile,
    Reapply,
    Mark,
    Pause(Nanos),
    Stop,
}

/// Whether a connection waits for a restoration.
pub fn restoration_due(phase: ConnectionPhase, reconciled: bool) -> (due: bool)
    ensures
        due == (phase == ConnectionPhase::Reconciling && !reconciled),
{
    match phase {
        ConnectionPhase::Reconciling => !reconciled,
        _ => false,
    }
}

/// An event that can happen to a restoration.
pub open spec fn restoration_expects(at: Restoration, event: RestorationEvent) -> bool {
    match at {
        Restoration::Watching => event is Health || event is HealthClosed || event is Shutdown,
        Restoration::Reconciling { .. } => event is Reconciled,
        Restoration::Reapplying { .. } => event is Reapplied,
        Restoration::Marking => event is Marked,
        Restoration::Pausing { .. } => event is Paused,
        Restoration::Ended => false,
    }
}

/// The wait that a restoration is at.
pub open spec fn restoration_wait(at: Restoration) -> Nanos {
    match at {
        Restoration::Reconciling { retry } => retry,
        Restoration::Reapplying { retry } => retry,
        Restoration::Pausing { retry } => retry,
        _ => RESTORE_INITIAL,
    }
}

/// Where an event leads, and what is done about it.
pub open spec fn restoration_follows(at: Restoration, event: RestorationEvent) -> (
    Restoration,
    RestorationStep,
) {
    let retry = restoration_wait(at);
    match event {
        RestorationEvent::Health { due: true } => (
            Restoration::Reconciling { retry: RESTORE_INITIAL },
            RestorationStep::Reconcile,
        ),
        RestorationEvent::Health { due: false } => (Restoration::Watching, RestorationStep::Watch),
        RestorationEvent::HealthClosed => (Restoration::Ended, RestorationStep::Stop),
        RestorationEvent::Shutdown { stop } => if stop {
            (Restoration::Ended, RestorationStep::Stop)
        } else {
            (Restoration::Watching, RestorationStep::Watch)
        },
        RestorationEvent::Reconciled(true) => (
            Restoration::Reapplying { retry },
            RestorationStep::Reapply,
        ),
        RestorationEvent::Reapplied(true) => (Restoration::Marking, RestorationStep::Mark),
        RestorationEvent::Reconciled(false) | RestorationEvent::Reapplied(false) => (
            Restoration::Pausing { retry },
            RestorationStep::Pause(retry),
        ),
        RestorationEvent::Marked => (Restoration::Watching, RestorationStep::Watch),
        RestorationEvent::Paused { stop, due } => if stop {
            (Restoration::Ended, RestorationStep::Stop)
        } else if due {
            (
                Restoration::Reconciling { retry: clock::doubled_up_to(retry, RESTORE_MAX) },
                RestorationStep::Reconcile,
            )
        } else {
            (Restoration::Watching, RestorationStep::Watch)
        },
    }
}

/// Takes an event of a restoration in.
pub fn restore_after(at: Restoration, event: RestorationEvent) -> (went: (
    Restoration,
    RestorationStep,
))
    requires
        restoration_expects(at, event),
        restoration_wait(at) <= RESTORE_MAX,
    ensures
        went == restoration_follows(at, event),
        restoration_wait(went.0) <= RESTORE_MAX,
{
    let retry: Nanos = match at {
        Restoration::Reconciling { retry } => retry,
        Restoration::Reapplying { retry } => retry,
        Restoration::Pausing { retry } => retry,
        _ => RESTORE_INITIAL,
    };
    match event {
        RestorationEvent::Health { due } => if due {
            let retry = RESTORE_INITIAL;
            (Restoration::Reconciling { retry }, RestorationStep::Reconcile)
        } else {
            (Restoration::Watching, RestorationStep::Watch)
        },
        RestorationEvent::HealthClosed => (Restoration::Ended, RestorationStep::Stop),
        RestorationEvent::Shutdown { stop } => if stop {
            (Restoration::Ended, RestorationStep::Stop)
        } else {
            (Restoration::Watching, RestorationStep::Watch)
        },
        RestorationEvent::Reconciled(true) => (
            Restoration::Reapplying { retry },
            RestorationStep::Reapply,
        ),
        RestorationEvent::Reapplied(true) => (Restoration::Marking, RestorationStep::Mark),
        RestorationEvent::Reconciled(false) | RestorationEvent::Reapplied(false) => (
            Restoration::Pausing { retry },
            RestorationStep::Pause(retry),
        ),
        RestorationEvent::Marked => (Restoration::Watching, RestorationStep::Watch),
        RestorationEvent::Paused { stop, due } => if stop {
            (Restoration::Ended, RestorationStep::Stop)
        } else if due {
            let retry = clock::double_up_to(retry, RESTORE_MAX);
            (Restoration::Reconciling { retry }, RestorationStep::Reconcile)
        } else {
            (Restoration::Watching, RestorationStep::Watch)
        },
    }
}

/// After a reconnection the barrier is opened only once the new connection has been reconciled and
/// the extra skill roots have been given to it again.
pub proof fn law_barrier_reopens_after_restoration(at: Restoration, event: RestorationEvent)
    requires
        restoration_expects(at, event),
    ensures
        restoration_follows(at, event).1 is Mark <==> at is Reapplying && event
            == RestorationEvent::Reapplied(true),
        restoration_follows(at, event).0 is Reapplying <==> at is Reconciling && event
            == RestorationEvent::Reconciled(true),
        restoration_follows(at, event).0 is Marking <==> restoration_follows(at, event).1 is Mark,
{
}

/// The pauses of a restoration that keeps failing start with the shortest, double, and never get
/// longer than the longest.
pub proof fn law_restoration_pauses_are_bounded(at: Restoration, event: RestorationEvent)
    requires
        restoration_expects(at, event),
        restoration_wait(at) <= RESTORE_MAX,
    ensures
        restoration_wait(restoration_follows(at, event).0) <= RESTORE_MAX,
        restoration_follows(at, event).1 matches RestorationStep::Pause(span) ==> span
            == restoration_wait(at),
        at is Watching && restoration_follows(at, event).0 is Reconciling ==> restoration_wait(
            restoration_follows(at, event).0,
        ) == RESTORE_INITIAL,
        at is Pausing && restoration_follows(at, event).0 is Reconciling ==> restoration_wait(
            restoration_follows(at, event).0,
        ) == clock::doubled_up_to(restoration_wait(at), RESTORE_MAX),
{
}

/// Whether an event of `method` may bring a thread to attention.
pub fn may_signal(method: Option<&str>) -> (yes: bool)
    ensures
        yes == (method matches Some(method) && (method@ == "thread/started"@ || method@
            == "thread/status/changed"@)),
{
    match method {
        Some(method) => text::same(method, "thread/started") || text::same(
            method,
            "thread/status/changed",
        ),
        None => false,
    }
}

/// Every event that brings a thread to attention is one that may.
pub proof fn law_no_signal_is_missed(
    method: Seq<char>,
    params: Option<JsonView>,
)
    requires
        ingest::signal_in(method, params) is Some,
    ensures
        method == "thread/started"@ || method == "thread/status/changed"@,
{
}

/// What the operation holds: what supervision has established, and whether everything is being
/// taken down.
#[derive(Debug)]
pub struct Handle {
    supervision: Option<SupervisionState>,
    stopped: bool,
}

/// What taking everything down does next.
#[derive(Clone, Copy, Debug, PartialEq, Eq, Structural)]
pub enum ShutdownStep {
    /// Tell everything that runs in the background to stop: discovery first.
    Signal,
    /// End the subscriptions, while the connection still stands.
    Unsubscribe,
    /// Close the connection.
    Close,
}

impl Handle {
    /// Whether everything is being taken down, or has been.
    pub closed spec fn is_stopped(&self) -> bool {
        self.stopped
    }

    /// What supervision has established.
    pub closed spec fn supervised(&self) -> Option<SupervisionState> {
        self.supervision
    }

    /// A handle on something that runs.
    pub fn new(supervision: Option<SupervisionState>) -> (handle: Self)
        ensures
            !handle.is_stopped(),
            handle.supervised() == supervision,
    {
        Handle { supervision, stopped: false }
    }

    /// What supervision has established.
    pub fn supervision(&self) -> (supervision: Option<&SupervisionState>)
        ensures
            match supervision {
                Some(state) => self.supervised() == Some(*state),
                None => self.supervised() is None,
            },
    {
        match &self.supervision {
            Some(state) => Some(state),
            None => None,
        }
    }

    /// Begins to take everything down. Only the first call does anything.
    pub fn shutdown(&mut self) -> (step: Option<ShutdownStep>)
        ensures
            step == (if old(self).is_stopped() {
                None
            } else {
                Some(ShutdownStep::Signal)
            }),
            final(self).is_stopped(),
            final(self).supervised() == old(self).supervised(),
    {
        if self.stopped {
            return None;
        }
        self.stopped = true;
        Some(ShutdownStep::Signal)
    }

    /// What comes after `done`: the subscriptions are ended before the connection is closed.
    pub fn shutdown_after(done: ShutdownStep) -> (step: Option<ShutdownStep>)
        ensures
            step == (match done {
                ShutdownStep::Signal => Some(ShutdownStep::Unsubscribe),
                ShutdownStep::Unsubscribe => Some(ShutdownStep::Close),
                ShutdownStep::Close => None,
            }),
    {
        match done {
            ShutdownStep::Signal => Some(ShutdownStep::Unsubscribe),
            ShutdownStep::Unsubscribe => Some(ShutdownStep::Close),
            ShutdownStep::Close => None,
        }
    }

    /// Whether everything still has to be taken down, when the run ends in another way.
    pub fn shutdown_in_background(&self) -> (needed: bool)
        ensures
            needed == !self.is_stopped(),
    {
        !self.stopped
    }
}

} // verus!
