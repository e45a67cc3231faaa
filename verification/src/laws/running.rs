//! What a run of the whole promises.

use crate::clock::Nanos;
use crate::control;
use crate::control::{
    CodexControl, Config, Error, Handle, Restoration, RestorationEvent, RestorationStep, Run,
    RunEvent, RunStage, RunStep, ShutdownStep,
};
use crate::ingest;
use crate::path;
use crate::path::FilePath;
use crate::rpc;
use crate::supervisor::SupervisionState;
use crate::transport::ConnectionPhase;
use vstd::prelude::*;
use vstd::utf8::*;

verus! {

/// A run begins with supervision exactly if the GUI is managed, and else with the connection.
pub proof fn law_managed_runs_begin_with_supervision(config: Config, run: Run, step: RunStep)
    requires
        call_ensures(CodexControl::run, (&config,), (run, step)),
    ensures
        run.manage_gui == config.manage_gui,
        run.supervision is None,
        config.manage_gui ==> run.stage is Supervising && step is Supervise,
        !config.manage_gui ==> run.stage is Connecting && step is Connect,
{
}

/// A step of a run.
pub open spec fn run_step(run: Run, event: RunEvent, went: Run, step: RunStep) -> bool {
    &&& control::run_expects(run.stage, event)
    &&& call_ensures(CodexControl::run_after, (run, event), (went, step))
}

/// A run takes its stages in order, each only after the one before it succeeded: supervision,
/// connection, reconciliation, the opening of the barrier, the operation, and the end of it all. What
/// it does next is what its stage waits for.
pub proof fn law_run_takes_its_stages_in_order(run: Run, event: RunEvent, went: Run, step: RunStep)
    requires
        run_step(run, event, went, step),
    ensures
        step is Connect <==> run.stage is Supervising && event->Supervised_0 is Ok,
        step is Reconcile <==> run.stage is Connecting && event->ingress,
        step is Mark <==> run.stage is Reconciling && event->Reconciled_0 is Ok,
        step is Operate <==> run.stage is Marking && event->Marked_0 is Ok,
        step is Close <==> run.stage is Operating,
        step is Withdraw <==> run.stage is Reconciling && event->Reconciled_0 is Err,
        (step matches RunStep::Done(Ok(_))) <==> run.stage is Closing,
        !(step is Supervise),
        match step {
            RunStep::Supervise => false,
            RunStep::Connect => went.stage is Connecting,
            RunStep::Reconcile => went.stage is Reconciling,
            RunStep::Withdraw => went.stage is Withdrawing,
            RunStep::Mark => went.stage is Marking,
            RunStep::Operate { .. } => went.stage is Operating,
            RunStep::Close => went.stage is Closing,
            RunStep::Done(_) => went.stage is Ended,
        },
{
}

/// Monitoring accompanies the operation exactly if the GUI is managed, and that does not change
/// during a run. What supervision established is kept from when it was.
pub proof fn law_run_keeps_what_it_knows(run: Run, event: RunEvent, went: Run, step: RunStep)
    requires
        run_step(run, event, went, step),
    ensures
        went.manage_gui == run.manage_gui,
        step matches RunStep::Operate { monitor } ==> monitor == run.manage_gui,
        run.stage is Supervising && event->Supervised_0 is Ok ==> went.supervision == Some(
            event->Supervised_0->Ok_0,
        ),
        !(run.stage is Supervising && event->Supervised_0 is Ok) ==> went.supervision
            == run.supervision,
{
}

/// A run fails exactly where supervision fails, the receiver was taken, the barrier cannot be
/// opened, or the reconciliation fails; in the last case the connection is closed first. The error is
/// that of the part that failed.
pub proof fn law_run_fails_with_the_part_that_failed(
    run: Run,
    event: RunEvent,
    went: Run,
    step: RunStep,
)
    requires
        run_step(run, event, went, step),
    ensures
        (step matches RunStep::Done(Err(_))) <==> (run.stage is Supervising && event->Supervised_0
            is Err) || (run.stage is Connecting && !event->ingress) || (run.stage is Marking
            && event->Marked_0 is Err) || run.stage is Withdrawing,
        step matches RunStep::Done(Err(error)) ==> match run.stage {
            RunStage::Supervising => error matches Error::Supervisor(said) && said
                == event->Supervised_0->Err_0,
            RunStage::Connecting => error is IngressAlreadyTaken,
            RunStage::Marking => error matches Error::Transport(said) && said
                == event->Marked_0->Err_0,
            RunStage::Withdrawing { error: failed } => error matches Error::Ingest(said) && said
                == failed,
            _ => false,
        },
        step is Withdraw ==> (went.stage matches RunStage::Withdrawing { error } && error
            == event->Reconciled_0->Err_0),
{
}

/// A connection waits for a restoration exactly if it is being reconciled and has not been marked.
pub proof fn law_restoration_is_due_while_reconciling(
    phase: ConnectionPhase,
    reconciled: bool,
    due: bool,
)
    requires
        call_ensures(control::restoration_due, (phase, reconciled), due),
    ensures
        due <==> phase is Reconciling && !reconciled,
{
}

/// A step of a restoration.
pub open spec fn restoration_step(
    at: Restoration,
    event: RestorationEvent,
    went: Restoration,
    step: RestorationStep,
) -> bool {
    &&& control::restoration_expects(at, event)
    &&& control::restoration_wait(at) <= 2_000_000_000
    &&& call_ensures(control::restore_after, (at, event), (went, step))
}

/// A connection that waits for a restoration is reconciled, given its extra roots again and marked,
/// in this order, each only after the one before it succeeded; a failure leads to a pause. Watching
/// ends exactly when a shutdown has been asked for or no more news can come. After a pause the
/// restoration is tried again exactly if it is still due and no shutdown has been asked for.
pub proof fn law_restoration_goes_through_its_stages(
    at: Restoration,
    event: RestorationEvent,
    went: Restoration,
    step: RestorationStep,
)
    requires
        restoration_step(at, event, went, step),
    ensures
        step is Reconcile <==> event == (RestorationEvent::Health { due: true }) || event == (
        RestorationEvent::Paused { stop: false, due: true }),
        step is Reapply <==> at is Reconciling && event == RestorationEvent::Reconciled(true),
        step is Mark <==> at is Reapplying && event == RestorationEvent::Reapplied(true),
        step is Pause <==> event == RestorationEvent::Reconciled(false) || event
            == RestorationEvent::Reapplied(false),
        step is Stop <==> event is HealthClosed || event == (RestorationEvent::Shutdown {
            stop: true,
        }) || (event matches RestorationEvent::Paused { stop, .. } && stop),
        step is Watch <==> event == (RestorationEvent::Health { due: false }) || event == (
        RestorationEvent::Shutdown { stop: false }) || event is Marked || event == (
        RestorationEvent::Paused { stop: false, due: false }),
        match step {
            RestorationStep::Watch => went is Watching,
            RestorationStep::Reconcile => went is Reconciling,
            RestorationStep::Reapply => went is Reapplying,
            RestorationStep::Mark => went is Marking,
            RestorationStep::Pause(_) => went is Pausing,
            RestorationStep::Stop => went is Ended,
        },
{
}

/// The wait that a restoration under way has come to.
pub open spec fn wait_of(at: Restoration) -> Nanos {
    match at {
        Restoration::Reconciling { retry } => retry,
        Restoration::Reapplying { retry } => retry,
        Restoration::Pausing { retry } => retry,
        Restoration::Watching | Restoration::Marking | Restoration::Ended => 50_000_000,
    }
}

/// The first pause of a restoration is of fifty milliseconds. A success or a failure keeps the wait,
/// and each further attempt doubles it, up to two seconds.
pub proof fn law_restoration_pauses_double(
    at: Restoration,
    event: RestorationEvent,
    went: Restoration,
    step: RestorationStep,
)
    requires
        restoration_step(at, event, went, step),
    ensures
        step matches RestorationStep::Pause(span) ==> span == wait_of(at),
        event is Health && step is Reconcile ==> wait_of(went) == 50_000_000,
        event is Reconciled || event is Reapplied && step is Pause ==> wait_of(went) == wait_of(at),
        event is Paused && step is Reconcile ==> wait_of(went) == if wait_of(at) * 2
            < 2_000_000_000 {
            wait_of(at) * 2
        } else {
            2_000_000_000
        },
        wait_of(went) <= 2_000_000_000,
{
}

/// Only the two methods that can bring a thread to attention are looked at.
pub proof fn law_only_two_methods_may_signal(method: Option<&str>, yes: bool)
    requires
        call_ensures(control::may_signal, (method,), yes),
    ensures
        yes <==> method is Some && (method->Some_0@ == "thread/started"@ || method->Some_0@
            == "thread/status/changed"@),
{
}

/// Everything is taken down once: the first request begins it, and none after. It tells the
/// background to stop first, ends the subscriptions next, and closes the connection last.
pub proof fn law_shutdown_happens_once_and_in_order(
    handle: &mut Handle,
    again: &mut Handle,
    first: Option<ShutdownStep>,
    second: Option<ShutdownStep>,
    done: ShutdownStep,
    next: Option<ShutdownStep>,
)
    requires
        call_ensures(Handle::shutdown, (handle,), first),
        *old(again) == *final(handle),
        call_ensures(Handle::shutdown, (again,), second),
        call_ensures(Handle::shutdown_after, (done,), next),
    ensures
        !old(handle).is_stopped() ==> first == Some(ShutdownStep::Signal),
        old(handle).is_stopped() ==> first is None,
        second is None,
        final(handle).is_stopped(),
        final(handle).supervised() == old(handle).supervised(),
        next == Some(ShutdownStep::Unsubscribe) <==> done is Signal,
        next == Some(ShutdownStep::Close) <==> done is Unsubscribe,
        next is None <==> done is Close,
{
}

/// A handle begins running, with what supervision established; the background has to take everything
/// down exactly as long as nobody has begun to.
pub proof fn law_handles_run_until_shut_down(
    supervision: Option<SupervisionState>,
    handle: Handle,
    shown: Option<&SupervisionState>,
    needed: bool,
    ended: &mut Handle,
    step: Option<ShutdownStep>,
    needed_then: bool,
)
    requires
        call_ensures(Handle::new, (supervision,), handle),
        call_ensures(Handle::supervision, (&handle,), shown),
        call_ensures(Handle::shutdown_in_background, (&handle,), needed),
        *old(ended) == handle,
        call_ensures(Handle::shutdown, (ended,), step),
        call_ensures(Handle::shutdown_in_background, (final(ended),), needed_then),
    ensures
        needed,
        !needed_then,
        step == Some(ShutdownStep::Signal),
        shown is Some <==> supervision is Some,
        shown matches Some(state) ==> supervision == Some(*state),
{
}

/// The whole is configured for a home directory: the GUI is managed, the connection goes to the
/// socket that is supervised, and the bounds are the default ones.
pub proof fn law_whole_is_configured_for_the_home(
    home: Option<FilePath>,
    version: &str,
    config: Config,
)
    requires
        call_ensures(Config::for_home, (home, version), config),
    ensures
        config.manage_gui,
        config.transport.socket_path@ == config.supervisor.socket_path@,
        config.supervisor.socket_path@ == path::joined(
            match home {
                Some(home) => home@,
                None => encode_utf8("/var/empty"@),
            },
            encode_utf8(".codex/app-server-control/app-server-control.sock"@),
        ),
        config.transport.client_version@ == version@,
        config.ingest.subscription_cap == 512,
        config.ingest.reconcile_candidate_limit == 200,
        config.ingest.reconcile_page_bound == 4,
        config.ingest.reconcile_page_size == 50,
        config.ingest.resume_retry_limit == 8,
        config.lifecycle_replay_capacity == 4096,
        config.lifecycle_broadcast_capacity == 1024,
        config.delta_broadcast_capacity == 2048,
{
}

/// The words of a failure are those of the part that failed.
pub proof fn law_failures_have_the_words_of_their_part(error: Error, words: String)
    requires
        call_ensures(Error::message, (&error,), words),
    ensures
        words@ == match error {
            Error::Supervisor(error) => error.words(),
            Error::Ingest(error) => ingest::ingest_words(error),
            Error::IngressAlreadyTaken =>
            "transport authoritative ingress receiver was already taken"@,
            Error::Transport(error) => rpc::failure_words(error@),
        },
{
}

} // verus!
