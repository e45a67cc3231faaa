//! What supervision promises.

use crate::clock::{Nanos, LONGEST};
use crate::path;
use crate::path::FilePath;
use crate::supervisor;
use crate::supervisor::{
    Check, CheckStep, ChildCommand, CommandOutput, Found, MonitorEvent,
    ProcessOutput, ProcessReply, ProcessRequest, RealProcessOps, Startup, StartupStep,
    SupervisionState, Supervisor, SupervisorConfig, SupervisorError, Watch, WatchEvent, WatchStep,
};
use crate::text;
use vstd::prelude::*;
use vstd::utf8::*;

verus! {

/// `part` stands somewhere in `line`.
pub open spec fn holds(line: Seq<char>, part: Seq<char>) -> bool {
    exists|head: Seq<char>, tail: Seq<char>| line == #[trigger] (head + part + tail)
}

/// A part that occurs in a line splits it in three.
pub proof fn lemma_holds(line: Seq<char>, part: Seq<char>)
    ensures
        text::occurs_in(line, part) <==> holds(line, part),
{
    if text::occurs_in(line, part) {
        let at = choose|at: int| #[trigger] text::occurs_at(line, part, at);
        assert(line =~= line.take(at) + part + line.skip(at + part.len()));
    }
    if holds(line, part) {
        let (head, tail) = choose|head: Seq<char>, tail: Seq<char>| line == #[trigger] (head + part
            + tail);
        assert(line.subrange(head.len() as int, (head.len() + part.len()) as int) =~= part);
        assert(text::occurs_at(line, part, head.len() as int));
    }
}

/// The daemon counts as running exactly if one line of the process list holds the path of the
/// standalone program, the word for its server, and one of the two ways in which the shared daemon
/// is run.
pub proof fn law_daemon_is_known_by_its_line(processes: &str, codex: FilePath, yes: bool)
    requires
        call_ensures(supervisor::has_managed_daemon, (processes, &codex), yes),
    ensures
        yes <==> exists|i: int|
            0 <= i < text::lines(processes@).len() && holds(
                #[trigger] text::lines(processes@)[i],
                path::lossy_text(codex@),
            ) && holds(text::lines(processes@)[i], "app-server"@) && (holds(
                text::lines(processes@)[i],
                "daemon"@,
            ) || holds(text::lines(processes@)[i], "--listen unix://"@)),
{
    assert forall|i: int| 0 <= i < text::lines(processes@).len() implies {
        let line = #[trigger] text::lines(processes@)[i];
        supervisor::shows_daemon(line, path::lossy_text(codex@)) == (holds(
            line,
            path::lossy_text(codex@),
        ) && holds(line, "app-server"@) && (holds(line, "daemon"@) || holds(
            line,
            "--listen unix://"@,
        )))
    } by {
        let line = text::lines(processes@)[i];
        lemma_holds(line, path::lossy_text(codex@));
        lemma_holds(line, "app-server"@);
        lemma_holds(line, "daemon"@);
        lemma_holds(line, "--listen unix://"@);
    }
}

/// The GUI counts as running exactly if one line of the process list holds its path.
pub proof fn law_gui_is_known_by_its_line(processes: &str, gui: FilePath, yes: bool)
    requires
        call_ensures(supervisor::gui_running, (processes, &gui), yes),
    ensures
        yes <==> exists|i: int|
            0 <= i < text::lines(processes@).len() && holds(
                #[trigger] text::lines(processes@)[i],
                path::lossy_text(gui@),
            ),
{
    assert forall|i: int| 0 <= i < text::lines(processes@).len() implies text::occurs_in(
        #[trigger] text::lines(processes@)[i],
        path::lossy_text(gui@),
    ) == holds(text::lines(processes@)[i], path::lossy_text(gui@)) by {
        lemma_holds(text::lines(processes@)[i], path::lossy_text(gui@));
    }
}

/// The GUI counts as using the shared daemon exactly if the variable that tells it so stands on
/// the line that holds its path, and neither of the two that overrule it.
pub proof fn law_mode_is_known_by_its_variables(processes: &str, gui: FilePath, yes: bool)
    requires
        call_ensures(supervisor::gui_mode_enabled, (processes, &gui), yes),
    ensures
        yes <==> exists|i: int|
            0 <= i < text::lines(processes@).len() && holds(
                #[trigger] text::lines(processes@)[i],
                path::lossy_text(gui@),
            ) && holds(text::lines(processes@)[i], "CODEX_APP_SERVER_USE_LOCAL_DAEMON=1"@)
                && !holds(text::lines(processes@)[i], "CODEX_APP_SERVER_FORCE_CLI=1"@) && !holds(
                text::lines(processes@)[i],
                "CODEX_CLI_PATH="@,
            ),
{
    assert forall|i: int| 0 <= i < text::lines(processes@).len() implies {
        let line = #[trigger] text::lines(processes@)[i];
        supervisor::shows_daemon_mode(line, path::lossy_text(gui@)) == (holds(
            line,
            path::lossy_text(gui@),
        ) && holds(line, "CODEX_APP_SERVER_USE_LOCAL_DAEMON=1"@) && !holds(
            line,
            "CODEX_APP_SERVER_FORCE_CLI=1"@,
        ) && !holds(line, "CODEX_CLI_PATH="@))
    } by {
        let line = text::lines(processes@)[i];
        lemma_holds(line, path::lossy_text(gui@));
        lemma_holds(line, "CODEX_APP_SERVER_USE_LOCAL_DAEMON=1"@);
        lemma_holds(line, "CODEX_APP_SERVER_FORCE_CLI=1"@);
        lemma_holds(line, "CODEX_CLI_PATH="@);
    }
}

/// A GUI that counts as using the shared daemon counts as running.
pub proof fn law_mode_is_of_a_running_gui(processes: &str, gui: FilePath, mode: bool, runs: bool)
    requires
        call_ensures(supervisor::gui_mode_enabled, (processes, &gui), mode),
        call_ensures(supervisor::gui_running, (processes, &gui), runs),
    ensures
        mode ==> runs,
{
}

/// A line that records a user of the socket: it is not blank, and it is not the heading.
pub open spec fn records_a_user(line: Seq<char>) -> bool {
    text::trimmed(line).len() > 0 && !exists|rest: Seq<char>|
        text::trimmed(line) == #[trigger] ("COMMAND"@ + rest)
}

proof fn lemma_records_a_user(line: Seq<char>)
    ensures
        records_a_user(line) == supervisor::is_socket_record(line),
{
    let inner = text::trimmed(line);
    if text::occurs_at(inner, "COMMAND"@, 0) {
        assert(inner =~= "COMMAND"@ + inner.skip("COMMAND"@.len() as int));
    }
    assert forall|rest: Seq<char>| inner == #[trigger] ("COMMAND"@ + rest) implies text::occurs_at(
        inner,
        "COMMAND"@,
        0,
    ) by {
        assert(inner.subrange(0, "COMMAND"@.len() as int) =~= "COMMAND"@);
    }
}

/// Two lines of a list that both record a user.
pub open spec fn two_record_users(row: Seq<Seq<char>>, i: int, j: int) -> bool {
    0 <= i < j < row.len() && records_a_user(row[i]) && records_a_user(row[j])
}

proof fn lemma_kept_lines(row: Seq<Seq<char>>)
    ensures
        row.filter(|line: Seq<char>| supervisor::is_socket_record(line)).len() > 0 <==> exists|
            i: int,
        |
            0 <= i < row.len() && records_a_user(#[trigger] row[i]),
        row.filter(|line: Seq<char>| supervisor::is_socket_record(line)).len() > 1 <==> exists|
            i: int,
            j: int,
        | #[trigger]
            two_record_users(row, i, j),
    decreases row.len(),
{
    reveal(Seq::filter);
    let record = |line: Seq<char>| supervisor::is_socket_record(line);
    if row.len() > 0 {
        let shorter = row.drop_last();
        lemma_kept_lines(shorter);
        lemma_records_a_user(row.last());
        let last = row.len() - 1;
        if exists|i: int| 0 <= i < shorter.len() && records_a_user(#[trigger] shorter[i]) {
            let i = choose|i: int| 0 <= i < shorter.len() && records_a_user(#[trigger] shorter[i]);
            assert(records_a_user(row[i]));
            if records_a_user(row.last()) {
                assert(two_record_users(row, i, last));
            }
        }
        if exists|i: int, j: int| #[trigger] two_record_users(shorter, i, j) {
            let (i, j) = choose|i: int, j: int| #[trigger] two_record_users(shorter, i, j);
            assert(two_record_users(row, i, j));
        }
        if exists|i: int, j: int| #[trigger] two_record_users(row, i, j) {
            let (i, j) = choose|i: int, j: int| #[trigger] two_record_users(row, i, j);
            assert(records_a_user(shorter[i]));
            if j < last {
                assert(two_record_users(shorter, i, j));
            }
        }
        if exists|i: int| 0 <= i < row.len() && records_a_user(#[trigger] row[i]) {
            let i = choose|i: int| 0 <= i < row.len() && records_a_user(#[trigger] row[i]);
            if i < last {
                assert(records_a_user(shorter[i]));
            }
        }
        if records_a_user(row.last()) {
            assert(records_a_user(row[last]));
        }
    }
}

/// A client counts as connected exactly if two different lines of the socket's list record a user:
/// one is the listener, and the other is the connection.
pub proof fn law_connection_is_a_second_record(users: &str, yes: bool)
    requires
        call_ensures(
            Supervisor::<RealProcessOps>::has_accepted_socket_connection,
            (users,),
            yes,
        ),
    ensures
        yes <==> exists|i: int, j: int| #[trigger]
            two_record_users(text::lines(users@), i, j),
{
    lemma_kept_lines(text::lines(users@));
}

/// A step of an initialization: it stood at `before`, got `reply` at the time `now`, and stands at
/// `after` with `step` to do.
pub open spec fn startup_step<P>(
    supervisor: Supervisor<P>,
    before: Startup,
    reply: ProcessReply,
    now: Nanos,
    after: Startup,
    step: StartupStep,
) -> bool {
    &&& supervisor.config.valid()
    &&& now <= LONGEST
    &&& supervisor::answers_startup(before, reply)
    &&& call_ensures(
        Supervisor::<P>::initialize_after,
        (&supervisor, before, reply, now),
        (after, step),
    )
}

/// A request to run the standalone program to its end with three words.
pub open spec fn runs_codex(
    request: ProcessRequest,
    config: SupervisorConfig,
    first: Seq<char>,
    second: Seq<char>,
    third: Seq<char>,
) -> bool {
    match request {
        ProcessRequest::Output { program, args } => program@ == config.standalone_codex@
            && args@.len() == 3 && args@[0]@ == first && args@[1]@ == second && args@[2]@ == third,
        _ => false,
    }
}

/// A request to start the standalone program with three words and leave it running, in an
/// environment that is not changed.
pub open spec fn starts_codex(
    request: ProcessRequest,
    config: SupervisorConfig,
    first: Seq<char>,
    second: Seq<char>,
    third: Seq<char>,
) -> bool {
    match request {
        ProcessRequest::Spawn { program, args, env } => program@ == config.standalone_codex@
            && args@.len() == 3 && args@[0]@ == first && args@[1]@ == second && args@[2]@ == third
            && env@.len() == 0,
        _ => false,
    }
}

/// A request to open the GUI's bundle with the variables that make it use the shared daemon.
pub open spec fn opens_gui(request: ProcessRequest, config: SupervisorConfig) -> bool {
    match request {
        ProcessRequest::Spawn { program, args, env } => {
            &&& program@ == encode_utf8("/usr/bin/open"@)
            &&& args@.len() == 6
            &&& args@[0]@ == "--env"@
            &&& args@[1]@ == "CODEX_APP_SERVER_USE_LOCAL_DAEMON=1"@
            &&& args@[2]@ == "--env"@
            &&& args@[3]@ == "CODEX_APP_SERVER_FORCE_CLI=0"@
            &&& args@[4]@ == "-a"@
            &&& encode_utf8(args@[5]@) == match path::enclosing_bundle(config.gui_executable@) {
                Some(bundle) => bundle,
                None => config.gui_executable@,
            }
            &&& env@.len() == 0
        },
        _ => false,
    }
}

proof fn lemma_row_of_three(row: Seq<String>, first: Seq<char>, second: Seq<char>, third: Seq<char>)
    requires
        text::texts(row) == seq![first, second, third],
    ensures
        row.len() == 3,
        row[0]@ == first,
        row[1]@ == second,
        row[2]@ == third,
{
    assert(text::texts(row).len() == 3);
    assert(text::texts(row)[0] == first);
    assert(text::texts(row)[1] == second);
    assert(text::texts(row)[2] == third);
}

proof fn lemma_opens_gui(request: ProcessRequest, config: SupervisorConfig)
    requires
        supervisor::asks_launch(request, config),
        valid_utf8(supervisor::gui_bundle(config)),
    ensures
        opens_gui(request, config),
{
    if let ProcessRequest::Spawn { args, .. } = request {
        let row = text::texts(args@);
        assert(row.len() == 6);
        assert(row[0] == "--env"@);
        assert(row[1] == "CODEX_APP_SERVER_USE_LOCAL_DAEMON=1"@);
        assert(row[2] == "--env"@);
        assert(row[3] == "CODEX_APP_SERVER_FORCE_CLI=0"@);
        assert(row[4] == "-a"@);
        assert(row[5] == decode_utf8(supervisor::gui_bundle(config)));
        decode_utf8_encode_utf8(supervisor::gui_bundle(config));
    }
}

/// An initialization begins with the question whether the standalone program is there.
pub proof fn law_initialization_begins_with_the_program<P>(
    supervisor: Supervisor<P>,
    after: Startup,
    step: StartupStep,
)
    requires
        call_ensures(Supervisor::<P>::initialize, (&supervisor,), (after, step)),
    ensures
        after is Standalone,
        step matches StartupStep::Ask(ProcessRequest::Exists(asked)) && asked@
            == supervisor.config.standalone_codex@,
{
}

/// What an initialization asks for is what the point where it stands waits for: whether a file
/// exists, the process list, a pause of a tenth of a second, the start or the version of the
/// daemon, the users of its socket, or the end or the launch of the GUI. It has ended exactly if it
/// asks for nothing more.
pub proof fn law_initialization_asks_for_what_it_waits_for<P>(
    supervisor: Supervisor<P>,
    before: Startup,
    reply: ProcessReply,
    now: Nanos,
    after: Startup,
    step: StartupStep,
)
    requires
        startup_step(supervisor, before, reply, now, after, step),
    ensures
        match step {
            StartupStep::Done(_) => after is Finished,
            StartupStep::Ask(request) => match after {
                Startup::Gui => request matches ProcessRequest::Exists(asked) && asked@
                    == supervisor.config.gui_executable@,
                Startup::FirstScan | Startup::SecondScan { .. } => request is Scan,
                Startup::QuitScan { .. } | Startup::AttachmentScan { .. } => request is Scan,
                Startup::DaemonStart => starts_codex(
                    request,
                    supervisor.config,
                    "app-server"@,
                    "daemon"@,
                    "start"@,
                ),
                Startup::Version { .. } => runs_codex(
                    request,
                    supervisor.config,
                    "app-server"@,
                    "daemon"@,
                    "version"@,
                ),
                Startup::VersionPause { .. } | Startup::QuitPause { .. } => request
                    == ProcessRequest::Sleep(100_000_000),
                Startup::AttachmentPause { .. } => request == ProcessRequest::Sleep(100_000_000),
                Startup::AttachedSocket { .. } | Startup::AttachmentSocket { .. } => request
                    matches ProcessRequest::SocketUsers(socket) && socket@
                    == supervisor.config.socket_path@,
                Startup::Quit { .. } => request is GracefulQuit,
                Startup::Launch { .. } => opens_gui(request, supervisor.config),
                Startup::Standalone | Startup::Finished => false,
            },
        },
{
    if let StartupStep::Ask(request) = step {
        if let Startup::Launch { .. } = after {
            lemma_opens_gui(request, supervisor.config);
        }
        match request {
            ProcessRequest::Spawn { args, .. } if after is DaemonStart => {
                lemma_row_of_three(args@, "app-server"@, "daemon"@, "start"@);
            },
            ProcessRequest::Output { args, .. } => {
                lemma_row_of_three(args@, "app-server"@, "daemon"@, "version"@);
            },
            _ => {},
        }
    }
}

/// The question for the version was answered with one: the command succeeded and printed something.
pub open spec fn gives_version(reply: ProcessReply) -> bool {
    match reply {
        ProcessReply::Output(Ok(output)) => output.success && output.stdout@.len() > 0,
        _ => false,
    }
}

/// What an answer without a version says: why the command did not run, what it wrote as an error,
/// or, where that is nothing, what it printed.
pub open spec fn says_instead(reply: ProcessReply) -> Seq<char> {
    match reply {
        ProcessReply::Output(Ok(output)) => if output.stderr@.len() == 0 {
            output.stdout@
        } else {
            output.stderr@
        },
        ProcessReply::Output(Err(words)) => words@,
        _ => Seq::empty(),
    }
}

/// Before the deadline of its wait, an initialization never ends for want of a version, whoever
/// started the daemon. An answer without a version leads to a pause, and the end of the pause,
/// where it comes before the deadline, to the same question again. That the version is missing is
/// reported exactly when the deadline has come, with what the last answer said.
pub proof fn law_version_is_asked_for_until_the_deadline<P>(
    supervisor: Supervisor<P>,
    before: Startup,
    reply: ProcessReply,
    now: Nanos,
    after: Startup,
    step: StartupStep,
)
    requires
        startup_step(supervisor, before, reply, now, after, step),
    ensures
        match before {
            Startup::Version { ownership, deadline } => if gives_version(reply) {
                &&& after matches Startup::SecondScan { found }
                &&& found.ownership == ownership
                &&& found.version@ == reply->Output_0->Ok_0.stdout@
            } else {
                &&& after matches Startup::VersionPause { ownership: kept, deadline: until, detail }
                &&& kept == ownership
                &&& until == deadline
                &&& detail@ == says_instead(reply)
                &&& step is Ask
            },
            Startup::VersionPause { ownership, deadline, .. } => now < deadline ==> after
                == Startup::Version { ownership, deadline } && step is Ask,
            _ => true,
        },
        step matches StartupStep::Done(Err(SupervisorError::IncompatibleVersion(said))) ==> match before {
            Startup::VersionPause { deadline, detail, .. } => now >= deadline && said@ == detail@,
            Startup::FirstScan | Startup::DaemonStart => supervisor.config.startup_timeout == 0
                && said@ == Seq::<char>::empty(),
            _ => false,
        },
        match (before, reply) {
            (Startup::VersionPause { deadline, .. }, _) => now >= deadline,
            (Startup::FirstScan, ProcessReply::Scan(Ok(processes))) => supervisor::daemon_shown(
                processes@,
                supervisor.config.standalone_codex@,
            ) && supervisor.config.startup_timeout == 0,
            (Startup::DaemonStart, ProcessReply::Spawn(Ok(_))) => supervisor.config.startup_timeout
                == 0,
            _ => false,
        } ==> (step matches StartupStep::Done(Err(SupervisorError::IncompatibleVersion(_)))),
        after is VersionPause ==> before is Version,
{
}

/// The wait for a version begins when the daemon is found running or has been started, lasts for
/// the startup timeout from then, and remembers which of the two it was. The daemon is started
/// exactly if the process list does not show it.
pub proof fn law_daemon_is_started_where_none_runs<P>(
    supervisor: Supervisor<P>,
    before: Startup,
    reply: ProcessReply,
    now: Nanos,
    after: Startup,
    step: StartupStep,
)
    requires
        startup_step(supervisor, before, reply, now, after, step),
    ensures
        after is DaemonStart <==> (before is FirstScan && (reply matches ProcessReply::Scan(
            Ok(processes),
        ) && !supervisor::daemon_shown(processes@, supervisor.config.standalone_codex@))),
        match (before, reply) {
            (Startup::FirstScan, ProcessReply::Scan(Ok(processes))) => (
            supervisor::daemon_shown(processes@, supervisor.config.standalone_codex@)
                && supervisor.config.startup_timeout > 0) ==> (after matches Startup::Version {
                ownership,
                deadline,
            } && ownership is Attached && deadline == now + supervisor.config.startup_timeout),
            (Startup::DaemonStart, ProcessReply::Spawn(Ok(_))) => supervisor.config.startup_timeout
                > 0 ==> (after matches Startup::Version { ownership, deadline }
                && ownership is Started && deadline == now + supervisor.config.startup_timeout),
            (Startup::DaemonStart, ProcessReply::Spawn(Err(words))) => step matches StartupStep::Done(
                Err(SupervisorError::DaemonCommand(said)),
            ) && said@ == words@,
            _ => true,
        },
        after is Version ==> before is FirstScan || before is DaemonStart || before is VersionPause,
        (step matches StartupStep::Done(Err(SupervisorError::DaemonCommand(_)))) ==> before
            is DaemonStart,
{
}

/// A file that is missing ends an initialization with the error that names it, and a file that is
/// there does not: first the standalone program's, then the GUI's.
pub proof fn law_missing_files_are_named<P>(
    supervisor: Supervisor<P>,
    before: Startup,
    reply: ProcessReply,
    now: Nanos,
    after: Startup,
    step: StartupStep,
)
    requires
        startup_step(supervisor, before, reply, now, after, step),
    ensures
        match (before, reply) {
            (Startup::Standalone, ProcessReply::Exists(true)) => after is Gui,
            (Startup::Standalone, ProcessReply::Exists(false)) => step matches StartupStep::Done(
                Err(SupervisorError::MissingStandalone { path }),
            ) && path@ == supervisor.config.standalone_codex@,
            (Startup::Gui, ProcessReply::Exists(true)) => after is FirstScan,
            (Startup::Gui, ProcessReply::Exists(false)) => step matches StartupStep::Done(
                Err(SupervisorError::MissingGui { path }),
            ) && path@ == supervisor.config.gui_executable@,
            _ => true,
        },
        (step matches StartupStep::Done(Err(SupervisorError::MissingStandalone { .. }))) ==> before
            is Standalone,
        (step matches StartupStep::Done(Err(SupervisorError::MissingGui { .. }))) ==> before is Gui,
{
}

/// An initialization ends because the processes cannot be listed exactly when a scan fails, at
/// whichever point it was asked for, and with the words of that failure.
pub proof fn law_failed_scan_ends_an_initialization<P>(
    supervisor: Supervisor<P>,
    before: Startup,
    reply: ProcessReply,
    now: Nanos,
    after: Startup,
    step: StartupStep,
)
    requires
        startup_step(supervisor, before, reply, now, after, step),
    ensures
        (step matches StartupStep::Done(Err(SupervisorError::Inspection(_)))) <==> (reply
            matches ProcessReply::Scan(Err(_))),
        reply matches ProcessReply::Scan(Err(words)) ==> (step matches StartupStep::Done(
            Err(SupervisorError::Inspection(said)),
        ) && said@ == words@),
{
}

/// The daemon as the point where an initialization stands knows it.
pub open spec fn known(at: Startup) -> Option<Found> {
    match at {
        Startup::SecondScan { found } | Startup::Quit { found } | Startup::Launch { found } => Some(
            found,
        ),
        Startup::AttachedSocket { found, .. } | Startup::QuitPause { found, .. } => Some(found),
        Startup::QuitScan { found, .. } | Startup::AttachmentScan { found, .. } => Some(found),
        Startup::AttachmentSocket { found, .. } | Startup::AttachmentPause { found, .. } => Some(
            found,
        ),
        _ => None,
    }
}

/// What an initialization has learnt of the daemon stays as it is to the end, and is what it
/// reports when it succeeds.
pub proof fn law_what_is_known_of_the_daemon_is_kept<P>(
    supervisor: Supervisor<P>,
    before: Startup,
    reply: ProcessReply,
    now: Nanos,
    after: Startup,
    step: StartupStep,
)
    requires
        startup_step(supervisor, before, reply, now, after, step),
    ensures
        known(before) is Some && !(after is Finished) ==> known(after) == known(before),
        known(before) is None && known(after) is Some ==> before is Version && after is SecondScan,
        step matches StartupStep::Done(Ok(state)) ==> {
            &&& known(before) matches Some(found)
            &&& state.daemon_ownership == found.ownership
            &&& state.daemon_version@ == found.version@
            &&& state.gui_attached
            &&& state.daemon_left_running
        },
{
}

/// The socket's list could be had, and shows a client.
pub open spec fn shows_client(reply: ProcessReply) -> bool {
    match reply {
        ProcessReply::SocketUsers(Ok(users)) => supervisor::connection_accepted(users@),
        _ => false,
    }
}

/// An initialization succeeds exactly when it looks at the socket and finds a client there.
pub proof fn law_success_is_a_client_on_the_socket<P>(
    supervisor: Supervisor<P>,
    before: Startup,
    reply: ProcessReply,
    now: Nanos,
    after: Startup,
    step: StartupStep,
)
    requires
        startup_step(supervisor, before, reply, now, after, step),
    ensures
        (step matches StartupStep::Done(Ok(_))) <==> (before is AttachedSocket
            || before is AttachmentSocket) && shows_client(reply),
{
}

/// The process list by which an initialization decides what to do about the GUI.
pub open spec fn list_seen(before: Startup, reply: ProcessReply) -> Option<Seq<char>> {
    match (before, reply) {
        (Startup::AttachedSocket { processes, .. }, _) => Some(processes@),
        (_, ProcessReply::Scan(Ok(processes))) => Some(processes@),
        _ => None,
    }
}

/// The GUI has to be made anew: it is to be restarted in any case, it does not use the shared
/// daemon, or it is not on the daemon's socket.
pub open spec fn gui_is_made_anew(
    config: SupervisorConfig,
    before: Startup,
    reply: ProcessReply,
) -> bool {
    match (before, reply) {
        (Startup::SecondScan { .. }, ProcessReply::Scan(Ok(processes))) =>
        config.restart_gui_on_initialize || !supervisor::daemon_mode_shown(
            processes@,
            config.gui_executable@,
        ),
        (Startup::AttachedSocket { .. }, _) => !shows_client(reply),
        _ => false,
    }
}

/// The GUI is asked to quit exactly where it has to be made anew and runs, and launched exactly
/// where it has to be made anew and does not run, or has quit. Its socket is looked at exactly
/// where it need not be restarted and uses the shared daemon, and the list that showed so is
/// remembered.
pub proof fn law_running_gui_quits_before_a_launch<P>(
    supervisor: Supervisor<P>,
    before: Startup,
    reply: ProcessReply,
    now: Nanos,
    after: Startup,
    step: StartupStep,
)
    requires
        startup_step(supervisor, before, reply, now, after, step),
    ensures
        after is Quit <==> gui_is_made_anew(supervisor.config, before, reply) && (list_seen(
            before,
            reply,
        ) matches Some(processes) && supervisor::gui_shown(
            processes,
            supervisor.config.gui_executable@,
        )),
        (gui_is_made_anew(supervisor.config, before, reply) || before is QuitScan) && (list_seen(
            before,
            reply,
        ) matches Some(processes) && !supervisor::gui_shown(
            processes,
            supervisor.config.gui_executable@,
        )) ==> if valid_utf8(supervisor::gui_bundle(supervisor.config)) {
            after is Launch
        } else {
            step matches StartupStep::Done(Err(SupervisorError::UserActionRequired(said))) && said@
                == "ChatGPT application path is not valid UTF-8"@
        },
        after is Launch ==> (gui_is_made_anew(supervisor.config, before, reply)
            || before is QuitScan) && (list_seen(before, reply) matches Some(processes)
            && !supervisor::gui_shown(processes, supervisor.config.gui_executable@)),
        after is AttachedSocket <==> before is SecondScan && !gui_is_made_anew(
            supervisor.config,
            before,
            reply,
        ) && reply->Scan_0 is Ok,
        after matches Startup::AttachedSocket { processes, .. } ==> list_seen(before, reply)
            == Some(processes@),
{
}

/// A GUI that was asked to quit is given the time for it: as long as it runs and the deadline has
/// not come, there is a pause and another look, with the deadline unchanged. The user is told that
/// it ignored the request exactly when it runs at the deadline, and then nothing is launched.
pub proof fn law_quitting_is_waited_for_until_the_deadline<P>(
    supervisor: Supervisor<P>,
    before: Startup,
    reply: ProcessReply,
    now: Nanos,
    after: Startup,
    step: StartupStep,
)
    requires
        startup_step(supervisor, before, reply, now, after, step),
    ensures
        match (before, reply) {
            (Startup::Quit { .. }, ProcessReply::GracefulQuit(Ok(_))) =>
            if supervisor.config.graceful_quit_timeout > 0 {
                after matches Startup::QuitPause { deadline, .. } && deadline == now
                    + supervisor.config.graceful_quit_timeout
            } else {
                step matches StartupStep::Done(Err(SupervisorError::UserActionRequired(said)))
                    && said@
                    == "ChatGPT ignored graceful quit; quit it manually. It was not force-killed."@
            },
            (Startup::Quit { .. }, ProcessReply::GracefulQuit(Err(words))) => step
                matches StartupStep::Done(Err(SupervisorError::UserActionRequired(said))) && said@
                == words@,
            (Startup::QuitPause { deadline, .. }, _) => after matches Startup::QuitScan {
                deadline: until,
                ..
            } && until == deadline,
            (Startup::QuitScan { deadline, .. }, ProcessReply::Scan(Ok(processes))) =>
            supervisor::gui_shown(processes@, supervisor.config.gui_executable@) ==> if now
                < deadline {
                after matches Startup::QuitPause { deadline: until, .. } && until == deadline
            } else {
                step matches StartupStep::Done(Err(SupervisorError::UserActionRequired(said)))
                    && said@
                    == "ChatGPT ignored graceful quit; quit it manually. It was not force-killed."@
            },
            _ => true,
        },
        after is QuitPause ==> before is Quit || before is QuitScan,
        after is QuitScan ==> before is QuitPause,
{
}

/// A GUI that was launched is given the startup timeout to attach: as long as it is not seen on the
/// socket and the deadline has not come, there is a pause and another look, with the deadline
/// unchanged. That it did not attach is reported exactly when the deadline has come.
pub proof fn law_attachment_is_waited_for_until_the_deadline<P>(
    supervisor: Supervisor<P>,
    before: Startup,
    reply: ProcessReply,
    now: Nanos,
    after: Startup,
    step: StartupStep,
)
    requires
        startup_step(supervisor, before, reply, now, after, step),
    ensures
        match (before, reply) {
            (Startup::Launch { .. }, ProcessReply::Spawn(Ok(_))) =>
            if supervisor.config.startup_timeout > 0 {
                after matches Startup::AttachmentScan { deadline, .. } && deadline == now
                    + supervisor.config.startup_timeout
            } else {
                step matches StartupStep::Done(Err(SupervisorError::AttachmentUnverified(_)))
            },
            (Startup::Launch { .. }, ProcessReply::Spawn(Err(words))) => step
                matches StartupStep::Done(Err(SupervisorError::UserActionRequired(said))) && said@
                == words@,
            (Startup::AttachmentScan { deadline, .. }, ProcessReply::Scan(Ok(processes))) => if
            supervisor::daemon_mode_shown(processes@, supervisor.config.gui_executable@) {
                after matches Startup::AttachmentSocket { deadline: until, processes: kept, .. }
                    && until == deadline && kept@ == processes@
            } else {
                after matches Startup::AttachmentPause { deadline: until, .. } && until == deadline
            },
            (Startup::AttachmentSocket { deadline, .. }, _) => !shows_client(reply) ==> (after
                matches Startup::AttachmentPause { deadline: until, .. } && until == deadline),
            (Startup::AttachmentPause { deadline, .. }, _) => if now < deadline {
                after matches Startup::AttachmentScan { deadline: until, .. } && until == deadline
            } else {
                step matches StartupStep::Done(Err(SupervisorError::AttachmentUnverified(_)))
            },
            _ => true,
        },
        step matches StartupStep::Done(Err(SupervisorError::AttachmentUnverified(said))) ==> said@
            == "ChatGPT did not establish an accepted connection to the managed daemon within the startup timeout"@
            && match before {
            Startup::AttachmentPause { deadline, .. } => now >= deadline,
            Startup::Launch { .. } => supervisor.config.startup_timeout == 0,
            _ => false,
        },
{
}

/// The user is asked to act exactly where the GUI cannot be asked to quit, launched or named, or
/// goes on running when its time to quit is over.
pub proof fn law_user_is_asked_only_about_the_gui<P>(
    supervisor: Supervisor<P>,
    before: Startup,
    reply: ProcessReply,
    now: Nanos,
    after: Startup,
    step: StartupStep,
)
    requires
        startup_step(supervisor, before, reply, now, after, step),
        step matches StartupStep::Done(Err(SupervisorError::UserActionRequired(_))),
    ensures
        match (before, reply) {
            (Startup::Quit { .. }, ProcessReply::GracefulQuit(Ok(_))) =>
            supervisor.config.graceful_quit_timeout == 0,
            (Startup::Quit { .. }, ProcessReply::GracefulQuit(Err(_))) => true,
            (Startup::Launch { .. }, ProcessReply::Spawn(Err(_))) => true,
            (Startup::QuitScan { deadline, .. }, ProcessReply::Scan(Ok(processes))) => if
            supervisor::gui_shown(processes@, supervisor.config.gui_executable@) {
                now >= deadline
            } else {
                !valid_utf8(supervisor::gui_bundle(supervisor.config))
            },
            _ => gui_is_made_anew(supervisor.config, before, reply) && !valid_utf8(
                supervisor::gui_bundle(supervisor.config),
            ),
        },
{
}

/// A step of a look at the daemon and the GUI.
pub open spec fn check_step<P>(
    supervisor: Supervisor<P>,
    before: Check,
    reply: ProcessReply,
    after: Check,
    step: CheckStep,
) -> bool {
    &&& supervisor::answers_check(before, reply)
    &&& call_ensures(Supervisor::<P>::check_after, (&supervisor, before, reply), (after, step))
}

/// A look begins with the process list.
pub proof fn law_look_begins_with_the_processes<P>(
    supervisor: Supervisor<P>,
    after: Check,
    step: CheckStep,
)
    requires
        call_ensures(Supervisor::<P>::check, (&supervisor,), (after, step)),
    ensures
        after is Scan,
        step == CheckStep::Ask(ProcessRequest::Scan),
{
}

/// What a look asks for is what the point where it stands waits for. It has ended exactly if it
/// asks for nothing more.
pub proof fn law_look_asks_for_what_it_waits_for<P>(
    supervisor: Supervisor<P>,
    before: Check,
    reply: ProcessReply,
    after: Check,
    step: CheckStep,
)
    requires
        check_step(supervisor, before, reply, after, step),
    ensures
        match step {
            CheckStep::Done(_) => after is Finished,
            CheckStep::Ask(request) => match after {
                Check::DaemonStart => starts_codex(
                    request,
                    supervisor.config,
                    "app-server"@,
                    "daemon"@,
                    "start"@,
                ),
                Check::Version { .. } => runs_codex(
                    request,
                    supervisor.config,
                    "app-server"@,
                    "daemon"@,
                    "version"@,
                ),
                Check::Socket { .. } => request matches ProcessRequest::SocketUsers(socket)
                    && socket@ == supervisor.config.socket_path@,
                Check::Launch => opens_gui(request, supervisor.config),
                Check::Scan | Check::Finished => false,
            },
        },
{
    if let CheckStep::Ask(request) = step {
        if after is Launch {
            lemma_opens_gui(request, supervisor.config);
        }
        match request {
            ProcessRequest::Spawn { args, .. } if after is DaemonStart => {
                lemma_row_of_three(args@, "app-server"@, "daemon"@, "start"@);
            },
            ProcessRequest::Output { args, .. } => {
                lemma_row_of_three(args@, "app-server"@, "daemon"@, "version"@);
            },
            _ => {},
        }
    }
}

/// The process list that a look remembers.
pub open spec fn list_remembered(at: Check) -> Option<Seq<char>> {
    match at {
        Check::Version { processes } | Check::Socket { processes } => Some(processes@),
        _ => None,
    }
}

/// A look has found the daemon in order and the GUI not attached to it: by its mode, which the
/// process list shows, or by the socket, which has no client.
pub open spec fn finds_no_attachment(
    config: SupervisorConfig,
    before: Check,
    reply: ProcessReply,
) -> bool {
    match (before, reply) {
        (Check::Version { processes }, ProcessReply::Output(Ok(output))) => output.success
            && !supervisor::daemon_mode_shown(processes@, config.gui_executable@),
        (Check::Socket { .. }, _) => !shows_client(reply),
        _ => false,
    }
}

/// A look launches the GUI only if the process list that it remembers does not show the GUI. A GUI
/// that is found running but not attached, by its mode or by the socket's users, is left alone: the
/// look ends there, and the user is asked to act.
pub proof fn law_running_gui_is_never_launched_by_a_look<P>(
    supervisor: Supervisor<P>,
    before: Check,
    reply: ProcessReply,
    after: Check,
    step: CheckStep,
)
    requires
        check_step(supervisor, before, reply, after, step),
    ensures
        after is Launch ==> finds_no_attachment(supervisor.config, before, reply) && (
        list_remembered(before) matches Some(processes) && !supervisor::gui_shown(
            processes,
            supervisor.config.gui_executable@,
        )),
        finds_no_attachment(supervisor.config, before, reply) ==> {
            &&& list_remembered(before) matches Some(processes)
            &&& if supervisor::gui_shown(processes, supervisor.config.gui_executable@) {
                step matches CheckStep::Done(MonitorEvent::UserActionRequired(said)) && said@
                    == "ChatGPT is not attached to the shared daemon"@
            } else if valid_utf8(supervisor::gui_bundle(supervisor.config)) {
                after is Launch
            } else {
                step matches CheckStep::Done(MonitorEvent::UserActionRequired(said)) && said@
                    == "ChatGPT application path is not valid UTF-8"@
            }
        },
        list_remembered(before) is Some && list_remembered(after) is Some ==> list_remembered(after)
            == list_remembered(before),
        (before is Scan && after is Version) ==> (reply matches ProcessReply::Scan(Ok(processes))
            && list_remembered(after) == Some(processes@)),
{
}

/// A look reports health exactly if it gets to the socket and finds a client there, and it gets to
/// the socket exactly if the daemon gave its version and the GUI uses the shared daemon.
pub proof fn law_look_reports_health_on_evidence<P>(
    supervisor: Supervisor<P>,
    before: Check,
    reply: ProcessReply,
    after: Check,
    step: CheckStep,
)
    requires
        check_step(supervisor, before, reply, after, step),
    ensures
        step == CheckStep::Done(MonitorEvent::Healthy) <==> before is Socket && shows_client(reply),
        after is Socket <==> (before matches Check::Version { processes } && (reply
            matches ProcessReply::Output(Ok(output)) && output.success
            && supervisor::daemon_mode_shown(processes@, supervisor.config.gui_executable@))),
        after is Version <==> before is Scan && (reply matches ProcessReply::Scan(Ok(processes))
            && supervisor::daemon_shown(processes@, supervisor.config.standalone_codex@)),
{
}

/// A look starts the daemon exactly if the process list does not show it, and reports a restart, of
/// the daemon or of the GUI, exactly if the start that it asked for succeeded.
pub proof fn law_look_restarts_what_does_not_run<P>(
    supervisor: Supervisor<P>,
    before: Check,
    reply: ProcessReply,
    after: Check,
    step: CheckStep,
)
    requires
        check_step(supervisor, before, reply, after, step),
    ensures
        after is DaemonStart <==> before is Scan && (reply matches ProcessReply::Scan(Ok(processes))
            && !supervisor::daemon_shown(processes@, supervisor.config.standalone_codex@)),
        step == CheckStep::Done(MonitorEvent::DaemonRestarted) <==> before is DaemonStart
            && reply->Spawn_0 is Ok,
        step == CheckStep::Done(MonitorEvent::GuiRestarted) <==> before is Launch
            && reply->Spawn_0 is Ok,
        (before is DaemonStart || before is Launch) && (reply matches ProcessReply::Spawn(
            Err(words),
        )) ==> (step matches CheckStep::Done(MonitorEvent::UserActionRequired(said)) && said@
            == reply->Spawn_0->Err_0@),
{
}

/// A look calls the daemon incompatible exactly if the question for its version failed, with what
/// the failure said; and a process list that cannot be had is the user's to mend.
pub proof fn law_look_blames_the_version_command<P>(
    supervisor: Supervisor<P>,
    before: Check,
    reply: ProcessReply,
    after: Check,
    step: CheckStep,
)
    requires
        check_step(supervisor, before, reply, after, step),
    ensures
        (step matches CheckStep::Done(MonitorEvent::Incompatible(_))) <==> before is Version && (
        reply matches ProcessReply::Output(result) && (result matches Ok(output)
            ==> !output.success)),
        step matches CheckStep::Done(MonitorEvent::Incompatible(said)) ==> said@ == (
        match reply->Output_0 {
            Ok(output) => output.stderr@,
            Err(words) => words@,
        }),
        (before is Scan && reply->Scan_0 is Err) ==> (step matches CheckStep::Done(
            MonitorEvent::UserActionRequired(said),
        ) && said@ == "cannot inspect processes"@),
        (step matches CheckStep::Done(MonitorEvent::UserActionRequired(_))) ==> (before is Scan
            && reply->Scan_0 is Err) || (before is DaemonStart && reply->Spawn_0 is Err) || (
        before is Launch && reply->Spawn_0 is Err) || finds_no_attachment(
            supervisor.config,
            before,
            reply,
        ),
{
}

/// Monitoring looks only after a whole wait and waits after every look, whose outcome it publishes
/// as it is. It stops exactly when a shutdown has been asked for or can no longer be.
pub proof fn law_monitoring_waits_looks_and_publishes<P>(
    supervisor: Supervisor<P>,
    at: Watch,
    event: WatchEvent,
    after: Watch,
    step: WatchStep,
)
    requires
        supervisor::watch_expects(at, event),
        call_ensures(Supervisor::<P>::monitor_after, (&supervisor, at, event), (after, step)),
    ensures
        step is Stop <==> (event matches WatchEvent::Shutdown { open, stop } && (!open || stop)),
        step is Check <==> event is Slept,
        step is Publish <==> event is Checked,
        event matches WatchEvent::Checked(seen) ==> step == WatchStep::Publish(
            seen,
            supervisor.config.monitor_interval,
        ),
        step is Wait ==> step == WatchStep::Wait(supervisor.config.monitor_interval),
        match step {
            WatchStep::Stop => after is Ended,
            WatchStep::Check => after is Checking,
            WatchStep::Wait(_) | WatchStep::Publish(..) => after is Waiting,
        },
{
}

/// Monitoring begins with a whole wait.
pub proof fn law_monitoring_begins_with_a_wait<P>(
    supervisor: Supervisor<P>,
    after: Watch,
    step: WatchStep,
)
    requires
        call_ensures(Supervisor::<P>::monitor, (&supervisor,), (after, step)),
    ensures
        after is Waiting,
        step == WatchStep::Wait(supervisor.config.monitor_interval),
{
}

/// A shutdown leaves the daemon running and changes nothing else.
pub proof fn law_shutdown_leaves_the_daemon_running<P>(
    supervisor: Supervisor<P>,
    state: SupervisionState,
    left: SupervisionState,
)
    requires
        call_ensures(Supervisor::<P>::shutdown_state, (&supervisor, state), left),
    ensures
        left.daemon_left_running,
        left.daemon_ownership == state.daemon_ownership,
        left.daemon_version == state.daemon_version,
        left.gui_attached == state.gui_attached,
{
}

/// The arguments of a command are the texts `args`, one for one.
pub open spec fn passes(command: ChildCommand, args: Seq<Seq<char>>) -> bool {
    command.args@.len() == args.len() && forall|i: int|
        0 <= i < args.len() ==> (#[trigger] command.args@[i])@ == encode_utf8(args[i])
}

proof fn lemma_passes(command: ChildCommand, args: Seq<Seq<char>>)
    requires
        supervisor::arg_row(command.args@) == supervisor::encoded_row(args),
    ensures
        passes(command, args),
{
    let row = supervisor::arg_row(command.args@);
    assert(row.len() == command.args@.len());
    assert(row.len() == args.len());
    assert forall|i: int| 0 <= i < args.len() implies (#[trigger] command.args@[i])@ == encode_utf8(
        args[i],
    ) by {
        assert(row[i] == command.args@[i]@);
        assert(row[i] == encode_utf8(args[i]));
    }
}

/// Each request to the machine's processes is met by one program: the process list by `ps`, the
/// socket's users by `lsof`, the end of the GUI by a script, and a program by itself with its own
/// arguments and variables. Only what is to be left running is detached, and nothing else is run.
pub proof fn law_requests_run_their_programs(
    ops: RealProcessOps,
    request: ProcessRequest,
    command: Option<ChildCommand>,
)
    requires
        call_ensures(RealProcessOps::child_command, (&ops, &request), command),
    ensures
        command is None <==> request is Exists || request is Sleep,
        command matches Some(command) ==> {
            &&& command.detached <==> request is Spawn
            &&& match request {
                ProcessRequest::Scan => command.program@ == encode_utf8("/bin/ps"@) && passes(
                    command,
                    seq!["eww"@, "-axo"@, "pid=,command="@],
                ) && command.env@.len() == 0,
                ProcessRequest::SocketUsers(socket) => command.program@ == encode_utf8(
                    "/usr/sbin/lsof"@,
                ) && command.args@.len() == 2 && command.args@[0]@ == encode_utf8("-n"@)
                    && command.args@[1]@ == socket@ && command.env@.len() == 0,
                ProcessRequest::GracefulQuit => command.program@ == encode_utf8(
                    "/usr/bin/osascript"@,
                ) && passes(command, seq!["-e"@, "tell application \"ChatGPT\" to quit"@])
                    && command.env@.len() == 0,
                ProcessRequest::Output { program, args } => command.program@ == program@ && passes(
                    command,
                    args@.map_values(|arg: String| arg@),
                ) && command.env@.len() == 0,
                ProcessRequest::Spawn { program, args, env } => command.program@ == program@
                    && passes(command, args@.map_values(|arg: String| arg@)) && command.env@
                    == env@,
                _ => true,
            }
        },
{
    if let Some(command) = command {
        match request {
            ProcessRequest::Scan => lemma_passes(command, seq!["eww"@, "-axo"@, "pid=,command="@]),
            ProcessRequest::GracefulQuit => lemma_passes(
                command,
                seq!["-e"@, "tell application \"ChatGPT\" to quit"@],
            ),
            ProcessRequest::SocketUsers(socket) => {
                let row = supervisor::arg_row(command.args@);
                assert(row.len() == 2);
                assert(row[0] == encode_utf8("-n"@));
                assert(row[1] == socket@);
            },
            ProcessRequest::Output { args, .. } => {
                assert(text::texts(args@) =~= args@.map_values(|arg: String| arg@));
                lemma_passes(command, text::texts(args@));
            },
            ProcessRequest::Spawn { args, .. } => {
                assert(text::texts(args@) =~= args@.map_values(|arg: String| arg@));
                lemma_passes(command, text::texts(args@));
            },
            _ => {},
        }
    }
}

/// A program that could not be run is an error with the words of that, for every request. A process
/// list and a request to quit fail with what the program wrote as an error; the users of a socket
/// are none where the program fails; and a command's output is what it wrote, trimmed.
pub proof fn law_replies_tell_what_the_programs_did(
    ops: RealProcessOps,
    request: ProcessRequest,
    ran: Result<ProcessOutput, String>,
    reply: ProcessReply,
)
    requires
        !(request is Exists) && !(request is Sleep),
        call_ensures(RealProcessOps::reply, (&ops, &request, ran), reply),
    ensures
        match request {
            ProcessRequest::Scan => reply matches ProcessReply::Scan(shown) && match ran {
                Err(error) => shown matches Err(words) && words@ == error@,
                Ok(output) => if output.success {
                    shown matches Ok(list) && list@ == path::lossy_text(output.stdout@)
                } else {
                    shown matches Err(words) && words@ == path::lossy_text(output.stderr@)
                },
            },
            ProcessRequest::SocketUsers(_) => reply matches ProcessReply::SocketUsers(shown)
                && match ran {
                Err(error) => shown matches Err(words) && words@ == error@,
                Ok(output) => shown matches Ok(list) && (if output.success {
                    list@ == path::lossy_text(output.stdout@)
                } else {
                    list@.len() == 0
                }),
            },
            ProcessRequest::Output { .. } => reply matches ProcessReply::Output(shown) && match ran {
                Err(error) => shown matches Err(words) && words@ == error@,
                Ok(output) => shown matches Ok(printed) && printed.success == output.success
                    && printed.stdout@ == text::trimmed(path::lossy_text(output.stdout@))
                    && printed.stderr@ == text::trimmed(path::lossy_text(output.stderr@)),
            },
            ProcessRequest::Spawn { .. } => reply matches ProcessReply::Spawn(begun) && match ran {
                Err(error) => begun matches Err(words) && words@ == error@,
                Ok(_) => begun is Ok,
            },
            ProcessRequest::GracefulQuit => reply matches ProcessReply::GracefulQuit(asked)
                && match ran {
                Err(error) => asked matches Err(words) && words@ == error@,
                Ok(output) => if output.success {
                    asked is Ok
                } else {
                    asked matches Err(words) && words@ == path::lossy_text(output.stderr@)
                },
            },
            _ => false,
        },
{
}

/// A launch can be asked for exactly where the path of the GUI's bundle is text.
pub proof fn law_launch_names_the_bundle(
    config: SupervisorConfig,
    request: Result<ProcessRequest, String>,
)
    requires
        call_ensures(supervisor::launch_request, (&config,), request),
    ensures
        request is Ok <==> valid_utf8(
            match path::enclosing_bundle(config.gui_executable@) {
                Some(bundle) => bundle,
                None => config.gui_executable@,
            },
        ),
        request matches Ok(request) ==> opens_gui(request, config),
        request matches Err(words) ==> words@ == "ChatGPT application path is not valid UTF-8"@,
{
    if let Ok(request) = request {
        lemma_opens_gui(request, config);
    }
}

/// The configuration for a home directory keeps the program and its socket under that directory,
/// or under one that holds nothing where there is none, restarts the GUI, and waits for ten seconds
/// for a start, eight for an end, and five between two looks.
pub proof fn law_supervision_is_configured_for_the_home(
    home: Option<FilePath>,
    config: SupervisorConfig,
)
    requires
        call_ensures(SupervisorConfig::for_home, (home,), config),
    ensures
        ({
            let under = match home {
                Some(home) => home@,
                None => encode_utf8("/var/empty"@),
            };
            &&& config.standalone_codex@ == path::joined(
                under,
                encode_utf8(".codex/packages/standalone/current/codex"@),
            )
            &&& config.socket_path@ == path::joined(
                under,
                encode_utf8(".codex/app-server-control/app-server-control.sock"@),
            )
        }),
        config.gui_executable@ == encode_utf8("/Applications/ChatGPT.app/Contents/MacOS/ChatGPT"@),
        config.restart_gui_on_initialize,
        config.startup_timeout == 10_000_000_000,
        config.graceful_quit_timeout == 8_000_000_000,
        config.monitor_interval == 5_000_000_000,
{
}

/// The words of an error begin with what kind it is and go on with what it carries.
pub proof fn law_error_words_say_what_went_wrong(error: SupervisorError, message: String)
    requires
        call_ensures(SupervisorError::message, (&error,), message),
    ensures
        message@ == match error {
            SupervisorError::MissingStandalone { path } => "standalone Codex is missing at "@
                + path::lossy_text(path@)
                + "; install it with the official standalone installer"@,
            SupervisorError::MissingGui { path } => "ChatGPT executable is missing at "@
                + path::lossy_text(path@),
            SupervisorError::DaemonCommand(detail) => "daemon command failed: "@ + detail@,
            SupervisorError::IncompatibleVersion(detail) =>
            "daemon version is incompatible or unavailable: "@ + detail@,
            SupervisorError::AttachmentUnverified(detail) =>
            "ChatGPT did not attach to the shared daemon; check the installed GUI/Codex compatibility: "@
                + detail@,
            SupervisorError::UserActionRequired(detail) => "user action required: "@ + detail@,
            SupervisorError::Inspection(detail) => "process inspection failed: "@ + detail@,
        },
{
}

/// A supervisor keeps the configuration that it was given.
pub proof fn law_supervisors_keep_their_configuration<P>(
    config: SupervisorConfig,
    ops: P,
    supervisor: Supervisor<P>,
    local: Supervisor<RealProcessOps>,
)
    requires
        call_ensures(Supervisor::<P>::with_ops, (config, ops), supervisor),
        call_ensures(Supervisor::<RealProcessOps>::new, (config,), local),
    ensures
        supervisor.config == config,
        supervisor.ops == ops,
        local.config == config,
{
}

/// The output of a command is what it wrote, trimmed, and whether it succeeded.
pub proof fn law_outputs_are_trimmed(
    success: bool,
    stdout: &str,
    stderr: &str,
    output: CommandOutput,
    out: String,
    err: String,
)
    requires
        call_ensures(CommandOutput::of, (success, stdout, stderr), output),
        call_ensures(text::trim, (stdout,), out),
        call_ensures(text::trim, (stderr,), err),
    ensures
        output.success == success,
        output.stdout@ == out@,
        output.stderr@ == err@,
{
}

} // verus!
