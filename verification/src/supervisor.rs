//! Supervision of the shared daemon and of the GUI that attaches to it.

use crate::clock::{Nanos, LONGEST, SECOND};
use crate::path;
use crate::path::FilePath;
use crate::text;
use vstd::prelude::*;
use vstd::utf8::*;

verus! {

/// Where the daemon and the GUI are, and how long to wait for them.
#[derive(Clone, Debug)]
pub struct SupervisorConfig {
    pub standalone_codex: FilePath,
    pub socket_path: FilePath,
    pub gui_executable: FilePath,
    /// Gracefully restart the GUI during initialization even when it is already attached.
    pub restart_gui_on_initialize: bool,
    pub startup_timeout: Nanos,
    pub graceful_quit_timeout: Nanos,
    pub monitor_interval: Nanos,
}

/// Whether the daemon was found running or had to be started.
#[derive(Clone, Copy, Debug, PartialEq, Eq, Structural)]
pub enum DaemonOwnership {
    Attached,
    Started,
}

/// What supervision has established.
#[derive(Clone, Debug, PartialEq, Eq)]
pub struct SupervisionState {
    pub daemon_ownership: DaemonOwnership,
    pub daemon_version: String,
    pub gui_attached: bool,
    pub daemon_left_running: bool,
}

/// What one look at the daemon and the GUI came to.
#[derive(Clone, Debug, PartialEq, Eq)]
pub enum MonitorEvent {
    Healthy,
    DaemonRestarted,
    GuiRestarted,
    Incompatible(String),
    UserActionRequired(String),
}

/// Why supervision could not be established.
#[derive(Debug)]
pub enum SupervisorError {
    MissingStandalone { path: FilePath },
    MissingGui { path: FilePath },
    DaemonCommand(String),
    IncompatibleVersion(String),
    AttachmentUnverified(String),
    UserActionRequired(String),
    Inspection(String),
}

/// What a command printed, and whether it succeeded.
#[derive(Clone, Debug)]
pub struct CommandOutput {
    pub success: bool,
    pub stdout: String,
    pub stderr: String,
}

/// The processes of this machine.
#[derive(Clone, Copy, Debug)]
pub struct RealProcessOps;

/// A supervisor: its configuration, and the means by which its requests to the operating system
/// are carried out.
#[derive(Debug)]
pub struct Supervisor<P> {
    pub config: SupervisorConfig,
    pub ops: P,
}

/// What supervision asks of the operating system.
#[derive(Debug)]
pub enum ProcessRequest {
    /// Does the file exist?
    Exists(FilePath),
    /// List the running processes with their environments, one to a line.
    Scan,
    /// List the users of a socket, one to a line.
    SocketUsers(FilePath),
    /// Run a program to its end.
    Output { program: FilePath, args: Vec<String> },
    /// Start a program and leave it running.
    Spawn { program: FilePath, args: Vec<String>, env: Vec<(String, String)> },
    /// Ask the GUI to quit.
    GracefulQuit,
    /// Let time pass.
    Sleep(Nanos),
}

/// What the operating system answered.
#[derive(Debug)]
pub enum ProcessReply {
    Exists(bool),
    Scan(Result<String, String>),
    SocketUsers(Result<String, String>),
    Output(Result<CommandOutput, String>),
    Spawn(Result<(), String>),
    GracefulQuit(Result<(), String>),
    Slept,
}

/// A program to run: with what, and whether it is left running on its own, in a process group of
/// its own and without the standard streams, or its end is waited for.
#[derive(Debug)]
pub struct ChildCommand {
    pub program: FilePath,
    pub args: Vec<FilePath>,
    pub env: Vec<(String, String)>,
    pub detached: bool,
}

/// What a program that ran to its end wrote, and whether it succeeded.
#[derive(Debug)]
pub struct ProcessOutput {
    pub success: bool,
    pub stdout: Vec<u8>,
    pub stderr: Vec<u8>,
}

/// The daemon as an initialization has found it.
#[derive(Debug)]
pub struct Found {
    pub ownership: DaemonOwnership,
    pub version: String,
}

/// Where an initialization stands: which request it has made and waits to see answered.
#[derive(Debug)]
pub enum Startup {
    /// Does the standalone program exist?
    Standalone,
    /// Does the GUI exist?
    Gui,
    /// Is the daemon running?
    FirstScan,
    /// The daemon is being started.
    DaemonStart,
    /// The daemon is asked for its version.
    Version { ownership: DaemonOwnership, deadline: Nanos },
    /// A pause before the daemon is asked again.
    VersionPause { ownership: DaemonOwnership, deadline: Nanos, detail: String },
    /// Is the GUI running?
    SecondScan { found: Found },
    /// Is the running GUI attached? `processes` is what the scan showed.
    AttachedSocket { found: Found, processes: String },
    /// The GUI is asked to quit.
    Quit { found: Found },
    /// A pause before looking whether the GUI has quit.
    QuitPause { found: Found, deadline: Nanos },
    /// Has the GUI quit?
    QuitScan { found: Found, deadline: Nanos },
    /// The GUI is being launched.
    Launch { found: Found },
    /// Does the launched GUI run in the right mode?
    AttachmentScan { found: Found, deadline: Nanos },
    /// Is the launched GUI attached? `processes` is what the scan showed.
    AttachmentSocket { found: Found, deadline: Nanos, processes: String },
    /// A pause before looking again whether the GUI is attached.
    AttachmentPause { found: Found, deadline: Nanos },
    /// The initialization has ended.
    Finished,
}

/// What an initialization does next.
#[derive(Debug)]
pub enum StartupStep {
    Ask(ProcessRequest),
    Done(Result<SupervisionState, SupervisorError>),
}

/// Where a look at the daemon and the GUI stands.
#[derive(Debug)]
pub enum Check {
    /// What runs?
    Scan,
    /// The daemon is being restarted.
    DaemonStart,
    /// The daemon is asked for its version. `processes` is what the scan showed.
    Version { processes: String },
    /// Is the GUI attached? `processes` is what the scan showed.
    Socket { processes: String },
    /// The GUI is being launched.
    Launch,
    /// The look has ended.
    Finished,
}

/// What a look at the daemon and the GUI does next.
#[derive(Debug)]
pub enum CheckStep {
    Ask(ProcessRequest),
    Done(MonitorEvent),
}

/// What monitoring waits for.
#[derive(Clone, Copy, Debug, PartialEq, Eq, Structural)]
pub enum Watch {
    /// The end of the time between two looks.
    Waiting,
    /// The end of a look at the daemon and the GUI.
    Checking,
    /// Nothing: monitoring has ended.
    Ended,
}

/// What happened to monitoring.
#[derive(Debug)]
pub enum WatchEvent {
    /// There is news of a shutdown: `open` says whether there can be more of it, and `stop` whether
    /// a shutdown has been asked for.
    Shutdown { open: bool, stop: bool },
    /// The time between two looks is over.
    Slept,
    /// A look has ended.
    Checked(MonitorEvent),
}

/// What monitoring does next. News of a shutdown interrupts a wait and a look.
#[derive(Debug)]
pub enum WatchStep {
    /// Let time pass before the next look.
    Wait(Nanos),
    /// Look at the daemon and the GUI.
    Check,
    /// Publish what a look came to, and let time pass before the next.
    Publish(MonitorEvent, Nanos),
    Stop,
}

/// The pause between two looks at something that is expected to change.
pub const PAUSE: Nanos = 100_000_000;

/// What a user is told whose GUI did not quit.
pub const IGNORED_QUIT: &'static str = "ChatGPT ignored graceful quit; quit it manually. It was not force-killed.";

/// What a user is told whose GUI did not attach in time.
pub const NOT_ATTACHED_IN_TIME: &'static str = "ChatGPT did not establish an accepted connection to the managed daemon within the startup timeout";

/// What a user is told whose GUI path cannot be passed on.
pub const NOT_UTF8: &'static str = "ChatGPT application path is not valid UTF-8";

/// What a user is told whose GUI runs without the daemon.
pub const NOT_ATTACHED: &'static str = "ChatGPT is not attached to the shared daemon";

/// What a user is told whose processes cannot be listed.
pub const CANNOT_INSPECT: &'static str = "cannot inspect processes";

/// A line of a process list that shows the managed daemon.
pub open spec fn shows_daemon(line: Seq<char>, codex: Seq<char>) -> bool {
    text::occurs_in(line, codex) && text::occurs_in(line, "app-server"@) && (text::occurs_in(
        line,
        "daemon"@,
    ) || text::occurs_in(line, "--listen unix://"@))
}

/// A process list with the managed daemon in it.
pub open spec fn daemon_shown(processes: Seq<char>, codex: Seq<u8>) -> bool {
    exists|i: int|
        0 <= i < text::lines(processes).len() && shows_daemon(
            #[trigger] text::lines(processes)[i],
            path::lossy_text(codex),
        )
}

/// A process list with the GUI in it.
pub open spec fn gui_shown(processes: Seq<char>, gui: Seq<u8>) -> bool {
    exists|i: int|
        0 <= i < text::lines(processes).len() && text::occurs_in(
            #[trigger] text::lines(processes)[i],
            path::lossy_text(gui),
        )
}

/// A line of a process list that shows the GUI in the mode that uses the shared daemon.
pub open spec fn shows_daemon_mode(line: Seq<char>, gui: Seq<char>) -> bool {
    text::occurs_in(line, gui) && text::occurs_in(line, "CODEX_APP_SERVER_USE_LOCAL_DAEMON=1"@)
        && !text::occurs_in(line, "CODEX_APP_SERVER_FORCE_CLI=1"@) && !text::occurs_in(
        line,
        "CODEX_CLI_PATH="@,
    )
}

/// A process list with the GUI in the mode that uses the shared daemon.
pub open spec fn daemon_mode_shown(processes: Seq<char>, gui: Seq<u8>) -> bool {
    exists|i: int|
        0 <= i < text::lines(processes).len() && shows_daemon_mode(
            #[trigger] text::lines(processes)[i],
            path::lossy_text(gui),
        )
}

/// A line of a socket's user list that records a user: not blank, and not the heading.
pub open spec fn is_socket_record(line: Seq<char>) -> bool {
    text::trimmed(line).len() > 0 && !text::occurs_at(text::trimmed(line), "COMMAND"@, 0)
}

/// A socket's user list with a client in it: the listener is one record, and each accepted
/// connection is one more.
pub open spec fn connection_accepted(users: Seq<char>) -> bool {
    text::lines(users).filter(|line: Seq<char>| is_socket_record(line)).len() > 1
}

/// Whether a process list shows the managed daemon.
pub fn has_managed_daemon(processes: &str, codex: &FilePath) -> (yes: bool)
    ensures
        yes == daemon_shown(processes@, codex@),
{
    let name = codex.to_text_lossy();
    let row = text::split_lines(processes);
    let mut i: usize = 0;
    while i < row.len()
        invariant
            i <= row@.len(),
            name@ == path::lossy_text(codex@),
            text::texts(row@) == text::lines(processes@),
            forall|k: int|
                0 <= k < i ==> !shows_daemon(#[trigger] text::lines(processes@)[k], name@),
        decreases row@.len() - i,
    {
        let line = row[i].as_str();
        assert(text::texts(row@)[i as int] == line@);
        if text::contains(line, name.as_str()) && text::contains(line, "app-server") && (
        text::contains(line, "daemon") || text::contains(line, "--listen unix://")) {
            return true;
        }
        i += 1;
    }
    false
}

/// Whether a process list shows the GUI.
pub fn gui_running(processes: &str, gui: &FilePath) -> (yes: bool)
    ensures
        yes == gui_shown(processes@, gui@),
{
    let name = gui.to_text_lossy();
    let row = text::split_lines(processes);
    let mut i: usize = 0;
    while i < row.len()
        invariant
            i <= row@.len(),
            name@ == path::lossy_text(gui@),
            text::texts(row@) == text::lines(processes@),
            forall|k: int|
                0 <= k < i ==> !text::occurs_in(#[trigger] text::lines(processes@)[k], name@),
        decreases row@.len() - i,
    {
        let line = row[i].as_str();
        assert(text::texts(row@)[i as int] == line@);
        if text::contains(line, name.as_str()) {
            return true;
        }
        i += 1;
    }
    false
}

/// Whether a process list shows the GUI in the mode that uses the shared daemon.
pub fn gui_mode_enabled(processes: &str, gui: &FilePath) -> (yes: bool)
    ensures
        yes == daemon_mode_shown(processes@, gui@),
{
    let name = gui.to_text_lossy();
    let row = text::split_lines(processes);
    let mut i: usize = 0;
    while i < row.len()
        invariant
            i <= row@.len(),
            name@ == path::lossy_text(gui@),
            text::texts(row@) == text::lines(processes@),
            forall|k: int|
                0 <= k < i ==> !shows_daemon_mode(#[trigger] text::lines(processes@)[k], name@),
        decreases row@.len() - i,
    {
        let line = row[i].as_str();
        assert(text::texts(row@)[i as int] == line@);
        if text::contains(line, name.as_str()) && text::contains(
            line,
            "CODEX_APP_SERVER_USE_LOCAL_DAEMON=1",
        ) && !text::contains(line, "CODEX_APP_SERVER_FORCE_CLI=1") && !text::contains(
            line,
            "CODEX_CLI_PATH=",
        ) {
            return true;
        }
        i += 1;
    }
    false
}

impl Supervisor<RealProcessOps> {
    /// A supervisor of the processes of this machine.
    pub fn new(config: SupervisorConfig) -> (supervisor: Self)
        ensures
            supervisor.config == config,
            supervisor.ops == RealProcessOps,
    {
        Supervisor { config, ops: RealProcessOps }
    }

    /// Whether a socket's user list shows that a client has connected.
    ///
    /// The list has a record for the listener and one for each accepted connection, all under the
    /// daemon: the GUI's own end has no name and is not listed.
    pub fn has_accepted_socket_connection(users: &str) -> (yes: bool)
        ensures
            yes == connection_accepted(users@),
    {
        let row = text::split_lines(users);
        let ghost all = text::lines(users@);
        let ghost record = |line: Seq<char>| is_socket_record(line);
        let mut count: usize = 0;
        let mut i: usize = 0;
        assert(all.take(0) =~= Seq::<Seq<char>>::empty());
        reveal(Seq::filter);
        while i < row.len()
            invariant
                i <= row@.len(),
                count <= i,
                all == text::lines(users@),
                text::texts(row@) == all,
                record == (|line: Seq<char>| is_socket_record(line)),
                count == all.take(i as int).filter(record).len(),
            decreases row@.len() - i,
        {
            let line = text::trim(row[i].as_str());
            assert(text::texts(row@)[i as int] == row@[i as int]@);
            let counts = !line.as_str().is_empty() && !text::starts_with(line.as_str(), "COMMAND");
            assert(counts == record(all[i as int]));
            proof {
                let longer = all.take(i + 1);
                assert(longer.drop_last() =~= all.take(i as int));
                assert(longer.last() == all[i as int]);
                reveal(Seq::filter);
            }
            if counts {
                count += 1;
            }
            i += 1;
        }
        assert(all.take(i as int) =~= all);
        count > 1
    }
}

impl SupervisorConfig {
    /// Spans that a clock can count.
    pub open spec fn valid(&self) -> bool {
        self.startup_timeout <= LONGEST && self.graceful_quit_timeout <= LONGEST
            && self.monitor_interval <= LONGEST
    }

    /// What the configuration is for a user whose home directory is `home`.
    pub open spec fn is_for_home(&self, home: Option<FilePath>) -> bool {
        &&& self.standalone_codex@ == path::joined(
            home_or_nowhere(home),
            encode_utf8(".codex/packages/standalone/current/codex"@),
        )
        &&& self.socket_path@ == path::joined(
            home_or_nowhere(home),
            encode_utf8(".codex/app-server-control/app-server-control.sock"@),
        )
        &&& self.gui_executable@ == encode_utf8(
            "/Applications/ChatGPT.app/Contents/MacOS/ChatGPT"@,
        )
        &&& self.restart_gui_on_initialize
        &&& self.startup_timeout == 10 * SECOND
        &&& self.graceful_quit_timeout == 8 * SECOND
        &&& self.monitor_interval == 5 * SECOND
    }

    /// The configuration for a user whose home directory is `home`. Without one, the paths lead
    /// nowhere.
    pub fn for_home(home: Option<FilePath>) -> (config: SupervisorConfig)
        ensures
            config.valid(),
            config.is_for_home(home),
    {
        let home = match home {
            Some(home) => home,
            None => FilePath::from_text("/var/empty"),
        };
        SupervisorConfig {
            standalone_codex: home.join(".codex/packages/standalone/current/codex"),
            socket_path: home.join(".codex/app-server-control/app-server-control.sock"),
            gui_executable: FilePath::from_text("/Applications/ChatGPT.app/Contents/MacOS/ChatGPT"),
            restart_gui_on_initialize: true,
            startup_timeout: 10 * SECOND,
            graceful_quit_timeout: 8 * SECOND,
            monitor_interval: 5 * SECOND,
        }
    }
}

/// A home directory, or a directory that holds nothing.
pub open spec fn home_or_nowhere(home: Option<FilePath>) -> Seq<u8> {
    match home {
        Some(home) => home@,
        None => encode_utf8("/var/empty"@),
    }
}

/// The bytes of a row of texts.
pub open spec fn encoded_row(row: Seq<Seq<char>>) -> Seq<Seq<u8>> {
    row.map_values(|text: Seq<char>| encode_utf8(text))
}

/// The arguments of a command, as their bytes.
pub open spec fn arg_row(args: Seq<FilePath>) -> Seq<Seq<u8>> {
    args.map_values(|arg: FilePath| arg@)
}

/// Whether `command` runs `program` to its end with `args`.
pub open spec fn runs(command: ChildCommand, program: Seq<char>, args: Seq<Seq<u8>>) -> bool {
    command.program@ == encode_utf8(program) && arg_row(command.args@) == args
        && command.env@.len() == 0 && !command.detached
}

/// Whether a request is met by running `command`.
pub open spec fn command_meets(request: ProcessRequest, command: Option<ChildCommand>) -> bool {
    match request {
        ProcessRequest::Exists(_) | ProcessRequest::Sleep(_) => command is None,
        ProcessRequest::Scan => command matches Some(command) && runs(
            command,
            "/bin/ps"@,
            encoded_row(seq!["eww"@, "-axo"@, "pid=,command="@]),
        ),
        ProcessRequest::SocketUsers(socket) => command matches Some(command) && runs(
            command,
            "/usr/sbin/lsof"@,
            seq![encode_utf8("-n"@), socket@],
        ),
        ProcessRequest::Output { program, args } => command matches Some(command)
            && command.program@ == program@ && arg_row(command.args@) == encoded_row(
            text::texts(args@),
        ) && command.env@.len() == 0 && !command.detached,
        ProcessRequest::Spawn { program, args, env } => command matches Some(command)
            && command.program@ == program@ && arg_row(command.args@) == encoded_row(
            text::texts(args@),
        ) && command.env@ == env@ && command.detached,
        ProcessRequest::GracefulQuit => command matches Some(command) && runs(
            command,
            "/usr/bin/osascript"@,
            encoded_row(seq!["-e"@, QUIT_SCRIPT@]),
        ),
    }
}

/// The script that asks the GUI to quit.
pub const QUIT_SCRIPT: &'static str = "tell application \"ChatGPT\" to quit";

fn encoded_args(args: &Vec<String>) -> (encoded: Vec<FilePath>)
    ensures
        arg_row(encoded@) == encoded_row(text::texts(args@)),
{
    let mut encoded: Vec<FilePath> = Vec::new();
    let mut i: usize = 0;
    while i < args.len()
        invariant
            i <= args@.len(),
            encoded@.len() == i,
            forall|k: int| 0 <= k < i ==> (#[trigger] encoded@[k])@ == encode_utf8(args@[k]@),
        decreases args@.len() - i,
    {
        encoded.push(FilePath::from_text(args[i].as_str()));
        i += 1;
    }
    assert(arg_row(encoded@) =~= encoded_row(text::texts(args@)));
    encoded
}

fn copied_env(env: &Vec<(String, String)>) -> (copy: Vec<(String, String)>)
    ensures
        copy@ == env@,
{
    let mut copy: Vec<(String, String)> = Vec::new();
    let mut i: usize = 0;
    while i < env.len()
        invariant
            i <= env@.len(),
            copy@ == env@.take(i as int),
        decreases env@.len() - i,
    {
        copy.push((env[i].0.clone(), env[i].1.clone()));
        i += 1;
    }
    assert(env@.take(i as int) =~= env@);
    copy
}

/// The request that is met by a program's output can be answered with it.
pub open spec fn answers_request(
    request: ProcessRequest,
    ran: Result<ProcessOutput, String>,
    reply: ProcessReply,
) -> bool {
    match request {
        ProcessRequest::Scan => {
            &&& reply matches ProcessReply::Scan(result)
            &&& match ran {
                Ok(output) => if output.success {
                    result matches Ok(shown) && shown@ == path::lossy_text(output.stdout@)
                } else {
                    result matches Err(words) && words@ == path::lossy_text(output.stderr@)
                },
                Err(error) => result == Err::<String, String>(error),
            }
        },
        ProcessRequest::SocketUsers(_) => {
            &&& reply matches ProcessReply::SocketUsers(result)
            &&& match ran {
                Ok(output) => result matches Ok(shown) && shown@ == if output.success {
                    path::lossy_text(output.stdout@)
                } else {
                    Seq::empty()
                },
                Err(error) => result == Err::<String, String>(error),
            }
        },
        ProcessRequest::Output { .. } => {
            &&& reply matches ProcessReply::Output(result)
            &&& match ran {
                Ok(output) => result matches Ok(shown) && shown.success == output.success
                    && shown.stdout@ == text::trimmed(path::lossy_text(output.stdout@))
                    && shown.stderr@ == text::trimmed(path::lossy_text(output.stderr@)),
                Err(error) => result == Err::<CommandOutput, String>(error),
            }
        },
        ProcessRequest::Spawn { .. } => {
            &&& reply matches ProcessReply::Spawn(result)
            &&& match ran {
                Ok(_) => result is Ok,
                Err(error) => result == Err::<(), String>(error),
            }
        },
        ProcessRequest::GracefulQuit => {
            &&& reply matches ProcessReply::GracefulQuit(result)
            &&& match ran {
                Ok(output) => if output.success {
                    result is Ok
                } else {
                    result matches Err(words) && words@ == path::lossy_text(output.stderr@)
                },
                Err(error) => result == Err::<(), String>(error),
            }
        },
        _ => true,
    }
}

impl RealProcessOps {
    /// The program that meets a request, where it takes one.
    pub fn child_command(&self, request: &ProcessRequest) -> (command: Option<ChildCommand>)
        ensures
            command_meets(*request, command),
    {
        match request {
            ProcessRequest::Exists(_) => None,
            ProcessRequest::Sleep(_) => None,
            ProcessRequest::Scan => {
                let args: Vec<String> = vec![
                    "eww".to_owned(),
                    "-axo".to_owned(),
                    "pid=,command=".to_owned(),
                ];
                assert(text::texts(args@) =~= seq!["eww"@, "-axo"@, "pid=,command="@]);
                Some(
                    ChildCommand {
                        program: FilePath::from_text("/bin/ps"),
                        args: encoded_args(&args),
                        env: Vec::new(),
                        detached: false,
                    },
                )
            },
            ProcessRequest::SocketUsers(socket) => {
                let args: Vec<FilePath> = vec![FilePath::from_text("-n"), socket.clone()];
                assert(arg_row(args@) =~= seq![encode_utf8("-n"@), socket@]);
                Some(
                    ChildCommand {
                        program: FilePath::from_text("/usr/sbin/lsof"),
                        args,
                        env: Vec::new(),
                        detached: false,
                    },
                )
            },
            ProcessRequest::Output { program, args } => Some(
                ChildCommand {
                    program: program.clone(),
                    args: encoded_args(args),
                    env: Vec::new(),
                    detached: false,
                },
            ),
            ProcessRequest::Spawn { program, args, env } => Some(
                ChildCommand {
                    program: program.clone(),
                    args: encoded_args(args),
                    env: copied_env(env),
                    detached: true,
                },
            ),
            ProcessRequest::GracefulQuit => {
                let args: Vec<String> = vec!["-e".to_owned(), QUIT_SCRIPT.to_owned()];
                assert(text::texts(args@) =~= seq!["-e"@, QUIT_SCRIPT@]);
                Some(
                    ChildCommand {
                        program: FilePath::from_text("/usr/bin/osascript"),
                        args: encoded_args(&args),
                        env: Vec::new(),
                        detached: false,
                    },
                )
            },
        }
    }

    /// The reply to a request, from what the program that meets it wrote, or why it could not be
    /// run. Of a program that is left running the output does not matter.
    pub fn reply(&self, request: &ProcessRequest, ran: Result<ProcessOutput, String>) -> (reply:
        ProcessReply)
        requires
            !(*request is Exists) && !(*request is Sleep),
        ensures
            answers_request(*request, ran, reply),
    {
        match request {
            ProcessRequest::Scan => ProcessReply::Scan(
                match ran {
                    Ok(output) => if output.success {
                        Ok(path::text_lossy(&output.stdout))
                    } else {
                        Err(path::text_lossy(&output.stderr))
                    },
                    Err(error) => Err(error),
                },
            ),
            ProcessRequest::SocketUsers(_) => ProcessReply::SocketUsers(
                match ran {
                    Ok(output) => if output.success {
                        Ok(path::text_lossy(&output.stdout))
                    } else {
                        let nobody = String::new();
                        assert(nobody@ =~= Seq::<char>::empty());
                        Ok(nobody)
                    },
                    Err(error) => Err(error),
                },
            ),
            ProcessRequest::Output { .. } => ProcessReply::Output(
                match ran {
                    Ok(output) => {
                        let stdout = path::text_lossy(&output.stdout);
                        let stderr = path::text_lossy(&output.stderr);
                        Ok(CommandOutput::of(output.success, stdout.as_str(), stderr.as_str()))
                    },
                    Err(error) => Err(error),
                },
            ),
            ProcessRequest::Spawn { .. } => ProcessReply::Spawn(
                match ran {
                    Ok(_) => Ok(()),
                    Err(error) => Err(error),
                },
            ),
            ProcessRequest::GracefulQuit => ProcessReply::GracefulQuit(
                match ran {
                    Ok(output) => if output.success {
                        Ok(())
                    } else {
                        Err(path::text_lossy(&output.stderr))
                    },
                    Err(error) => Err(error),
                },
            ),
            _ => vstd::pervasive::unreached(),
        }
    }
}

impl CommandOutput {
    /// The output of a command from what it wrote, without the white space around it.
    pub fn of(success: bool, stdout: &str, stderr: &str) -> (output: CommandOutput)
        ensures
            output.success == success,
            output.stdout@ == text::trimmed(stdout@),
            output.stderr@ == text::trimmed(stderr@),
    {
        CommandOutput { success, stdout: text::trim(stdout), stderr: text::trim(stderr) }
    }
}

/// The request to start the daemon.
pub open spec fn asks_daemon_start(request: ProcessRequest, config: SupervisorConfig) -> bool {
    request matches ProcessRequest::Spawn { program, args, env } && program@
        == config.standalone_codex@ && text::texts(args@) == seq![
        "app-server"@,
        "daemon"@,
        "start"@,
    ] && env@.len() == 0
}

/// The request for the daemon's version.
pub open spec fn asks_version(request: ProcessRequest, config: SupervisorConfig) -> bool {
    request matches ProcessRequest::Output { program, args } && program@ == config.standalone_codex@
        && text::texts(args@) == seq!["app-server"@, "daemon"@, "version"@]
}

/// The request for the users of the daemon's socket.
pub open spec fn asks_socket_users(request: ProcessRequest, config: SupervisorConfig) -> bool {
    request matches ProcessRequest::SocketUsers(socket) && socket@ == config.socket_path@
}

/// The bundle of the GUI.
pub open spec fn gui_bundle(config: SupervisorConfig) -> Seq<u8> {
    match path::enclosing_bundle(config.gui_executable@) {
        Some(bundle) => bundle,
        None => config.gui_executable@,
    }
}

/// The request to launch the GUI: the system's opener gets the bundle, and the variables of the
/// mode that uses the shared daemon, which it would not pass on from its own environment.
pub open spec fn asks_launch(request: ProcessRequest, config: SupervisorConfig) -> bool {
    request matches ProcessRequest::Spawn { program, args, env } && program@ == encode_utf8(
        "/usr/bin/open"@,
    ) && text::texts(args@) == seq![
        "--env"@,
        "CODEX_APP_SERVER_USE_LOCAL_DAEMON=1"@,
        "--env"@,
        "CODEX_APP_SERVER_FORCE_CLI=0"@,
        "-a"@,
        decode_utf8(gui_bundle(config)),
    ] && env@.len() == 0
}

fn daemon_start_request(config: &SupervisorConfig) -> (request: ProcessRequest)
    ensures
        asks_daemon_start(request, *config),
{
    let args: Vec<String> = vec!["app-server".to_owned(), "daemon".to_owned(), "start".to_owned()];
    assert(text::texts(args@) =~= seq!["app-server"@, "daemon"@, "start"@]);
    ProcessRequest::Spawn { program: config.standalone_codex.clone(), args, env: Vec::new() }
}

fn version_request(config: &SupervisorConfig) -> (request: ProcessRequest)
    ensures
        asks_version(request, *config),
{
    let args: Vec<String> = vec!["app-server".to_owned(), "daemon".to_owned(), "version".to_owned()];
    assert(text::texts(args@) =~= seq!["app-server"@, "daemon"@, "version"@]);
    ProcessRequest::Output { program: config.standalone_codex.clone(), args }
}

fn socket_request(config: &SupervisorConfig) -> (request: ProcessRequest)
    ensures
        asks_socket_users(request, *config),
{
    ProcessRequest::SocketUsers(config.socket_path.clone())
}

/// The request to launch the GUI, or the words for a user whose GUI path is not UTF-8.
pub fn launch_request(config: &SupervisorConfig) -> (request: Result<ProcessRequest, String>)
    ensures
        match request {
            Ok(request) => valid_utf8(gui_bundle(*config)) && asks_launch(request, *config),
            Err(words) => !valid_utf8(gui_bundle(*config)) && words@ == NOT_UTF8@,
        },
{
    let bundle = path::application_bundle(&config.gui_executable);
    match bundle.to_text() {
        Some(application) => {
            let args: Vec<String> = vec![
                "--env".to_owned(),
                "CODEX_APP_SERVER_USE_LOCAL_DAEMON=1".to_owned(),
                "--env".to_owned(),
                "CODEX_APP_SERVER_FORCE_CLI=0".to_owned(),
                "-a".to_owned(),
                application,
            ];
            assert(text::texts(args@) =~= seq![
                "--env"@,
                "CODEX_APP_SERVER_USE_LOCAL_DAEMON=1"@,
                "--env"@,
                "CODEX_APP_SERVER_FORCE_CLI=0"@,
                "-a"@,
                decode_utf8(gui_bundle(*config)),
            ]);
            Ok(
                ProcessRequest::Spawn {
                    program: FilePath::from_text("/usr/bin/open"),
                    args,
                    env: Vec::new(),
                },
            )
        },
        None => Err(NOT_UTF8.to_owned()),
    }
}

/// A reply of the kind that an initialization waits for.
pub open spec fn answers_startup(at: Startup, reply: ProcessReply) -> bool {
    match at {
        Startup::Standalone | Startup::Gui => reply is Exists,
        Startup::FirstScan | Startup::SecondScan { .. } => reply is Scan,
        Startup::QuitScan { .. } | Startup::AttachmentScan { .. } => reply is Scan,
        Startup::DaemonStart | Startup::Launch { .. } => reply is Spawn,
        Startup::Version { .. } => reply is Output,
        Startup::AttachedSocket { .. } | Startup::AttachmentSocket { .. } => reply is SocketUsers,
        Startup::Quit { .. } => reply is GracefulQuit,
        Startup::VersionPause { .. } | Startup::QuitPause { .. } => reply is Slept,
        Startup::AttachmentPause { .. } => reply is Slept,
        Startup::Finished => false,
    }
}

/// An initialization that ends with the daemon found and the GUI attached to it.
pub open spec fn startup_succeeds(found: Found, after: Startup, step: StartupStep) -> bool {
    &&& after is Finished
    &&& step matches StartupStep::Done(Ok(state))
    &&& state.daemon_ownership == found.ownership
    &&& state.daemon_version == found.version
    &&& state.gui_attached
    &&& state.daemon_left_running
}

/// An initialization that ends because the user has to do something.
pub open spec fn startup_needs_user(words: Seq<char>, after: Startup, step: StartupStep) -> bool {
    &&& after is Finished
    &&& step matches StartupStep::Done(Err(SupervisorError::UserActionRequired(said)))
    &&& said@ == words
}

/// An initialization that ends because the processes could not be listed.
pub open spec fn startup_cannot_inspect(words: String, after: Startup, step: StartupStep) -> bool {
    after is Finished && step == StartupStep::Done(Err(SupervisorError::Inspection(words)))
}

/// The daemon is asked for its version until the deadline; then `detail` says what was wrong.
pub open spec fn startup_wants_version(
    config: SupervisorConfig,
    ownership: DaemonOwnership,
    deadline: Nanos,
    now: Nanos,
    detail: Seq<char>,
    after: Startup,
    step: StartupStep,
) -> bool {
    if now < deadline {
        &&& after == Startup::Version { ownership, deadline }
        &&& step matches StartupStep::Ask(request)
        &&& asks_version(request, config)
    } else {
        &&& after is Finished
        &&& step matches StartupStep::Done(Err(SupervisorError::IncompatibleVersion(said)))
        &&& said@ == detail
    }
}

/// The GUI is launched.
pub open spec fn startup_launches(
    config: SupervisorConfig,
    found: Found,
    after: Startup,
    step: StartupStep,
) -> bool {
    if valid_utf8(gui_bundle(config)) {
        &&& after == Startup::Launch { found }
        &&& step matches StartupStep::Ask(request)
        &&& asks_launch(request, config)
    } else {
        startup_needs_user(NOT_UTF8@, after, step)
    }
}

/// The GUI is launched anew: where it runs, it is asked to quit first.
pub open spec fn startup_relaunches(
    config: SupervisorConfig,
    found: Found,
    processes: Seq<char>,
    after: Startup,
    step: StartupStep,
) -> bool {
    if gui_shown(processes, config.gui_executable@) {
        after == Startup::Quit { found } && step == StartupStep::Ask(ProcessRequest::GracefulQuit)
    } else {
        startup_launches(config, found, after, step)
    }
}

/// The GUI is given until the deadline to quit.
pub open spec fn startup_waits_for_quit(
    found: Found,
    deadline: Nanos,
    now: Nanos,
    after: Startup,
    step: StartupStep,
) -> bool {
    if now < deadline {
        after == Startup::QuitPause { found, deadline } && step == StartupStep::Ask(
            ProcessRequest::Sleep(PAUSE),
        )
    } else {
        startup_needs_user(IGNORED_QUIT@, after, step)
    }
}

/// The GUI is given until the deadline to attach.
pub open spec fn startup_waits_for_attachment(
    found: Found,
    deadline: Nanos,
    now: Nanos,
    after: Startup,
    step: StartupStep,
) -> bool {
    if now < deadline {
        after == Startup::AttachmentScan { found, deadline } && step == StartupStep::Ask(
            ProcessRequest::Scan,
        )
    } else {
        &&& after is Finished
        &&& step matches StartupStep::Done(Err(SupervisorError::AttachmentUnverified(said)))
        &&& said@ == NOT_ATTACHED_IN_TIME@
    }
}

/// A socket's user list that could be had and shows a client.
pub open spec fn attachment_confirmed(users: Result<String, String>) -> bool {
    users matches Ok(users) && connection_accepted(users@)
}

/// Why a command that did not give a version failed: what it wrote as an error, or else what it
/// printed.
pub open spec fn failure_detail(output: CommandOutput) -> String {
    if output.stderr@.len() == 0 {
        output.stdout
    } else {
        output.stderr
    }
}

/// How an initialization goes on from `before` when it gets `reply` at the time `now`.
pub open spec fn startup_follows(
    config: SupervisorConfig,
    before: Startup,
    reply: ProcessReply,
    now: Nanos,
    after: Startup,
    step: StartupStep,
) -> bool {
    match (before, reply) {
        (Startup::Standalone, ProcessReply::Exists(exists)) => if exists {
            &&& after is Gui
            &&& step matches StartupStep::Ask(ProcessRequest::Exists(asked))
            &&& asked@ == config.gui_executable@
        } else {
            &&& after is Finished
            &&& step matches StartupStep::Done(Err(SupervisorError::MissingStandalone { path }))
            &&& path@ == config.standalone_codex@
        },
        (Startup::Gui, ProcessReply::Exists(exists)) => if exists {
            after is FirstScan && step == StartupStep::Ask(ProcessRequest::Scan)
        } else {
            &&& after is Finished
            &&& step matches StartupStep::Done(Err(SupervisorError::MissingGui { path }))
            &&& path@ == config.gui_executable@
        },
        (Startup::FirstScan, ProcessReply::Scan(Ok(processes))) => if daemon_shown(
            processes@,
            config.standalone_codex@,
        ) {
            startup_wants_version(
                config,
                DaemonOwnership::Attached,
                (now + config.startup_timeout) as Nanos,
                now,
                Seq::empty(),
                after,
                step,
            )
        } else {
            &&& after is DaemonStart
            &&& step matches StartupStep::Ask(request)
            &&& asks_daemon_start(request, config)
        },
        (Startup::DaemonStart, ProcessReply::Spawn(Ok(_))) => startup_wants_version(
            config,
            DaemonOwnership::Started,
            (now + config.startup_timeout) as Nanos,
            now,
            Seq::empty(),
            after,
            step,
        ),
        (Startup::DaemonStart, ProcessReply::Spawn(Err(words))) => after is Finished && step
            == StartupStep::Done(Err(SupervisorError::DaemonCommand(words))),
        (Startup::Version { ownership, deadline }, ProcessReply::Output(Ok(output))) => if
        output.success && output.stdout@.len() > 0 {
            after == Startup::SecondScan { found: Found { ownership, version: output.stdout } }
                && step == StartupStep::Ask(ProcessRequest::Scan)
        } else {
            after == Startup::VersionPause { ownership, deadline, detail: failure_detail(output) }
                && step == StartupStep::Ask(ProcessRequest::Sleep(PAUSE))
        },
        (Startup::Version { ownership, deadline }, ProcessReply::Output(Err(words))) => after
            == Startup::VersionPause { ownership, deadline, detail: words } && step
            == StartupStep::Ask(ProcessRequest::Sleep(PAUSE)),
        (Startup::VersionPause { ownership, deadline, detail }, ProcessReply::Slept) =>
        startup_wants_version(config, ownership, deadline, now, detail@, after, step),
        (Startup::SecondScan { found }, ProcessReply::Scan(Ok(processes))) => if
        !config.restart_gui_on_initialize && daemon_mode_shown(
            processes@,
            config.gui_executable@,
        ) {
            &&& after == Startup::AttachedSocket { found, processes }
            &&& step matches StartupStep::Ask(request)
            &&& asks_socket_users(request, config)
        } else {
            startup_relaunches(config, found, processes@, after, step)
        },
        (Startup::AttachedSocket { found, processes }, ProcessReply::SocketUsers(users)) => if
        attachment_confirmed(users) {
            startup_succeeds(found, after, step)
        } else {
            startup_relaunches(config, found, processes@, after, step)
        },
        (Startup::Quit { found }, ProcessReply::GracefulQuit(Ok(_))) => startup_waits_for_quit(
            found,
            (now + config.graceful_quit_timeout) as Nanos,
            now,
            after,
            step,
        ),
        (Startup::Quit { .. }, ProcessReply::GracefulQuit(Err(words))) => startup_needs_user(
            words@,
            after,
            step,
        ),
        (Startup::QuitPause { found, deadline }, ProcessReply::Slept) => after
            == Startup::QuitScan { found, deadline } && step == StartupStep::Ask(
            ProcessRequest::Scan,
        ),
        (Startup::QuitScan { found, deadline }, ProcessReply::Scan(Ok(processes))) => if gui_shown(
            processes@,
            config.gui_executable@,
        ) {
            startup_waits_for_quit(found, deadline, now, after, step)
        } else {
            startup_launches(config, found, after, step)
        },
        (Startup::Launch { found }, ProcessReply::Spawn(Ok(_))) => startup_waits_for_attachment(
            found,
            (now + config.startup_timeout) as Nanos,
            now,
            after,
            step,
        ),
        (Startup::Launch { .. }, ProcessReply::Spawn(Err(words))) => startup_needs_user(
            words@,
            after,
            step,
        ),
        (Startup::AttachmentScan { found, deadline }, ProcessReply::Scan(Ok(processes))) => if
        daemon_mode_shown(processes@, config.gui_executable@) {
            &&& after == Startup::AttachmentSocket { found, deadline, processes }
            &&& step matches StartupStep::Ask(request)
            &&& asks_socket_users(request, config)
        } else {
            after == Startup::AttachmentPause { found, deadline } && step == StartupStep::Ask(
                ProcessRequest::Sleep(PAUSE),
            )
        },
        (
            Startup::AttachmentSocket { found, deadline, .. },
            ProcessReply::SocketUsers(users),
        ) => if attachment_confirmed(users) {
            startup_succeeds(found, after, step)
        } else {
            after == Startup::AttachmentPause { found, deadline } && step == StartupStep::Ask(
                ProcessRequest::Sleep(PAUSE),
            )
        },
        (Startup::AttachmentPause { found, deadline }, ProcessReply::Slept) =>
        startup_waits_for_attachment(found, deadline, now, after, step),
        (_, ProcessReply::Scan(Err(words))) => startup_cannot_inspect(words, after, step),
        _ => false,
    }
}

fn user_needed(words: String) -> (next: (Startup, StartupStep))
    ensures
        startup_needs_user(words@, next.0, next.1),
{
    (Startup::Finished, StartupStep::Done(Err(SupervisorError::UserActionRequired(words))))
}

fn cannot_inspect(words: String) -> (next: (Startup, StartupStep))
    ensures
        startup_cannot_inspect(words, next.0, next.1),
{
    (Startup::Finished, StartupStep::Done(Err(SupervisorError::Inspection(words))))
}

fn success(found: Found) -> (next: (Startup, StartupStep))
    ensures
        startup_succeeds(found, next.0, next.1),
{
    (
        Startup::Finished,
        StartupStep::Done(
            Ok(
                SupervisionState {
                    daemon_ownership: found.ownership,
                    daemon_version: found.version,
                    gui_attached: true,
                    daemon_left_running: true,
                },
            ),
        ),
    )
}

fn want_version(
    config: &SupervisorConfig,
    ownership: DaemonOwnership,
    deadline: Nanos,
    now: Nanos,
    detail: String,
) -> (next: (Startup, StartupStep))
    ensures
        startup_wants_version(*config, ownership, deadline, now, detail@, next.0, next.1),
{
    if now < deadline {
        (Startup::Version { ownership, deadline }, StartupStep::Ask(version_request(config)))
    } else {
        (Startup::Finished, StartupStep::Done(Err(SupervisorError::IncompatibleVersion(detail))))
    }
}

fn launch(config: &SupervisorConfig, found: Found) -> (next: (Startup, StartupStep))
    ensures
        startup_launches(*config, found, next.0, next.1),
{
    match launch_request(config) {
        Ok(request) => (Startup::Launch { found }, StartupStep::Ask(request)),
        Err(words) => user_needed(words),
    }
}

fn relaunch(config: &SupervisorConfig, found: Found, processes: &str) -> (next: (
    Startup,
    StartupStep,
))
    ensures
        startup_relaunches(*config, found, processes@, next.0, next.1),
{
    if gui_running(processes, &config.gui_executable) {
        (Startup::Quit { found }, StartupStep::Ask(ProcessRequest::GracefulQuit))
    } else {
        launch(config, found)
    }
}

fn wait_for_quit(found: Found, deadline: Nanos, now: Nanos) -> (next: (Startup, StartupStep))
    ensures
        startup_waits_for_quit(found, deadline, now, next.0, next.1),
{
    if now < deadline {
        (Startup::QuitPause { found, deadline }, StartupStep::Ask(ProcessRequest::Sleep(PAUSE)))
    } else {
        user_needed(IGNORED_QUIT.to_owned())
    }
}

fn wait_for_attachment(found: Found, deadline: Nanos, now: Nanos) -> (next: (Startup, StartupStep))
    ensures
        startup_waits_for_attachment(found, deadline, now, next.0, next.1),
{
    if now < deadline {
        (Startup::AttachmentScan { found, deadline }, StartupStep::Ask(ProcessRequest::Scan))
    } else {
        (
            Startup::Finished,
            StartupStep::Done(
                Err(SupervisorError::AttachmentUnverified(NOT_ATTACHED_IN_TIME.to_owned())),
            ),
        )
    }
}

fn confirm_attachment(users: &Result<String, String>) -> (yes: bool)
    ensures
        yes == attachment_confirmed(*users),
{
    match users {
        Ok(users) => Supervisor::has_accepted_socket_connection(users.as_str()),
        Err(_) => false,
    }
}

impl<P> Supervisor<P> {
    /// A supervisor whose requests `ops` carries out.
    pub fn with_ops(config: SupervisorConfig, ops: P) -> (supervisor: Self)
        ensures
            supervisor.config == config,
            supervisor.ops == ops,
    {
        Supervisor { config, ops }
    }

    /// The start of monitoring: first, time passes.
    pub fn monitor(&self) -> (begun: (Watch, WatchStep))
        ensures
            begun == (Watch::Waiting, WatchStep::Wait(self.config.monitor_interval)),
    {
        (Watch::Waiting, WatchStep::Wait(self.config.monitor_interval))
    }

    /// Goes on with monitoring. It ends exactly when a shutdown has been asked for, or can no
    /// longer be; any other news of a shutdown starts the wait for the next look anew.
    pub fn monitor_after(&self, at: Watch, event: WatchEvent) -> (next: (Watch, WatchStep))
        requires
            watch_expects(at, event),
        ensures
            next == watch_follows(self.config, event),
    {
        let interval = self.config.monitor_interval;
        match event {
            WatchEvent::Shutdown { open, stop } => if !open || stop {
                (Watch::Ended, WatchStep::Stop)
            } else {
                (Watch::Waiting, WatchStep::Wait(interval))
            },
            WatchEvent::Slept => (Watch::Checking, WatchStep::Check),
            WatchEvent::Checked(seen) => (Watch::Waiting, WatchStep::Publish(seen, interval)),
        }
    }

    /// The start of an initialization: first, the standalone program has to exist.
    pub fn initialize(&self) -> (next: (Startup, StartupStep))
        ensures
            next.0 is Standalone,
            next.1 matches StartupStep::Ask(ProcessRequest::Exists(asked)) && asked@
                == self.config.standalone_codex@,
    {
        (
            Startup::Standalone,
            StartupStep::Ask(ProcessRequest::Exists(self.config.standalone_codex.clone())),
        )
    }

    /// Goes on with an initialization that stands at `at` and gets `reply` at the time `now`.
    pub fn initialize_after(&self, at: Startup, reply: ProcessReply, now: Nanos) -> (next: (
        Startup,
        StartupStep,
    ))
        requires
            self.config.valid(),
            now <= LONGEST,
            answers_startup(at, reply),
        ensures
            startup_follows(self.config, at, reply, now, next.0, next.1),
    {
        let config = &self.config;
        match (at, reply) {
            (Startup::Standalone, ProcessReply::Exists(exists)) => if exists {
                (
                    Startup::Gui,
                    StartupStep::Ask(ProcessRequest::Exists(config.gui_executable.clone())),
                )
            } else {
                let path = config.standalone_codex.clone();
                (
                    Startup::Finished,
                    StartupStep::Done(Err(SupervisorError::MissingStandalone { path })),
                )
            },
            (Startup::Gui, ProcessReply::Exists(exists)) => if exists {
                (Startup::FirstScan, StartupStep::Ask(ProcessRequest::Scan))
            } else {
                let path = config.gui_executable.clone();
                (Startup::Finished, StartupStep::Done(Err(SupervisorError::MissingGui { path })))
            },
            (Startup::FirstScan, ProcessReply::Scan(Ok(processes))) => if has_managed_daemon(
                processes.as_str(),
                &config.standalone_codex,
            ) {
                let deadline = now + config.startup_timeout;
                want_version(config, DaemonOwnership::Attached, deadline, now, String::new())
            } else {
                (Startup::DaemonStart, StartupStep::Ask(daemon_start_request(config)))
            },
            (Startup::DaemonStart, ProcessReply::Spawn(Ok(_))) => {
                let deadline = now + config.startup_timeout;
                want_version(config, DaemonOwnership::Started, deadline, now, String::new())
            },
            (Startup::DaemonStart, ProcessReply::Spawn(Err(words))) => (
                Startup::Finished,
                StartupStep::Done(Err(SupervisorError::DaemonCommand(words))),
            ),
            (Startup::Version { ownership, deadline }, ProcessReply::Output(Ok(output))) => {
                if output.success && !output.stdout.as_str().is_empty() {
                    let found = Found { ownership, version: output.stdout };
                    (Startup::SecondScan { found }, StartupStep::Ask(ProcessRequest::Scan))
                } else {
                    let detail = if output.stderr.as_str().is_empty() {
                        output.stdout
                    } else {
                        output.stderr
                    };
                    (
                        Startup::VersionPause { ownership, deadline, detail },
                        StartupStep::Ask(ProcessRequest::Sleep(PAUSE)),
                    )
                }
            },
            (Startup::Version { ownership, deadline }, ProcessReply::Output(Err(detail))) => (
                Startup::VersionPause { ownership, deadline, detail },
                StartupStep::Ask(ProcessRequest::Sleep(PAUSE)),
            ),
            (Startup::VersionPause { ownership, deadline, detail }, ProcessReply::Slept) =>
            want_version(config, ownership, deadline, now, detail),
            (Startup::SecondScan { found }, ProcessReply::Scan(Ok(processes))) => if
            !config.restart_gui_on_initialize && gui_mode_enabled(
                processes.as_str(),
                &config.gui_executable,
            ) {
                (
                    Startup::AttachedSocket { found, processes },
                    StartupStep::Ask(socket_request(config)),
                )
            } else {
                relaunch(config, found, processes.as_str())
            },
            (Startup::AttachedSocket { found, processes }, ProcessReply::SocketUsers(users)) => if
            confirm_attachment(&users) {
                success(found)
            } else {
                relaunch(config, found, processes.as_str())
            },
            (Startup::Quit { found }, ProcessReply::GracefulQuit(Ok(_))) => wait_for_quit(
                found,
                now + config.graceful_quit_timeout,
                now,
            ),
            (Startup::Quit { .. }, ProcessReply::GracefulQuit(Err(words))) => user_needed(words),
            (Startup::QuitPause { found, deadline }, ProcessReply::Slept) => (
                Startup::QuitScan { found, deadline },
                StartupStep::Ask(ProcessRequest::Scan),
            ),
            (Startup::QuitScan { found, deadline }, ProcessReply::Scan(Ok(processes))) => if
            gui_running(processes.as_str(), &config.gui_executable) {
                wait_for_quit(found, deadline, now)
            } else {
                launch(config, found)
            },
            (Startup::Launch { found }, ProcessReply::Spawn(Ok(_))) => wait_for_attachment(
                found,
                now + config.startup_timeout,
                now,
            ),
            (Startup::Launch { .. }, ProcessReply::Spawn(Err(words))) => user_needed(words),
            (Startup::AttachmentScan { found, deadline }, ProcessReply::Scan(Ok(processes))) => if
            gui_mode_enabled(processes.as_str(), &config.gui_executable) {
                (
                    Startup::AttachmentSocket { found, deadline, processes },
                    StartupStep::Ask(socket_request(config)),
                )
            } else {
                (
                    Startup::AttachmentPause { found, deadline },
                    StartupStep::Ask(ProcessRequest::Sleep(PAUSE)),
                )
            },
            (
                Startup::AttachmentSocket { found, deadline, .. },
                ProcessReply::SocketUsers(users),
            ) => if confirm_attachment(&users) {
                success(found)
            } else {
                (
                    Startup::AttachmentPause { found, deadline },
                    StartupStep::Ask(ProcessRequest::Sleep(PAUSE)),
                )
            },
            (Startup::AttachmentPause { found, deadline }, ProcessReply::Slept) =>
            wait_for_attachment(found, deadline, now),
            (_, ProcessReply::Scan(Err(words))) => cannot_inspect(words),
            _ => vstd::pervasive::unreached(),
        }
    }
}

/// A reply of the kind that a look at the daemon and the GUI waits for.
pub open spec fn answers_check(at: Check, reply: ProcessReply) -> bool {
    match at {
        Check::Scan => reply is Scan,
        Check::DaemonStart | Check::Launch => reply is Spawn,
        Check::Version { .. } => reply is Output,
        Check::Socket { .. } => reply is SocketUsers,
        Check::Finished => false,
    }
}

/// A look that ends because the user has to do something.
pub open spec fn check_needs_user(words: Seq<char>, after: Check, step: CheckStep) -> bool {
    &&& after is Finished
    &&& step matches CheckStep::Done(MonitorEvent::UserActionRequired(said))
    &&& said@ == words
}

/// A look that finds the GUI not attached: where it does not run it is launched, and where it
/// runs the user has to act.
pub open spec fn check_finds_detached(
    config: SupervisorConfig,
    processes: Seq<char>,
    after: Check,
    step: CheckStep,
) -> bool {
    if gui_shown(processes, config.gui_executable@) {
        check_needs_user(NOT_ATTACHED@, after, step)
    } else if valid_utf8(gui_bundle(config)) {
        &&& after is Launch
        &&& step matches CheckStep::Ask(request)
        &&& asks_launch(request, config)
    } else {
        check_needs_user(NOT_UTF8@, after, step)
    }
}

/// How a look at the daemon and the GUI goes on from `before` when it gets `reply`.
pub open spec fn check_follows(
    config: SupervisorConfig,
    before: Check,
    reply: ProcessReply,
    after: Check,
    step: CheckStep,
) -> bool {
    match (before, reply) {
        (Check::Scan, ProcessReply::Scan(Err(_))) => check_needs_user(CANNOT_INSPECT@, after, step),
        (Check::Scan, ProcessReply::Scan(Ok(processes))) => if daemon_shown(
            processes@,
            config.standalone_codex@,
        ) {
            &&& after == Check::Version { processes }
            &&& step matches CheckStep::Ask(request)
            &&& asks_version(request, config)
        } else {
            &&& after is DaemonStart
            &&& step matches CheckStep::Ask(request)
            &&& asks_daemon_start(request, config)
        },
        (Check::DaemonStart, ProcessReply::Spawn(Ok(_))) => after is Finished && step
            == CheckStep::Done(MonitorEvent::DaemonRestarted),
        (Check::DaemonStart, ProcessReply::Spawn(Err(words))) => check_needs_user(
            words@,
            after,
            step,
        ),
        (Check::Version { processes }, ProcessReply::Output(Ok(output))) => if !output.success {
            after is Finished && step == CheckStep::Done(MonitorEvent::Incompatible(output.stderr))
        } else if daemon_mode_shown(processes@, config.gui_executable@) {
            &&& after == Check::Socket { processes }
            &&& step matches CheckStep::Ask(request)
            &&& asks_socket_users(request, config)
        } else {
            check_finds_detached(config, processes@, after, step)
        },
        (Check::Version { .. }, ProcessReply::Output(Err(words))) => after is Finished && step
            == CheckStep::Done(MonitorEvent::Incompatible(words)),
        (Check::Socket { processes }, ProcessReply::SocketUsers(users)) => if attachment_confirmed(
            users,
        ) {
            after is Finished && step == CheckStep::Done(MonitorEvent::Healthy)
        } else {
            check_finds_detached(config, processes@, after, step)
        },
        (Check::Launch, ProcessReply::Spawn(Ok(_))) => after is Finished && step == CheckStep::Done(
            MonitorEvent::GuiRestarted,
        ),
        (Check::Launch, ProcessReply::Spawn(Err(words))) => check_needs_user(words@, after, step),
        _ => false,
    }
}

fn user_needed_in_check(words: String) -> (next: (Check, CheckStep))
    ensures
        check_needs_user(words@, next.0, next.1),
{
    (Check::Finished, CheckStep::Done(MonitorEvent::UserActionRequired(words)))
}

fn detached(config: &SupervisorConfig, processes: &str) -> (next: (Check, CheckStep))
    ensures
        check_finds_detached(*config, processes@, next.0, next.1),
{
    if gui_running(processes, &config.gui_executable) {
        return user_needed_in_check(NOT_ATTACHED.to_owned());
    }
    match launch_request(config) {
        Ok(request) => (Check::Launch, CheckStep::Ask(request)),
        Err(words) => user_needed_in_check(words),
    }
}

impl<P> Supervisor<P> {
    /// The start of a look at the daemon and the GUI.
    pub fn check(&self) -> (next: (Check, CheckStep))
        ensures
            next.0 is Scan,
            next.1 == CheckStep::Ask(ProcessRequest::Scan),
    {
        (Check::Scan, CheckStep::Ask(ProcessRequest::Scan))
    }

    /// Goes on with a look that stands at `at` and gets `reply`.
    pub fn check_after(&self, at: Check, reply: ProcessReply) -> (next: (Check, CheckStep))
        requires
            answers_check(at, reply),
        ensures
            check_follows(self.config, at, reply, next.0, next.1),
    {
        let config = &self.config;
        match (at, reply) {
            (Check::Scan, ProcessReply::Scan(Err(_))) => user_needed_in_check(
                CANNOT_INSPECT.to_owned(),
            ),
            (Check::Scan, ProcessReply::Scan(Ok(processes))) => if has_managed_daemon(
                processes.as_str(),
                &config.standalone_codex,
            ) {
                (Check::Version { processes }, CheckStep::Ask(version_request(config)))
            } else {
                (Check::DaemonStart, CheckStep::Ask(daemon_start_request(config)))
            },
            (Check::DaemonStart, ProcessReply::Spawn(Ok(_))) => (
                Check::Finished,
                CheckStep::Done(MonitorEvent::DaemonRestarted),
            ),
            (Check::DaemonStart, ProcessReply::Spawn(Err(words))) => user_needed_in_check(words),
            (Check::Version { processes }, ProcessReply::Output(Ok(output))) => {
                if !output.success {
                    (Check::Finished, CheckStep::Done(MonitorEvent::Incompatible(output.stderr)))
                } else if gui_mode_enabled(processes.as_str(), &config.gui_executable) {
                    (Check::Socket { processes }, CheckStep::Ask(socket_request(config)))
                } else {
                    detached(config, processes.as_str())
                }
            },
            (Check::Version { .. }, ProcessReply::Output(Err(words))) => (
                Check::Finished,
                CheckStep::Done(MonitorEvent::Incompatible(words)),
            ),
            (Check::Socket { processes }, ProcessReply::SocketUsers(users)) => if confirm_attachment(
                &users,
            ) {
                (Check::Finished, CheckStep::Done(MonitorEvent::Healthy))
            } else {
                detached(config, processes.as_str())
            },
            (Check::Launch, ProcessReply::Spawn(Ok(_))) => (
                Check::Finished,
                CheckStep::Done(MonitorEvent::GuiRestarted),
            ),
            (Check::Launch, ProcessReply::Spawn(Err(words))) => user_needed_in_check(words),
            _ => vstd::pervasive::unreached(),
        }
    }

    /// The state that is left at shutdown: a daemon that was started or attached to is not
    /// stopped.
    pub fn shutdown_state(&self, state: SupervisionState) -> (left: SupervisionState)
        ensures
            left == (SupervisionState { daemon_left_running: true, ..state }),
    {
        let mut left = state;
        left.daemon_left_running = true;
        left
    }
}

impl SupervisorError {
    /// The words of the error.
    pub open spec fn words(&self) -> Seq<char> {
        match self {
            SupervisorError::MissingStandalone { path } => "standalone Codex is missing at "@
                + path::lossy_text(path@)
                + "; install it with the official standalone installer"@,
            SupervisorError::MissingGui { path } => "ChatGPT executable is missing at "@
                + path::lossy_text(path@),
            SupervisorError::DaemonCommand(detail) => "daemon command failed: "@ + detail@,
            SupervisorError::IncompatibleVersion(detail) =>
            "daemon version is incompatible or unavailable: "@ + detail@,
            SupervisorError::AttachmentUnverified(detail) =>
            "ChatGPT did not attach to the shared daemon; check the installed GUI/Codex compatibility: "@
                + detail@,
            SupervisorError::UserActionRequired(detail) => "user action required: "@ + detail@,
            SupervisorError::Inspection(detail) => "process inspection failed: "@ + detail@,
        }
    }

    /// The words of the error.
    pub fn message(&self) -> (message: String)
        ensures
            message@ == self.words(),
    {
        match self {
            SupervisorError::MissingStandalone { path } => text::joined(
                text::joined("standalone Codex is missing at ", path.to_text_lossy().as_str()).as_str(),
                "; install it with the official standalone installer",
            ),
            SupervisorError::MissingGui { path } => text::joined(
                "ChatGPT executable is missing at ",
                path.to_text_lossy().as_str(),
            ),
            SupervisorError::DaemonCommand(detail) => text::joined(
                "daemon command failed: ",
                detail.as_str(),
            ),
            SupervisorError::IncompatibleVersion(detail) => text::joined(
                "daemon version is incompatible or unavailable: ",
                detail.as_str(),
            ),
            SupervisorError::AttachmentUnverified(detail) => text::joined(
                "ChatGPT did not attach to the shared daemon; check the installed GUI/Codex compatibility: ",
                detail.as_str(),
            ),
            SupervisorError::UserActionRequired(detail) => text::joined(
                "user action required: ",
                detail.as_str(),
            ),
            SupervisorError::Inspection(detail) => text::joined(
                "process inspection failed: ",
                detail.as_str(),
            ),
        }
    }
}

/// What an initialization knows at the point where it stands: it looks at the socket only after
/// the scan that it remembers showed the GUI in the mode that uses the daemon, and it has a
/// version only where the daemon gave one.
pub open spec fn startup_sound(config: SupervisorConfig, at: Startup) -> bool {
    match at {
        Startup::SecondScan { found } | Startup::Quit { found } | Startup::Launch { found } =>
        found.version@.len() > 0,
        Startup::QuitPause { found, .. } | Startup::QuitScan { found, .. } => found.version@.len()
            > 0,
        Startup::AttachmentScan { found, .. } | Startup::AttachmentPause { found, .. } =>
        found.version@.len() > 0,
        Startup::AttachedSocket { found, processes } => found.version@.len() > 0
            && !config.restart_gui_on_initialize && daemon_mode_shown(
            processes@,
            config.gui_executable@,
        ),
        Startup::AttachmentSocket { found, processes, .. } => found.version@.len() > 0
            && daemon_mode_shown(processes@, config.gui_executable@),
        _ => true,
    }
}

/// Every step of an initialization keeps what it knows.
pub proof fn law_startup_stays_sound(
    config: SupervisorConfig,
    before: Startup,
    reply: ProcessReply,
    now: Nanos,
    after: Startup,
    step: StartupStep,
)
    requires
        startup_sound(config, before),
        answers_startup(before, reply),
        startup_follows(config, before, reply, now, after, step),
    ensures
        startup_sound(config, after),
{
}

/// An initialization succeeds only on evidence: the daemon gave its version, the last scan showed
/// the GUI in the mode that uses the daemon, and the reply just seen shows a client on the
/// daemon's socket. The state then says that the GUI is attached and the daemon is left running.
pub proof fn law_success_is_verified(
    config: SupervisorConfig,
    before: Startup,
    reply: ProcessReply,
    now: Nanos,
    after: Startup,
    state: SupervisionState,
)
    requires
        startup_sound(config, before),
        answers_startup(before, reply),
        startup_follows(config, before, reply, now, after, StartupStep::Done(Ok(state))),
    ensures
        reply matches ProcessReply::SocketUsers(Ok(users)) && connection_accepted(users@),
        match before {
            Startup::AttachedSocket { processes, .. } => daemon_mode_shown(
                processes@,
                config.gui_executable@,
            ),
            Startup::AttachmentSocket { processes, .. } => daemon_mode_shown(
                processes@,
                config.gui_executable@,
            ),
            _ => false,
        },
        state.daemon_version@.len() > 0,
        state.gui_attached,
        state.daemon_left_running,
{
}

/// The GUI is never launched beside one that runs: the scan that was last seen does not show it.
pub proof fn law_launch_only_without_gui(
    config: SupervisorConfig,
    before: Startup,
    reply: ProcessReply,
    now: Nanos,
    found: Found,
    step: StartupStep,
)
    requires
        answers_startup(before, reply),
        startup_follows(config, before, reply, now, Startup::Launch { found }, step),
    ensures
        match reply {
            ProcessReply::Scan(Ok(processes)) => !gui_shown(processes@, config.gui_executable@),
            _ => before matches Startup::AttachedSocket { processes, .. } && !gui_shown(
                processes@,
                config.gui_executable@,
            ),
        },
{
}

/// A GUI that goes on running past the deadline is left alone: the initialization ends with a
/// request to the user, and nothing is started or stopped.
pub proof fn law_stubborn_gui_is_left_alone(
    config: SupervisorConfig,
    found: Found,
    deadline: Nanos,
    processes: String,
    now: Nanos,
    after: Startup,
    step: StartupStep,
)
    requires
        gui_shown(processes@, config.gui_executable@),
        now >= deadline,
        startup_follows(
            config,
            Startup::QuitScan { found, deadline },
            ProcessReply::Scan(Ok(processes)),
            now,
            after,
            step,
        ),
    ensures
        step matches StartupStep::Done(Err(SupervisorError::UserActionRequired(words))) && words@
            == IGNORED_QUIT@,
{
}

/// The wait for the daemon's version, for the GUI to quit and for the GUI to attach never looks
/// again once its deadline has passed.
pub proof fn law_waits_end_at_the_deadline(
    config: SupervisorConfig,
    before: Startup,
    reply: ProcessReply,
    now: Nanos,
    after: Startup,
    step: StartupStep,
)
    requires
        answers_startup(before, reply),
        startup_follows(config, before, reply, now, after, step),
    ensures
        match before {
            Startup::VersionPause { deadline, .. } => now >= deadline ==> step matches
                StartupStep::Done(Err(SupervisorError::IncompatibleVersion(_))),
            Startup::QuitScan { deadline, .. } => now >= deadline ==> !(after is QuitPause),
            Startup::AttachmentPause { deadline, .. } => now >= deadline ==> step matches
                StartupStep::Done(Err(SupervisorError::AttachmentUnverified(_))),
            _ => true,
        },
{
}

/// What a look at the daemon and the GUI knows at the point where it stands: it asks for the
/// version only after the scan that it remembers showed the daemon, and it looks at the socket only
/// where that scan also showed the GUI in the mode that uses the daemon.
pub open spec fn check_sound(config: SupervisorConfig, at: Check) -> bool {
    match at {
        Check::Version { processes } => daemon_shown(processes@, config.standalone_codex@),
        Check::Socket { processes } => daemon_shown(processes@, config.standalone_codex@)
            && daemon_mode_shown(processes@, config.gui_executable@),
        _ => true,
    }
}

/// Every step of a look keeps what it knows.
pub proof fn law_check_stays_sound(
    config: SupervisorConfig,
    before: Check,
    reply: ProcessReply,
    after: Check,
    step: CheckStep,
)
    requires
        check_sound(config, before),
        answers_check(before, reply),
        check_follows(config, before, reply, after, step),
    ensures
        check_sound(config, after),
{
}

/// A look reports health only on evidence: the scan that it remembers shows the daemon, and the
/// GUI in the mode that uses it, and the reply just seen shows a client on the daemon's socket.
pub proof fn law_health_is_verified(
    config: SupervisorConfig,
    before: Check,
    reply: ProcessReply,
    after: Check,
)
    requires
        check_sound(config, before),
        answers_check(before, reply),
        check_follows(config, before, reply, after, CheckStep::Done(MonitorEvent::Healthy)),
    ensures
        before matches Check::Socket { processes } && daemon_shown(
            processes@,
            config.standalone_codex@,
        ) && daemon_mode_shown(processes@, config.gui_executable@),
        reply matches ProcessReply::SocketUsers(Ok(users)) && connection_accepted(users@),
{
}

/// An event that can happen to monitoring.
pub open spec fn watch_expects(at: Watch, event: WatchEvent) -> bool {
    match at {
        Watch::Waiting => event is Shutdown || event is Slept,
        Watch::Checking => event is Shutdown || event is Checked,
        Watch::Ended => false,
    }
}

/// Where an event leads monitoring, and what is done about it.
pub open spec fn watch_follows(config: SupervisorConfig, event: WatchEvent) -> (Watch, WatchStep) {
    match event {
        WatchEvent::Shutdown { open, stop } => if !open || stop {
            (Watch::Ended, WatchStep::Stop)
        } else {
            (Watch::Waiting, WatchStep::Wait(config.monitor_interval))
        },
        WatchEvent::Slept => (Watch::Checking, WatchStep::Check),
        WatchEvent::Checked(seen) => (
            Watch::Waiting,
            WatchStep::Publish(seen, config.monitor_interval),
        ),
    }
}

/// What a row of events makes monitoring publish, in order.
pub open spec fn published(config: SupervisorConfig, events: Seq<WatchEvent>) -> Seq<MonitorEvent>
    decreases events.len(),
{
    if events.len() == 0 {
        Seq::empty()
    } else {
        let before = published(config, events.drop_last());
        match watch_follows(config, events.last()).1 {
            WatchStep::Publish(seen, _) => before.push(seen),
            _ => before,
        }
    }
}

/// What the looks in a row of events came to, in order.
pub open spec fn seen_in(events: Seq<WatchEvent>) -> Seq<MonitorEvent>
    decreases events.len(),
{
    if events.len() == 0 {
        Seq::empty()
    } else {
        match events.last() {
            WatchEvent::Checked(seen) => seen_in(events.drop_last()).push(seen),
            _ => seen_in(events.drop_last()),
        }
    }
}

/// Monitoring publishes what each look came to, once and in order, and nothing else.
pub proof fn law_every_look_is_published_once(config: SupervisorConfig, events: Seq<WatchEvent>)
    ensures
        published(config, events) == seen_in(events),
    decreases events.len(),
{
    if events.len() > 0 {
        law_every_look_is_published_once(config, events.drop_last());
    }
}

/// Monitoring ends exactly when a shutdown has been asked for or can no longer be, and between two
/// looks there is always a whole wait.
pub proof fn law_monitoring_ends_with_a_shutdown(
    config: SupervisorConfig,
    at: Watch,
    event: WatchEvent,
)
    requires
        watch_expects(at, event),
    ensures
        watch_follows(config, event).1 is Stop <==> (event matches WatchEvent::Shutdown {
            open,
            stop,
        } && (!open || stop)),
        watch_follows(config, event).0 is Ended <==> watch_follows(config, event).1 is Stop,
        watch_follows(config, event).1 is Check ==> at is Waiting && event is Slept,
        match watch_follows(config, event).1 {
            WatchStep::Wait(span) => span == config.monitor_interval,
            WatchStep::Publish(_, span) => span == config.monitor_interval,
            _ => true,
        },
{
}

/// How far an initialization is from its end.
pub open spec fn startup_rank(at: Startup) -> nat {
    match at {
        Startup::Standalone => 11,
        Startup::Gui => 10,
        Startup::FirstScan => 9,
        Startup::DaemonStart => 8,
        Startup::Version { .. } | Startup::VersionPause { .. } => 7,
        Startup::SecondScan { .. } => 6,
        Startup::AttachedSocket { .. } => 5,
        Startup::Quit { .. } => 4,
        Startup::QuitPause { .. } | Startup::QuitScan { .. } => 3,
        Startup::Launch { .. } => 2,
        Startup::AttachmentScan { .. } | Startup::AttachmentSocket { .. } => 1,
        Startup::AttachmentPause { .. } => 1,
        Startup::Finished => 0,
    }
}

/// The time from `now` to a deadline.
pub open spec fn time_left(deadline: Nanos, now: Nanos) -> int {
    if now < deadline {
        deadline - now
    } else {
        0
    }
}

/// How much an initialization that waits for something can still wait for it, at the time `now`.
pub open spec fn startup_left(at: Startup, now: Nanos) -> int {
    match at {
        Startup::Version { deadline, .. } => 2 * time_left(deadline, now) + 1,
        Startup::VersionPause { deadline, .. } => 2 * time_left(deadline, now),
        Startup::QuitScan { deadline, .. } => if now < deadline {
            2 * time_left(deadline, now) + 3
        } else {
            1
        },
        Startup::QuitPause { deadline, .. } => 2 * time_left(deadline, now) + 2,
        Startup::AttachmentScan { deadline, .. } => 3 * time_left(deadline, now) + 2,
        Startup::AttachmentSocket { deadline, .. } => 3 * time_left(deadline, now) + 1,
        Startup::AttachmentPause { deadline, .. } => 3 * time_left(deadline, now),
        _ => 0,
    }
}

/// An initialization comes to an end, whatever the operating system replies, provided that time
/// passes while it pauses: each reply brings it nearer to its end, or uses up some of the time that
/// it waits for something. `asked` is when the request was made that is answered at `now`.
pub proof fn law_initialization_comes_to_an_end(
    config: SupervisorConfig,
    before: Startup,
    asked: Nanos,
    reply: ProcessReply,
    now: Nanos,
    after: Startup,
    step: StartupStep,
)
    requires
        asked <= now,
        reply is Slept ==> asked + PAUSE <= now,
        answers_startup(before, reply),
        startup_follows(config, before, reply, now, after, step),
    ensures
        startup_rank(after) < startup_rank(before) || (startup_rank(after) == startup_rank(before)
            && 0 <= startup_left(after, now) < startup_left(before, asked)),
        after is Finished <==> step is Done,
{
}

/// How far a look at the daemon and the GUI is from its end.
pub open spec fn check_rank(at: Check) -> nat {
    match at {
        Check::Scan => 4,
        Check::DaemonStart | Check::Version { .. } => 3,
        Check::Socket { .. } => 2,
        Check::Launch => 1,
        Check::Finished => 0,
    }
}

/// A look at the daemon and the GUI comes to an end after at most four replies, whatever they are.
pub proof fn law_check_comes_to_an_end(
    config: SupervisorConfig,
    before: Check,
    reply: ProcessReply,
    after: Check,
    step: CheckStep,
)
    requires
        answers_check(before, reply),
        check_follows(config, before, reply, after, step),
    ensures
        check_rank(after) < check_rank(before),
        after is Finished <==> step is Done,
{
}

} // verus!
