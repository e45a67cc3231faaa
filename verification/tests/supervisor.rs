use codex_control::clock::{Nanos, MILLISECOND, SECOND};
use codex_control::path;
use codex_control::path::FilePath;
use codex_control::supervisor;
use codex_control::supervisor::{
    Check, CheckStep, CommandOutput, DaemonOwnership, MonitorEvent, ProcessOutput, ProcessReply,
    ProcessRequest, RealProcessOps, Startup, StartupStep, SupervisionState, Supervisor,
    SupervisorConfig, SupervisorError, Watch, WatchEvent, WatchStep,
};

#[derive(Default)]
struct FakeOps {
    standalone: bool,
    no_gui_file: bool,
    gui: bool,
    daemon: bool,
    attached: bool,
    stubborn: bool,
    compatible: bool,
    blind: bool,
    mute: bool,
    spawn_fails: bool,
    quit_fails: bool,
    spawns: Vec<String>,
    spawn_args: Vec<Vec<String>>,
    spawn_env: Vec<Vec<(String, String)>>,
    quit_requests: usize,
    versions_asked: usize,
    slept: Nanos,
}

impl FakeOps {
    fn answer(&mut self, request: ProcessRequest) -> ProcessReply {
        match request {
            ProcessRequest::Exists(path) => {
                let name = path.to_text().unwrap();
                ProcessReply::Exists(if name.contains("codex") {
                    self.standalone
                } else {
                    !self.no_gui_file
                })
            }
            ProcessRequest::Scan => {
                if self.blind {
                    return ProcessReply::Scan(Err("no ps".to_owned()));
                }
                let mut lines = String::new();
                if self.daemon {
                    lines.push_str("/mock/codex app-server --listen unix://\n");
                }
                if self.gui {
                    lines.push_str("/mock/ChatGPT");
                    if self.attached {
                        lines.push_str(" CODEX_APP_SERVER_USE_LOCAL_DAEMON=1");
                    }
                    lines.push('\n');
                }
                ProcessReply::Scan(Ok(lines))
            }
            ProcessRequest::SocketUsers(_) => ProcessReply::SocketUsers(Ok(if self.attached {
                "COMMAND PID USER FD TYPE NAME\ncodex 123 user 15u unix /mock/socket\ncodex 123 user 31u unix /mock/socket".to_owned()
            } else {
                String::new()
            })),
            ProcessRequest::Output { .. } => {
                self.versions_asked += 1;
                if self.mute {
                    return ProcessReply::Output(Err("cannot run".to_owned()));
                }
                ProcessReply::Output(Ok(if self.compatible {
                    CommandOutput {
                        success: true,
                        stdout: "codex-cli 0.144.6".to_owned(),
                        stderr: String::new(),
                    }
                } else {
                    CommandOutput {
                        success: false,
                        stdout: String::new(),
                        stderr: "mismatch".to_owned(),
                    }
                }))
            }
            ProcessRequest::Spawn { program, args, env } => {
                if self.spawn_fails {
                    return ProcessReply::Spawn(Err("no fork".to_owned()));
                }
                let program = program.to_text().unwrap();
                self.spawns.push(program.clone());
                if program == "/usr/bin/open" || program.contains("ChatGPT") {
                    self.gui = true;
                    self.attached = args
                        .windows(2)
                        .any(|pair| pair == ["--env", "CODEX_APP_SERVER_USE_LOCAL_DAEMON=1"]);
                } else {
                    self.daemon = true;
                }
                self.spawn_args.push(args);
                self.spawn_env.push(env);
                ProcessReply::Spawn(Ok(()))
            }
            ProcessRequest::GracefulQuit => {
                self.quit_requests += 1;
                if self.quit_fails {
                    return ProcessReply::GracefulQuit(Err("not scriptable".to_owned()));
                }
                if !self.stubborn {
                    self.gui = false;
                    self.attached = false;
                }
                ProcessReply::GracefulQuit(Ok(()))
            }
            ProcessRequest::Sleep(span) => {
                self.slept += span;
                ProcessReply::Slept
            }
        }
    }
}

fn config() -> SupervisorConfig {
    SupervisorConfig {
        standalone_codex: FilePath::from_text("/mock/codex"),
        gui_executable: FilePath::from_text("/mock/ChatGPT"),
        socket_path: FilePath::from_text("/mock/socket"),
        restart_gui_on_initialize: false,
        startup_timeout: 80 * MILLISECOND,
        graceful_quit_timeout: 30 * MILLISECOND,
        monitor_interval: 10 * MILLISECOND,
    }
}

fn initialize<P>(
    supervisor: &Supervisor<P>,
    ops: &mut FakeOps,
) -> Result<SupervisionState, SupervisorError> {
    let (mut at, mut step): (Startup, StartupStep) = supervisor.initialize();
    loop {
        match step {
            StartupStep::Ask(request) => {
                let reply = ops.answer(request);
                let (next, then) = supervisor.initialize_after(at, reply, ops.slept);
                at = next;
                step = then;
            }
            StartupStep::Done(result) => return result,
        }
    }
}

fn check<P>(supervisor: &Supervisor<P>, ops: &mut FakeOps) -> MonitorEvent {
    let (mut at, mut step): (Check, CheckStep) = supervisor.check();
    loop {
        match step {
            CheckStep::Ask(request) => {
                let reply = ops.answer(request);
                let (next, then) = supervisor.check_after(at, reply);
                at = next;
                step = then;
            }
            CheckStep::Done(event) => return event,
        }
    }
}

#[test]
fn accepted_socket_detection_matches_macos_lsof_shape() {
    assert!(Supervisor::has_accepted_socket_connection(
        "COMMAND PID USER FD TYPE NAME\ncodex 123 user 15u unix /mock/socket\ncodex 123 user 31u unix /mock/socket"
    ));
    assert!(!Supervisor::has_accepted_socket_connection(
        "COMMAND PID USER FD TYPE NAME\ncodex 123 user 15u unix /mock/socket"
    ));
}

#[test]
fn unicode_white_space_is_no_socket_record() {
    assert!(!Supervisor::has_accepted_socket_connection(
        "codex one\n\u{2003}\u{3000}\n\u{a0}COMMAND\n"
    ));
}

#[test]
fn blank_lines_and_headings_are_no_socket_records() {
    assert!(!Supervisor::has_accepted_socket_connection(""));
    assert!(!Supervisor::has_accepted_socket_connection(
        "\n   \r\n  COMMAND x\ncodex one\n"
    ));
    assert!(Supervisor::has_accepted_socket_connection("one\r\n\ttwo"));
}

#[test]
fn launch_services_receives_the_application_bundle_instead_of_the_executable() {
    assert_eq!(
        path::application_bundle(&FilePath::from_text(
            "/Applications/ChatGPT.app/Contents/MacOS/ChatGPT"
        ))
        .to_text()
        .unwrap(),
        "/Applications/ChatGPT.app"
    );
}

#[test]
fn attaches_existing_and_leaves_daemon_running() {
    let mut ops = FakeOps {
        standalone: true,
        gui: true,
        daemon: true,
        attached: true,
        compatible: true,
        ..FakeOps::default()
    };
    let supervisor = Supervisor::with_ops(config(), ());
    let state = initialize(&supervisor, &mut ops).unwrap();
    assert_eq!(state.daemon_ownership, DaemonOwnership::Attached);
    assert_eq!(state.daemon_version, "codex-cli 0.144.6");
    assert!(state.gui_attached);
    assert!(ops.spawns.is_empty());
    assert!(supervisor.shutdown_state(state).daemon_left_running);
}

#[test]
fn starts_daemon_and_relaunches_gui_with_owned_environment() {
    let mut ops = FakeOps {
        standalone: true,
        gui: true,
        compatible: true,
        ..FakeOps::default()
    };
    let supervisor = Supervisor::with_ops(config(), ());
    let state = initialize(&supervisor, &mut ops).unwrap();
    assert_eq!(state.daemon_ownership, DaemonOwnership::Started);
    assert!(ops.attached);
    assert_eq!(ops.spawns[0], "/mock/codex");
    assert_eq!(ops.spawn_args[0], vec!["app-server", "daemon", "start"]);
}

#[test]
fn requested_startup_restart_relaunches_attached_gui_but_shutdown_leaves_it_running() {
    let mut ops = FakeOps {
        standalone: true,
        gui: true,
        daemon: true,
        attached: true,
        compatible: true,
        ..FakeOps::default()
    };
    let mut restart_config = config();
    restart_config.restart_gui_on_initialize = true;
    let supervisor = Supervisor::with_ops(restart_config, ());

    let state = initialize(&supervisor, &mut ops).unwrap();
    let state = supervisor.shutdown_state(state);

    assert_eq!(ops.quit_requests, 1);
    assert_eq!(ops.spawns, vec!["/usr/bin/open"]);
    assert_eq!(
        ops.spawn_args,
        vec![vec![
            "--env",
            "CODEX_APP_SERVER_USE_LOCAL_DAEMON=1",
            "--env",
            "CODEX_APP_SERVER_FORCE_CLI=0",
            "-a",
            "/mock/ChatGPT",
        ]]
    );
    assert_eq!(ops.spawn_env, vec![Vec::<(String, String)>::new()]);
    assert!(ops.gui);
    assert!(ops.attached);
    assert!(state.daemon_left_running);
}

#[test]
fn stubborn_gui_is_never_force_killed() {
    let mut ops = FakeOps {
        standalone: true,
        gui: true,
        daemon: true,
        stubborn: true,
        compatible: true,
        ..FakeOps::default()
    };
    let supervisor = Supervisor::with_ops(config(), ());
    let result = initialize(&supervisor, &mut ops);
    assert!(matches!(
        &result,
        Err(SupervisorError::UserActionRequired(_))
    ));
    assert_eq!(
        result.unwrap_err().message(),
        "user action required: ChatGPT ignored graceful quit; quit it manually. It was not force-killed."
    );
    assert!(ops.gui);
    assert!(ops.spawns.is_empty());
}

#[test]
fn monitor_reports_restart_and_incompatibility() {
    let mut ops = FakeOps {
        standalone: true,
        gui: true,
        attached: true,
        compatible: true,
        ..FakeOps::default()
    };
    let supervisor = Supervisor::with_ops(config(), ());
    assert_eq!(check(&supervisor, &mut ops), MonitorEvent::DaemonRestarted);
    ops.compatible = false;
    assert!(matches!(
        check(&supervisor, &mut ops),
        MonitorEvent::Incompatible(_)
    ));
}

#[test]
fn monitor_restarts_a_missing_gui_with_daemon_environment() {
    let mut ops = FakeOps {
        standalone: true,
        daemon: true,
        compatible: true,
        ..FakeOps::default()
    };
    let supervisor = Supervisor::with_ops(config(), ());
    assert_eq!(check(&supervisor, &mut ops), MonitorEvent::GuiRestarted);
    assert!(ops.attached);
    assert_eq!(check(&supervisor, &mut ops), MonitorEvent::Healthy);
}

#[test]
fn monitoring_waits_looks_and_publishes_until_a_shutdown() {
    let supervisor = Supervisor::with_ops(config(), ());
    let interval = 10 * MILLISECOND;
    let (at, step) = supervisor.monitor();
    assert!(matches!(step, WatchStep::Wait(span) if span == interval));
    let (at, step) = supervisor.monitor_after(at, WatchEvent::Slept);
    assert!(matches!(step, WatchStep::Check));
    let (at, step) = supervisor.monitor_after(at, WatchEvent::Checked(MonitorEvent::GuiRestarted));
    assert!(
        matches!(step, WatchStep::Publish(MonitorEvent::GuiRestarted, span) if span == interval)
    );
    let news = |open: bool, stop: bool| WatchEvent::Shutdown { open, stop };
    let (at, step) = supervisor.monitor_after(at, news(true, false));
    assert!(matches!(step, WatchStep::Wait(span) if span == interval));
    assert_eq!(at, Watch::Waiting);
    let (again, step) = supervisor.monitor_after(Watch::Checking, news(true, false));
    assert!(matches!(step, WatchStep::Wait(_)));
    assert_eq!(again, Watch::Waiting);
    for (open, stop) in [(true, true), (false, false), (false, true)] {
        let (ended, step) = supervisor.monitor_after(at, news(open, stop));
        assert!(matches!(step, WatchStep::Stop));
        assert_eq!(ended, Watch::Ended);
    }
}

#[test]
fn monitor_says_what_the_user_has_to_do() {
    let supervisor = Supervisor::with_ops(config(), ());
    let mut ops = FakeOps {
        daemon: true,
        gui: true,
        compatible: true,
        ..FakeOps::default()
    };
    assert_eq!(
        check(&supervisor, &mut ops),
        MonitorEvent::UserActionRequired("ChatGPT is not attached to the shared daemon".to_owned())
    );
    ops.mute = true;
    assert_eq!(
        check(&supervisor, &mut ops),
        MonitorEvent::Incompatible("cannot run".to_owned())
    );
    ops.blind = true;
    assert_eq!(
        check(&supervisor, &mut ops),
        MonitorEvent::UserActionRequired("cannot inspect processes".to_owned())
    );
    let mut ops = FakeOps {
        spawn_fails: true,
        ..FakeOps::default()
    };
    assert_eq!(
        check(&supervisor, &mut ops),
        MonitorEvent::UserActionRequired("no fork".to_owned())
    );
}

#[test]
fn initialization_fails_with_the_reason() {
    let supervisor = Supervisor::with_ops(config(), ());
    let mut ops = FakeOps::default();
    assert_eq!(
        initialize(&supervisor, &mut ops).unwrap_err().message(),
        "standalone Codex is missing at /mock/codex; install it with the official standalone installer"
    );
    ops.standalone = true;
    ops.no_gui_file = true;
    assert_eq!(
        initialize(&supervisor, &mut ops).unwrap_err().message(),
        "ChatGPT executable is missing at /mock/ChatGPT"
    );
    ops.no_gui_file = false;
    ops.blind = true;
    assert_eq!(
        initialize(&supervisor, &mut ops).unwrap_err().message(),
        "process inspection failed: no ps"
    );
    ops.blind = false;
    ops.spawn_fails = true;
    assert_eq!(
        initialize(&supervisor, &mut ops).unwrap_err().message(),
        "daemon command failed: no fork"
    );
    ops.spawn_fails = false;
    assert_eq!(
        initialize(&supervisor, &mut ops).unwrap_err().message(),
        "daemon version is incompatible or unavailable: mismatch"
    );
    ops.compatible = true;
    ops.gui = true;
    ops.quit_fails = true;
    assert_eq!(
        initialize(&supervisor, &mut ops).unwrap_err().message(),
        "user action required: not scriptable"
    );
}

#[test]
fn a_gui_that_does_not_attach_is_reported_at_the_deadline() {
    let mut config = config();
    config.startup_timeout = 250 * MILLISECOND;
    let supervisor = Supervisor::with_ops(config, ());
    let (_, step) = supervisor.initialize_after(
        Startup::AttachmentPause {
            found: supervisor::Found {
                ownership: DaemonOwnership::Attached,
                version: "1".to_owned(),
            },
            deadline: 250 * MILLISECOND,
        },
        ProcessReply::Slept,
        250 * MILLISECOND,
    );
    match step {
        StartupStep::Done(Err(error)) => assert_eq!(
            error.message(),
            "ChatGPT did not attach to the shared daemon; check the installed GUI/Codex compatibility: ChatGPT did not establish an accepted connection to the managed daemon within the startup timeout"
        ),
        other => panic!("{:?}", other),
    }
}

#[test]
fn the_version_is_asked_for_until_the_deadline() {
    let mut config = config();
    config.startup_timeout = 250 * MILLISECOND;
    let supervisor = Supervisor::with_ops(config, ());
    let mut ops = FakeOps {
        standalone: true,
        daemon: true,
        ..FakeOps::default()
    };
    assert!(matches!(
        initialize(&supervisor, &mut ops),
        Err(SupervisorError::IncompatibleVersion(_))
    ));
    assert_eq!(ops.versions_asked, 3);
    assert_eq!(ops.slept, 300 * MILLISECOND);
}

#[test]
fn a_gui_path_that_is_not_utf8_cannot_be_launched() {
    let mut config = config();
    config.gui_executable = FilePath {
        bytes: vec![b'/', 0xff],
    };
    assert_eq!(
        supervisor::launch_request(&config).unwrap_err(),
        "ChatGPT application path is not valid UTF-8"
    );
}

#[test]
fn processes_are_recognised_by_their_lines() {
    let codex = FilePath::from_text("/mock/codex");
    let gui = FilePath::from_text("/mock/ChatGPT");
    assert!(supervisor::has_managed_daemon(
        "1 x\n2 /mock/codex app-server daemon\n",
        &codex
    ));
    assert!(!supervisor::has_managed_daemon(
        "1 /mock/codex app-server\n2 daemon\n",
        &codex
    ));
    assert!(!supervisor::gui_running("/mock/Chat\nGPT", &gui));
    assert!(supervisor::gui_mode_enabled(
        "/mock/ChatGPT CODEX_APP_SERVER_USE_LOCAL_DAEMON=1",
        &gui
    ));
    assert!(!supervisor::gui_mode_enabled(
        "/mock/ChatGPT CODEX_APP_SERVER_USE_LOCAL_DAEMON=1 CODEX_APP_SERVER_FORCE_CLI=1",
        &gui
    ));
    assert!(!supervisor::gui_mode_enabled(
        "/mock/ChatGPT CODEX_APP_SERVER_USE_LOCAL_DAEMON=1 CODEX_CLI_PATH=/x",
        &gui
    ));
}

#[test]
fn the_default_configuration_lies_under_the_home_directory() {
    let config = SupervisorConfig::for_home(Some(FilePath::from_text("/home/u")));
    assert_eq!(
        config.standalone_codex.to_text().unwrap(),
        "/home/u/.codex/packages/standalone/current/codex"
    );
    assert_eq!(
        config.socket_path.to_text().unwrap(),
        "/home/u/.codex/app-server-control/app-server-control.sock"
    );
    assert_eq!(config.startup_timeout, 10 * SECOND);
    assert_eq!(config.graceful_quit_timeout, 8 * SECOND);
    assert_eq!(config.monitor_interval, 5 * SECOND);
    assert!(config.restart_gui_on_initialize);
    let nowhere = Supervisor::new(SupervisorConfig::for_home(None));
    assert_eq!(
        nowhere.config.socket_path.to_text().unwrap(),
        "/var/empty/.codex/app-server-control/app-server-control.sock"
    );
}

fn command_line(request: &ProcessRequest) -> (Vec<String>, bool) {
    let command = RealProcessOps.child_command(request).unwrap();
    let mut line = vec![command.program.to_text().unwrap()];
    for arg in &command.args {
        line.push(arg.to_text().unwrap());
    }
    (line, command.detached)
}

#[test]
fn requests_become_programs() {
    assert_eq!(
        command_line(&ProcessRequest::Scan),
        (
            vec![
                "/bin/ps".to_owned(),
                "eww".to_owned(),
                "-axo".to_owned(),
                "pid=,command=".to_owned()
            ],
            false
        )
    );
    assert_eq!(
        command_line(&ProcessRequest::SocketUsers(FilePath::from_text("/s"))),
        (
            vec!["/usr/sbin/lsof".to_owned(), "-n".to_owned(), "/s".to_owned()],
            false
        )
    );
    assert_eq!(
        command_line(&ProcessRequest::GracefulQuit).0[2],
        "tell application \"ChatGPT\" to quit"
    );
    let spawn = ProcessRequest::Spawn {
        program: FilePath::from_text("/p"),
        args: vec!["a".to_owned()],
        env: vec![("K".to_owned(), "V".to_owned())],
    };
    assert_eq!(
        command_line(&spawn),
        (vec!["/p".to_owned(), "a".to_owned()], true)
    );
    assert_eq!(
        RealProcessOps.child_command(&spawn).unwrap().env,
        vec![("K".to_owned(), "V".to_owned())]
    );
    assert!(RealProcessOps
        .child_command(&ProcessRequest::Exists(FilePath::from_text("/x")))
        .is_none());
}

fn output(success: bool, stdout: &[u8], stderr: &[u8]) -> Result<ProcessOutput, String> {
    Ok(ProcessOutput {
        success,
        stdout: stdout.to_vec(),
        stderr: stderr.to_vec(),
    })
}

#[test]
fn outputs_become_replies() {
    let scan = RealProcessOps.reply(&ProcessRequest::Scan, output(true, b"a\xffb", b""));
    assert!(matches!(scan, ProcessReply::Scan(Ok(text)) if text == "a\u{fffd}b"));
    let scan = RealProcessOps.reply(&ProcessRequest::Scan, output(false, b"", b"bad"));
    assert!(matches!(scan, ProcessReply::Scan(Err(text)) if text == "bad"));
    let socket = ProcessRequest::SocketUsers(FilePath::from_text("/s"));
    let users = RealProcessOps.reply(&socket, output(false, b"x", b"y"));
    assert!(matches!(users, ProcessReply::SocketUsers(Ok(text)) if text.is_empty()));
    let version = ProcessRequest::Output {
        program: FilePath::from_text("/p"),
        args: Vec::new(),
    };
    match RealProcessOps.reply(&version, output(true, b" v1\n", b"\t\n")) {
        ProcessReply::Output(Ok(shown)) => {
            assert!(shown.success);
            assert_eq!(shown.stdout, "v1");
            assert_eq!(shown.stderr, "");
        }
        other => panic!("{:?}", other),
    }
    let quit = RealProcessOps.reply(&ProcessRequest::GracefulQuit, Err("gone".to_owned()));
    assert!(matches!(quit, ProcessReply::GracefulQuit(Err(text)) if text == "gone"));
}
