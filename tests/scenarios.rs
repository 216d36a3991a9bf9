use piperack::config::{
    ensure_unique_names, parse_aligned_list, parse_cli_processes, parse_output_mode,
    parse_success_policy, spec_from_config, split_env, CliError, MisalignedList, OutputMode,
    ProcessConfig, SpecError,
};
use piperack::events::{Event, ProcessSignal};
use piperack::policy::{
    backoff_delay, format_restart_message, format_tool_message, handle_exit_policy, ExitDecision,
    ExitTracker, RestartInfo, RestartTracker, RunOutcome, SuccessPolicy,
};
use piperack::process::{ProcessSpec, ReadinessCheck};
use piperack::runner::{exit_event, Action, ChildPoll, ProcessManager, ReadinessLatch};
use piperack::shutdown::{
    advance_shutdown, initial_shutdown_stage, ShutdownConfig, ShutdownStage, ShutdownState,
    ShutdownStep,
};
use piperack::watch::{is_relevant, Debouncer};

fn spec(name: &str, deps: &[&str], ready: Option<ReadinessCheck>) -> ProcessSpec {
    ProcessSpec {
        name: name.to_string(),
        cmd: "sleep".to_string(),
        args: vec!["60".to_string()],
        cwd: None,
        color: None,
        env: Vec::new(),
        restart_on_fail: false,
        follow: true,
        pre_cmd: None,
        watch_paths: Vec::new(),
        watch_ignore: Vec::new(),
        watch_ignore_gitignore: false,
        watch_debounce_ms: 200,
        depends_on: deps.iter().map(|d| d.to_string()).collect(),
        ready_check: ready,
        tags: Vec::new(),
    }
}

/// A compact description of an action, for comparing sequences.
fn describe(a: &Action) -> String {
    match a {
        Action::Emit(Event::ProcessStarting { id }) => format!("starting {}", id),
        Action::Emit(Event::ProcessStarted { id, pid }) => format!("started {} {}", id, pid),
        Action::Emit(Event::ProcessReady { id }) => format!("ready {}", id),
        Action::Emit(Event::ProcessWaiting { id, deps }) => format!("waiting {} {}", id, deps.join(",")),
        Action::Emit(Event::ProcessExited { id, code }) => format!("exited {} {:?}", id, code),
        Action::Emit(Event::ProcessFailed { id, error }) => format!("failed {} {}", id, error),
        Action::Emit(Event::ProcessSignal { id, signal }) => format!("signal {} {}", id, signal.label()),
        Action::Emit(_) => "other".to_string(),
        Action::Spawn { id } => format!("spawn {}", id),
        Action::Signal { id, pid, signal } => format!("deliver {} {} {}", id, pid, signal.label()),
        Action::Kill { id } => format!("kill {}", id),
        Action::Stop { id, pid, stages } => format!("stop {} {:?} {}", id, pid, stages.len()),
    }
}

fn describe_all(v: &[Action]) -> Vec<String> {
    v.iter().map(describe).collect()
}

#[test]
fn dependent_waits_until_dependency_ready() {
    let specs = vec![
        spec("api", &[], Some(ReadinessCheck::Delay(200))),
        spec("web", &["api"], None),
    ];
    let mut m = ProcessManager::new(specs, ShutdownConfig::new(800, 800)).unwrap();
    let a = m.start_all();
    assert_eq!(describe_all(&a), vec!["starting 0", "spawn 0", "waiting 1 api"]);
    let a = m.spawned(0, Some(100), true);
    assert_eq!(describe_all(&a), vec!["started 0 100"]);
    // The delay probe fires: the event loop marks the process ready.
    let a = m.mark_ready(0);
    assert_eq!(describe_all(&a), vec!["starting 1", "spawn 1"]);
    let a = m.spawned(1, Some(101), true);
    assert_eq!(describe_all(&a), vec!["started 1 101", "ready 1"]);
    // Nothing further to start.
    assert!(m.start_all().is_empty());
}

#[test]
fn immediate_readiness_starts_dependents_in_a_chain() {
    let specs = vec![spec("a", &[], None), spec("b", &["a"], None), spec("c", &["b"], None)];
    let mut m = ProcessManager::new(specs, ShutdownConfig::new(800, 800)).unwrap();
    let a = m.start_all();
    assert_eq!(describe_all(&a), vec!["starting 0", "spawn 0", "waiting 1 a", "waiting 2 b"]);
    let a = m.spawned(0, Some(10), false);
    assert_eq!(describe_all(&a), vec!["started 0 10", "ready 0", "starting 1", "spawn 1"]);
    let a = m.spawned(1, None, false);
    assert_eq!(describe_all(&a), vec!["started 1 0", "ready 1", "starting 2", "spawn 2"]);
}

#[test]
fn tcp_readiness_never_reached_keeps_dependents_waiting() {
    let specs = vec![
        spec("db", &[], Some(ReadinessCheck::Tcp(1))),
        spec("other", &[], Some(ReadinessCheck::Delay(10))),
        spec("web", &["db", "other"], None),
    ];
    let mut m = ProcessManager::new(specs, ShutdownConfig::new(800, 800)).unwrap();
    let a = m.start_all();
    assert_eq!(
        describe_all(&a),
        vec!["starting 0", "spawn 0", "starting 1", "spawn 1", "waiting 2 db,other"]
    );
    m.spawned(0, Some(1), true);
    m.spawned(1, Some(2), true);
    let a = m.mark_ready(1);
    assert_eq!(describe_all(&a), vec!["waiting 2 db"]);
    // The same missing set is not reported again, and web never starts.
    let a = m.mark_ready(1);
    assert!(a.is_empty());
    assert!(!m.process(2).unwrap().started);
}

#[test]
fn unknown_or_cyclic_dependencies_wait_forever() {
    let specs = vec![spec("x", &["x"], None), spec("y", &["nope"], None)];
    let mut m = ProcessManager::new(specs, ShutdownConfig::new(800, 800)).unwrap();
    let a = m.start_all();
    assert_eq!(describe_all(&a), vec!["waiting 0 x", "waiting 1 nope"]);
    assert!(m.start_all().is_empty());
}

#[test]
fn duplicate_names_are_refused() {
    let specs = vec![spec("api", &[], None), spec("web", &[], None), spec("api", &[], None)];
    assert_eq!(ensure_unique_names(&specs).unwrap_err().name, "api");
    let err = ProcessManager::new(specs, ShutdownConfig::new(800, 800)).unwrap_err();
    assert_eq!(err.name, "api");
}

#[test]
fn shutdown_escalates_from_sigint_to_sigterm() {
    let mut m = ProcessManager::new(vec![spec("api", &[], None)], ShutdownConfig::new(100, 100)).unwrap();
    m.start_all();
    m.spawned(0, Some(42), true);
    let a = m.begin_shutdown_all(ProcessSignal::SigInt, 1000);
    assert_eq!(describe_all(&a), vec!["signal 0 SIGINT", "deliver 0 42 SIGINT"]);
    // A second request joins the one in progress.
    assert!(m.begin_shutdown(0, ProcessSignal::SigTerm, 1010).is_empty());
    assert!(m.poll_exits(&vec![ChildPoll::Running], 1050).is_empty());
    let a = m.poll_exits(&vec![ChildPoll::Running], 1100);
    assert_eq!(describe_all(&a), vec!["signal 0 SIGTERM", "deliver 0 42 SIGTERM"]);
    let a = m.poll_exits(&vec![ChildPoll::Exited(None)], 1150);
    assert_eq!(describe_all(&a), vec!["exited 0 None"]);
    assert!(m.process(0).unwrap().shutdown.is_none());
    // The exit is reported once.
    assert!(m.poll_exits(&vec![ChildPoll::Exited(None)], 1200).is_empty());
}

#[test]
fn shutdown_kills_after_both_deadlines() {
    let mut m = ProcessManager::new(vec![spec("api", &[], None)], ShutdownConfig::new(100, 100)).unwrap();
    m.start_all();
    m.spawned(0, Some(7), false);
    m.begin_shutdown_all(ProcessSignal::SigInt, 0);
    m.poll_exits(&vec![ChildPoll::Running], 100);
    let a = m.poll_exits(&vec![ChildPoll::Running], 200);
    assert_eq!(describe_all(&a), vec!["kill 0"]);
    assert!(!m.process(0).unwrap().running);
    let e = exit_event(0, ChildPoll::Exited(Some(137))).unwrap();
    assert!(matches!(e, Event::ProcessExited { id: 0, code: Some(137) }));
}

#[test]
fn sigint_disabled_sends_sigterm_first() {
    let cfg = ShutdownConfig::new(0, 500);
    let (stage, signal, deadline) = initial_shutdown_stage(cfg, ProcessSignal::SigInt, 10);
    assert_eq!(stage, ShutdownStage::SigTerm);
    assert_eq!(signal, Some(ProcessSignal::SigTerm));
    assert_eq!(deadline, 510);
}

#[test]
fn both_stages_disabled_kill_at_once() {
    let cfg = ShutdownConfig::new(0, 0);
    for initial in [ProcessSignal::SigInt, ProcessSignal::SigTerm] {
        let (stage, signal, deadline) = initial_shutdown_stage(cfg, initial, 10);
        assert_eq!(stage, ShutdownStage::Kill);
        assert_eq!(signal, None);
        assert_eq!(deadline, 10);
    }
    let mut m = ProcessManager::new(vec![spec("api", &[], None)], cfg).unwrap();
    m.start_all();
    m.spawned(0, Some(5), false);
    assert!(m.begin_shutdown(0, ProcessSignal::SigInt, 10).is_empty());
    let a = m.poll_exits(&vec![ChildPoll::Running], 10);
    assert_eq!(describe_all(&a), vec!["kill 0"]);
}

#[test]
fn sigterm_request_falls_back_to_sigint() {
    let cfg = ShutdownConfig::new(300, 0);
    let (stage, signal, deadline) = initial_shutdown_stage(cfg, ProcessSignal::SigTerm, 0);
    assert_eq!(stage, ShutdownStage::SigInt);
    assert_eq!(signal, Some(ProcessSignal::SigInt));
    assert_eq!(deadline, 300);
    let st = ShutdownState { stage, deadline };
    assert_eq!(advance_shutdown(cfg, st, 299), ShutdownStep::Wait);
    assert_eq!(advance_shutdown(cfg, st, 300), ShutdownStep::Kill);
}

#[test]
fn restart_stops_then_spawns_again() {
    let mut m = ProcessManager::new(vec![spec("api", &[], None)], ShutdownConfig::new(100, 200)).unwrap();
    m.start_all();
    m.spawned(0, Some(9), true);
    let a = m.restart_process(0);
    assert_eq!(describe_all(&a), vec!["stop 0 Some(9) 2", "starting 0", "spawn 0"]);
    match &a[0] {
        Action::Stop { stages, .. } => {
            assert_eq!(stages[0], (ProcessSignal::SigInt, 100));
            assert_eq!(stages[1], (ProcessSignal::SigTerm, 200));
        }
        _ => panic!("expected a stop"),
    }
    let p = m.process(0).unwrap();
    assert!(p.started && !p.running && !p.ready);
}

#[test]
fn shutdown_all_stops_every_running_child() {
    let specs = vec![spec("a", &[], None), spec("b", &[], None)];
    let mut m = ProcessManager::new(specs, ShutdownConfig::new(0, 50)).unwrap();
    m.start_all();
    m.spawned(0, Some(1), true);
    let a = m.shutdown_all();
    assert_eq!(describe_all(&a), vec!["stop 0 Some(1) 1"]);
    assert!(m.shutdown_all().is_empty());
}

#[test]
fn spawn_failure_is_reported() {
    let m = ProcessManager::new(vec![spec("api", &[], None)], ShutdownConfig::new(1, 1)).unwrap();
    let a = m.spawn_failed(0, "not found");
    assert_eq!(describe_all(&a), vec!["failed 0 failed to spawn api: not found"]);
}

#[test]
fn input_goes_only_to_open_stdin() {
    let mut m = ProcessManager::new(vec![spec("api", &[], None)], ShutdownConfig::new(1, 1)).unwrap();
    assert!(!m.input_target(0, 3));
    m.start_all();
    m.spawned(0, Some(3), true);
    assert!(m.input_target(0, 3));
    assert!(!m.input_target(0, 0));
    assert!(!m.input_target(1, 3));
}

#[test]
fn log_readiness_fires_once_per_attempt() {
    let mut latch = ReadinessLatch::new();
    assert!(!latch.on_line(false));
    assert!(latch.on_line(true));
    assert!(!latch.on_line(true));
    assert!(!latch.on_line(true));
}

#[test]
fn backoff_schedule_without_delay() {
    let got: Vec<u64> = (1..=8).map(|a| backoff_delay(a, None)).collect();
    assert_eq!(got, vec![1000, 2000, 4000, 8000, 16000, 30000, 30000, 30000]);
    assert_eq!(backoff_delay(3, Some(50)), 50);
}

#[test]
fn restart_on_failure_respects_tries() {
    let mut t = RestartTracker::new(1);
    let r1 = t.handle_restart(0, Some(1), true, Some(2), Some(50)).unwrap();
    assert_eq!(r1, RestartInfo { attempt: 1, max: Some(2), delay_ms: 50 });
    let r2 = t.handle_restart(0, Some(1), true, Some(2), Some(50)).unwrap();
    assert_eq!(r2.attempt, 2);
    assert!(t.handle_restart(0, Some(1), true, Some(2), Some(50)).is_none());
    // A successful exit resets the count.
    assert!(t.handle_restart(0, Some(0), true, Some(2), Some(50)).is_none());
    assert_eq!(t.handle_restart(0, None, true, Some(2), Some(50)).unwrap().attempt, 1);
    // Without restart_on_fail nothing is scheduled.
    assert!(t.handle_restart(0, Some(1), false, None, None).is_none());
    assert_eq!(format_restart_message(&r1), "retrying in 50ms (attempt 1/2)");
    let unbounded = RestartInfo { attempt: 3, max: None, delay_ms: 4000 };
    assert_eq!(format_restart_message(&unbounded), "retrying in 4000ms (attempt 3)");
}

#[test]
fn success_policy_first_shuts_down_on_zero_exit() {
    let mut t = ExitTracker::new(2);
    assert_eq!(handle_exit_policy(&mut t, 1, Some(3), SuccessPolicy::First, false, false), ExitDecision::Continue);
    assert_eq!(handle_exit_policy(&mut t, 0, Some(0), SuccessPolicy::First, false, false), ExitDecision::ShutdownAll);
}

#[test]
fn success_policies_last_and_all() {
    let mut t = ExitTracker::new(2);
    assert_eq!(handle_exit_policy(&mut t, 0, Some(1), SuccessPolicy::Last, false, false), ExitDecision::Continue);
    assert_eq!(
        handle_exit_policy(&mut t, 1, Some(0), SuccessPolicy::Last, false, false),
        ExitDecision::Quit(RunOutcome::Success)
    );
    let mut t = ExitTracker::new(2);
    handle_exit_policy(&mut t, 0, Some(1), SuccessPolicy::All, false, false);
    assert_eq!(
        handle_exit_policy(&mut t, 1, Some(0), SuccessPolicy::All, false, false),
        ExitDecision::Quit(RunOutcome::SomeFailed)
    );
    let mut t = ExitTracker::new(1);
    assert_eq!(
        handle_exit_policy(&mut t, 0, None, SuccessPolicy::Last, false, false),
        ExitDecision::Quit(RunOutcome::LastFailed)
    );
}

#[test]
fn kill_others_policies() {
    let mut t = ExitTracker::new(3);
    assert_eq!(handle_exit_policy(&mut t, 0, Some(0), SuccessPolicy::All, true, false), ExitDecision::ShutdownAll);
    let mut t = ExitTracker::new(3);
    assert_eq!(handle_exit_policy(&mut t, 0, Some(0), SuccessPolicy::All, false, true), ExitDecision::Continue);
    assert_eq!(handle_exit_policy(&mut t, 1, Some(2), SuccessPolicy::All, false, true), ExitDecision::ShutdownAll);
}

#[test]
fn debounce_coalesces_a_burst() {
    let mut d = Debouncer::new(200);
    d.on_change(true, 0);
    assert_eq!(d.wait_ms(0), Some(200));
    assert!(!d.on_tick(49));
    d.on_change(true, 50);
    d.on_change(false, 100);
    d.on_change(true, 150);
    assert_eq!(d.wait_ms(150), Some(200));
    assert!(!d.on_tick(349));
    assert!(d.on_tick(350));
    assert!(!d.on_tick(400));
    assert_eq!(d.wait_ms(400), None);
}

#[test]
fn debounce_window_has_a_floor() {
    let mut d = Debouncer::new(10);
    d.on_change(true, 0);
    assert!(!d.on_tick(49));
    assert!(d.on_tick(50));
}

#[test]
fn relevance_of_change_events() {
    assert!(is_relevant(false, &vec![true]));
    assert!(is_relevant(true, &vec![]));
    assert!(is_relevant(true, &vec![true, false]));
    assert!(!is_relevant(true, &vec![true, true]));
}

#[test]
fn cli_errors() {
    let s = |v: &[&str]| v.iter().map(|x| x.to_string()).collect::<Vec<_>>();
    assert_eq!(
        parse_cli_processes(&s(&["api"]), false).unwrap_err(),
        CliError::ExpectedName { got: "api".to_string() }
    );
    assert_eq!(parse_cli_processes(&s(&["--name"]), false).unwrap_err(), CliError::MissingName);
    assert_eq!(
        parse_cli_processes(&s(&["--name", "a", "--cwd"]), false).unwrap_err(),
        CliError::MissingValue { option: "--cwd".to_string() }
    );
    assert_eq!(
        parse_cli_processes(&s(&["--name", "a", "--env", "X"]), false).unwrap_err(),
        CliError::InvalidEnv { value: "X".to_string() }
    );
    assert_eq!(
        parse_cli_processes(&s(&["--name", "a", "--watch-debounce-ms", "soon"]), false).unwrap_err(),
        CliError::InvalidDebounce
    );
    assert_eq!(
        parse_cli_processes(&s(&["--name", "a", "--bogus"]), false).unwrap_err(),
        CliError::UnknownOption { option: "--bogus".to_string(), name: "a".to_string() }
    );
    assert_eq!(
        parse_cli_processes(&s(&["--name", "a"]), false).unwrap_err(),
        CliError::ExpectedSeparator { name: "a".to_string() }
    );
    assert_eq!(
        parse_cli_processes(&s(&["--name", "a", "--"]), false).unwrap_err(),
        CliError::MissingCommand { name: "a".to_string() }
    );
}

#[test]
fn cli_options_are_applied() {
    let args: Vec<String> = [
        "--name", "api", "--cwd", "srv", "--env", "A=1=2", "--color", "red", "--no-follow",
        "--restart-on-fail", "--pre", "make", "--watch", "src", "--watch-ignore", "target",
        "--watch-ignore-gitignore", "--watch-debounce-ms", "+75", "--", "cargo", "run", "-q",
    ]
    .iter()
    .map(|x| x.to_string())
    .collect();
    let specs = parse_cli_processes(&args, false).unwrap();
    let s = &specs[0];
    assert_eq!(s.cwd.as_deref(), Some("srv"));
    assert_eq!(s.env, vec![("A".to_string(), "1=2".to_string())]);
    assert_eq!(s.color.as_deref(), Some("red"));
    assert!(!s.follow);
    assert!(s.restart_on_fail);
    assert_eq!(s.pre_cmd.as_deref(), Some("make"));
    assert_eq!(s.watch_paths, vec!["src"]);
    assert_eq!(s.watch_ignore, vec!["target"]);
    assert!(s.watch_ignore_gitignore);
    assert_eq!(s.watch_debounce_ms, 75);
    assert_eq!(s.cmd, "cargo");
    assert_eq!(s.args, vec!["run", "-q"]);
}

#[test]
fn env_split_and_aligned_lists() {
    assert_eq!(split_env("K=V").unwrap(), ("K".to_string(), "V".to_string()));
    assert!(split_env("KV").is_err());
    assert_eq!(parse_aligned_list(&vec![], 2).unwrap(), vec![None, None]);
    assert_eq!(
        parse_aligned_list(&vec!["x".to_string()], 2).unwrap(),
        vec![Some("x".to_string()), Some("x".to_string())]
    );
    assert_eq!(
        parse_aligned_list(&vec!["x".to_string(), "y".to_string()], 3).unwrap_err(),
        MisalignedList { expected: 3, got: 2 }
    );
}

#[test]
fn enum_values_ignore_case() {
    assert_eq!(parse_output_mode("Grouped").unwrap(), OutputMode::Grouped);
    assert_eq!(parse_output_mode("RAW").unwrap(), OutputMode::Raw);
    assert_eq!(parse_output_mode("loud").unwrap_err().value, "loud");
    assert_eq!(parse_success_policy("ALL").unwrap(), SuccessPolicy::All);
    assert!(parse_success_policy("most").is_err());
}

fn process_config(name: &str, cmd: &str) -> ProcessConfig {
    ProcessConfig {
        name: name.to_string(),
        cmd: cmd.to_string(),
        cwd: None,
        color: None,
        env: None,
        restart_on_fail: None,
        follow: None,
        pre_cmd: None,
        watch: None,
        watch_ignore: None,
        watch_ignore_gitignore: None,
        watch_debounce_ms: None,
        depends_on: Some(vec!["db".to_string()]),
        ready_check: None,
        tags: None,
    }
}

#[test]
fn config_commands_are_split_into_words() {
    let s = spec_from_config(process_config("api", "cargo run --bin 'my app'")).unwrap();
    assert_eq!(s.cmd, "cargo");
    assert_eq!(s.args, vec!["run", "--bin", "my app"]);
    assert!(s.follow);
    assert_eq!(s.watch_debounce_ms, 200);
    assert_eq!(s.depends_on, vec!["db"]);
    assert_eq!(
        spec_from_config(process_config("api", "echo 'open")).unwrap_err(),
        SpecError::UnparsableCommand { name: "api".to_string() }
    );
    assert_eq!(
        spec_from_config(process_config("api", "   ")).unwrap_err(),
        SpecError::EmptyCommand { name: "api".to_string() }
    );
}

#[test]
fn tool_messages() {
    assert_eq!(format_tool_message("hi", false), "[piperack] hi");
    assert_eq!(format_tool_message("hi", true), "\u{25c6} piperack: hi");
}
