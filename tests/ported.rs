use std::path::{Path, PathBuf};

use piperack::ansi::parse_params;
use piperack::app::{App, SelectionScope};
use piperack::config::parse_cli_processes;
use piperack::events::{ProcessSignal, StreamKind};
use piperack::output::{LogBuffer, LogLine, TimelineBuffer, TimelineEntry};
use piperack::process::ProcessSpec;
use piperack::version::{normalize_version, version_tuple};
use piperack::watch::{expand_pattern, resolve_watch_paths};

fn make_spec(name: &str) -> ProcessSpec {
    ProcessSpec {
        name: name.to_string(),
        cmd: "echo".to_string(),
        args: Vec::new(),
        cwd: None,
        color: None,
        env: Vec::new(),
        restart_on_fail: false,
        follow: true,
        pre_cmd: None,
        watch_paths: Vec::new(),
        watch_ignore: Vec::new(),
        watch_ignore_gitignore: false,
        watch_debounce_ms: 200,
        depends_on: Vec::new(),
        ready_check: None,
        tags: Vec::new(),
    }
}

fn make_app() -> App {
    App::new(vec![make_spec("api")], 100, false, true)
}

#[test]
fn parse_params_defaults_to_reset() {
    assert_eq!(parse_params(""), vec![0]);
    assert_eq!(parse_params(";"), vec![0, 0]);
    assert_eq!(parse_params("1;"), vec![1, 0]);
}

#[test]
fn selection_range_normalizes_and_clamps() {
    let mut app = make_app();
    app.selection_scope = Some(SelectionScope::Process(0));
    app.selection_start = Some(3);
    app.selection_end = Some(1);
    let range = app.selection_range_for(2).unwrap();
    assert_eq!(range, (1, 1));
}

#[test]
fn selection_text_joins_visible_lines() {
    let mut app = make_app();
    app.selection_scope = Some(SelectionScope::Process(0));
    app.selection_start = Some(0);
    app.selection_end = Some(1);
    app.visible_raw_lines = vec!["a".to_string(), "b".to_string(), "c".to_string()];
    assert_eq!(app.selection_text().unwrap(), "a\nb");
}

#[test]
fn selected_process_raw_text_strips_ansi_and_skips_pretty() {
    let mut app = make_app();
    if let Some(process) = app.processes.get_mut(0) {
        process.logs.push(LogLine {
            text: "\u{1b}[31mred\u{1b}[0m".to_string(),
            stream: StreamKind::Stdout,
        });
        process.logs.push(LogLine {
            text: "{\"a\":1}".to_string(),
            stream: StreamKind::Stdout,
        });
    }
    app.json_formatting = true;
    assert_eq!(app.selected_process_raw_text().unwrap(), "red\n{\"a\":1}");
}

#[test]
fn selection_scope_mismatch_returns_none() {
    let mut app = make_app();
    app.selection_scope = Some(SelectionScope::Process(0));
    app.selection_start = Some(0);
    app.selection_end = Some(1);
    app.timeline_view = true;
    assert!(app.selection_range().is_none());
}

#[test]
fn clear_selection_resets_state() {
    let mut app = make_app();
    app.selection_scope = Some(SelectionScope::Process(0));
    app.selection_start = Some(0);
    app.selection_end = Some(1);
    app.selection_active = true;
    app.clear_selection();
    assert!(app.selection_scope.is_none());
    assert!(app.selection_start.is_none());
    assert!(app.selection_end.is_none());
    assert!(!app.selection_active);
}

#[test]
fn process_signal_labels() {
    assert_eq!(ProcessSignal::SigInt.label(), "SIGINT");
    assert_eq!(ProcessSignal::SigTerm.label(), "SIGTERM");
}

#[test]
fn parse_cli_processes_splits_commands() {
    let args = vec![
        "--name".to_string(),
        "api".to_string(),
        "--".to_string(),
        "cargo".to_string(),
        "run".to_string(),
        "--name".to_string(),
        "web".to_string(),
        "--".to_string(),
        "pnpm".to_string(),
        "dev".to_string(),
    ];
    let specs = parse_cli_processes(&args, false).unwrap();
    assert_eq!(specs.len(), 2);
    assert_eq!(specs[0].name, "api");
    assert_eq!(specs[0].cmd, "cargo");
    assert_eq!(specs[0].args, vec!["run"]);
}

#[test]
fn log_buffer_drops_oldest() {
    let mut buffer = LogBuffer::new(2);
    buffer.push(LogLine {
        text: "a".into(),
        stream: StreamKind::Stdout,
    });
    buffer.push(LogLine {
        text: "b".into(),
        stream: StreamKind::Stdout,
    });
    let dropped = buffer.push(LogLine {
        text: "c".into(),
        stream: StreamKind::Stdout,
    });
    assert!(dropped);
    let lines = buffer.iter().map(|l| l.text.clone()).collect::<Vec<_>>();
    assert_eq!(lines, vec!["b", "c"]);
}

#[test]
fn timeline_buffer_drops_oldest() {
    let mut buffer = TimelineBuffer::new(1);
    buffer.push(TimelineEntry {
        text: "x".into(),
        process_id: 0,
    });
    let dropped = buffer.push(TimelineEntry {
        text: "y".into(),
        process_id: 1,
    });
    assert!(dropped);
    assert_eq!(buffer.len(), 1);
    assert_eq!(buffer.iter().next().unwrap().text, "y");
}

#[test]
fn normalize_version_strips_prefixes() {
    assert_eq!(normalize_version("v1.2.3"), Some("1.2.3".to_string()));
    assert_eq!(normalize_version("1.2.3-beta.1"), Some("1.2.3".to_string()));
    assert_eq!(normalize_version("1.2.3+build"), Some("1.2.3".to_string()));
}

#[test]
fn version_tuple_parses_semver() {
    assert_eq!(version_tuple("0.2.3"), Some((0, 2, 3)));
    assert_eq!(version_tuple("v10.4.1"), Some((10, 4, 1)));
}

#[test]
fn resolve_watch_paths_handles_absolute_and_relative() {
    let base = Path::new("/tmp/piperack-tests");
    let paths = vec!["src".to_string(), "/var/log".to_string()];
    let resolved = resolve_watch_paths(base.to_str().unwrap(), &paths);
    assert_eq!(PathBuf::from(&resolved[0]), base.join("src"));
    assert_eq!(PathBuf::from(&resolved[1]), PathBuf::from("/var/log"));
}

#[test]
fn expand_pattern_adds_recursive_glob_for_dirs() {
    let patterns = expand_pattern("src");
    assert_eq!(patterns, vec!["src".to_string(), "src/**".to_string()]);

    let trimmed = expand_pattern("src/");
    assert_eq!(trimmed, vec!["src".to_string(), "src/**".to_string()]);

    let globbed = expand_pattern("*.rs");
    assert_eq!(globbed, vec!["*.rs".to_string()]);
}
