use piperack::app::App;
use piperack::display::{log_title, status_char, truncate, window_title};
use piperack::events::StreamKind;
use piperack::format::{apply_color, apply_prefix_length, render_template, strip_existing_prefix};
use piperack::process::{ProcessSpec, ProcessStatus};

fn spec(name: &str) -> ProcessSpec {
    ProcessSpec {
        name: name.to_string(),
        cmd: "echo".to_string(),
        args: Vec::new(),
        cwd: None,
        color: None,
        env: Vec::new(),
        restart_on_fail: false,
        follow: true,
        pre_cmd: None,
        watch_paths: Vec::new(),
        watch_ignore: Vec::new(),
        watch_ignore_gitignore: false,
        watch_debounce_ms: 200,
        depends_on: Vec::new(),
        ready_check: None,
        tags: Vec::new(),
    }
}

#[test]
fn templates_fill_all_tokens() {
    assert_eq!(render_template("[{name}:{index}] {time}", "api", 3, "00:05"), "[api:3] 00:05");
    assert_eq!(render_template("{name}{name}", "a", 0, ""), "aa");
    assert_eq!(render_template("plain", "a", 0, "t"), "plain");
}

#[test]
fn prefixes_are_cut_or_padded() {
    assert_eq!(apply_prefix_length("[api]".to_string(), Some(8)), "[api]   ");
    assert_eq!(apply_prefix_length("[frontend]".to_string(), Some(4)), "[fro");
    assert_eq!(apply_prefix_length("[api]".to_string(), None), "[api]");
    assert_eq!(apply_prefix_length("[api]".to_string(), Some(5)), "[api]");
}

#[test]
fn colors_wrap_known_names_only() {
    assert_eq!(apply_color("[api]", Some("Red")), "\u{1b}[31m[api]\u{1b}[0m");
    assert_eq!(apply_color("[api]", Some("grey")), "\u{1b}[90m[api]\u{1b}[0m");
    assert_eq!(apply_color("[api]", Some("plaid")), "[api]");
    assert_eq!(apply_color("[api]", None), "[api]");
}

#[test]
fn existing_prefixes_are_removed_once() {
    assert_eq!(strip_existing_prefix("api", "[api]   started"), "started");
    assert_eq!(strip_existing_prefix("api", "api: ready"), "ready");
    assert_eq!(strip_existing_prefix("api", "api \u{203a} go"), "go");
    assert_eq!(strip_existing_prefix("api", "api - done"), "done");
    assert_eq!(strip_existing_prefix("api", "web: other"), "web: other");
}

#[test]
fn titles_and_markers() {
    let mut app = App::new(vec![spec("api")], 10, true, true);
    assert_eq!(window_title(&app), "piperack \u{b7} api");
    assert_eq!(log_title(&app), "Logs - api (idle)");
    app.on_process_exited(0, Some(-1));
    assert_eq!(log_title(&app), "Logs - api (exited Some(-1))");
    app.timeline_view = true;
    assert_eq!(window_title(&app), "piperack \u{b7} timeline");
    assert_eq!(log_title(&app), "Timeline");
    assert_eq!(status_char(&ProcessStatus::Exited { code: Some(0) }, false), 'E');
    assert_eq!(status_char(&ProcessStatus::Exited { code: None }, false), 'X');
    assert_eq!(status_char(&ProcessStatus::Running, true), '\u{25b2}');
    assert_eq!(truncate("hello", 10), "hello");
    assert_eq!(truncate("hello world", 5), "hell~");
    assert_eq!(truncate("abc", 0), "");
}

#[test]
fn status_lines() {
    let mut app = App::new(vec![spec("api")], 10, true, true);
    app.on_process_started(0, 42, 1_000);
    app.on_process_output(0, "x".to_string(), StreamKind::Stdout);
    assert_eq!(
        app.status_line(66_000),
        "api | status: running | pid: 42 | lines: 1 | elapsed: 01:05 | follow: on | ansi: on | input: off"
    );
    app.on_process_failed(0, "boom".to_string());
    assert!(app.status_line(0).starts_with("api | status: failed (boom) | pid: 42"));
    app.timeline_view = true;
    assert_eq!(app.status_line(0), "Timeline | lines: 1 | follow: on | ansi: on");
    let empty = App::new(Vec::new(), 10, true, true);
    assert_eq!(empty.status_line(0), "No processes");
}
