use piperack::app::{
    control_byte, format_duration, sanitize_name, strip_carriage, App, InputMode, LogViewport,
    StatusLevel,
};
use piperack::events::StreamKind;
use piperack::output::sanitize_text;
use piperack::process::{ProcessSpec, ProcessStatus};
use piperack::version::update_available;

fn spec(name: &str, tag: Option<&str>) -> ProcessSpec {
    ProcessSpec {
        name: name.to_string(),
        cmd: "echo".to_string(),
        args: Vec::new(),
        cwd: None,
        color: None,
        env: Vec::new(),
        restart_on_fail: false,
        follow: true,
        pre_cmd: None,
        watch_paths: Vec::new(),
        watch_ignore: Vec::new(),
        watch_ignore_gitignore: false,
        watch_debounce_ms: 200,
        depends_on: Vec::new(),
        ready_check: None,
        tags: tag.map(|t| vec![t.to_string()]).unwrap_or_default(),
    }
}

#[test]
fn output_fills_logs_and_timeline_and_follows() {
    let mut app = App::new(vec![spec("api", None), spec("web", None)], 3, true, true);
    app.set_log_view_height(2);
    for i in 0..5 {
        app.on_process_output(0, format!("line {}", i), StreamKind::Stdout);
    }
    app.on_process_output(1, "web".to_string(), StreamKind::Stderr);
    assert_eq!(app.processes[0].logs.len(), 3);
    assert_eq!(app.processes[0].logs.get(0).text, "line 2");
    assert_eq!(app.processes[0].scroll, 1);
    assert_eq!(app.timeline.len(), 6);
    assert_eq!(app.timeline.get(5).process_id, 1);
}

#[test]
fn scrolling_stops_and_resumes_follow() {
    let mut app = App::new(vec![spec("api", None)], 100, true, true);
    app.set_log_view_height(2);
    for i in 0..10 {
        app.on_process_output(0, format!("{}", i), StreamKind::Stdout);
    }
    app.scroll_up(3);
    assert_eq!(app.processes[0].scroll, 5);
    assert!(!app.processes[0].follow);
    app.scroll_down(1);
    assert_eq!(app.processes[0].scroll, 6);
    assert!(!app.processes[0].follow);
    app.scroll_down(10);
    assert_eq!(app.processes[0].scroll, 8);
    assert!(app.processes[0].follow);
    app.scroll_to_top();
    assert_eq!(app.processes[0].scroll, 0);
    app.toggle_follow();
    assert!(app.processes[0].follow);
    assert_eq!(app.processes[0].scroll, 8);
}

#[test]
fn search_finds_and_centres_matches() {
    let mut app = App::new(vec![spec("api", None)], 100, true, true);
    app.set_log_view_height(4);
    for i in 0..20 {
        let text = if i % 5 == 0 { format!("error {}", i) } else { format!("ok {}", i) };
        app.on_process_output(0, text, StreamKind::Stdout);
    }
    app.search_query = Some("error".to_string());
    app.update_search_matches();
    assert_eq!(app.search_matches, vec![0, 5, 10, 15]);
    app.jump_search(true);
    assert_eq!(app.selected_match_line(), Some(5));
    assert_eq!(app.processes[0].scroll, 3);
    app.jump_search(false);
    app.jump_search(false);
    assert_eq!(app.selected_match_line(), Some(15));
}

#[test]
fn status_and_events() {
    let mut app = App::new(vec![spec("api", None)], 10, true, true);
    app.on_process_starting(0);
    assert_eq!(app.processes[0].status, ProcessStatus::Starting);
    app.on_process_started(0, 77, 1000);
    assert_eq!(app.processes[0].pid, Some(77));
    app.on_process_ready(0);
    assert!(app.processes[0].ready);
    app.on_process_exited(0, Some(2));
    assert_eq!(app.processes[0].exit_code, Some(2));
    app.on_process_failed(0, "boom".to_string());
    assert_eq!(app.processes[0].status, ProcessStatus::Failed { error: "boom".to_string() });
    app.set_status_message("saved".to_string(), 100);
    assert_eq!(app.status_message(3099).map(|(t, _)| t.to_string()), Some("saved".to_string()));
    assert!(app.status_message(3100).is_none());
    app.set_status_warning_persistent("careful".to_string(), 0);
    assert!(matches!(app.status_message(1_000_000), Some(("careful", StatusLevel::Warning))));
}

#[test]
fn input_mode_round_trip() {
    let mut app = App::new(vec![spec("api", None)], 10, true, true);
    app.enter_input_mode();
    assert_eq!(app.input_mode, InputMode::Input);
    assert!(app.processes[0].input_active);
    app.input_buffer.push_str("hello");
    assert_eq!(app.input_line(), "hello");
    app.exit_input_mode();
    assert_eq!(app.input_mode, InputMode::Normal);
    assert!(!app.processes[0].input_active);
    assert_eq!(app.input_line(), "");
}

#[test]
fn visual_rows_skip_group_headings() {
    let app = App::new(
        vec![spec("a", Some("be")), spec("b", Some("be")), spec("c", Some("fe")), spec("d", None)],
        10,
        true,
        true,
    );
    assert_eq!(app.process_index_at_visual_row(0), None);
    assert_eq!(app.process_index_at_visual_row(1), Some(0));
    assert_eq!(app.process_index_at_visual_row(2), Some(1));
    assert_eq!(app.process_index_at_visual_row(3), None);
    assert_eq!(app.process_index_at_visual_row(4), Some(2));
    assert_eq!(app.process_index_at_visual_row(5), None);
    assert_eq!(app.process_index_at_visual_row(6), Some(3));
    assert_eq!(app.process_index_at_visual_row(7), None);
}

#[test]
fn log_rows_and_follow_freeze() {
    let mut app = App::new(vec![spec("api", None)], 10, true, true);
    assert_eq!(app.log_row_at(1, 1), None);
    app.set_log_viewport(LogViewport { x: 2, y: 3, width: 10, height: 5 });
    assert_eq!(app.log_row_at(3, 2), Some(0));
    assert_eq!(app.log_row_at(7, 11), Some(4));
    assert_eq!(app.log_row_at(8, 5), None);
    assert_eq!(app.log_row_at(4, 1), None);
    app.freeze_follow_for_selection();
    assert!(!app.processes[0].follow);
    assert!(!app.is_following());
}

#[test]
fn small_text_helpers() {
    assert_eq!(format_duration(125), "02:05");
    assert_eq!(format_duration(6000), "100:00");
    assert_eq!(sanitize_name("my app/v1"), "my_app_v1");
    assert_eq!(control_byte('c'), Some(3));
    assert_eq!(control_byte('Z'), Some(26));
    assert_eq!(control_byte('1'), None);
    assert_eq!(strip_carriage("abc\rdef"), "def");
    assert_eq!(strip_carriage("abc\r"), "");
    assert_eq!(sanitize_text("\u{1b}[1mbold\u{1b}[0m", true), "bold");
    assert_eq!(sanitize_text("\u{1b}[1mbold", false), "\u{1b}[1mbold");
}

#[test]
fn update_is_announced_for_newer_release() {
    let u = update_available("0.2.3", "v0.3.0-rc1").unwrap();
    assert_eq!(u.current, "0.2.3");
    assert_eq!(u.latest, "0.3.0");
    assert!(update_available("1.0.0", "v1.0.0").is_none());
    assert!(update_available("1.0.0", "latest").is_none());
}

#[test]
fn release_cache_freshness() {
    use_cache_checks();
}

fn use_cache_checks() {
    assert!(piperack::version::cache_is_fresh(1_000, 1_000));
    assert!(piperack::version::cache_is_fresh(86_399, 0));
    assert!(!piperack::version::cache_is_fresh(86_400, 0));
    assert!(piperack::version::cache_is_fresh(0, 50));
}
