use piperack::app::{App, AppAction, InputMode, LogViewport};
use piperack::input::{KeyCode, KeyEvent, MouseEvent, MouseKind};
use piperack::process::ProcessSpec;

fn make_spec(name: &str) -> ProcessSpec {
    ProcessSpec {
        name: name.to_string(),
        cmd: "echo".to_string(),
        args: Vec::new(),
        cwd: None,
        color: None,
        env: Vec::new(),
        restart_on_fail: false,
        follow: true,
        pre_cmd: None,
        watch_paths: Vec::new(),
        watch_ignore: Vec::new(),
        watch_ignore_gitignore: false,
        watch_debounce_ms: 200,
        depends_on: Vec::new(),
        ready_check: None,
        tags: vec!["be".to_string()],
    }
}

fn make_app() -> App {
    App::new(vec![make_spec("api")], 100, false, true)
}

fn key(code: KeyCode) -> KeyEvent {
    KeyEvent { code, ctrl: false }
}

#[test]
fn mouse_selection_freezes_follow() {
    let mut app = make_app();
    app.set_log_viewport(LogViewport {
        x: 0,
        y: 0,
        width: 10,
        height: 10,
    });
    app.process_list_width = 0;
    app.processes[0].follow = true;
    let mouse = MouseEvent {
        kind: MouseKind::LeftDown,
        column: 1,
        row: 1,
    };
    app.handle_mouse(mouse);
    assert!(!app.processes[0].follow);
    assert!(app.selection_active);
}

#[test]
fn keys_in_normal_mode() {
    let mut app = App::new(vec![make_spec("api"), make_spec("web")], 100, false, true);
    assert_eq!(app.handle_key(key(KeyCode::Down)), AppAction::NoOp);
    assert_eq!(app.selected, 1);
    assert_eq!(app.handle_key(key(KeyCode::Tab)), AppAction::NoOp);
    assert_eq!(app.selected, 0);
    assert_eq!(app.handle_key(key(KeyCode::Char('r'))), AppAction::Restart(0));
    assert_eq!(app.handle_key(key(KeyCode::Char('R'))), AppAction::RestartGroup("all".to_string()));
    assert_eq!(app.handle_key(key(KeyCode::Char('k'))), AppAction::Kill(0));
    assert_eq!(app.handle_key(KeyEvent { code: KeyCode::Char('c'), ctrl: true }), AppAction::CopySelection);
    app.handle_key(key(KeyCode::Char('g')));
    assert_eq!(app.input_mode, InputMode::Group);
    assert_eq!(app.input, "be");
    assert_eq!(app.handle_key(key(KeyCode::Enter)), AppAction::RestartGroup("be".to_string()));
    assert_eq!(app.input_mode, InputMode::Normal);
    assert_eq!(app.handle_key(key(KeyCode::Char('q'))), AppAction::Quit);
    assert!(app.should_quit);
}

#[test]
fn search_and_stdin_modes() {
    let mut app = make_app();
    app.handle_key(key(KeyCode::Char('/')));
    assert_eq!(app.input_mode, InputMode::Search);
    app.handle_key(key(KeyCode::Char('e')));
    app.handle_key(key(KeyCode::Char('r')));
    assert_eq!(app.search_query.as_deref(), Some("er"));
    app.handle_key(key(KeyCode::Backspace));
    assert_eq!(app.search_query.as_deref(), Some("e"));
    app.handle_key(key(KeyCode::Esc));
    assert_eq!(app.input_mode, InputMode::Normal);

    app.handle_key(key(KeyCode::Enter));
    assert_eq!(app.input_mode, InputMode::Input);
    app.handle_key(key(KeyCode::Char('l')));
    app.handle_key(key(KeyCode::Char('s')));
    assert_eq!(app.handle_key(key(KeyCode::Enter)), AppAction::SendInputText(0, "ls".to_string()));
    assert_eq!(
        app.handle_key(KeyEvent { code: KeyCode::Char('c'), ctrl: true }),
        AppAction::SendInputBytes(0, vec![3])
    );
    app.handle_key(key(KeyCode::Esc));
    assert_eq!(app.input_mode, InputMode::Normal);
    assert!(!app.processes[0].input_active);
}
