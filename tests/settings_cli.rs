use piperack::config::{arrange_specs, parse_named_commands, split_names, Config, NamesError, OutputMode};
use piperack::process::ProcessSpec;
use piperack::policy::SuccessPolicy;
use piperack::settings::{CliOptions, ConfigMeta, RunSettings};

fn strings(v: &[&str]) -> Vec<String> {
    v.iter().map(|s| s.to_string()).collect()
}

#[test]
fn names_are_split_and_trimmed() {
    assert_eq!(split_names(" api, web ,,db "), strings(&["api", "web", "db"]));
    assert!(split_names(" , ").is_empty());
}

#[test]
fn shorthand_commands_get_their_options() {
    let specs = parse_named_commands(
        "api,web",
        &strings(&["cargo run", "pnpm dev --port 3000"]),
        &strings(&["srv"]),
        &strings(&["web:PORT=3000", "0:RUST_LOG=debug", "CI=1", "nobody:X=1"]),
        &strings(&["red", "blue"]),
        &strings(&["make"]),
        true,
    )
    .unwrap();
    assert_eq!(specs.len(), 2);
    assert_eq!(specs[0].name, "api");
    assert_eq!(specs[0].cmd, "cargo");
    assert_eq!(specs[0].args, vec!["run"]);
    assert_eq!(specs[0].cwd.as_deref(), Some("srv"));
    assert_eq!(specs[1].cwd, None);
    assert_eq!(specs[1].color.as_deref(), Some("blue"));
    assert_eq!(
        specs[0].env,
        vec![
            ("RUST_LOG".to_string(), "debug".to_string()),
            ("CI".to_string(), "1".to_string()),
            ("nobody:X".to_string(), "1".to_string()),
        ]
    );
    assert_eq!(specs[1].env[0], ("PORT".to_string(), "3000".to_string()));
    assert_eq!(specs[1].pre_cmd.as_deref(), Some("make"));
    assert!(specs[1].restart_on_fail);
    assert_eq!(specs[1].args, vec!["dev", "--port", "3000"]);
}

#[test]
fn shorthand_errors() {
    let none: Vec<String> = Vec::new();
    let one = strings(&["x"]);
    assert_eq!(parse_named_commands(",", &one, &none, &none, &none, &none, false).unwrap_err(), NamesError::NoNames);
    assert_eq!(
        parse_named_commands("a,b", &one, &none, &none, &none, &none, false).unwrap_err(),
        NamesError::CountMismatch { expected: 2, got: 1 }
    );
    assert_eq!(
        parse_named_commands("a", &one, &none, &strings(&["a:NOEQ"]), &none, &none, false).unwrap_err(),
        NamesError::InvalidEnv { value: "NOEQ".to_string() }
    );
    assert!(matches!(
        parse_named_commands("a,b,c", &strings(&["x", "y", "z"]), &none, &none, &none, &strings(&["p", "q"]), false),
        Err(NamesError::Misaligned(_))
    ));
    assert_eq!(
        parse_named_commands("a", &strings(&["echo 'x"]), &none, &none, &none, &none, false).unwrap_err(),
        NamesError::UnparsableCommand { command: "echo 'x".to_string() }
    );
    assert_eq!(
        parse_named_commands("a", &strings(&[""]), &none, &none, &none, &none, false).unwrap_err(),
        NamesError::EmptyCommand { name: "a".to_string() }
    );
}

fn empty_config() -> Config {
    Config {
        max_lines: Some(50),
        symbols: Some(false),
        raw: None,
        prefix: Some("[{name}]".to_string()),
        prefix_length: Some(12),
        prefix_colors: None,
        timestamp: Some(true),
        output: Some("GROUPED".to_string()),
        success: Some("sometimes".to_string()),
        kill_others: None,
        kill_others_on_fail: Some(true),
        restart_tries: Some(3),
        restart_delay_ms: None,
        shutdown_sigint_ms: Some(100),
        shutdown_sigterm_ms: None,
        handle_input: Some(false),
        log_file: None,
        processes: Vec::new(),
    }
}

fn no_flags() -> CliOptions {
    CliOptions {
        max_lines: None,
        no_ui: false,
        raw: false,
        prefix: None,
        prefix_length: None,
        prefix_colors: false,
        timestamp: false,
        output: None,
        success: None,
        kill_others: false,
        kill_others_on_fail: false,
        restart_tries: None,
        restart_delay_ms: None,
        shutdown_sigint_ms: None,
        shutdown_sigterm_ms: None,
        no_input: false,
        log_file: None,
    }
}

#[test]
fn settings_layer_flags_over_file_over_defaults() {
    let config = empty_config();
    let meta = ConfigMeta::from_config(&config);
    assert_eq!(meta.output, Some(OutputMode::Grouped));
    assert_eq!(meta.success, None);
    let mut cli = no_flags();
    cli.restart_tries = Some(7);
    cli.success = Some(SuccessPolicy::First);
    let s = RunSettings::from_cli(&cli, meta, config.max_lines);
    assert_eq!(s.max_lines, 50);
    assert!(!s.use_symbols);
    assert_eq!(s.prefix.as_deref(), Some("[{name}]"));
    assert_eq!(s.prefix_length, Some(12));
    assert!(s.timestamp);
    assert_eq!(s.output_mode, OutputMode::Grouped);
    assert_eq!(s.success, SuccessPolicy::First);
    assert!(s.kill_others_on_fail);
    assert_eq!(s.restart_tries, Some(7));
    assert_eq!(s.shutdown_sigint_ms, 100);
    assert_eq!(s.shutdown_sigterm_ms, 800);
    assert!(!s.input_enabled);

    let d = RunSettings::from_cli(&no_flags(), ConfigMeta::default(), None);
    assert_eq!(d.max_lines, 10_000);
    assert!(d.use_symbols);
    assert_eq!(d.output_mode, OutputMode::Combined);
    assert_eq!(d.success, SuccessPolicy::Last);
    assert_eq!(d.shutdown_sigint_ms, 800);
    assert!(d.input_enabled);
}

#[test]
fn specs_are_listed_by_group_then_name() {
    let spec = |name: &str, tag: Option<&str>| ProcessSpec {
        name: name.to_string(),
        cmd: "true".to_string(),
        args: Vec::new(),
        cwd: None,
        color: None,
        env: Vec::new(),
        restart_on_fail: false,
        follow: true,
        pre_cmd: None,
        watch_paths: Vec::new(),
        watch_ignore: Vec::new(),
        watch_ignore_gitignore: false,
        watch_debounce_ms: 200,
        depends_on: Vec::new(),
        ready_check: None,
        tags: tag.map(|t| vec![t.to_string()]).unwrap_or_default(),
    };
    let arranged = arrange_specs(vec![spec("web", Some("fe")), spec("db", Some("be")), spec("zed", None), spec("api", Some("be"))]).unwrap();
    let names: Vec<&str> = arranged.iter().map(|s| s.name.as_str()).collect();
    assert_eq!(names, vec!["zed", "api", "db", "web"]);
    let dup = arrange_specs(vec![spec("a", None), spec("a", Some("x"))]).unwrap_err();
    assert_eq!(dup.name, "a");
}
