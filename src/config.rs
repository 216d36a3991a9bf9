//! The run configuration: the configuration file's schema and the parsing of
//! process definitions given on the command line.

use vstd::prelude::*;

use crate::policy::SuccessPolicy;
use crate::process::{ProcessSpec, ReadinessCheck};
use crate::text::{chars_of, copy_string, same_text, string_of};

verus! {

/// The configuration file.
#[derive(Debug, Clone)]
pub struct Config {
    pub max_lines: Option<usize>,
    pub symbols: Option<bool>,
    pub raw: Option<bool>,
    pub prefix: Option<String>,
    pub prefix_length: Option<usize>,
    pub prefix_colors: Option<bool>,
    pub timestamp: Option<bool>,
    pub output: Option<String>,
    pub success: Option<String>,
    pub kill_others: Option<bool>,
    pub kill_others_on_fail: Option<bool>,
    pub restart_tries: Option<u32>,
    pub restart_delay_ms: Option<u64>,
    pub shutdown_sigint_ms: Option<u64>,
    pub shutdown_sigterm_ms: Option<u64>,
    pub handle_input: Option<bool>,
    pub log_file: Option<String>,
    pub processes: Vec<ProcessConfig>,
}

/// One process of the configuration file.
#[derive(Debug, Clone)]
pub struct ProcessConfig {
    pub name: String,
    pub cmd: String,
    pub cwd: Option<String>,
    pub color: Option<String>,
    pub env: Option<Vec<(String, String)>>,
    pub restart_on_fail: Option<bool>,
    pub follow: Option<bool>,
    pub pre_cmd: Option<String>,
    pub watch: Option<Vec<String>>,
    pub watch_ignore: Option<Vec<String>>,
    pub watch_ignore_gitignore: Option<bool>,
    pub watch_debounce_ms: Option<u64>,
    pub depends_on: Option<Vec<String>>,
    pub ready_check: Option<ReadinessCheck>,
    pub tags: Option<Vec<String>>,
}

/// How output is printed without the terminal UI.
#[derive(Debug, Clone, Copy, PartialEq, Eq, Structural)]
pub enum OutputMode {
    Combined,
    Grouped,
    Raw,
}

/// The debounce interval of a process defined without one, in milliseconds.
pub const DEFAULT_DEBOUNCE_MS: u64 = 200;

/// Why the process definitions on the command line were refused.
#[derive(Debug, Clone, PartialEq, Eq)]
pub enum CliError {
    /// A definition did not start with `--name`.
    ExpectedName { got: String },
    /// `--name` was the last argument.
    MissingName,
    /// An option that takes a value was the last argument.
    MissingValue { option: String },
    /// An `--env` value without `=`.
    InvalidEnv { value: String },
    /// A `--watch-debounce-ms` value that is not a `u64`.
    InvalidDebounce,
    /// An option this parser does not know.
    UnknownOption { option: String, name: String },
    /// The options of a definition did not end with `--`.
    ExpectedSeparator { name: String },
    /// Nothing followed `--`.
    MissingCommand { name: String },
}

/// A command-line error as character sequences.
pub enum CliErrorView {
    ExpectedName(Seq<char>),
    MissingName,
    MissingValue(Seq<char>),
    InvalidEnv(Seq<char>),
    InvalidDebounce,
    UnknownOption(Seq<char>, Seq<char>),
    ExpectedSeparator(Seq<char>),
    MissingCommand(Seq<char>),
}

pub open spec fn error_view(e: CliError) -> CliErrorView {
    match e {
        CliError::ExpectedName { got } => CliErrorView::ExpectedName(got@),
        CliError::MissingName => CliErrorView::MissingName,
        CliError::MissingValue { option } => CliErrorView::MissingValue(option@),
        CliError::InvalidEnv { value } => CliErrorView::InvalidEnv(value@),
        CliError::InvalidDebounce => CliErrorView::InvalidDebounce,
        CliError::UnknownOption { option, name } => CliErrorView::UnknownOption(option@, name@),
        CliError::ExpectedSeparator { name } => CliErrorView::ExpectedSeparator(name@),
        CliError::MissingCommand { name } => CliErrorView::MissingCommand(name@),
    }
}

/// A process defined on the command line, as character sequences.
pub struct CliSpecView {
    pub name: Seq<char>,
    pub cmd: Seq<char>,
    pub args: Seq<Seq<char>>,
    pub cwd: Option<Seq<char>>,
    pub color: Option<Seq<char>>,
    pub env: Seq<(Seq<char>, Seq<char>)>,
    pub restart_on_fail: bool,
    pub follow: bool,
    pub pre_cmd: Option<Seq<char>>,
    pub watch_paths: Seq<Seq<char>>,
    pub watch_ignore: Seq<Seq<char>>,
    pub watch_ignore_gitignore: bool,
    pub watch_debounce_ms: u64,
}

pub open spec fn strs(v: Seq<String>) -> Seq<Seq<char>> {
    v.map_values(|s: String| s@)
}

pub open spec fn opt_str(o: Option<String>) -> Option<Seq<char>> {
    match o {
        Some(s) => Some(s@),
        None => None,
    }
}

pub open spec fn pairs(v: Seq<(String, String)>) -> Seq<(Seq<char>, Seq<char>)> {
    v.map_values(|p: (String, String)| (p.0@, p.1@))
}

/// A spec as the command line describes it; a spec from the command line has no
/// dependencies, readiness check or tags.
pub open spec fn cli_view(s: ProcessSpec) -> CliSpecView {
    CliSpecView {
        name: s.name@,
        cmd: s.cmd@,
        args: strs(s.args@),
        cwd: opt_str(s.cwd),
        color: opt_str(s.color),
        env: pairs(s.env@),
        restart_on_fail: s.restart_on_fail,
        follow: s.follow,
        pre_cmd: opt_str(s.pre_cmd),
        watch_paths: strs(s.watch_paths@),
        watch_ignore: strs(s.watch_ignore@),
        watch_ignore_gitignore: s.watch_ignore_gitignore,
        watch_debounce_ms: s.watch_debounce_ms,
    }
}

pub open spec fn plain_cli_spec(s: ProcessSpec) -> bool {
    s.depends_on@.len() == 0 && s.ready_check.is_none() && s.tags@.len() == 0
}

/// `KEY=VALUE` split at the first `=`.
pub open spec fn env_split(s: Seq<char>) -> Option<(Seq<char>, Seq<char>)> {
    if exists|i: int| 0 <= i < s.len() && s[i] == '=' {
        let i = choose|i: int| 0 <= i < s.len() && s[i] == '=' && forall|j: int| 0 <= j < i ==> s[j] != '=';
        Some((s.subrange(0, i), s.subrange(i + 1, s.len() as int)))
    } else {
        None
    }
}

/// Splits `KEY=VALUE` at the first `=`.
pub fn split_env(value: &str) -> (r: Result<(String, String), CliError>)
    ensures
        env_split(value@) is None ==> (r matches Err(CliError::InvalidEnv { value: v }) && v@ == value@),
        env_split(value@) matches Some((k, v)) ==> (r matches Ok((a, b)) && a@ == k && b@ == v),
{
    let c = chars_of(value);
    let mut i: usize = 0;
    while i < c.len()
        invariant
            c@ == value@,
            i <= c@.len(),
            forall|j: int| 0 <= j < i ==> c@[j] != '=',
        decreases c@.len() - i,
    {
        if c[i] == '=' {
            let mut key: Vec<char> = Vec::new();
            let mut k: usize = 0;
            while k < i
                invariant
                    i < c@.len(),
                    k <= i,
                    key@ == c@.subrange(0, k as int),
                decreases i - k,
            {
                key.push(c[k]);
                k += 1;
            }
            let mut val: Vec<char> = Vec::new();
            let mut k: usize = i + 1;
            while k < c.len()
                invariant
                    i < c@.len(),
                    i + 1 <= k <= c@.len(),
                    val@ == c@.subrange(i + 1, k as int),
                decreases c@.len() - k,
            {
                val.push(c[k]);
                k += 1;
            }
            proof {
                let w = choose|w: int| 0 <= w < value@.len() && value@[w] == '=' && forall|j: int| 0 <= j < w ==> value@[j] != '=';
                assert(w == i) by {
                    if w < i {
                        assert(c@[w] != '=');
                    }
                    if w > i {
                        assert(value@[i as int] != '=');
                    }
                }
            }
            return Ok((string_of(key.as_slice()), string_of(val.as_slice())));
        }
        i += 1;
    }
    Err(CliError::InvalidEnv { value: string_of(c.as_slice()) })
}

/// What Rust's `u64` parsing makes of `s`: an optional `+`, then digits.
pub open spec fn std_u64(s: Seq<char>) -> Option<u64> {
    if s.len() > 0 && s[0] == '+' {
        crate::version::parsed_u64(s.subrange(1, s.len() as int))
    } else {
        crate::version::parsed_u64(s)
    }
}

fn parse_u64_str(s: &String) -> (r: Option<u64>)
    ensures
        r == std_u64(s@),
{
    let v = chars_of(s.as_str());
    if v.len() > 0 && v[0] == '+' {
        crate::version::parse_u64(&v, 1, v.len())
    } else {
        proof {
            assert(v@.subrange(0, v@.len() as int) =~= v@);
        }
        crate::version::parse_u64(&v, 0, v.len())
    }
}

/// Where the command-line parser is: before a definition, among its options,
/// or among its command words (`first` until the first word).
pub enum Phase {
    Start,
    Options,
    Command(bool),
}

pub open spec fn phase_rank(p: Phase) -> int {
    match p {
        Phase::Start => 0,
        Phase::Options => 1,
        Phase::Command(_) => 2,
    }
}

/// The definition a `--name` opens, with the defaults.
pub open spec fn fresh(name: Seq<char>, restart_on_fail: bool) -> CliSpecView {
    CliSpecView {
        name,
        cmd: seq![],
        args: seq![],
        cwd: None,
        color: None,
        env: seq![],
        restart_on_fail,
        follow: true,
        pre_cmd: None,
        watch_paths: seq![],
        watch_ignore: seq![],
        watch_ignore_gitignore: false,
        watch_debounce_ms: DEFAULT_DEBOUNCE_MS,
    }
}

pub open spec fn takes_value(a: Seq<char>) -> bool {
    a == "--cwd"@ || a == "--env"@ || a == "--color"@ || a == "--pre"@ || a == "--watch"@
        || a == "--watch-ignore"@ || a == "--watch-debounce-ms"@
}

/// `acc` with option `a` set to `v`.
pub open spec fn with_value(acc: CliSpecView, a: Seq<char>, v: Seq<char>) -> Result<CliSpecView, CliErrorView> {
    if a == "--cwd"@ {
        Ok(CliSpecView { cwd: Some(v), ..acc })
    } else if a == "--env"@ {
        match env_split(v) {
            Some(kv) => Ok(CliSpecView { env: acc.env.push(kv), ..acc }),
            None => Err(CliErrorView::InvalidEnv(v)),
        }
    } else if a == "--color"@ {
        Ok(CliSpecView { color: Some(v), ..acc })
    } else if a == "--pre"@ {
        Ok(CliSpecView { pre_cmd: Some(v), ..acc })
    } else if a == "--watch"@ {
        Ok(CliSpecView { watch_paths: acc.watch_paths.push(v), ..acc })
    } else if a == "--watch-ignore"@ {
        Ok(CliSpecView { watch_ignore: acc.watch_ignore.push(v), ..acc })
    } else {
        match std_u64(v) {
            Some(n) => Ok(CliSpecView { watch_debounce_ms: n, ..acc }),
            None => Err(CliErrorView::InvalidDebounce),
        }
    }
}

/// `acc` with flag `a`, if `a` is a flag.
pub open spec fn with_flag(acc: CliSpecView, a: Seq<char>) -> Option<CliSpecView> {
    if a == "--follow"@ {
        Some(CliSpecView { follow: true, ..acc })
    } else if a == "--no-follow"@ {
        Some(CliSpecView { follow: false, ..acc })
    } else if a == "--restart-on-fail"@ {
        Some(CliSpecView { restart_on_fail: true, ..acc })
    } else if a == "--no-restart-on-fail"@ {
        Some(CliSpecView { restart_on_fail: false, ..acc })
    } else if a == "--watch-ignore-gitignore"@ {
        Some(CliSpecView { watch_ignore_gitignore: true, ..acc })
    } else {
        None
    }
}

/// The grammar of process definitions on the command line:
/// `(--name NAME OPTION* -- CMD ARG*)*`, where the command words run up to the
/// next `--name`. Reads from position `i` in phase `p`, with the definition in
/// progress `acc` and the finished ones `done`.
pub open spec fn parse_run(
    args: Seq<Seq<char>>,
    i: int,
    p: Phase,
    acc: CliSpecView,
    done: Seq<CliSpecView>,
    restart_on_fail: bool,
) -> Result<Seq<CliSpecView>, CliErrorView>
    decreases args.len() - i, phase_rank(p),
{
    if i < 0 {
        Err(CliErrorView::MissingName)
    } else {
        match p {
            Phase::Start => if i >= args.len() {
                Ok(done)
            } else if args[i] != "--name"@ {
                Err(CliErrorView::ExpectedName(args[i]))
            } else if i + 1 >= args.len() {
                Err(CliErrorView::MissingName)
            } else {
                parse_run(args, i + 2, Phase::Options, fresh(args[i + 1], restart_on_fail), done, restart_on_fail)
            },
            Phase::Options => if i >= args.len() {
                Err(CliErrorView::ExpectedSeparator(acc.name))
            } else if args[i] == "--"@ {
                parse_run(args, i + 1, Phase::Command(true), acc, done, restart_on_fail)
            } else if takes_value(args[i]) {
                if i + 1 >= args.len() {
                    Err(CliErrorView::MissingValue(args[i]))
                } else {
                    match with_value(acc, args[i], args[i + 1]) {
                        Ok(next) => parse_run(args, i + 2, Phase::Options, next, done, restart_on_fail),
                        Err(e) => Err(e),
                    }
                }
            } else {
                match with_flag(acc, args[i]) {
                    Some(next) => parse_run(args, i + 1, Phase::Options, next, done, restart_on_fail),
                    None => Err(CliErrorView::UnknownOption(args[i], acc.name)),
                }
            },
            Phase::Command(first) => if i >= args.len() || args[i] == "--name"@ {
                if first {
                    Err(CliErrorView::MissingCommand(acc.name))
                } else {
                    parse_run(args, i, Phase::Start, acc, done.push(acc), restart_on_fail)
                }
            } else if first {
                parse_run(args, i + 1, Phase::Command(false), CliSpecView { cmd: args[i], ..acc }, done, restart_on_fail)
            } else {
                parse_run(args, i + 1, Phase::Command(false), CliSpecView { args: acc.args.push(args[i]), ..acc }, done, restart_on_fail)
            },
        }
    }
}

/// The process definitions the arguments give.
pub open spec fn cli_definitions(args: Seq<Seq<char>>, restart_on_fail: bool) -> Result<Seq<CliSpecView>, CliErrorView> {
    parse_run(args, 0, Phase::Start, fresh(seq![], restart_on_fail), seq![], restart_on_fail)
}

/// The definition in progress, as exec values.
struct Draft {
    name: String,
    words: Vec<String>,
    cwd: Option<String>,
    color: Option<String>,
    env: Vec<(String, String)>,
    restart_on_fail: bool,
    follow: bool,
    pre_cmd: Option<String>,
    watch_paths: Vec<String>,
    watch_ignore: Vec<String>,
    watch_ignore_gitignore: bool,
    watch_debounce_ms: u64,
}

spec fn draft_view(d: Draft) -> CliSpecView {
    CliSpecView {
        name: d.name@,
        cmd: if d.words@.len() > 0 { d.words@[0]@ } else { seq![] },
        args: if d.words@.len() > 0 { strs(d.words@.subrange(1, d.words@.len() as int)) } else { seq![] },
        cwd: opt_str(d.cwd),
        color: opt_str(d.color),
        env: pairs(d.env@),
        restart_on_fail: d.restart_on_fail,
        follow: d.follow,
        pre_cmd: opt_str(d.pre_cmd),
        watch_paths: strs(d.watch_paths@),
        watch_ignore: strs(d.watch_ignore@),
        watch_ignore_gitignore: d.watch_ignore_gitignore,
        watch_debounce_ms: d.watch_debounce_ms,
    }
}

fn fresh_draft(name: String, restart_on_fail: bool) -> (d: Draft)
    ensures
        draft_view(d) == fresh(name@, restart_on_fail),
        d.words@.len() == 0,
{
    let d = Draft {
        name,
        words: Vec::new(),
        cwd: None,
        color: None,
        env: Vec::new(),
        restart_on_fail,
        follow: true,
        pre_cmd: None,
        watch_paths: Vec::new(),
        watch_ignore: Vec::new(),
        watch_ignore_gitignore: false,
        watch_debounce_ms: DEFAULT_DEBOUNCE_MS,
    };
    assert(draft_view(d).watch_paths =~= seq![]);
    assert(draft_view(d).watch_ignore =~= seq![]);
    assert(draft_view(d).env =~= seq![]);
    d
}

fn finish(d: Draft) -> (s: ProcessSpec)
    requires
        d.words@.len() > 0,
    ensures
        cli_view(s) == draft_view(d),
        plain_cli_spec(s),
{
    let mut words = d.words;
    let ghost w = words@;
    let cmd = words.remove(0);
    assert(strs(words@) =~= strs(w.subrange(1, w.len() as int)));
    let s = ProcessSpec {
        name: d.name,
        cmd,
        args: words,
        cwd: d.cwd,
        color: d.color,
        env: d.env,
        restart_on_fail: d.restart_on_fail,
        follow: d.follow,
        pre_cmd: d.pre_cmd,
        watch_paths: d.watch_paths,
        watch_ignore: d.watch_ignore,
        watch_ignore_gitignore: d.watch_ignore_gitignore,
        watch_debounce_ms: d.watch_debounce_ms,
        depends_on: Vec::new(),
        ready_check: None,
        tags: Vec::new(),
    };
    s
}

pub open spec fn specs_view(v: Seq<ProcessSpec>) -> Seq<CliSpecView> {
    v.map_values(|s: ProcessSpec| cli_view(s))
}

/// Parses process definitions given as `--name NAME [OPTION...] -- CMD [ARG...]`,
/// repeated.
pub fn parse_cli_processes(args: &Vec<String>, restart_on_fail: bool) -> (r: Result<Vec<ProcessSpec>, CliError>)
    ensures
        match cli_definitions(strs(args@), restart_on_fail) {
            Ok(v) => r matches Ok(specs) && specs_view(specs@) == v && forall|i: int|
                0 <= i < specs@.len() ==> plain_cli_spec(#[trigger] specs@[i]),
            Err(e) => r matches Err(x) && error_view(x) == e,
        },
{
    let ghost a = strs(args@);
    let mut specs: Vec<ProcessSpec> = Vec::new();
    let mut phase: u8 = 0;
    let mut first = true;
    let mut draft = fresh_draft(String::new(), restart_on_fail);
    let mut idx: usize = 0;
    let n = args.len();
    proof {
        assert(specs_view(specs@) =~= seq![]);
    }
    loop
        invariant
            n == args@.len(),
            a == strs(args@),
            idx <= n,
            phase <= 2,
            phase == 2 ==> (first <==> draft.words@.len() == 0),
            phase <= 1 ==> draft.words@.len() == 0,
            forall|i: int| 0 <= i < specs@.len() ==> plain_cli_spec(#[trigger] specs@[i]),
            cli_definitions(a, restart_on_fail) == parse_run(
                a,
                idx as int,
                if phase == 0 { Phase::Start } else if phase == 1 { Phase::Options } else { Phase::Command(first) },
                draft_view(draft),
                specs_view(specs@),
                restart_on_fail,
            ),
        decreases n - idx, phase,
    {
        if phase == 0 {
            if idx >= n {
                return Ok(specs);
            }
            if !same_text(args[idx].as_str(), "--name") {
                return Err(CliError::ExpectedName { got: copy_string(&args[idx]) });
            }
            if idx + 1 >= n {
                return Err(CliError::MissingName);
            }
            draft = fresh_draft(copy_string(&args[idx + 1]), restart_on_fail);
            phase = 1;
            idx = idx + 2;
        } else if phase == 1 {
            if idx >= n {
                return Err(CliError::ExpectedSeparator { name: copy_string(&draft.name) });
            }
            let arg = &args[idx];
            if same_text(arg.as_str(), "--") {
                phase = 2;
                first = true;
                idx = idx + 1;
            } else if same_text(arg.as_str(), "--cwd") || same_text(arg.as_str(), "--env") || same_text(arg.as_str(), "--color")
                || same_text(arg.as_str(), "--pre") || same_text(arg.as_str(), "--watch") || same_text(arg.as_str(), "--watch-ignore")
                || same_text(arg.as_str(), "--watch-debounce-ms") {
                if idx + 1 >= n {
                    return Err(CliError::MissingValue { option: copy_string(arg) });
                }
                let v = &args[idx + 1];
                let ghost before = draft_view(draft);
                if same_text(arg.as_str(), "--cwd") {
                    draft.cwd = Some(copy_string(v));
                } else if same_text(arg.as_str(), "--env") {
                    match split_env(v.as_str()) {
                        Ok(kv) => {
                            let ghost e0 = draft.env@;
                            draft.env.push(kv);
                            assert(pairs(draft.env@) =~= pairs(e0).push((kv.0@, kv.1@)));
                        },
                        Err(e) => return Err(e),
                    }
                } else if same_text(arg.as_str(), "--color") {
                    draft.color = Some(copy_string(v));
                } else if same_text(arg.as_str(), "--pre") {
                    draft.pre_cmd = Some(copy_string(v));
                } else if same_text(arg.as_str(), "--watch") {
                    let ghost w0 = draft.watch_paths@;
                    let c = copy_string(v);
                    draft.watch_paths.push(c);
                    assert(strs(draft.watch_paths@) =~= strs(w0).push(c@));
                } else if same_text(arg.as_str(), "--watch-ignore") {
                    let ghost w0 = draft.watch_ignore@;
                    let c = copy_string(v);
                    draft.watch_ignore.push(c);
                    assert(strs(draft.watch_ignore@) =~= strs(w0).push(c@));
                } else {
                    match parse_u64_str(v) {
                        Some(ms) => draft.watch_debounce_ms = ms,
                        None => return Err(CliError::InvalidDebounce),
                    }
                }
                idx = idx + 2;
            } else if same_text(arg.as_str(), "--follow") {
                draft.follow = true;
                idx = idx + 1;
            } else if same_text(arg.as_str(), "--no-follow") {
                draft.follow = false;
                idx = idx + 1;
            } else if same_text(arg.as_str(), "--restart-on-fail") {
                draft.restart_on_fail = true;
                idx = idx + 1;
            } else if same_text(arg.as_str(), "--no-restart-on-fail") {
                draft.restart_on_fail = false;
                idx = idx + 1;
            } else if same_text(arg.as_str(), "--watch-ignore-gitignore") {
                draft.watch_ignore_gitignore = true;
                idx = idx + 1;
            } else {
                return Err(CliError::UnknownOption { option: copy_string(arg), name: copy_string(&draft.name) });
            }
        } else {
            if idx >= n || same_text(args[idx].as_str(), "--name") {
                if first {
                    return Err(CliError::MissingCommand { name: copy_string(&draft.name) });
                }
                let done = draft;
                draft = fresh_draft(String::new(), restart_on_fail);
                let ghost dv = draft_view(done);
                let ghost s0 = specs@;
                let spec = finish(done);
                specs.push(spec);
                assert(specs_view(specs@) =~= specs_view(s0).push(dv));
                phase = 0;
                assert(parse_run(a, idx as int, Phase::Start, dv, specs_view(specs@), restart_on_fail)
                    == parse_run(a, idx as int, Phase::Start, draft_view(draft), specs_view(specs@), restart_on_fail));
            } else {
                let ghost w0 = draft.words@;
                let c = copy_string(&args[idx]);
                draft.words.push(c);
                proof {
                    if w0.len() == 0 {
                        assert(strs(draft.words@.subrange(1, draft.words@.len() as int)) =~= seq![]);
                    }
                    if w0.len() > 0 {
                        assert(draft.words@.subrange(1, draft.words@.len() as int) =~= w0.subrange(1, w0.len() as int).push(c));
                        assert(strs(draft.words@.subrange(1, draft.words@.len() as int)) =~= strs(w0.subrange(1, w0.len() as int)).push(c@));
                    }
                }
                first = false;
                idx = idx + 1;
            }
        }
    }
}

/// Two specs share this name.
#[derive(Debug, Clone, PartialEq, Eq)]
pub struct DuplicateName {
    pub name: String,
}

/// No two specs share a name.
pub open spec fn unique_names(specs: Seq<ProcessSpec>) -> bool {
    forall|i: int, j: int|
        0 <= i < specs.len() && 0 <= j < specs.len() && i != j ==> specs[i].name@ != specs[j].name@
}

/// Fails with a name that two specs share, if any.
pub fn ensure_unique_names(specs: &Vec<ProcessSpec>) -> (r: Result<(), DuplicateName>)
    ensures
        r is Ok <==> unique_names(specs@),
        r matches Err(e) ==> exists|i: int, j: int|
            0 <= i < j < specs@.len() && specs@[i].name@ == e.name@ && specs@[j].name@ == e.name@,
{
    let mut i: usize = 0;
    while i < specs.len()
        invariant
            i <= specs@.len(),
            forall|a: int, b: int|
                0 <= a < specs@.len() && 0 <= b < i && a != b ==> specs@[a].name@ != specs@[b].name@,
        decreases specs@.len() - i,
    {
        let mut j: usize = 0;
        while j < specs.len()
            invariant
                i < specs@.len(),
                j <= specs@.len(),
                forall|a: int, b: int|
                    0 <= a < specs@.len() && 0 <= b < i && a != b ==> specs@[a].name@ != specs@[b].name@,
                forall|a: int| 0 <= a < j && a != i ==> specs@[a].name@ != specs@[i as int].name@,
            decreases specs@.len() - j,
        {
            if j != i && same_text(specs[i].name.as_str(), specs[j].name.as_str()) {
                let name = copy_string(&specs[i].name);
                proof {
                    if i < j {
                        assert(0 <= i < j < specs@.len() && specs@[i as int].name@ == name@ && specs@[j as int].name@ == name@);
                    } else {
                        assert(0 <= j < i < specs@.len() && specs@[j as int].name@ == name@ && specs@[i as int].name@ == name@);
                    }
                }
                return Err(DuplicateName { name });
            }
            j += 1;
        }
        i += 1;
    }
    Ok(())
}

/// What `str::to_lowercase` makes of a text.
pub uninterp spec fn lower_of(s: Seq<char>) -> Seq<char>;

/// Relies on `str::to_lowercase`: the result depends on the characters alone.
#[verifier::external_body]
pub(crate) fn lowercase(s: &str) -> (r: String)
    ensures
        r@ == lower_of(s@),
{
    s.to_lowercase()
}

/// A configuration value outside its allowed set.
#[derive(Debug, Clone, PartialEq, Eq)]
pub struct InvalidChoice {
    pub value: String,
}

/// The output mode a lowercased value names.
pub open spec fn output_mode_of(lower: Seq<char>) -> Option<OutputMode> {
    if lower == "combined"@ {
        Some(OutputMode::Combined)
    } else if lower == "grouped"@ {
        Some(OutputMode::Grouped)
    } else if lower == "raw"@ {
        Some(OutputMode::Raw)
    } else {
        None
    }
}

/// Reads an output mode, ignoring case.
pub fn parse_output_mode(value: &str) -> (r: Result<OutputMode, InvalidChoice>)
    ensures
        match output_mode_of(lower_of(value@)) {
            Some(m) => r == Ok::<OutputMode, InvalidChoice>(m),
            None => r matches Err(e) && e.value@ == value@,
        },
{
    let lower = lowercase(value);
    choose_output_mode(&lower, value)
}

/// The output mode `lower` names.
pub fn choose_output_mode(lower: &String, value: &str) -> (r: Result<OutputMode, InvalidChoice>)
    ensures
        match output_mode_of(lower@) {
            Some(m) => r == Ok::<OutputMode, InvalidChoice>(m),
            None => r matches Err(e) && e.value@ == value@,
        },
{
    if same_text(lower.as_str(), "combined") {
        Ok(OutputMode::Combined)
    } else if same_text(lower.as_str(), "grouped") {
        Ok(OutputMode::Grouped)
    } else if same_text(lower.as_str(), "raw") {
        Ok(OutputMode::Raw)
    } else {
        let v = chars_of(value);
        Err(InvalidChoice { value: string_of(v.as_slice()) })
    }
}

/// The success policy a lowercased value names.
pub open spec fn success_policy_of(lower: Seq<char>) -> Option<SuccessPolicy> {
    if lower == "first"@ {
        Some(SuccessPolicy::First)
    } else if lower == "last"@ {
        Some(SuccessPolicy::Last)
    } else if lower == "all"@ {
        Some(SuccessPolicy::All)
    } else {
        None
    }
}

/// Reads a success policy, ignoring case.
pub fn parse_success_policy(value: &str) -> (r: Result<SuccessPolicy, InvalidChoice>)
    ensures
        match success_policy_of(lower_of(value@)) {
            Some(p) => r == Ok::<SuccessPolicy, InvalidChoice>(p),
            None => r matches Err(e) && e.value@ == value@,
        },
{
    let lower = lowercase(value);
    choose_success_policy(&lower, value)
}

/// The success policy `lower` names.
pub fn choose_success_policy(lower: &String, value: &str) -> (r: Result<SuccessPolicy, InvalidChoice>)
    ensures
        match success_policy_of(lower@) {
            Some(p) => r == Ok::<SuccessPolicy, InvalidChoice>(p),
            None => r matches Err(e) && e.value@ == value@,
        },
{
    if same_text(lower.as_str(), "first") {
        Ok(SuccessPolicy::First)
    } else if same_text(lower.as_str(), "last") {
        Ok(SuccessPolicy::Last)
    } else if same_text(lower.as_str(), "all") {
        Ok(SuccessPolicy::All)
    } else {
        let v = chars_of(value);
        Err(InvalidChoice { value: string_of(v.as_slice()) })
    }
}

/// A per-process option given on the command line with a count that matches
/// neither one shared value nor one per process.
#[derive(Debug, Clone, PartialEq, Eq)]
pub struct MisalignedList {
    pub expected: usize,
    pub got: usize,
}

/// Spreads per-process values over `len` processes: none for each when there
/// are none, the one value for each when there is one (and several processes),
/// else exactly one value per process.
pub fn parse_aligned_list(values: &Vec<String>, len: usize) -> (r: Result<Vec<Option<String>>, MisalignedList>)
    ensures
        values@.len() == 0 ==> (r matches Ok(v) && v@.len() == len && forall|i: int| 0 <= i < len ==> (#[trigger] v@[i]) is None),
        values@.len() == 1 && len > 1 ==> (r matches Ok(v) && v@.len() == len && forall|i: int|
            0 <= i < len ==> opt_str(#[trigger] v@[i]) == Some(values@[0]@)),
        values@.len() > 0 && !(values@.len() == 1 && len > 1) && values@.len() == len ==> (r matches Ok(v)
            && v@.len() == len && forall|i: int| 0 <= i < len ==> opt_str(#[trigger] v@[i]) == Some(values@[i]@)),
        values@.len() > 0 && !(values@.len() == 1 && len > 1) && values@.len() != len ==> r == Err::<
            Vec<Option<String>>,
            MisalignedList,
        >(MisalignedList { expected: len, got: values@.len() as usize }),
{
    let mut out: Vec<Option<String>> = Vec::new();
    if values.len() == 0 {
        let mut i: usize = 0;
        while i < len
            invariant
                i <= len,
                out@.len() == i,
                forall|k: int| 0 <= k < i ==> (#[trigger] out@[k]) is None,
            decreases len - i,
        {
            out.push(None);
            i += 1;
        }
        return Ok(out);
    }
    if values.len() == 1 && len > 1 {
        let mut i: usize = 0;
        while i < len
            invariant
                values@.len() == 1,
                i <= len,
                out@.len() == i,
                forall|k: int| 0 <= k < i ==> opt_str(#[trigger] out@[k]) == Some(values@[0]@),
            decreases len - i,
        {
            out.push(Some(copy_string(&values[0])));
            i += 1;
        }
        return Ok(out);
    }
    if values.len() != len {
        return Err(MisalignedList { expected: len, got: values.len() });
    }
    let mut i: usize = 0;
    while i < len
        invariant
            values@.len() == len,
            i <= len,
            out@.len() == i,
            forall|k: int| 0 <= k < i ==> opt_str(#[trigger] out@[k]) == Some(values@[k]@),
        decreases len - i,
    {
        out.push(Some(copy_string(&values[i])));
        i += 1;
    }
    Ok(out)
}

/// What `shell_words::split` makes of a command line: its words, or none when
/// the quoting is unbalanced.
pub uninterp spec fn shell_split(s: Seq<char>) -> Option<Seq<Seq<char>>>;

/// Relies on `shell_words::split`: splits a command line into words the way a
/// POSIX shell does; fails on unbalanced quoting. The result depends on the text
/// alone.
#[verifier::external_body]
fn split_words(s: &str) -> (r: Option<Vec<String>>)
    ensures
        r is None <==> shell_split(s@) is None,
        r matches Some(v) ==> strs(v@) == shell_split(s@)->0,
{
    shell_words::split(s).ok()
}

/// Why a process of the configuration file was refused.
#[derive(Debug, Clone, PartialEq, Eq)]
pub enum SpecError {
    /// The command's quoting is unbalanced.
    UnparsableCommand { name: String },
    /// The command has no words.
    EmptyCommand { name: String },
}

/// Makes a spec of a process of the configuration file: the command is split
/// into words, the first is the executable; unset options take their defaults.
pub fn spec_from_config(config: ProcessConfig) -> (r: Result<ProcessSpec, SpecError>)
    ensures
        shell_split(config.cmd@) is None ==> (r matches Err(SpecError::UnparsableCommand { name }) && name@ == config.name@),
        shell_split(config.cmd@) matches Some(w) && w.len() == 0 ==> (r matches Err(SpecError::EmptyCommand { name })
            && name@ == config.name@),
        shell_split(config.cmd@) matches Some(w) && w.len() > 0 ==> (r matches Ok(s) && {
            let w = shell_split(config.cmd@)->0;
            &&& s.name == config.name
            &&& s.cmd@ == w[0]
            &&& strs(s.args@) == w.subrange(1, w.len() as int)
            &&& s.cwd == config.cwd
            &&& s.color == config.color
            &&& s.env@ == (match config.env { Some(e) => e@, None => seq![] })
            &&& s.restart_on_fail == (match config.restart_on_fail { Some(b) => b, None => false })
            &&& s.follow == (match config.follow { Some(b) => b, None => true })
            &&& s.pre_cmd == config.pre_cmd
            &&& s.watch_paths@ == (match config.watch { Some(v) => v@, None => seq![] })
            &&& s.watch_ignore@ == (match config.watch_ignore { Some(v) => v@, None => seq![] })
            &&& s.watch_ignore_gitignore == (match config.watch_ignore_gitignore { Some(b) => b, None => false })
            &&& s.watch_debounce_ms == (match config.watch_debounce_ms { Some(d) => d, None => DEFAULT_DEBOUNCE_MS })
            &&& s.depends_on@ == (match config.depends_on { Some(v) => v@, None => seq![] })
            &&& s.ready_check == config.ready_check
            &&& s.tags@ == (match config.tags { Some(v) => v@, None => seq![] })
        }),
{
    let mut parts = match split_words(config.cmd.as_str()) {
        Some(p) => p,
        None => return Err(SpecError::UnparsableCommand { name: config.name }),
    };
    if parts.len() == 0 {
        return Err(SpecError::EmptyCommand { name: config.name });
    }
    let ghost w = parts@;
    let cmd = parts.remove(0);
    assert(strs(parts@) =~= strs(w).subrange(1, w.len() as int));
    Ok(ProcessSpec {
        name: config.name,
        cmd,
        args: parts,
        cwd: config.cwd,
        color: config.color,
        env: match config.env { Some(e) => e, None => Vec::new() },
        restart_on_fail: match config.restart_on_fail { Some(b) => b, None => false },
        follow: match config.follow { Some(b) => b, None => true },
        pre_cmd: config.pre_cmd,
        watch_paths: match config.watch { Some(v) => v, None => Vec::new() },
        watch_ignore: match config.watch_ignore { Some(v) => v, None => Vec::new() },
        watch_ignore_gitignore: match config.watch_ignore_gitignore { Some(b) => b, None => false },
        watch_debounce_ms: match config.watch_debounce_ms { Some(d) => d, None => DEFAULT_DEBOUNCE_MS },
        depends_on: match config.depends_on { Some(v) => v, None => Vec::new() },
        ready_check: config.ready_check,
        tags: match config.tags { Some(v) => v, None => Vec::new() },
    })
}

/// `s` without white space at either end.
pub open spec fn trimmed(s: Seq<char>) -> Seq<char> {
    crate::version::skip_back_spaces(crate::version::skip_spaces(s))
}

/// The names of `--names`: the comma-separated pieces, trimmed, empty ones left out.
pub open spec fn names_of(raw: Seq<char>) -> Seq<Seq<char>> {
    let p = crate::ansi::pieces(raw, ',');
    nonempty_trimmed(p, p.len() as int)
}

pub open spec fn nonempty_trimmed(p: Seq<Seq<char>>, k: int) -> Seq<Seq<char>>
    decreases k,
{
    if k <= 0 {
        seq![]
    } else if trimmed(p[k - 1]).len() == 0 {
        nonempty_trimmed(p, k - 1)
    } else {
        nonempty_trimmed(p, k - 1).push(trimmed(p[k - 1]))
    }
}

pub(crate) fn trim(v: &Vec<char>, a: usize, b: usize) -> (r: Vec<char>)
    requires
        a <= b <= v@.len(),
    ensures
        r@ == trimmed(v@.subrange(a as int, b as int)),
{
    let mut lo = a;
    while lo < b && crate::version::space_char(v[lo])
        invariant
            a <= lo <= b <= v@.len(),
            crate::version::skip_spaces(v@.subrange(a as int, b as int)) == crate::version::skip_spaces(v@.subrange(lo as int, b as int)),
        decreases b - lo,
    {
        assert(v@.subrange(lo as int, b as int).subrange(1, b - lo) =~= v@.subrange(lo + 1, b as int));
        lo += 1;
    }
    proof {
        let t = v@.subrange(lo as int, b as int);
        assert(!(t.len() > 0 && crate::version::is_space(t[0])));
    }
    let mut hi = b;
    while hi > lo && crate::version::space_char(v[hi - 1])
        invariant
            a <= lo <= hi <= b <= v@.len(),
            crate::version::skip_back_spaces(v@.subrange(lo as int, b as int)) == crate::version::skip_back_spaces(v@.subrange(lo as int, hi as int)),
        decreases hi,
    {
        assert(v@.subrange(lo as int, hi as int).drop_last() =~= v@.subrange(lo as int, hi - 1));
        hi -= 1;
    }
    let mut out: Vec<char> = Vec::new();
    let mut k = lo;
    while k < hi
        invariant
            lo <= k <= hi <= v@.len(),
            out@ == v@.subrange(lo as int, k as int),
        decreases hi - k,
    {
        out.push(v[k]);
        k += 1;
    }
    out
}

/// Splits the `--names` list.
pub fn split_names(raw: &str) -> (r: Vec<String>)
    ensures
        strs(r@) == names_of(raw@),
{
    let v = chars_of(raw);
    let mut bounds: Vec<(usize, usize)> = Vec::new();
    let mut start: usize = 0;
    let mut k: usize = 0;
    while k < v.len()
        invariant
            v@ == raw@,
            start <= k <= v@.len(),
            crate::ansi::pieces(v@.subrange(0, k as int), ',').len() == bounds@.len() + 1,
            crate::ansi::pieces(v@.subrange(0, k as int), ',').last() == v@.subrange(start as int, k as int),
            forall|i: int| 0 <= i < bounds@.len() ==> {
                let (a, b) = #[trigger] bounds@[i];
                a <= b <= k && v@.subrange(a as int, b as int) == crate::ansi::pieces(v@.subrange(0, k as int), ',')[i]
            },
        decreases v@.len() - k,
    {
        proof {
            assert(v@.subrange(0, k + 1).drop_last() =~= v@.subrange(0, k as int));
            lemma_pieces_nonempty(v@.subrange(0, k as int));
        }
        if v[k] == ',' {
            bounds.push((start, k));
            start = k + 1;
            assert(v@.subrange(start as int, k + 1) =~= seq![]);
        } else {
            assert(v@.subrange(start as int, k + 1) =~= v@.subrange(start as int, k as int).push(v@[k as int]));
        }
        k += 1;
    }
    assert(v@.subrange(0, v@.len() as int) =~= v@);
    bounds.push((start, v.len()));
    let ghost p = crate::ansi::pieces(v@, ',');
    let mut names: Vec<String> = Vec::new();
    let mut i: usize = 0;
    while i < bounds.len()
        invariant
            p == crate::ansi::pieces(v@, ','),
            bounds@.len() == p.len(),
            forall|j: int| 0 <= j < bounds@.len() ==> {
                let (a, b) = #[trigger] bounds@[j];
                a <= b <= v@.len() && v@.subrange(a as int, b as int) == p[j]
            },
            i <= bounds@.len(),
            strs(names@) == nonempty_trimmed(p, i as int),
        decreases bounds@.len() - i,
    {
        let (a, b) = bounds[i];
        let t = trim(&v, a, b);
        if t.len() > 0 {
            let ghost n0 = names@;
            let s = string_of(t.as_slice());
            names.push(s);
            assert(strs(names@) =~= strs(n0).push(s@));
        }
        i += 1;
    }
    names
}

proof fn lemma_pieces_nonempty(s: Seq<char>)
    ensures
        crate::ansi::pieces(s, ',').len() >= 1,
    decreases s.len(),
{
    if s.len() > 0 {
        lemma_pieces_nonempty(s.drop_last());
    }
}

/// Why the shorthand `--names a,b CMD_A CMD_B` was refused.
#[derive(Debug, Clone, PartialEq, Eq)]
pub enum NamesError {
    /// `--names` held no name.
    NoNames,
    /// The number of commands differs from the number of names.
    CountMismatch { expected: usize, got: usize },
    /// An `--env` value without `=`.
    InvalidEnv { value: String },
    /// `--pre` values that match neither one shared value nor one per name.
    Misaligned(MisalignedList),
    /// A command whose quoting is unbalanced.
    UnparsableCommand { command: String },
    /// A command without words.
    EmptyCommand { name: String },
}

/// The first position of `p` among `names`, or -1.
pub open spec fn position_of(names: Seq<Seq<char>>, p: Seq<char>, k: int) -> int
    decreases names.len() - k,
{
    if k < 0 || k >= names.len() {
        -1
    } else if names[k] == p {
        k
    } else {
        position_of(names, p, k + 1)
    }
}

/// Where an `--env` entry goes: to one process (by index, or by name, before a
/// `:`), with the `KEY=VALUE` text; or to all (-1) with the whole entry.
pub open spec fn env_route(e: Seq<char>, names: Seq<Seq<char>>) -> (int, Seq<char>) {
    if exists|i: int| 0 <= i < e.len() && e[i] == ':' {
        let c = choose|i: int| 0 <= i < e.len() && e[i] == ':' && forall|j: int| 0 <= j < i ==> e[j] != ':';
        let prefix = e.subrange(0, c);
        let rest = e.subrange(c + 1, e.len() as int);
        if std_u64(prefix) is Some && std_u64(prefix)->0 < names.len() {
            (std_u64(prefix)->0 as int, rest)
        } else if position_of(names, prefix, 0) >= 0 {
            (position_of(names, prefix, 0), rest)
        } else {
            (-1, e)
        }
    } else {
        (-1, e)
    }
}

/// The environment entries routed so far: per process, and for all.
pub open spec fn routed(entries: Seq<Seq<char>>, names: Seq<Seq<char>>, k: int) -> Result<
    (Seq<Seq<(Seq<char>, Seq<char>)>>, Seq<(Seq<char>, Seq<char>)>),
    CliErrorView,
>
    decreases k,
{
    if k <= 0 {
        Ok((Seq::new(names.len(), |i: int| Seq::<(Seq<char>, Seq<char>)>::empty()), seq![]))
    } else {
        match routed(entries, names, k - 1) {
            Err(e) => Err(e),
            Ok((per, all)) => {
                let (target, text) = env_route(entries[k - 1], names);
                match env_split(text) {
                    None => Err(CliErrorView::InvalidEnv(text)),
                    Some(kv) => if target >= 0 {
                        Ok((per.update(target, per[target].push(kv)), all))
                    } else {
                        Ok((per, all.push(kv)))
                    },
                }
            },
        }
    }
}

fn position_in(names: &Vec<String>, p: &Vec<char>) -> (r: i64)
    requires
        names@.len() < i64::MAX,
    ensures
        r == position_of(strs(names@), p@, 0),
        r < names@.len(),
{
    let mut k: usize = 0;
    proof {
        lemma_position_bound(strs(names@), p@, 0);
    }
    while k < names.len()
        invariant
            names@.len() < i64::MAX,
            k <= names@.len(),
            position_of(strs(names@), p@, 0) == position_of(strs(names@), p@, k as int),
            position_of(strs(names@), p@, k as int) < names@.len(),
        decreases names@.len() - k,
    {
        let n = chars_of(names[k].as_str());
        if same_text(string_of(n.as_slice()).as_str(), string_of(p.as_slice()).as_str()) {
            assert(strs(names@)[k as int] == p@);
            return k as i64;
        }
        k += 1;
    }
    -1
}

proof fn lemma_position_bound(names: Seq<Seq<char>>, p: Seq<char>, k: int)
    ensures
        position_of(names, p, k) < names.len(),
    decreases names.len() - k,
{
    if 0 <= k < names.len() && names[k] != p {
        lemma_position_bound(names, p, k + 1);
    }
}

/// Splits `v[a..b]` at its first `:`, if any.
fn first_colon(v: &Vec<char>) -> (r: Option<usize>)
    ensures
        r is None <==> !(exists|i: int| 0 <= i < v@.len() && v@[i] == ':'),
        r matches Some(c) ==> c < v@.len() && v@[c as int] == ':' && forall|j: int| 0 <= j < c ==> v@[j] != ':',
{
    let mut i: usize = 0;
    while i < v.len()
        invariant
            i <= v@.len(),
            forall|j: int| 0 <= j < i ==> v@[j] != ':',
        decreases v@.len() - i,
    {
        if v[i] == ':' {
            return Some(i);
        }
        i += 1;
    }
    None
}

fn slice_string(v: &Vec<char>, a: usize, b: usize) -> (r: String)
    requires
        a <= b <= v@.len(),
    ensures
        r@ == v@.subrange(a as int, b as int),
{
    let mut out: Vec<char> = Vec::new();
    let mut k = a;
    while k < b
        invariant
            a <= k <= b <= v@.len(),
            out@ == v@.subrange(a as int, k as int),
        decreases b - k,
    {
        out.push(v[k]);
        k += 1;
    }
    string_of(out.as_slice())
}

pub open spec fn kv_pairs(v: Seq<(String, String)>) -> Seq<(Seq<char>, Seq<char>)> {
    v.map_values(|p: (String, String)| (p.0@, p.1@))
}

/// Where one `--env` entry goes.
fn route_one(entry: &String, names: &Vec<String>) -> (r: (i64, String))
    requires
        names@.len() < i64::MAX,
    ensures
        (r.0 as int, r.1@) == env_route(entry@, strs(names@)),
        r.0 < names@.len(),
{
    let e = chars_of(entry.as_str());
    let el = e.len();
    let mut target: i64 = -1;
    let mut text = copy_string(entry);
    match first_colon(&e) {
        Some(c) => {
            let prefix = slice_string(&e, 0, c);
            let pv = chars_of(prefix.as_str());
            let idx = if pv.len() > 0 && pv[0] == '+' {
                crate::version::parse_u64(&pv, 1, pv.len())
            } else {
                proof {
                    assert(pv@.subrange(0, pv@.len() as int) =~= pv@);
                }
                crate::version::parse_u64(&pv, 0, pv.len())
            };
            proof {
                let w = choose|i: int| 0 <= i < e@.len() && e@[i] == ':' && forall|j: int| 0 <= j < i ==> e@[j] != ':';
                assert(w == c) by {
                    if w < c {
                        assert(e@[w] != ':');
                    }
                    if w > c {
                        assert(e@[c as int] != ':');
                    }
                }
            }
            match idx {
                Some(i) if i < names.len() as u64 => {
                    target = i as i64;
                    text = slice_string(&e, c + 1, el);
                },
                _ => {
                    let pos = position_in(names, &pv);
                    if pos >= 0 {
                        target = pos;
                        text = slice_string(&e, c + 1, el);
                    }
                },
            }
        },
        None => {},
    }
    proof {
        assert((target as int, text@) == env_route(e@, strs(names@)));
    }
    (target, text)
}

/// Once routing fails it stays failed.
proof fn lemma_routed_err_stays(entries: Seq<Seq<char>>, names: Seq<Seq<char>>, k: int, n: int)
    requires
        0 <= k <= n,
        routed(entries, names, k) is Err,
    ensures
        routed(entries, names, n) == routed(entries, names, k),
    decreases n - k,
{
    if k < n {
        lemma_routed_err_stays(entries, names, k, n - 1);
    }
}

/// Routes the `--env` entries to the processes of `names`.
#[verifier::rlimit(60)]
fn route_env(entries: &Vec<String>, names: &Vec<String>) -> (r: Result<(Vec<Vec<(String, String)>>, Vec<(String, String)>), NamesError>)
    requires
        names@.len() < i64::MAX,
    ensures
        match routed(strs(entries@), strs(names@), entries@.len() as int) {
            Ok((per, all)) => r matches Ok((p, a)) && p@.len() == names@.len() && kv_pairs(a@) == all
                && forall|i: int| 0 <= i < names@.len() ==> kv_pairs(#[trigger] p@[i]@) == per[i],
            Err(e) => r matches Err(NamesError::InvalidEnv { value }) && e == CliErrorView::InvalidEnv(value@),
        },
{
    let ghost ns = strs(names@);
    let mut per: Vec<Vec<(String, String)>> = Vec::new();
    let mut j: usize = 0;
    while j < names.len()
        invariant
            j <= names@.len(),
            per@.len() == j,
            forall|i: int| 0 <= i < j ==> (#[trigger] per@[i])@.len() == 0,
        decreases names@.len() - j,
    {
        per.push(Vec::new());
        j += 1;
    }
    let mut all: Vec<(String, String)> = Vec::new();
    let mut k: usize = 0;
    proof {
        assert(kv_pairs(all@) =~= seq![]);
        let (p0, a0) = routed(strs(entries@), ns, 0)->Ok_0;
        assert forall|i: int| 0 <= i < names@.len() implies kv_pairs(#[trigger] per@[i]@) == p0[i] by {
            assert(kv_pairs(per@[i]@) =~= seq![]);
        }
    }
    while k < entries.len()
        invariant
            ns == strs(names@),
            names@.len() < i64::MAX,
            k <= entries@.len(),
            per@.len() == names@.len(),
            routed(strs(entries@), ns, k as int) is Ok,
            kv_pairs(all@) == routed(strs(entries@), ns, k as int)->Ok_0.1,
            forall|i: int| 0 <= i < names@.len() ==> kv_pairs(#[trigger] per@[i]@) == routed(strs(entries@), ns, k as int)->Ok_0.0[i],
            routed(strs(entries@), ns, k as int)->Ok_0.0.len() == names@.len(),
        decreases entries@.len() - k,
    {
        let (target, text) = route_one(&entries[k], names);
        proof {
            assert(strs(entries@)[k as int] == entries@[k as int]@);
        }
        let kv = match split_env(text.as_str()) {
            Ok(kv) => kv,
            Err(_) => {
                proof {
                    lemma_routed_err_stays(strs(entries@), ns, k + 1, entries@.len() as int);
                }
                return Err(NamesError::InvalidEnv { value: text });
            },
        };
        let ghost before_all = all@;
        let ghost before_per = per@;
        let ghost prev = routed(strs(entries@), ns, k as int)->Ok_0;
        let ghost next = routed(strs(entries@), ns, k + 1)->Ok_0;
        let ghost kvv = (kv.0@, kv.1@);
        proof {
            let (tg, tx) = env_route(strs(entries@)[k as int], ns);
            assert(tg == target as int && tx == text@);
            assert(env_split(tx) == Some((kv.0@, kv.1@)));
            if tg >= 0 {
                assert(next == (prev.0.update(tg, prev.0[tg].push(kvv)), prev.1));
            } else {
                assert(next == (prev.0, prev.1.push(kvv)));
            }
        }
        if target >= 0 {
            let nl = names.len();
            assert(0 <= target < nl);
            let t = target as usize;
            assert(t as int == target as int);
            assert(next == (prev.0.update(t as int, prev.0[t as int].push(kvv)), prev.1));
            let ghost l0 = per@[t as int]@;
            let ghost kvx = kv;
            assert(kv_pairs(l0) == routed(strs(entries@), ns, k as int)->Ok_0.0[t as int]);
            per[t].push(kv);
            proof {
                assert(per@[t as int]@ == l0.push(kvx));
                assert(kv_pairs(per@[t as int]@) =~= kv_pairs(l0).push(kvv));
                assert forall|i: int| 0 <= i < names@.len() implies kv_pairs(#[trigger] per@[i]@) == routed(strs(entries@), ns, k + 1)->Ok_0.0[i] by {
                    assert(next.0 == prev.0.update(t as int, prev.0[t as int].push(kvv)));
                    if i != t {
                        assert(per@[i] == before_per[i]);
                        assert(kv_pairs(before_per[i]@) == prev.0[i]);
                        assert(next.0[i] == prev.0[i]);
                    } else {
                        assert(kv_pairs(per@[i]@) == kv_pairs(l0).push(kvv));
                        assert(next.0[i] == prev.0[i].push(kvv));
                    }
                }
            }
        } else {
            all.push(kv);
            assert(kv_pairs(all@) =~= kv_pairs(before_all).push((kv.0@, kv.1@)));
        }
        k += 1;
    }
    Ok((per, all))
}

/// The first of the first `k` commands that does not split into at least one word.
pub open spec fn first_bad_command(cmds: Seq<Seq<char>>, k: int) -> Option<int>
    decreases k,
{
    if k <= 0 {
        None
    } else if first_bad_command(cmds, k - 1) is Some {
        first_bad_command(cmds, k - 1)
    } else if shell_split(cmds[k - 1]) is None || shell_split(cmds[k - 1])->0.len() == 0 {
        Some(k - 1)
    } else {
        None
    }
}

/// `--pre` values that line up with `len` processes.
pub open spec fn aligned(values: Seq<Seq<char>>, len: nat) -> bool {
    values.len() == 0 || (values.len() == 1 && len > 1) || values.len() == len
}

/// The pre-command of process `i` of `len`.
pub open spec fn aligned_value(values: Seq<Seq<char>>, len: nat, i: int) -> Option<Seq<char>> {
    if values.len() == 0 {
        None
    } else if values.len() == 1 && len > 1 {
        Some(values[0])
    } else {
        Some(values[i])
    }
}

pub open spec fn get_opt(v: Seq<String>, i: int) -> Option<Seq<char>> {
    if 0 <= i < v.len() {
        Some(v[i]@)
    } else {
        None
    }
}

fn get_copy(v: &Vec<String>, i: usize) -> (r: Option<String>)
    ensures
        opt_str(r) == get_opt(v@, i as int),
{
    if i < v.len() {
        Some(copy_string(&v[i]))
    } else {
        None
    }
}

/// Reads the shorthand `--names a,b CMD_A CMD_B`: one command per name, each
/// split into words; `--cwd` and `--color` values by position; `--env` entries
/// for one process (`INDEX:` or `NAME:` before `KEY=VALUE`) or for all (which
/// come after the process's own); `--pre` shared or by position.
pub fn parse_named_commands(
    names: &str,
    commands: &Vec<String>,
    cwd: &Vec<String>,
    env: &Vec<String>,
    color: &Vec<String>,
    pre: &Vec<String>,
    restart_on_fail: bool,
) -> (r: Result<Vec<ProcessSpec>, NamesError>)
    requires
        commands@.len() < i64::MAX,
    ensures
        ({
            let ns = names_of(names@);
            let n = ns.len();
            let routes = routed(strs(env@), ns, env@.len() as int);
            if n == 0 {
                r == Err::<Vec<ProcessSpec>, NamesError>(NamesError::NoNames)
            } else if commands@.len() != n {
                r == Err::<Vec<ProcessSpec>, NamesError>(NamesError::CountMismatch { expected: n as usize, got: commands@.len() as usize })
            } else if routes is Err {
                r matches Err(NamesError::InvalidEnv { value }) && routes == Err::<(Seq<Seq<(Seq<char>, Seq<char>)>>, Seq<(Seq<char>, Seq<char>)>), CliErrorView>(CliErrorView::InvalidEnv(value@))
            } else if !aligned(strs(pre@), n) {
                r == Err::<Vec<ProcessSpec>, NamesError>(NamesError::Misaligned(MisalignedList { expected: n as usize, got: pre@.len() as usize }))
            } else if first_bad_command(strs(commands@), n as int) is Some {
                let i = first_bad_command(strs(commands@), n as int)->0;
                if shell_split(commands@[i]@) is None {
                    r matches Err(NamesError::UnparsableCommand { command }) && command@ == commands@[i]@
                } else {
                    r matches Err(NamesError::EmptyCommand { name }) && name@ == ns[i]
                }
            } else {
                r matches Ok(specs) && specs@.len() == n && forall|i: int| 0 <= i < n ==> {
                    let s = #[trigger] specs@[i];
                    let w = shell_split(commands@[i]@)->0;
                    &&& s.name@ == ns[i]
                    &&& s.cmd@ == w[0]
                    &&& strs(s.args@) == w.subrange(1, w.len() as int)
                    &&& opt_str(s.cwd) == get_opt(cwd@, i)
                    &&& opt_str(s.color) == get_opt(color@, i)
                    &&& pairs(s.env@) == routes->Ok_0.0[i] + routes->Ok_0.1
                    &&& s.restart_on_fail == restart_on_fail
                    &&& s.follow
                    &&& opt_str(s.pre_cmd) == aligned_value(strs(pre@), n, i)
                    &&& s.watch_paths@.len() == 0 && s.watch_ignore@.len() == 0
                    &&& !s.watch_ignore_gitignore && s.watch_debounce_ms == DEFAULT_DEBOUNCE_MS
                    &&& plain_cli_spec(s)
                }
            }
        }),
{
    let list = split_names(names);
    let n = list.len();
    if n == 0 {
        return Err(NamesError::NoNames);
    }
    if commands.len() != n {
        return Err(NamesError::CountMismatch { expected: n, got: commands.len() });
    }
    let (mut per, all) = match route_env(env, &list) {
        Ok(x) => x,
        Err(e) => return Err(e),
    };
    let pres = match parse_aligned_list(pre, n) {
        Ok(p) => p,
        Err(e) => return Err(NamesError::Misaligned(e)),
    };
    let ghost ns = strs(list@);
    let ghost routes = routed(strs(env@), ns, env@.len() as int);
    assert(aligned(strs(pre@), n as nat));
    let mut specs: Vec<ProcessSpec> = Vec::new();
    let mut i: usize = 0;
    while i < n
        invariant
            n == list@.len(),
            ns == strs(list@),
            ns == names_of(names@),
            commands@.len() == n,
            pres@.len() == n,
            per@.len() == n,
            routes == routed(strs(env@), ns, env@.len() as int),
            routes is Ok,
            aligned(strs(pre@), n as nat),
            kv_pairs(all@) == routes->Ok_0.1,
            forall|j: int| 0 <= j < n ==> kv_pairs(#[trigger] per@[j]@) == routes->Ok_0.0[j],
            forall|j: int| 0 <= j < n ==> opt_str(#[trigger] pres@[j]) == aligned_value(strs(pre@), n as nat, j),
            i <= n,
            first_bad_command(strs(commands@), i as int) is None,
            specs@.len() == i,
            forall|j: int| 0 <= j < i ==> {
                let s = #[trigger] specs@[j];
                let w = shell_split(commands@[j]@)->0;
                &&& s.name@ == ns[j]
                &&& s.cmd@ == w[0]
                &&& strs(s.args@) == w.subrange(1, w.len() as int)
                &&& opt_str(s.cwd) == get_opt(cwd@, j)
                &&& opt_str(s.color) == get_opt(color@, j)
                &&& pairs(s.env@) == routes->Ok_0.0[j] + routes->Ok_0.1
                &&& s.restart_on_fail == restart_on_fail
                &&& s.follow
                &&& opt_str(s.pre_cmd) == aligned_value(strs(pre@), n as nat, j)
                &&& s.watch_paths@.len() == 0 && s.watch_ignore@.len() == 0
                &&& !s.watch_ignore_gitignore && s.watch_debounce_ms == DEFAULT_DEBOUNCE_MS
                &&& plain_cli_spec(s)
            },
        decreases n - i,
    {
        assert(strs(commands@)[i as int] == commands@[i as int]@);
        let mut parts = match split_words(commands[i].as_str()) {
            Some(p) => p,
            None => {
                proof {
                    assert(first_bad_command(strs(commands@), i as int + 1) == Some(i as int));
                    lemma_first_bad_stays(strs(commands@), i as int + 1, n as int);
                }
                return Err(NamesError::UnparsableCommand { command: copy_string(&commands[i]) });
            },
        };
        if parts.len() == 0 {
            proof {
                assert(shell_split(commands@[i as int]@)->0.len() == 0) by {
                    assert(strs(parts@).len() == 0);
                }
                assert(first_bad_command(strs(commands@), i as int + 1) == Some(i as int));
                lemma_first_bad_stays(strs(commands@), i as int + 1, n as int);
            }
            return Err(NamesError::EmptyCommand { name: copy_string(&list[i]) });
        }
        let ghost w = parts@;
        let cmd = parts.remove(0);
        assert(strs(parts@) =~= strs(w).subrange(1, w.len() as int));
        let mut envs: Vec<(String, String)> = Vec::new();
        let own = &per[i];
        let mut k: usize = 0;
        while k < own.len()
            invariant
                k <= own@.len(),
                kv_pairs(envs@) == kv_pairs(own@.subrange(0, k as int)),
            decreases own@.len() - k,
        {
            let pair = (copy_string(&own[k].0), copy_string(&own[k].1));
            let ghost e0 = envs@;
            let ghost pv = (pair.0@, pair.1@);
            envs.push(pair);
            proof {
                assert(envs@ == e0.push(pair));
                assert(kv_pairs(envs@) =~= kv_pairs(e0).push(pv));
                assert(own@.subrange(0, k + 1) =~= own@.subrange(0, k as int).push(own@[k as int]));
                assert(kv_pairs(own@.subrange(0, k + 1)) =~= kv_pairs(own@.subrange(0, k as int)).push(pv));
            }
            k += 1;
        }
        let mut k: usize = 0;
        let ghost mine = envs@;
        while k < all.len()
            invariant
                k <= all@.len(),
                kv_pairs(envs@) == kv_pairs(mine) + kv_pairs(all@.subrange(0, k as int)),
            decreases all@.len() - k,
        {
            let pair = (copy_string(&all[k].0), copy_string(&all[k].1));
            let ghost e0 = envs@;
            let ghost pv = (pair.0@, pair.1@);
            envs.push(pair);
            proof {
                assert(envs@ == e0.push(pair));
                assert(kv_pairs(envs@) =~= kv_pairs(e0).push(pv));
                assert(all@.subrange(0, k + 1) =~= all@.subrange(0, k as int).push(all@[k as int]));
                assert(kv_pairs(all@.subrange(0, k + 1)) =~= kv_pairs(all@.subrange(0, k as int)).push(pv));
                assert(kv_pairs(envs@) =~= kv_pairs(mine) + kv_pairs(all@.subrange(0, k + 1)));
            }
            k += 1;
        }
        proof {
            assert(own@.subrange(0, own@.len() as int) =~= own@);
            assert(all@.subrange(0, all@.len() as int) =~= all@);
            assert(pairs(envs@) =~= kv_pairs(envs@));
        }
        let pre_cmd = match &pres[i] {
            Some(p) => Some(copy_string(p)),
            None => None,
        };
        let spec = ProcessSpec {
            name: copy_string(&list[i]),
            cmd,
            args: parts,
            cwd: get_copy(cwd, i),
            color: get_copy(color, i),
            env: envs,
            restart_on_fail,
            follow: true,
            pre_cmd,
            watch_paths: Vec::new(),
            watch_ignore: Vec::new(),
            watch_ignore_gitignore: false,
            watch_debounce_ms: DEFAULT_DEBOUNCE_MS,
            depends_on: Vec::new(),
            ready_check: None,
            tags: Vec::new(),
        };
        specs.push(spec);
        i += 1;
    }
    Ok(specs)
}

proof fn lemma_first_bad_stays(cmds: Seq<Seq<char>>, k: int, n: int)
    requires
        1 <= k <= n,
        first_bad_command(cmds, k) is Some,
    ensures
        first_bad_command(cmds, n) == first_bad_command(cmds, k),
    decreases n - k,
{
    if k < n {
        lemma_first_bad_stays(cmds, k, n - 1);
    }
}

/// Lexicographic order of character sequences by code point (the order of
/// their UTF-8 bytes).
pub open spec fn lex_lt(a: Seq<char>, b: Seq<char>) -> bool
    decreases a.len(),
{
    if a.len() == 0 {
        b.len() > 0
    } else if b.len() == 0 {
        false
    } else if a[0] != b[0] {
        a[0] < b[0]
    } else {
        lex_lt(a.subrange(1, a.len() as int), b.subrange(1, b.len() as int))
    }
}

/// The group a spec is listed under: its first tag, or nothing.
pub open spec fn group_key(s: ProcessSpec) -> Seq<char> {
    if s.tags@.len() > 0 {
        s.tags@[0]@
    } else {
        seq![]
    }
}

/// Whether `a` is listed before `b`: by group, then by name.
pub open spec fn listed_before(a: ProcessSpec, b: ProcessSpec) -> bool {
    lex_lt(group_key(a), group_key(b)) || (group_key(a) == group_key(b) && lex_lt(a.name@, b.name@))
}

fn lex_cmp(a: &Vec<char>, b: &Vec<char>) -> (r: std::cmp::Ordering)
    ensures
        (r == std::cmp::Ordering::Less) == lex_lt(a@, b@),
        (r == std::cmp::Ordering::Greater) == lex_lt(b@, a@),
        (r == std::cmp::Ordering::Equal) == (a@ == b@),
{
    let mut i: usize = 0;
    assert(a@.subrange(0, a@.len() as int) =~= a@);
    assert(b@.subrange(0, b@.len() as int) =~= b@);
    assert(a@.subrange(0, 0) =~= b@.subrange(0, 0));
    while i < a.len() && i < b.len()
        invariant
            i <= a@.len(),
            i <= b@.len(),
            a@.subrange(0, i as int) == b@.subrange(0, i as int),
            lex_lt(a@, b@) == lex_lt(a@.subrange(i as int, a@.len() as int), b@.subrange(i as int, b@.len() as int)),
            lex_lt(b@, a@) == lex_lt(b@.subrange(i as int, b@.len() as int), a@.subrange(i as int, a@.len() as int)),
        decreases a@.len() - i,
    {
        if a[i] != b[i] {
            proof {
                let x = a@.subrange(i as int, a@.len() as int);
                let y = b@.subrange(i as int, b@.len() as int);
                assert(x[0] == a@[i as int]);
                assert(y[0] == b@[i as int]);
                assert(a@ != b@) by {
                    assert(a@[i as int] != b@[i as int]);
                }
            }
            if a[i] < b[i] {
                return std::cmp::Ordering::Less;
            } else {
                return std::cmp::Ordering::Greater;
            }
        }
        proof {
            let x = a@.subrange(i as int, a@.len() as int);
            let y = b@.subrange(i as int, b@.len() as int);
            assert(x.subrange(1, x.len() as int) =~= a@.subrange(i + 1, a@.len() as int));
            assert(y.subrange(1, y.len() as int) =~= b@.subrange(i + 1, b@.len() as int));
            assert(a@.subrange(0, i + 1) =~= a@.subrange(0, i as int).push(a@[i as int]));
            assert(b@.subrange(0, i + 1) =~= b@.subrange(0, i as int).push(b@[i as int]));
        }
        i += 1;
    }
    proof {
        if i == a@.len() && i == b@.len() {
            assert(a@ =~= a@.subrange(0, i as int));
            assert(b@ =~= b@.subrange(0, i as int));
        }
        if i == a@.len() && i < b@.len() {
            assert(a@ != b@) by {
                assert(a@.len() != b@.len());
            }
        }
        if i < a@.len() && i == b@.len() {
            assert(a@ != b@) by {
                assert(a@.len() != b@.len());
            }
        }
    }
    if a.len() < b.len() {
        std::cmp::Ordering::Less
    } else if a.len() > b.len() {
        std::cmp::Ordering::Greater
    } else {
        std::cmp::Ordering::Equal
    }
}

/// Compares two specs by group, then by name.
pub fn compare_specs(a: &ProcessSpec, b: &ProcessSpec) -> (r: std::cmp::Ordering)
    ensures
        (r == std::cmp::Ordering::Less) == listed_before(*a, *b),
        (r == std::cmp::Ordering::Greater) == listed_before(*b, *a),
{
    let ga = if a.tags.len() > 0 { chars_of(a.tags[0].as_str()) } else { Vec::new() };
    let gb = if b.tags.len() > 0 { chars_of(b.tags[0].as_str()) } else { Vec::new() };
    proof {
        assert(ga@ == group_key(*a));
        assert(gb@ == group_key(*b));
    }
    match lex_cmp(&ga, &gb) {
        std::cmp::Ordering::Equal => {
            let na = chars_of(a.name.as_str());
            let nb = chars_of(b.name.as_str());
            lex_cmp(&na, &nb)
        },
        other => other,
    }
}

/// The specs in listing order.
pub open spec fn listing_sorted(v: Seq<ProcessSpec>) -> bool {
    forall|i: int, j: int| 0 <= i < j < v.len() ==> !listed_before(#[trigger] v[j], #[trigger] v[i])
}

/// Relies on `slice::sort_by`: reorders the elements so that the comparator
/// never ranks a later element before an earlier one.
#[verifier::external_body]
fn sort_specs(v: &mut Vec<ProcessSpec>)
    ensures
        final(v)@.to_multiset() == old(v)@.to_multiset(),
        listing_sorted(final(v)@),
{
    v.sort_by(|a, b| compare_specs(a, b))
}

/// Puts the specs in listing order (by group, then name) and refuses a spec
/// set in which two specs share a name.
pub fn arrange_specs(specs: Vec<ProcessSpec>) -> (r: Result<Vec<ProcessSpec>, DuplicateName>)
    ensures
        exists|s: Seq<ProcessSpec>| {
            &&& s.to_multiset() == specs@.to_multiset()
            &&& listing_sorted(s)
            &&& (r is Ok <==> unique_names(s))
            &&& r matches Ok(v) ==> v@ == s
        },
{
    let mut specs = specs;
    sort_specs(&mut specs);
    match ensure_unique_names(&specs) {
        Ok(()) => Ok(specs),
        Err(e) => Err(e),
    }
}

} // verus!
