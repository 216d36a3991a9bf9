//! Run settings: the command line's flags over the configuration file's keys
//! over the defaults.

use vstd::prelude::*;

use crate::config::{choose_output_mode, choose_success_policy, lowercase, lower_of, output_mode_of, success_policy_of, Config, OutputMode};
use crate::policy::SuccessPolicy;
use crate::text::copy_string;

verus! {

/// Lines kept per process when neither the command line nor the file says.
pub const DEFAULT_MAX_LINES: usize = 10_000;

/// Milliseconds to wait after each shutdown signal when not configured.
pub const DEFAULT_SHUTDOWN_MS: u64 = 800;

/// The run-wide keys of the configuration file, with enum values read.
#[derive(Debug, Clone)]
pub struct ConfigMeta {
    pub symbols: Option<bool>,
    pub raw: Option<bool>,
    pub prefix: Option<String>,
    pub prefix_length: Option<usize>,
    pub prefix_colors: Option<bool>,
    pub timestamp: Option<bool>,
    pub output: Option<OutputMode>,
    pub success: Option<SuccessPolicy>,
    pub kill_others: Option<bool>,
    pub kill_others_on_fail: Option<bool>,
    pub restart_tries: Option<u32>,
    pub restart_delay_ms: Option<u64>,
    pub shutdown_sigint_ms: Option<u64>,
    pub shutdown_sigterm_ms: Option<u64>,
    pub handle_input: Option<bool>,
    pub log_file: Option<String>,
}

pub open spec fn opt_view(o: Option<String>) -> Option<Seq<char>> {
    match o {
        Some(s) => Some(s@),
        None => None,
    }
}

fn copy_opt(o: &Option<String>) -> (r: Option<String>)
    ensures
        opt_view(r) == opt_view(*o),
{
    match o {
        Some(s) => Some(copy_string(s)),
        None => None,
    }
}

impl Default for ConfigMeta {
    fn default() -> (r: Self)
        ensures
            r.symbols.is_none() && r.raw.is_none() && r.prefix.is_none() && r.prefix_length.is_none(),
            r.prefix_colors.is_none() && r.timestamp.is_none() && r.output.is_none() && r.success.is_none(),
            r.kill_others.is_none() && r.kill_others_on_fail.is_none() && r.restart_tries.is_none(),
            r.restart_delay_ms.is_none() && r.shutdown_sigint_ms.is_none() && r.shutdown_sigterm_ms.is_none(),
            r.handle_input.is_none() && r.log_file.is_none(),
    {
        ConfigMeta {
            symbols: None,
            raw: None,
            prefix: None,
            prefix_length: None,
            prefix_colors: None,
            timestamp: None,
            output: None,
            success: None,
            kill_others: None,
            kill_others_on_fail: None,
            restart_tries: None,
            restart_delay_ms: None,
            shutdown_sigint_ms: None,
            shutdown_sigterm_ms: None,
            handle_input: None,
            log_file: None,
        }
    }
}

/// What an optional enum value of the file reads as: an invalid value reads as unset.
pub open spec fn read_output(v: Option<String>) -> Option<OutputMode> {
    match v {
        Some(s) => output_mode_of(lower_of(s@)),
        None => None,
    }
}

pub open spec fn read_success(v: Option<String>) -> Option<SuccessPolicy> {
    match v {
        Some(s) => success_policy_of(lower_of(s@)),
        None => None,
    }
}

impl ConfigMeta {
    /// The run-wide keys of `config`; an invalid `output` or `success` value
    /// reads as unset.
    pub fn from_config(config: &Config) -> (r: Self)
        ensures
            r.symbols == config.symbols && r.raw == config.raw && opt_view(r.prefix) == opt_view(config.prefix),
            r.prefix_length == config.prefix_length && r.prefix_colors == config.prefix_colors,
            r.timestamp == config.timestamp,
            r.output == read_output(config.output),
            r.success == read_success(config.success),
            r.kill_others == config.kill_others && r.kill_others_on_fail == config.kill_others_on_fail,
            r.restart_tries == config.restart_tries && r.restart_delay_ms == config.restart_delay_ms,
            r.shutdown_sigint_ms == config.shutdown_sigint_ms && r.shutdown_sigterm_ms == config.shutdown_sigterm_ms,
            r.handle_input == config.handle_input && opt_view(r.log_file) == opt_view(config.log_file),
    {
        let output = match &config.output {
            Some(v) => {
                let lower = lowercase(v.as_str());
                match choose_output_mode(&lower, v.as_str()) {
                    Ok(m) => Some(m),
                    Err(_) => None,
                }
            },
            None => None,
        };
        let success = match &config.success {
            Some(v) => {
                let lower = lowercase(v.as_str());
                match choose_success_policy(&lower, v.as_str()) {
                    Ok(p) => Some(p),
                    Err(_) => None,
                }
            },
            None => None,
        };
        ConfigMeta {
            symbols: config.symbols,
            raw: config.raw,
            prefix: copy_opt(&config.prefix),
            prefix_length: config.prefix_length,
            prefix_colors: config.prefix_colors,
            timestamp: config.timestamp,
            output,
            success,
            kill_others: config.kill_others,
            kill_others_on_fail: config.kill_others_on_fail,
            restart_tries: config.restart_tries,
            restart_delay_ms: config.restart_delay_ms,
            shutdown_sigint_ms: config.shutdown_sigint_ms,
            shutdown_sigterm_ms: config.shutdown_sigterm_ms,
            handle_input: config.handle_input,
            log_file: copy_opt(&config.log_file),
        }
    }
}

/// The run-wide flags of the command line.
#[derive(Debug, Clone)]
pub struct CliOptions {
    pub max_lines: Option<usize>,
    pub no_ui: bool,
    pub raw: bool,
    pub prefix: Option<String>,
    pub prefix_length: Option<usize>,
    pub prefix_colors: bool,
    pub timestamp: bool,
    pub output: Option<OutputMode>,
    pub success: Option<SuccessPolicy>,
    pub kill_others: bool,
    pub kill_others_on_fail: bool,
    pub restart_tries: Option<u32>,
    pub restart_delay_ms: Option<u64>,
    pub shutdown_sigint_ms: Option<u64>,
    pub shutdown_sigterm_ms: Option<u64>,
    pub no_input: bool,
    pub log_file: Option<String>,
}

/// The settings a run uses.
#[derive(Debug, Clone)]
pub struct RunSettings {
    pub max_lines: usize,
    pub use_symbols: bool,
    pub no_ui: bool,
    pub raw: bool,
    pub prefix: Option<String>,
    pub prefix_length: Option<usize>,
    pub prefix_colors: bool,
    pub timestamp: bool,
    pub output_mode: OutputMode,
    pub success: SuccessPolicy,
    pub kill_others: bool,
    pub kill_others_on_fail: bool,
    pub restart_tries: Option<u32>,
    pub restart_delay_ms: Option<u64>,
    pub shutdown_sigint_ms: u64,
    pub shutdown_sigterm_ms: u64,
    pub input_enabled: bool,
    pub log_file: Option<String>,
}

pub open spec fn either<T>(a: Option<T>, b: Option<T>) -> Option<T> {
    if a is Some {
        a
    } else {
        b
    }
}

pub open spec fn or_default<T>(a: Option<T>, d: T) -> T {
    match a {
        Some(x) => x,
        None => d,
    }
}

fn pick<T: Copy>(a: Option<T>, b: Option<T>) -> (r: Option<T>)
    ensures
        r == either(a, b),
{
    match a {
        Some(x) => Some(x),
        None => b,
    }
}

fn pick_or<T: Copy>(a: Option<T>, d: T) -> (r: T)
    ensures
        r == or_default(a, d),
{
    match a {
        Some(x) => x,
        None => d,
    }
}

impl RunSettings {
    /// Combines the command line, the file's keys and the defaults: a value given
    /// on the command line wins, then the file's, then the default.
    pub fn from_cli(cli: &CliOptions, meta: ConfigMeta, config_max_lines: Option<usize>) -> (r: Self)
        ensures
            r.max_lines == or_default(either(cli.max_lines, config_max_lines), DEFAULT_MAX_LINES),
            r.use_symbols == or_default(meta.symbols, true),
            r.no_ui == cli.no_ui,
            r.raw == (cli.raw || or_default(meta.raw, false)),
            opt_view(r.prefix) == either(opt_view(cli.prefix), opt_view(meta.prefix)),
            r.prefix_length == either(cli.prefix_length, meta.prefix_length),
            r.prefix_colors == (cli.prefix_colors || or_default(meta.prefix_colors, false)),
            r.timestamp == (cli.timestamp || or_default(meta.timestamp, false)),
            r.output_mode == or_default(either(cli.output, meta.output), OutputMode::Combined),
            r.success == or_default(either(cli.success, meta.success), SuccessPolicy::Last),
            r.kill_others == (cli.kill_others || or_default(meta.kill_others, false)),
            r.kill_others_on_fail == (cli.kill_others_on_fail || or_default(meta.kill_others_on_fail, false)),
            r.restart_tries == either(cli.restart_tries, meta.restart_tries),
            r.restart_delay_ms == either(cli.restart_delay_ms, meta.restart_delay_ms),
            r.shutdown_sigint_ms == or_default(either(cli.shutdown_sigint_ms, meta.shutdown_sigint_ms), DEFAULT_SHUTDOWN_MS),
            r.shutdown_sigterm_ms == or_default(either(cli.shutdown_sigterm_ms, meta.shutdown_sigterm_ms), DEFAULT_SHUTDOWN_MS),
            r.input_enabled == (!cli.no_input && or_default(meta.handle_input, true)),
            opt_view(r.log_file) == either(opt_view(cli.log_file), opt_view(meta.log_file)),
    {
        let prefix = match &cli.prefix {
            Some(p) => Some(copy_string(p)),
            None => meta.prefix,
        };
        let log_file = match &cli.log_file {
            Some(p) => Some(copy_string(p)),
            None => meta.log_file,
        };
        RunSettings {
            max_lines: pick_or(pick(cli.max_lines, config_max_lines), DEFAULT_MAX_LINES),
            use_symbols: pick_or(meta.symbols, true),
            no_ui: cli.no_ui,
            raw: cli.raw || pick_or(meta.raw, false),
            prefix,
            prefix_length: pick(cli.prefix_length, meta.prefix_length),
            prefix_colors: cli.prefix_colors || pick_or(meta.prefix_colors, false),
            timestamp: cli.timestamp || pick_or(meta.timestamp, false),
            output_mode: pick_or(pick(cli.output, meta.output), OutputMode::Combined),
            success: pick_or(pick(cli.success, meta.success), SuccessPolicy::Last),
            kill_others: cli.kill_others || pick_or(meta.kill_others, false),
            kill_others_on_fail: cli.kill_others_on_fail || pick_or(meta.kill_others_on_fail, false),
            restart_tries: pick(cli.restart_tries, meta.restart_tries),
            restart_delay_ms: pick(cli.restart_delay_ms, meta.restart_delay_ms),
            shutdown_sigint_ms: pick_or(pick(cli.shutdown_sigint_ms, meta.shutdown_sigint_ms), DEFAULT_SHUTDOWN_MS),
            shutdown_sigterm_ms: pick_or(pick(cli.shutdown_sigterm_ms, meta.shutdown_sigterm_ms), DEFAULT_SHUTDOWN_MS),
            input_enabled: !cli.no_input && pick_or(meta.handle_input, true),
            log_file,
        }
    }
}

} // verus!
