//! Configuration profiles and their precedence.
//!
//! The effective configuration is built from, in increasing precedence: the
//! built-in defaults, the `global` section of the configuration file, the
//! selected profile, and the command-line arguments. A profile can also be
//! saved from the command-line arguments, keeping only non-default values.
use vstd::prelude::*;
use vstd::string::*;
use indexmap::IndexMap;
use crate::text::{clone_opt_string, clone_opt_strings, clone_strings, opt_seq, opt_seqs, seqs_of, str_eq};
use crate::livetrace::duration::{
    duration_fits, duration_in_range, duration_millis, format_duration_spec, lemma_format_then_parse,
    format_millis_to_duration_string, parse_duration_to_millis,
};
use crate::livetrace::theme::{ColoringMode, Theme};

verus! {

/// Default session timeout: 30 minutes.
pub const DEFAULT_SESSION_TIMEOUT_MS: u64 = 1800000;

/// Default maximum buffering time of a trace: 5 seconds.
pub const DEFAULT_TRACE_TIMEOUT_MS: u64 = 5000;

/// Default wait for straggler spans: none.
pub const DEFAULT_TRACE_STRAGGLERS_WAIT_MS: u64 = 0;

/// Default event attribute that carries the severity.
pub const DEFAULT_EVENT_SEVERITY_ATTRIBUTE: &'static str = "event.severity";

/// By default only events are shown in the timeline.
pub const DEFAULT_EVENTS_ONLY: bool = true;

/// Default colouring mode.
pub const DEFAULT_COLOR_BY: ColoringMode = ColoringMode::Span;

/// File name of the configuration file, relative to the working directory.
pub const LIVETRACE_TOML: &'static str = ".livetrace.toml";

/// The command-line arguments that take part in configuration.
pub struct CliArgs {
    pub log_group_pattern: Option<Vec<String>>,
    pub stack_name: Option<String>,
    pub otlp_endpoint: Option<String>,
    pub otlp_headers: Vec<String>,
    pub aws_region: Option<String>,
    pub aws_profile: Option<String>,
    pub verbose: u8,
    pub forward_only: bool,
    pub attrs: Option<String>,
    pub poll_interval: Option<u64>,
    pub session_timeout: Option<u64>,
    pub event_severity_attribute: Option<String>,
    pub config_profile: Option<String>,
    pub save_profile: Option<String>,
    pub theme: Option<Theme>,
    pub list_themes: bool,
    pub color_by: Option<ColoringMode>,
    pub events_only: Option<bool>,
    pub trace_timeout: Option<u64>,
    pub trace_stragglers_wait: Option<u64>,
    pub grep: Option<String>,
    pub backtrace: Option<u64>,
}

/// The settings of one profile (or of the `global` section). Durations are kept
/// as written (`"30s"`); absent settings are `None`.
pub struct ProfileConfig {
    pub log_group_pattern: Option<Vec<String>>,
    pub stack_name: Option<String>,
    pub otlp_endpoint: Option<String>,
    pub otlp_headers: Option<Vec<String>>,
    pub aws_region: Option<String>,
    pub aws_profile: Option<String>,
    pub forward_only: Option<bool>,
    pub attrs: Option<String>,
    pub event_severity_attribute: Option<String>,
    pub theme: Option<Theme>,
    pub color_by: Option<ColoringMode>,
    pub poll_interval: Option<String>,
    pub session_timeout: Option<String>,
    pub events_only: Option<bool>,
    pub trace_timeout: Option<String>,
    pub trace_stragglers_wait: Option<String>,
    pub grep: Option<String>,
    pub backtrace: Option<String>,
}

/// The configuration in force after all sources are merged.
pub struct EffectiveConfig {
    pub log_group_pattern: Option<Vec<String>>,
    pub stack_name: Option<String>,
    pub otlp_endpoint: Option<String>,
    pub otlp_headers: Vec<String>,
    pub aws_region: Option<String>,
    pub aws_profile: Option<String>,
    pub forward_only: bool,
    pub attrs: Option<String>,
    pub event_severity_attribute: String,
    pub color_by: ColoringMode,
    pub events_only: bool,
    pub trace_timeout_ms: u64,
    pub trace_stragglers_wait_ms: u64,
    pub poll_interval_ms: Option<u64>,
    pub session_timeout_ms: u64,
    pub verbose: u8,
    pub theme: Theme,
    pub grep: Option<String>,
    pub backtrace_ms: Option<u64>,
}

/// Mathematical view of `CliArgs`.
pub struct CliView {
    pub log_group_pattern: Option<Seq<Seq<char>>>,
    pub stack_name: Option<Seq<char>>,
    pub otlp_endpoint: Option<Seq<char>>,
    pub otlp_headers: Seq<Seq<char>>,
    pub aws_region: Option<Seq<char>>,
    pub aws_profile: Option<Seq<char>>,
    pub verbose: u8,
    pub forward_only: bool,
    pub attrs: Option<Seq<char>>,
    pub poll_interval: Option<u64>,
    pub session_timeout: Option<u64>,
    pub event_severity_attribute: Option<Seq<char>>,
    pub theme: Option<Theme>,
    pub color_by: Option<ColoringMode>,
    pub events_only: Option<bool>,
    pub trace_timeout: Option<u64>,
    pub trace_stragglers_wait: Option<u64>,
    pub grep: Option<Seq<char>>,
    pub backtrace: Option<u64>,
    pub config_profile: Option<Seq<char>>,
    pub save_profile: Option<Seq<char>>,
    pub list_themes: bool,
}

/// Mathematical view of `ProfileConfig`.
pub struct ProfileView {
    pub log_group_pattern: Option<Seq<Seq<char>>>,
    pub stack_name: Option<Seq<char>>,
    pub otlp_endpoint: Option<Seq<char>>,
    pub otlp_headers: Option<Seq<Seq<char>>>,
    pub aws_region: Option<Seq<char>>,
    pub aws_profile: Option<Seq<char>>,
    pub forward_only: Option<bool>,
    pub attrs: Option<Seq<char>>,
    pub event_severity_attribute: Option<Seq<char>>,
    pub theme: Option<Theme>,
    pub color_by: Option<ColoringMode>,
    pub poll_interval: Option<Seq<char>>,
    pub session_timeout: Option<Seq<char>>,
    pub events_only: Option<bool>,
    pub trace_timeout: Option<Seq<char>>,
    pub trace_stragglers_wait: Option<Seq<char>>,
    pub grep: Option<Seq<char>>,
    pub backtrace: Option<Seq<char>>,
}

/// Mathematical view of `EffectiveConfig`.
pub struct EffectiveView {
    pub log_group_pattern: Option<Seq<Seq<char>>>,
    pub stack_name: Option<Seq<char>>,
    pub otlp_endpoint: Option<Seq<char>>,
    pub otlp_headers: Seq<Seq<char>>,
    pub aws_region: Option<Seq<char>>,
    pub aws_profile: Option<Seq<char>>,
    pub forward_only: bool,
    pub attrs: Option<Seq<char>>,
    pub event_severity_attribute: Seq<char>,
    pub color_by: ColoringMode,
    pub events_only: bool,
    pub trace_timeout_ms: u64,
    pub trace_stragglers_wait_ms: u64,
    pub poll_interval_ms: Option<u64>,
    pub session_timeout_ms: u64,
    pub verbose: u8,
    pub theme: Theme,
    pub grep: Option<Seq<char>>,
    pub backtrace_ms: Option<u64>,
}

impl View for CliArgs {
    type V = CliView;

    open spec fn view(&self) -> CliView {
        CliView {
            log_group_pattern: opt_seqs(self.log_group_pattern),
            stack_name: opt_seq(self.stack_name),
            otlp_endpoint: opt_seq(self.otlp_endpoint),
            otlp_headers: seqs_of(self.otlp_headers@),
            aws_region: opt_seq(self.aws_region),
            aws_profile: opt_seq(self.aws_profile),
            verbose: self.verbose,
            forward_only: self.forward_only,
            attrs: opt_seq(self.attrs),
            poll_interval: self.poll_interval,
            session_timeout: self.session_timeout,
            event_severity_attribute: opt_seq(self.event_severity_attribute),
            theme: self.theme,
            color_by: self.color_by,
            events_only: self.events_only,
            trace_timeout: self.trace_timeout,
            trace_stragglers_wait: self.trace_stragglers_wait,
            grep: opt_seq(self.grep),
            backtrace: self.backtrace,
            config_profile: opt_seq(self.config_profile),
            save_profile: opt_seq(self.save_profile),
            list_themes: self.list_themes,
        }
    }
}

impl View for ProfileConfig {
    type V = ProfileView;

    open spec fn view(&self) -> ProfileView {
        ProfileView {
            log_group_pattern: opt_seqs(self.log_group_pattern),
            stack_name: opt_seq(self.stack_name),
            otlp_endpoint: opt_seq(self.otlp_endpoint),
            otlp_headers: opt_seqs(self.otlp_headers),
            aws_region: opt_seq(self.aws_region),
            aws_profile: opt_seq(self.aws_profile),
            forward_only: self.forward_only,
            attrs: opt_seq(self.attrs),
            event_severity_attribute: opt_seq(self.event_severity_attribute),
            theme: self.theme,
            color_by: self.color_by,
            poll_interval: opt_seq(self.poll_interval),
            session_timeout: opt_seq(self.session_timeout),
            events_only: self.events_only,
            trace_timeout: opt_seq(self.trace_timeout),
            trace_stragglers_wait: opt_seq(self.trace_stragglers_wait),
            grep: opt_seq(self.grep),
            backtrace: opt_seq(self.backtrace),
        }
    }
}

impl View for EffectiveConfig {
    type V = EffectiveView;

    open spec fn view(&self) -> EffectiveView {
        EffectiveView {
            log_group_pattern: opt_seqs(self.log_group_pattern),
            stack_name: opt_seq(self.stack_name),
            otlp_endpoint: opt_seq(self.otlp_endpoint),
            otlp_headers: seqs_of(self.otlp_headers@),
            aws_region: opt_seq(self.aws_region),
            aws_profile: opt_seq(self.aws_profile),
            forward_only: self.forward_only,
            attrs: opt_seq(self.attrs),
            event_severity_attribute: self.event_severity_attribute@,
            color_by: self.color_by,
            events_only: self.events_only,
            trace_timeout_ms: self.trace_timeout_ms,
            trace_stragglers_wait_ms: self.trace_stragglers_wait_ms,
            poll_interval_ms: self.poll_interval_ms,
            session_timeout_ms: self.session_timeout_ms,
            verbose: self.verbose,
            theme: self.theme,
            grep: opt_seq(self.grep),
            backtrace_ms: self.backtrace_ms,
        }
    }
}

/// `o` if it is present, else `k`.
pub open spec fn or_keep<T>(o: Option<T>, k: Option<T>) -> Option<T> {
    if o is Some {
        o
    } else {
        k
    }
}

/// The value inside `o` if present, else `k`.
pub open spec fn value_or<T>(o: Option<T>, k: T) -> T {
    match o {
        Some(v) => v,
        None => k,
    }
}

/// A present, non-empty list of patterns.
pub open spec fn has_patterns(o: Option<Seq<Seq<char>>>) -> bool {
    match o {
        Some(v) => v.len() > 0,
        None => false,
    }
}

/// An optional duration string applied over a current value: a string that does
/// not parse leaves the current value (it is only worth a warning).
pub open spec fn duration_or(o: Option<Seq<char>>, k: u64) -> u64 {
    match o {
        Some(s) => match duration_millis(s) {
            Some(v) => v as u64,
            None => k,
        },
        None => k,
    }
}

/// Like `duration_or`, for an optional setting.
pub open spec fn opt_duration_or(o: Option<Seq<char>>, k: Option<u64>) -> Option<u64> {
    match o {
        Some(s) => match duration_millis(s) {
            Some(v) => Some(v as u64),
            None => k,
        },
        None => k,
    }
}

/// Every duration string of a profile is in range (see `duration_fits`).
pub open spec fn profile_fits(p: ProfileView) -> bool {
    &&& (p.poll_interval matches Some(s) ==> duration_fits(s))
    &&& (p.session_timeout matches Some(s) ==> duration_fits(s))
    &&& (p.trace_timeout matches Some(s) ==> duration_fits(s))
    &&& (p.trace_stragglers_wait matches Some(s) ==> duration_fits(s))
    &&& (p.backtrace matches Some(s) ==> duration_fits(s))
}

/// The configuration before any source is applied.
pub open spec fn default_effective_spec() -> EffectiveView {
    EffectiveView {
        log_group_pattern: None,
        stack_name: None,
        otlp_endpoint: None,
        otlp_headers: Seq::empty(),
        aws_region: None,
        aws_profile: None,
        forward_only: false,
        attrs: None,
        event_severity_attribute: DEFAULT_EVENT_SEVERITY_ATTRIBUTE@,
        color_by: ColoringMode::Span,
        events_only: true,
        trace_timeout_ms: 5000,
        trace_stragglers_wait_ms: 0,
        poll_interval_ms: None,
        session_timeout_ms: 1800000,
        verbose: 0,
        theme: Theme::Default,
        grep: None,
        backtrace_ms: None,
    }
}

/// The settings of a profile laid over a configuration: present settings win.
pub open spec fn apply_profile_spec(p: ProfileView, e: EffectiveView) -> EffectiveView {
    EffectiveView {
        log_group_pattern: if has_patterns(p.log_group_pattern) {
            p.log_group_pattern
        } else {
            e.log_group_pattern
        },
        stack_name: or_keep(p.stack_name, e.stack_name),
        otlp_endpoint: or_keep(p.otlp_endpoint, e.otlp_endpoint),
        otlp_headers: value_or(p.otlp_headers, e.otlp_headers),
        aws_region: or_keep(p.aws_region, e.aws_region),
        aws_profile: or_keep(p.aws_profile, e.aws_profile),
        forward_only: value_or(p.forward_only, e.forward_only),
        attrs: or_keep(p.attrs, e.attrs),
        event_severity_attribute: value_or(p.event_severity_attribute, e.event_severity_attribute),
        color_by: value_or(p.color_by, e.color_by),
        events_only: value_or(p.events_only, e.events_only),
        trace_timeout_ms: duration_or(p.trace_timeout, e.trace_timeout_ms),
        trace_stragglers_wait_ms: duration_or(p.trace_stragglers_wait, e.trace_stragglers_wait_ms),
        poll_interval_ms: opt_duration_or(p.poll_interval, e.poll_interval_ms),
        session_timeout_ms: duration_or(p.session_timeout, e.session_timeout_ms),
        verbose: e.verbose,
        theme: value_or(p.theme, e.theme),
        grep: or_keep(p.grep, e.grep),
        backtrace_ms: opt_duration_or(p.backtrace, e.backtrace_ms),
    }
}

/// The command-line arguments laid over a configuration: given arguments win;
/// `--forward-only` can only switch forwarding-only mode on; verbosity is always
/// taken from the command line.
pub open spec fn apply_cli_spec(c: CliView, e: EffectiveView) -> EffectiveView {
    EffectiveView {
        log_group_pattern: if has_patterns(c.log_group_pattern) {
            c.log_group_pattern
        } else {
            e.log_group_pattern
        },
        stack_name: or_keep(c.stack_name, e.stack_name),
        otlp_endpoint: or_keep(c.otlp_endpoint, e.otlp_endpoint),
        otlp_headers: if c.otlp_headers.len() > 0 {
            c.otlp_headers
        } else {
            e.otlp_headers
        },
        aws_region: or_keep(c.aws_region, e.aws_region),
        aws_profile: or_keep(c.aws_profile, e.aws_profile),
        forward_only: c.forward_only || e.forward_only,
        attrs: or_keep(c.attrs, e.attrs),
        event_severity_attribute: value_or(c.event_severity_attribute, e.event_severity_attribute),
        color_by: value_or(c.color_by, e.color_by),
        events_only: value_or(c.events_only, e.events_only),
        trace_timeout_ms: value_or(c.trace_timeout, e.trace_timeout_ms),
        trace_stragglers_wait_ms: value_or(c.trace_stragglers_wait, e.trace_stragglers_wait_ms),
        poll_interval_ms: or_keep(c.poll_interval, e.poll_interval_ms),
        session_timeout_ms: value_or(c.session_timeout, e.session_timeout_ms),
        verbose: c.verbose,
        theme: value_or(c.theme, e.theme),
        grep: or_keep(c.grep, e.grep),
        backtrace_ms: or_keep(c.backtrace, e.backtrace_ms),
    }
}

/// A duration argument as a profile stores it: its canonical text, unless it is
/// the given default, which is left out.
pub open spec fn saved_duration(o: Option<u64>, default: u64) -> Option<Seq<char>> {
    match o {
        Some(ms) => if ms == default {
            None
        } else {
            Some(format_duration_spec(ms))
        },
        None => None,
    }
}

/// A duration argument stored as its canonical text.
pub open spec fn saved_duration_always(o: Option<u64>) -> Option<Seq<char>> {
    match o {
        Some(ms) => Some(format_duration_spec(ms)),
        None => None,
    }
}

/// The profile that `--save-profile` stores for the given arguments: only values
/// that differ from the defaults.
pub open spec fn from_cli_spec(c: CliView) -> ProfileView {
    ProfileView {
        log_group_pattern: if has_patterns(c.log_group_pattern) {
            c.log_group_pattern
        } else {
            None
        },
        stack_name: c.stack_name,
        otlp_endpoint: c.otlp_endpoint,
        otlp_headers: if c.otlp_headers.len() == 0 {
            None
        } else {
            Some(c.otlp_headers)
        },
        aws_region: c.aws_region,
        aws_profile: c.aws_profile,
        forward_only: if c.forward_only {
            Some(true)
        } else {
            None
        },
        attrs: c.attrs,
        poll_interval: saved_duration_always(c.poll_interval),
        session_timeout: saved_duration(c.session_timeout, DEFAULT_SESSION_TIMEOUT_MS),
        event_severity_attribute: match c.event_severity_attribute {
            Some(s) => if s == DEFAULT_EVENT_SEVERITY_ATTRIBUTE@ {
                None
            } else {
                Some(s)
            },
            None => None,
        },
        theme: match c.theme {
            Some(t) => if t == Theme::Default {
                None
            } else {
                Some(t)
            },
            None => None,
        },
        color_by: match c.color_by {
            Some(m) => if m == DEFAULT_COLOR_BY {
                None
            } else {
                Some(m)
            },
            None => None,
        },
        events_only: match c.events_only {
            Some(b) => if b == DEFAULT_EVENTS_ONLY {
                None
            } else {
                Some(b)
            },
            None => None,
        },
        trace_timeout: saved_duration(c.trace_timeout, DEFAULT_TRACE_TIMEOUT_MS),
        trace_stragglers_wait: saved_duration(
            c.trace_stragglers_wait,
            DEFAULT_TRACE_STRAGGLERS_WAIT_MS,
        ),
        grep: c.grep,
        backtrace: saved_duration_always(c.backtrace),
    }
}

/// Field-wise merge: settings of `overrides` win over those of `base`.
pub open spec fn merge_spec(base: ProfileView, overrides: ProfileView) -> ProfileView {
    ProfileView {
        log_group_pattern: or_keep(overrides.log_group_pattern, base.log_group_pattern),
        stack_name: or_keep(overrides.stack_name, base.stack_name),
        otlp_endpoint: or_keep(overrides.otlp_endpoint, base.otlp_endpoint),
        otlp_headers: or_keep(overrides.otlp_headers, base.otlp_headers),
        aws_region: or_keep(overrides.aws_region, base.aws_region),
        aws_profile: or_keep(overrides.aws_profile, base.aws_profile),
        forward_only: or_keep(overrides.forward_only, base.forward_only),
        attrs: or_keep(overrides.attrs, base.attrs),
        event_severity_attribute: or_keep(
            overrides.event_severity_attribute,
            base.event_severity_attribute,
        ),
        theme: or_keep(overrides.theme, base.theme),
        color_by: or_keep(overrides.color_by, base.color_by),
        poll_interval: or_keep(overrides.poll_interval, base.poll_interval),
        session_timeout: or_keep(overrides.session_timeout, base.session_timeout),
        events_only: or_keep(overrides.events_only, base.events_only),
        trace_timeout: or_keep(overrides.trace_timeout, base.trace_timeout),
        trace_stragglers_wait: or_keep(overrides.trace_stragglers_wait, base.trace_stragglers_wait),
        grep: or_keep(overrides.grep, base.grep),
        backtrace: or_keep(overrides.backtrace, base.backtrace),
    }
}

/// A profile with no settings.
pub open spec fn empty_profile_spec() -> ProfileView {
    ProfileView {
        log_group_pattern: None,
        stack_name: None,
        otlp_endpoint: None,
        otlp_headers: None,
        aws_region: None,
        aws_profile: None,
        forward_only: None,
        attrs: None,
        event_severity_attribute: None,
        theme: None,
        color_by: None,
        poll_interval: None,
        session_timeout: None,
        events_only: None,
        trace_timeout: None,
        trace_stragglers_wait: None,
        grep: None,
        backtrace: None,
    }
}


impl ProfileConfig {
    /// A profile with no settings.
    pub fn empty() -> (p: ProfileConfig)
        ensures
            p@ == empty_profile_spec(),
    {
        ProfileConfig {
            log_group_pattern: None,
            stack_name: None,
            otlp_endpoint: None,
            otlp_headers: None,
            aws_region: None,
            aws_profile: None,
            forward_only: None,
            attrs: None,
            event_severity_attribute: None,
            theme: None,
            color_by: None,
            poll_interval: None,
            session_timeout: None,
            events_only: None,
            trace_timeout: None,
            trace_stragglers_wait: None,
            grep: None,
            backtrace: None,
        }
    }

    /// Whether every duration string of the profile is in range, i.e. whether the
    /// profile may be applied.
    pub fn durations_in_range(&self) -> (b: bool)
        ensures
            b == profile_fits(self@),
    {
        let a = match &self.poll_interval {
            Some(s) => duration_in_range(s.as_str()),
            None => true,
        };
        let b = match &self.session_timeout {
            Some(s) => duration_in_range(s.as_str()),
            None => true,
        };
        let c = match &self.trace_timeout {
            Some(s) => duration_in_range(s.as_str()),
            None => true,
        };
        let d = match &self.trace_stragglers_wait {
            Some(s) => duration_in_range(s.as_str()),
            None => true,
        };
        let e = match &self.backtrace {
            Some(s) => duration_in_range(s.as_str()),
            None => true,
        };
        a && b && c && d && e
    }

    /// The profile that `--save-profile` stores: the given arguments, leaving out
    /// empty lists, an unset `--forward-only` and values equal to the defaults;
    /// durations are written in their canonical form (e.g. `45m`).
    pub fn from_cli_args(args: &CliArgs) -> (p: ProfileConfig)
        ensures
            p@ == from_cli_spec(args@),
    {
        let log_group_pattern = match &args.log_group_pattern {
            Some(v) => if v.len() > 0 {
                Some(clone_strings(v))
            } else {
                None
            },
            None => None,
        };
        let otlp_headers = if args.otlp_headers.len() == 0 {
            None
        } else {
            Some(clone_strings(&args.otlp_headers))
        };
        let forward_only = if args.forward_only {
            Some(true)
        } else {
            None
        };
        let poll_interval = match args.poll_interval {
            Some(ms) => Some(format_millis_to_duration_string(ms)),
            None => None,
        };
        let session_timeout = match args.session_timeout {
            Some(ms) => if ms == DEFAULT_SESSION_TIMEOUT_MS {
                None
            } else {
                Some(format_millis_to_duration_string(ms))
            },
            None => None,
        };
        let event_severity_attribute = match &args.event_severity_attribute {
            Some(s) => if str_eq(s.as_str(), DEFAULT_EVENT_SEVERITY_ATTRIBUTE) {
                None
            } else {
                Some(s.clone())
            },
            None => None,
        };
        let theme = match args.theme {
            Some(t) => if t == Theme::Default {
                None
            } else {
                Some(t)
            },
            None => None,
        };
        let color_by = match args.color_by {
            Some(m) => if m == DEFAULT_COLOR_BY {
                None
            } else {
                Some(m)
            },
            None => None,
        };
        let events_only = match args.events_only {
            Some(b) => if b == DEFAULT_EVENTS_ONLY {
                None
            } else {
                Some(b)
            },
            None => None,
        };
        let trace_timeout = match args.trace_timeout {
            Some(ms) => if ms == DEFAULT_TRACE_TIMEOUT_MS {
                None
            } else {
                Some(format_millis_to_duration_string(ms))
            },
            None => None,
        };
        let trace_stragglers_wait = match args.trace_stragglers_wait {
            Some(ms) => if ms == DEFAULT_TRACE_STRAGGLERS_WAIT_MS {
                None
            } else {
                Some(format_millis_to_duration_string(ms))
            },
            None => None,
        };
        let backtrace = match args.backtrace {
            Some(ms) => Some(format_millis_to_duration_string(ms)),
            None => None,
        };
        let p = ProfileConfig {
            log_group_pattern,
            stack_name: clone_opt_string(&args.stack_name),
            otlp_endpoint: clone_opt_string(&args.otlp_endpoint),
            otlp_headers,
            aws_region: clone_opt_string(&args.aws_region),
            aws_profile: clone_opt_string(&args.aws_profile),
            forward_only,
            attrs: clone_opt_string(&args.attrs),
            event_severity_attribute,
            theme,
            color_by,
            poll_interval,
            session_timeout,
            events_only,
            trace_timeout,
            trace_stragglers_wait,
            grep: clone_opt_string(&args.grep),
            backtrace,
        };
        assert(p@ == from_cli_spec(args@));
        p
    }
}

impl EffectiveConfig {
    /// The configuration before any source is applied.
    pub fn defaults() -> (e: EffectiveConfig)
        ensures
            e@ == default_effective_spec(),
    {
        let e = EffectiveConfig {
            log_group_pattern: None,
            stack_name: None,
            otlp_endpoint: None,
            otlp_headers: Vec::new(),
            aws_region: None,
            aws_profile: None,
            forward_only: false,
            attrs: None,
            event_severity_attribute: String::from_str(DEFAULT_EVENT_SEVERITY_ATTRIBUTE),
            color_by: DEFAULT_COLOR_BY,
            events_only: DEFAULT_EVENTS_ONLY,
            trace_timeout_ms: DEFAULT_TRACE_TIMEOUT_MS,
            trace_stragglers_wait_ms: DEFAULT_TRACE_STRAGGLERS_WAIT_MS,
            poll_interval_ms: None,
            session_timeout_ms: DEFAULT_SESSION_TIMEOUT_MS,
            verbose: 0,
            theme: Theme::Default,
            grep: None,
            backtrace_ms: None,
        };
        assert(seqs_of(e.otlp_headers@) =~= Seq::<Seq<char>>::empty());
        e
    }
}

fn choose_patterns(o: &Option<Vec<String>>, current: &Option<Vec<String>>) -> (r: Option<
    Vec<String>,
>)
    ensures
        opt_seqs(r) == if has_patterns(opt_seqs(*o)) {
            opt_seqs(*o)
        } else {
            opt_seqs(*current)
        },
{
    let given = match o {
        Some(v) => v.len() > 0,
        None => false,
    };
    if given {
        clone_opt_strings(o)
    } else {
        clone_opt_strings(current)
    }
}

fn string_or(o: &Option<String>, current: &String) -> (r: String)
    ensures
        r@ == value_or(opt_seq(*o), current@),
{
    match o {
        Some(v) => v.clone(),
        None => current.clone(),
    }
}

fn strings_or(o: &Option<Vec<String>>, current: &Vec<String>) -> (r: Vec<String>)
    ensures
        seqs_of(r@) == value_or(opt_seqs(*o), seqs_of(current@)),
{
    match o {
        Some(v) => clone_strings(v),
        None => clone_strings(current),
    }
}

fn copy_or<T: Copy>(o: Option<T>, current: T) -> (r: T)
    ensures
        r == value_or(o, current),
{
    match o {
        Some(v) => v,
        None => current,
    }
}

/// Lays the command-line arguments over `effective` (see `apply_cli_spec`).
pub fn apply_cli_args_to_effective(cli_args: &CliArgs, effective: &mut EffectiveConfig)
    ensures
        final(effective)@ == apply_cli_spec(cli_args@, old(effective)@),
{
    let log_group_pattern = choose_patterns(&cli_args.log_group_pattern, &effective.log_group_pattern);
    let stack_name = merge_string(&cli_args.stack_name, &effective.stack_name);
    let otlp_endpoint = merge_string(&cli_args.otlp_endpoint, &effective.otlp_endpoint);
    let otlp_headers = if cli_args.otlp_headers.len() > 0 {
        clone_strings(&cli_args.otlp_headers)
    } else {
        clone_strings(&effective.otlp_headers)
    };
    let aws_region = merge_string(&cli_args.aws_region, &effective.aws_region);
    let aws_profile = merge_string(&cli_args.aws_profile, &effective.aws_profile);
    let attrs = merge_string(&cli_args.attrs, &effective.attrs);
    let grep = merge_string(&cli_args.grep, &effective.grep);
    let event_severity_attribute = string_or(
        &cli_args.event_severity_attribute,
        &effective.event_severity_attribute,
    );
    let new = EffectiveConfig {
        log_group_pattern,
        stack_name,
        otlp_endpoint,
        otlp_headers,
        aws_region,
        aws_profile,
        forward_only: cli_args.forward_only || effective.forward_only,
        attrs,
        event_severity_attribute,
        color_by: copy_or(cli_args.color_by, effective.color_by),
        events_only: copy_or(cli_args.events_only, effective.events_only),
        trace_timeout_ms: copy_or(cli_args.trace_timeout, effective.trace_timeout_ms),
        trace_stragglers_wait_ms: copy_or(
            cli_args.trace_stragglers_wait,
            effective.trace_stragglers_wait_ms,
        ),
        poll_interval_ms: merge_copy(cli_args.poll_interval, effective.poll_interval_ms),
        session_timeout_ms: copy_or(cli_args.session_timeout, effective.session_timeout_ms),
        verbose: cli_args.verbose,
        theme: copy_or(cli_args.theme, effective.theme),
        grep,
        backtrace_ms: merge_copy(cli_args.backtrace, effective.backtrace_ms),
    };
    *effective = new;
}

/// Reads an optional duration setting; a string that does not parse keeps the
/// current value.
fn apply_duration(setting: &Option<String>, current: u64) -> (r: u64)
    requires
        opt_seq(*setting) matches Some(s) ==> duration_fits(s),
    ensures
        r == duration_or(opt_seq(*setting), current),
{
    match setting {
        Some(s) => match parse_duration_to_millis(s.as_str()) {
            Ok(ms) => ms,
            Err(_) => current,
        },
        None => current,
    }
}

/// Like `apply_duration`, for an optional value.
fn apply_opt_duration(setting: &Option<String>, current: Option<u64>) -> (r: Option<u64>)
    requires
        opt_seq(*setting) matches Some(s) ==> duration_fits(s),
    ensures
        r == opt_duration_or(opt_seq(*setting), current),
{
    match setting {
        Some(s) => match parse_duration_to_millis(s.as_str()) {
            Ok(ms) => Some(ms),
            Err(_) => current,
        },
        None => current,
    }
}

/// Lays a profile over `effective` (see `apply_profile_spec`). Duration strings
/// that do not parse leave the current value in place.
pub fn apply_profile_to_effective(profile: &ProfileConfig, effective: &mut EffectiveConfig)
    requires
        profile_fits(profile@),
    ensures
        final(effective)@ == apply_profile_spec(profile@, old(effective)@),
{
    let log_group_pattern = choose_patterns(&profile.log_group_pattern, &effective.log_group_pattern);
    let stack_name = merge_string(&profile.stack_name, &effective.stack_name);
    let otlp_endpoint = merge_string(&profile.otlp_endpoint, &effective.otlp_endpoint);
    let otlp_headers = strings_or(&profile.otlp_headers, &effective.otlp_headers);
    let aws_region = merge_string(&profile.aws_region, &effective.aws_region);
    let aws_profile = merge_string(&profile.aws_profile, &effective.aws_profile);
    let attrs = merge_string(&profile.attrs, &effective.attrs);
    let event_severity_attribute = string_or(
        &profile.event_severity_attribute,
        &effective.event_severity_attribute,
    );
    let grep = merge_string(&profile.grep, &effective.grep);
    let new = EffectiveConfig {
        log_group_pattern,
        stack_name,
        otlp_endpoint,
        otlp_headers,
        aws_region,
        aws_profile,
        forward_only: copy_or(profile.forward_only, effective.forward_only),
        attrs,
        event_severity_attribute,
        color_by: copy_or(profile.color_by, effective.color_by),
        events_only: copy_or(profile.events_only, effective.events_only),
        trace_timeout_ms: apply_duration(&profile.trace_timeout, effective.trace_timeout_ms),
        trace_stragglers_wait_ms: apply_duration(
            &profile.trace_stragglers_wait,
            effective.trace_stragglers_wait_ms,
        ),
        poll_interval_ms: apply_opt_duration(&profile.poll_interval, effective.poll_interval_ms),
        session_timeout_ms: apply_duration(&profile.session_timeout, effective.session_timeout_ms),
        verbose: effective.verbose,
        theme: copy_or(profile.theme, effective.theme),
        grep,
        backtrace_ms: apply_opt_duration(&profile.backtrace, effective.backtrace_ms),
    };
    *effective = new;
}

fn merge_string(o: &Option<String>, b: &Option<String>) -> (r: Option<String>)
    ensures
        opt_seq(r) == or_keep(opt_seq(*o), opt_seq(*b)),
{
    if o.is_some() {
        clone_opt_string(o)
    } else {
        clone_opt_string(b)
    }
}

fn merge_strings(o: &Option<Vec<String>>, b: &Option<Vec<String>>) -> (r: Option<Vec<String>>)
    ensures
        opt_seqs(r) == or_keep(opt_seqs(*o), opt_seqs(*b)),
{
    if o.is_some() {
        clone_opt_strings(o)
    } else {
        clone_opt_strings(b)
    }
}

fn merge_copy<T: Copy>(o: Option<T>, b: Option<T>) -> (r: Option<T>)
    ensures
        r == or_keep(o, b),
{
    if o.is_some() {
        o
    } else {
        b
    }
}

/// Field-wise merge of two profiles: each setting of `overrides` that is present
/// wins, the others come from `base`.
pub fn merge_into_profile_config(base: &ProfileConfig, overrides: &ProfileConfig) -> (p:
    ProfileConfig)
    ensures
        p@ == merge_spec(base@, overrides@),
{
    ProfileConfig {
        log_group_pattern: merge_strings(&overrides.log_group_pattern, &base.log_group_pattern),
        stack_name: merge_string(&overrides.stack_name, &base.stack_name),
        otlp_endpoint: merge_string(&overrides.otlp_endpoint, &base.otlp_endpoint),
        otlp_headers: merge_strings(&overrides.otlp_headers, &base.otlp_headers),
        aws_region: merge_string(&overrides.aws_region, &base.aws_region),
        aws_profile: merge_string(&overrides.aws_profile, &base.aws_profile),
        forward_only: merge_copy(overrides.forward_only, base.forward_only),
        attrs: merge_string(&overrides.attrs, &base.attrs),
        event_severity_attribute: merge_string(
            &overrides.event_severity_attribute,
            &base.event_severity_attribute,
        ),
        theme: merge_copy(overrides.theme, base.theme),
        color_by: merge_copy(overrides.color_by, base.color_by),
        poll_interval: merge_string(&overrides.poll_interval, &base.poll_interval),
        session_timeout: merge_string(&overrides.session_timeout, &base.session_timeout),
        events_only: merge_copy(overrides.events_only, base.events_only),
        trace_timeout: merge_string(&overrides.trace_timeout, &base.trace_timeout),
        trace_stragglers_wait: merge_string(
            &overrides.trace_stragglers_wait,
            &base.trace_stragglers_wait,
        ),
        grep: merge_string(&overrides.grep, &base.grep),
        backtrace: merge_string(&overrides.backtrace, &base.backtrace),
    }
}


#[verifier::external_type_specification]
#[verifier::external_body]
#[verifier::reject_recursive_types(K)]
#[verifier::reject_recursive_types(V)]
#[verifier::reject_recursive_types(S)]
pub struct ExIndexMap<K, V, S>(IndexMap<K, V, S>);

/// What a map of profiles holds: each name once, with its profile, in the
/// order the names were first inserted.
pub uninterp spec fn profile_entries(profiles: IndexMap<String, ProfileConfig>) -> Seq<(Seq<char>, ProfileView)>;

/// The configuration file: an optional `global` section and named profiles, in
/// file order.
pub struct ConfigFile {
    pub global: Option<ProfileConfig>,
    pub profiles: IndexMap<String, ProfileConfig>,
}

/// Errors of configuration resolution.
pub enum ConfigError {
    /// The requested profile is not in the configuration file.
    ProfileNotFound { profile: String },
}

impl ConfigError {
    /// The error message.
    pub fn message(&self) -> (r: String)
        ensures
            r@ == match self {
                ConfigError::ProfileNotFound { profile } => "Configuration profile '"@ + profile@
                    + "' not found in config file '"@ + LIVETRACE_TOML@ + "'"@,
            },
    {
        match self {
            ConfigError::ProfileNotFound { profile } => {
                let mut m = String::from_str("Configuration profile '");
                m.append(profile.as_str());
                m.append("' not found in config file '");
                m.append(LIVETRACE_TOML);
                m.append("'");
                m
            },
        }
    }
}

/// The profile stored under `name`: the first entry with that name.
pub open spec fn lookup_profile(profiles: Seq<(Seq<char>, ProfileView)>, name: Seq<char>) -> Option<
    ProfileView,
>
    decreases profiles.len(),
{
    if profiles.len() == 0 {
        None
    } else if profiles[0].0 == name {
        Some(profiles[0].1)
    } else {
        lookup_profile(profiles.drop_first(), name)
    }
}

/// Every profile of the file, and its `global` section, has its durations in
/// range.
pub open spec fn config_file_fits(f: ConfigFile) -> bool {
    &&& (f.global matches Some(g) ==> profile_fits(g@))
    &&& forall|i: int|
        0 <= i < profile_entries(f.profiles).len() ==> profile_fits(#[trigger] profile_entries(f.profiles)[i].1)
}

/// The configuration that results from a profile name, the configuration file
/// (if it exists) and the arguments; `None` when the named profile is missing.
pub open spec fn resolve_spec(
    profile_name: Option<Seq<char>>,
    file: Option<ConfigFile>,
    cli: CliView,
) -> Option<EffectiveView> {
    match profile_name {
        None => Some(apply_cli_spec(cli, default_effective_spec())),
        Some(name) => match file {
            None => Some(apply_cli_spec(cli, default_effective_spec())),
            Some(f) => {
                let after_global = match f.global {
                    Some(g) => apply_profile_spec(g@, default_effective_spec()),
                    None => default_effective_spec(),
                };
                match lookup_profile(profile_entries(f.profiles), name) {
                    Some(p) => Some(apply_cli_spec(cli, apply_profile_spec(p, after_global))),
                    None => None,
                }
            },
        },
    }
}

proof fn lemma_lookup_fits(profiles: Seq<(Seq<char>, ProfileView)>, name: Seq<char>)
    requires
        forall|i: int| 0 <= i < profiles.len() ==> profile_fits(#[trigger] profiles[i].1),
    ensures
        lookup_profile(profiles, name) matches Some(p) ==> profile_fits(p),
    decreases profiles.len(),
{
    if profiles.len() > 0 && profiles[0].0 != name {
        let rest = profiles.drop_first();
        assert forall|i: int| 0 <= i < rest.len() implies profile_fits(#[trigger] rest[i].1) by {
            assert(rest[i] == profiles[i + 1]);
        }
        lemma_lookup_fits(rest, name);
    }
}

/// `IndexMap::get`: the profile stored under `name`, as the map holds each
/// name once.
#[verifier::external_body]
fn profile_get<'a>(profiles: &'a IndexMap<String, ProfileConfig>, name: &str) -> (r: Option<&'a ProfileConfig>)
    ensures
        match r {
            Some(p) => lookup_profile(profile_entries(*profiles), name@) == Some(p@),
            None => lookup_profile(profile_entries(*profiles), name@) is None,
        },
{
    profiles.get(name)
}

/// Finds the profile stored under `name`.
pub fn find_profile<'a>(profiles: &'a IndexMap<String, ProfileConfig>, name: &str) -> (r: Option<
    &'a ProfileConfig,
>)
    ensures
        match r {
            Some(p) => lookup_profile(profile_entries(*profiles), name@) == Some(p@),
            None => lookup_profile(profile_entries(*profiles), name@) is None,
        },
{
    profile_get(profiles, name)
}

/// Resolves the effective configuration. Without a profile name, or when the
/// configuration file does not exist (`None`), only the arguments are applied
/// over the defaults. Otherwise the `global` section, then the named profile,
/// then the arguments are applied; a missing profile is an error.
pub fn resolve_config(
    config_profile_name: &Option<String>,
    config_file: &Option<ConfigFile>,
    cli_args: &CliArgs,
) -> (r: Result<EffectiveConfig, ConfigError>)
    requires
        *config_file matches Some(f) ==> config_file_fits(f),
    ensures
        match r {
            Ok(e) => resolve_spec(opt_seq(*config_profile_name), *config_file, cli_args@)
                == Some(e@),
            Err(ConfigError::ProfileNotFound { profile }) => {
                &&& resolve_spec(opt_seq(*config_profile_name), *config_file, cli_args@) is None
                &&& opt_seq(*config_profile_name) == Some(profile@)
            },
        },
{
    let mut effective = EffectiveConfig::defaults();
    match config_profile_name {
        None => {
            apply_cli_args_to_effective(cli_args, &mut effective);
            Ok(effective)
        },
        Some(name) => match config_file {
            None => {
                apply_cli_args_to_effective(cli_args, &mut effective);
                Ok(effective)
            },
            Some(f) => {
                if let Some(g) = &f.global {
                    apply_profile_to_effective(g, &mut effective);
                }
                proof {
                    lemma_lookup_fits(profile_entries(f.profiles), name@);
                }
                match find_profile(&f.profiles, name.as_str()) {
                    Some(p) => {
                        apply_profile_to_effective(p, &mut effective);
                        apply_cli_args_to_effective(cli_args, &mut effective);
                        Ok(effective)
                    },
                    None => Err(ConfigError::ProfileNotFound { profile: name.clone() }),
                }
            },
        },
    }
}

/// The path of the configuration file.
pub fn get_config_path() -> (p: &'static str)
    ensures
        p@ == LIVETRACE_TOML@,
{
    LIVETRACE_TOML
}

/// Merging a profile with itself gives it back.
pub proof fn lemma_merge_idempotent(a: ProfileView)
    ensures
        merge_spec(a, a) == a,
{
}

/// An empty profile is neutral on either side of a merge.
pub proof fn lemma_merge_empty(a: ProfileView)
    ensures
        merge_spec(a, empty_profile_spec()) == a,
        merge_spec(empty_profile_spec(), a) == a,
{
}

/// Merging profiles is associative.
pub proof fn lemma_merge_associative(a: ProfileView, b: ProfileView, c: ProfileView)
    ensures
        merge_spec(merge_spec(a, b), c) == merge_spec(a, merge_spec(b, c)),
{
    let l = merge_spec(merge_spec(a, b), c);
    let r = merge_spec(a, merge_spec(b, c));
    assert(l.log_group_pattern == r.log_group_pattern);
    assert(l.stack_name == r.stack_name);
    assert(l.otlp_endpoint == r.otlp_endpoint);
    assert(l.otlp_headers == r.otlp_headers);
    assert(l.aws_region == r.aws_region);
    assert(l.aws_profile == r.aws_profile);
    assert(l.forward_only == r.forward_only);
    assert(l.attrs == r.attrs);
    assert(l.event_severity_attribute == r.event_severity_attribute);
    assert(l.theme == r.theme);
    assert(l.color_by == r.color_by);
    assert(l.poll_interval == r.poll_interval);
    assert(l.session_timeout == r.session_timeout);
    assert(l.events_only == r.events_only);
    assert(l.trace_timeout == r.trace_timeout);
    assert(l.trace_stragglers_wait == r.trace_stragglers_wait);
    assert(l.grep == r.grep);
    assert(l.backtrace == r.backtrace);
}

/// Precedence: a setting given on the command line wins; otherwise the named
/// profile's; otherwise the `global` section's; otherwise the default.
pub proof fn lemma_precedence(cli: CliView, profile: ProfileView, global: ProfileView)
    ensures
        ({
            let e = apply_cli_spec(
                cli,
                apply_profile_spec(profile, apply_profile_spec(global, default_effective_spec())),
            );
            &&& e.stack_name == or_keep(cli.stack_name, or_keep(profile.stack_name, global.stack_name))
            &&& e.otlp_endpoint == or_keep(
                cli.otlp_endpoint,
                or_keep(profile.otlp_endpoint, global.otlp_endpoint),
            )
            &&& e.aws_region == or_keep(cli.aws_region, or_keep(profile.aws_region, global.aws_region))
            &&& e.aws_profile == or_keep(
                cli.aws_profile,
                or_keep(profile.aws_profile, global.aws_profile),
            )
            &&& e.attrs == or_keep(cli.attrs, or_keep(profile.attrs, global.attrs))
            &&& e.grep == or_keep(cli.grep, or_keep(profile.grep, global.grep))
            &&& e.theme == value_or(cli.theme, value_or(profile.theme, value_or(global.theme, Theme::Default)))
            &&& e.color_by == value_or(
                cli.color_by,
                value_or(profile.color_by, value_or(global.color_by, DEFAULT_COLOR_BY)),
            )
            &&& e.events_only == value_or(
                cli.events_only,
                value_or(profile.events_only, value_or(global.events_only, DEFAULT_EVENTS_ONLY)),
            )
            &&& e.event_severity_attribute == value_or(
                cli.event_severity_attribute,
                value_or(
                    profile.event_severity_attribute,
                    value_or(global.event_severity_attribute, DEFAULT_EVENT_SEVERITY_ATTRIBUTE@),
                ),
            )
            &&& e.forward_only == (cli.forward_only || value_or(
                profile.forward_only,
                value_or(global.forward_only, false),
            ))
            &&& e.verbose == cli.verbose
        }),
{
}

/// `--forward-only` can only switch forwarding-only mode on: with the flag the
/// mode is on; without it the mode stays as the configuration had it.
pub proof fn lemma_cli_forward_only_switches_on(c: CliView, e: EffectiveView)
    ensures
        c.forward_only ==> apply_cli_spec(c, e).forward_only,
        e.forward_only ==> apply_cli_spec(c, e).forward_only,
        !c.forward_only ==> apply_cli_spec(c, e).forward_only == e.forward_only,
        apply_cli_spec(c, e).forward_only ==> c.forward_only || e.forward_only,
{
}

/// A named profile that switches forwarding-only mode on keeps it on in the
/// resolved configuration, whatever the arguments and the `global` section say;
/// one that switches it off leaves it to the flag.
pub proof fn lemma_profile_forward_only_resolved(
    name: Seq<char>,
    f: ConfigFile,
    cli: CliView,
    p: ProfileView,
)
    requires
        lookup_profile(profile_entries(f.profiles), name) == Some(p),
    ensures
        resolve_spec(Some(name), Some(f), cli) matches Some(eff) && (p.forward_only == Some(true)
            ==> eff.forward_only),
        resolve_spec(Some(name), Some(f), cli) matches Some(eff) && (p.forward_only == Some(false)
            ==> eff.forward_only == cli.forward_only),
{
}

/// Applying the same arguments twice is the same as applying them once.
pub proof fn lemma_cli_idempotent(cli: CliView, e: EffectiveView)
    ensures
        apply_cli_spec(cli, apply_cli_spec(cli, e)) == apply_cli_spec(cli, e),
{
}

/// A profile saved from the command-line arguments, loaded over the defaults,
/// gives the same configuration as the arguments themselves (verbosity aside,
/// which profiles do not carry).
pub proof fn lemma_saved_profile_roundtrip(cli: CliView)
    ensures
        profile_fits(from_cli_spec(cli)),
        apply_profile_spec(from_cli_spec(cli), default_effective_spec()) == (EffectiveView {
            verbose: 0,
            ..apply_cli_spec(cli, default_effective_spec())
        }),
{
    if let Some(ms) = cli.poll_interval {
        lemma_format_then_parse(ms);
    }
    if let Some(ms) = cli.session_timeout {
        lemma_format_then_parse(ms);
    }
    if let Some(ms) = cli.trace_timeout {
        lemma_format_then_parse(ms);
    }
    if let Some(ms) = cli.trace_stragglers_wait {
        lemma_format_then_parse(ms);
    }
    if let Some(ms) = cli.backtrace {
        lemma_format_then_parse(ms);
    }
    let p = from_cli_spec(cli);
    let d = default_effective_spec();
    let l = apply_profile_spec(p, d);
    let r = apply_cli_spec(cli, d);
    assert(l.log_group_pattern == r.log_group_pattern);
    assert(l.otlp_headers == r.otlp_headers);
    assert(l.event_severity_attribute == r.event_severity_attribute);
    assert(l.session_timeout_ms == r.session_timeout_ms);
    assert(l.trace_timeout_ms == r.trace_timeout_ms);
    assert(l.trace_stragglers_wait_ms == r.trace_stragglers_wait_ms);
    assert(l.poll_interval_ms == r.poll_interval_ms);
    assert(l.backtrace_ms == r.backtrace_ms);
}

} // verus!
