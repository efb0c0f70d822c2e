//! Severity levels of span events, with their OpenTelemetry severity numbers and
//! texts, and the minimum level read from the `EVENTS_LOG_LEVEL` setting.
use vstd::prelude::*;
use vstd::string::*;
use crate::text::{str_eq, to_uppercase, uppercase_of};

verus! {

/// The severity of a span event.
#[derive(Clone, Copy, Debug, PartialEq, Eq, Structural)]
pub enum Level {
    Trace,
    Debug,
    Info,
    Warn,
    Error,
}

/// The OpenTelemetry severity number of a level.
pub open spec fn severity_number_spec(l: Level) -> i64 {
    match l {
        Level::Trace => 1,
        Level::Debug => 5,
        Level::Info => 9,
        Level::Warn => 13,
        Level::Error => 17,
    }
}

pub open spec fn level_text_spec(l: Level) -> Seq<char> {
    match l {
        Level::Trace => "TRACE"@,
        Level::Debug => "DEBUG"@,
        Level::Info => "INFO"@,
        Level::Warn => "WARN"@,
        Level::Error => "ERROR"@,
    }
}

impl Level {
    /// The OpenTelemetry severity number (1, 5, 9, 13, 17 from trace to error).
    pub fn severity_number(&self) -> (n: i64)
        ensures
            n == severity_number_spec(*self),
    {
        match self {
            Level::Trace => 1,
            Level::Debug => 5,
            Level::Info => 9,
            Level::Warn => 13,
            Level::Error => 17,
        }
    }

    /// Whether an event of this level is kept when `min` is the minimum level.
    pub fn is_at_least(&self, min: Level) -> (b: bool)
        ensures
            b == (severity_number_spec(*self) >= severity_number_spec(min)),
    {
        self.severity_number() >= min.severity_number()
    }
}

/// The severity text of a level.
pub fn level_text(l: Level) -> (r: &'static str)
    ensures
        r@ == level_text_spec(l),
{
    match l {
        Level::Trace => "TRACE",
        Level::Debug => "DEBUG",
        Level::Info => "INFO",
        Level::Warn => "WARN",
        Level::Error => "ERROR",
    }
}

/// The level named by an upper-cased setting; anything else is the lowest.
pub open spec fn level_named(upper: Seq<char>) -> Level {
    if upper == "ERROR"@ {
        Level::Error
    } else if upper == "WARN"@ {
        Level::Warn
    } else if upper == "INFO"@ {
        Level::Info
    } else if upper == "DEBUG"@ {
        Level::Debug
    } else {
        Level::Trace
    }
}

/// The minimum level of span events: the `EVENTS_LOG_LEVEL` value, upper-cased
/// (`TRACE` when unset); an unknown name means trace.
pub fn min_level_from(setting: &Option<String>) -> (l: Level)
    ensures
        l == match setting {
            Some(s) => level_named(uppercase_of(s@)),
            None => Level::Trace,
        },
{
    match setting {
        None => Level::Trace,
        Some(s) => {
            let upper = to_uppercase(s.as_str());
            if str_eq(upper.as_str(), "ERROR") {
                Level::Error
            } else if str_eq(upper.as_str(), "WARN") {
                Level::Warn
            } else if str_eq(upper.as_str(), "INFO") {
                Level::Info
            } else if str_eq(upper.as_str(), "DEBUG") {
                Level::Debug
            } else {
                Level::Trace
            }
        },
    }
}

/// The severity order follows the severity numbers: trace, debug, info, warn,
/// error; and a level names itself back.
pub proof fn lemma_levels_ordered()
    ensures
        severity_number_spec(Level::Trace) < severity_number_spec(Level::Debug),
        severity_number_spec(Level::Debug) < severity_number_spec(Level::Info),
        severity_number_spec(Level::Info) < severity_number_spec(Level::Warn),
        severity_number_spec(Level::Warn) < severity_number_spec(Level::Error),
        forall|l: Level| level_named(#[trigger] level_text_spec(l)) == l,
{
    assert forall|l: Level| level_named(#[trigger] level_text_spec(l)) == l by {
        reveal_strlit("ERROR");
        reveal_strlit("WARN");
        reveal_strlit("INFO");
        reveal_strlit("DEBUG");
        reveal_strlit("TRACE");
        match l {
            Level::Trace => {
                assert("TRACE"@[0] != "ERROR"@[0]);
                assert("TRACE"@[0] != "DEBUG"@[0]);
                assert("TRACE"@.len() != "WARN"@.len());
                assert("TRACE"@.len() != "INFO"@.len());
            },
            Level::Debug => {
                assert("DEBUG"@[0] != "ERROR"@[0]);
                assert("DEBUG"@.len() != "WARN"@.len());
                assert("DEBUG"@.len() != "INFO"@.len());
            },
            Level::Info => {
                assert("INFO"@.len() != "ERROR"@.len());
                assert("INFO"@[0] != "WARN"@[0]);
            },
            Level::Warn => {
                assert("WARN"@.len() != "ERROR"@.len());
            },
            Level::Error => {},
        }
    }
}

} // verus!
