//! The console logger's decisions: which messages it prints, how a line
//! reads, and which level the `LOG_LEVEL` setting selects.

use vstd::prelude::*;

use crate::text::{decimal, decimal_string, push_str, str_equal};

verus! {

/// The severity of a log message, most severe first.
#[derive(Clone, Copy, Debug, PartialEq, Eq, Structural)]
pub enum LogLevel {
    Error,
    Warn,
    Info,
    Debug,
    Trace,
}

/// The most verbose level that is printed; `Off` prints nothing.
#[derive(Clone, Copy, Debug, PartialEq, Eq, Structural)]
pub enum LevelFilter {
    Off,
    Error,
    Warn,
    Info,
    Debug,
    Trace,
}

/// The rank of a level: more verbose levels rank higher.
pub open spec fn rank(level: LogLevel) -> nat {
    match level {
        LogLevel::Error => 1,
        LogLevel::Warn => 2,
        LogLevel::Info => 3,
        LogLevel::Debug => 4,
        LogLevel::Trace => 5,
    }
}

/// The name a level is printed with.
pub open spec fn level_name_of(level: LogLevel) -> Seq<char> {
    match level {
        LogLevel::Error => "ERROR"@,
        LogLevel::Warn => "WARN"@,
        LogLevel::Info => "INFO"@,
        LogLevel::Debug => "DEBUG"@,
        LogLevel::Trace => "TRACE"@,
    }
}

/// A printed log line: `[<timestamp>] <LEVEL> [<file>::<line>] <message>`,
/// with `<unknown>` for a missing file and 0 for a missing line.
pub open spec fn log_line_of(
    timestamp: Seq<char>,
    level: LogLevel,
    file: Option<Seq<char>>,
    line: Option<u32>,
    message: Seq<char>,
) -> Seq<char> {
    let f = match file {
        Some(f) => f,
        None => "<unknown>"@,
    };
    let n = match line {
        Some(n) => n as nat,
        None => 0,
    };
    "["@ + timestamp + "] "@ + level_name_of(level) + " ["@ + f + "::"@ + decimal(n) + "] "@
        + message
}

/// The level filter that a lower-cased `LOG_LEVEL` value selects: `debug`,
/// `info`, and `warn` for anything else.
pub open spec fn level_filter_for(lowered: Seq<char>) -> LevelFilter {
    if lowered == "debug"@ {
        LevelFilter::Debug
    } else if lowered == "info"@ {
        LevelFilter::Info
    } else {
        LevelFilter::Warn
    }
}

/// What `str::to_lowercase` makes of a string.
pub uninterp spec fn lower_of(s: Seq<char>) -> Seq<char>;

/// Relies on `str::to_lowercase`: the lowercase form of `s`, which depends on
/// the characters of `s` alone.
#[verifier::external_body]
fn lowercase(s: &str) -> (r: String)
    ensures
        r@ == lower_of(s@),
{
    s.to_lowercase()
}

/// Prints log lines to the console, up to debug messages.
pub struct SimpleLogger;

impl SimpleLogger {
    /// Whether messages of `level` are printed: all but trace messages.
    pub fn enabled(&self, level: LogLevel) -> (r: bool)
        ensures
            r == (rank(level) <= rank(LogLevel::Debug)),
    {
        match level {
            LogLevel::Trace => false,
            _ => true,
        }
    }

    /// The line printed for a message, or `None` where its level is not
    /// printed.
    pub fn log(
        &self,
        timestamp: &str,
        level: LogLevel,
        file: Option<&str>,
        line: Option<u32>,
        message: &str,
    ) -> (r: Option<String>)
        ensures
            match r {
                Some(s) => rank(level) <= rank(LogLevel::Debug) && s@ == log_line_of(
                    timestamp@,
                    level,
                    match file {
                        Some(f) => Some(f@),
                        None => None,
                    },
                    line,
                    message@,
                ),
                None => rank(level) > rank(LogLevel::Debug),
            },
    {
        if !self.enabled(level) {
            return None;
        }
        let mut s = String::new();
        push_str(&mut s, "[");
        push_str(&mut s, timestamp);
        push_str(&mut s, "] ");
        push_str(&mut s, level_name(level));
        push_str(&mut s, " [");
        match file {
            Some(f) => push_str(&mut s, f),
            None => push_str(&mut s, "<unknown>"),
        }
        push_str(&mut s, "::");
        let n: u32 = match line {
            Some(n) => n,
            None => 0,
        };
        let digits = decimal_string(n as u64);
        push_str(&mut s, digits.as_str());
        push_str(&mut s, "] ");
        push_str(&mut s, message);
        Some(s)
    }
}

/// The name a level is printed with.
pub fn level_name(level: LogLevel) -> (r: &'static str)
    ensures
        r@ == level_name_of(level),
{
    match level {
        LogLevel::Error => "ERROR",
        LogLevel::Warn => "WARN",
        LogLevel::Info => "INFO",
        LogLevel::Debug => "DEBUG",
        LogLevel::Trace => "TRACE",
    }
}

/// The level filter for a lower-cased `LOG_LEVEL` value.
pub fn level_filter_from_lowered(lowered: &str) -> (r: LevelFilter)
    ensures
        r == level_filter_for(lowered@),
{
    if str_equal(lowered, "debug") {
        LevelFilter::Debug
    } else if str_equal(lowered, "info") {
        LevelFilter::Info
    } else {
        LevelFilter::Warn
    }
}

/// The level filter for the `LOG_LEVEL` setting, read without regard to
/// case; `warn` where it is not set.
pub fn level_filter_from(setting: Option<&str>) -> (r: LevelFilter)
    ensures
        r == match setting {
            Some(s) => level_filter_for(lower_of(s@)),
            None => LevelFilter::Warn,
        },
{
    match setting {
        Some(s) => {
            let lowered = lowercase(s);
            level_filter_from_lowered(lowered.as_str())
        },
        None => LevelFilter::Warn,
    }
}

} // verus!
