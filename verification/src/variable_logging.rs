//! The verbosity of the log, which a configuration file can change while the
//! service runs. The file is read again and again; what is decided after each
//! reading is decided here.

use std::str::FromStr;
use vstd::prelude::*;

verus! {

/// How much is logged.
#[derive(Debug, Clone, Copy, PartialEq, Eq, Structural)]
pub enum LogLevel {
    Error,
    Warn,
    Info,
    Debug,
    Trace,
}

/// What came of reading the configuration file.
#[derive(Debug)]
pub enum ConfigRead {
    /// The file could not be read.
    Unreadable,
    /// The file was read, and is no configuration.
    Malformed,
    /// The file asks for this verbosity.
    Verbosity(String),
}

/// The mathematical value of a [`ConfigRead`].
pub enum ConfigReadView {
    Unreadable,
    Malformed,
    Verbosity(Seq<char>),
}

impl View for ConfigRead {
    type V = ConfigReadView;

    open spec fn view(&self) -> ConfigReadView {
        match self {
            ConfigRead::Unreadable => ConfigReadView::Unreadable,
            ConfigRead::Malformed => ConfigReadView::Malformed,
            ConfigRead::Verbosity(verbosity) => ConfigReadView::Verbosity(verbosity@),
        }
    }
}

/// What the log is told about a reading of the configuration file.
#[derive(Debug, Clone, Copy, PartialEq, Eq, Structural)]
pub enum RefreshNotice {
    /// Nothing.
    Nothing,
    /// That the file could not be read.
    Unreadable,
    /// That the file is no configuration.
    Malformed,
    /// That the file asks for a verbosity that does not exist.
    UnknownLevel,
}

/// What is done after a reading of the configuration file.
#[derive(Debug, Clone, Copy, PartialEq, Eq, Structural)]
pub struct RefreshStep {
    /// The verbosity from now on.
    pub level: LogLevel,
    /// Whether that is another verbosity than before.
    pub changed: bool,
    /// What the log is told.
    pub notice: RefreshNotice,
    /// How many seconds pass before the file is read again.
    pub sleep_secs: u64,
}

/// The seconds between two readings of the configuration file.
pub const REFRESH_PERIOD_SECS: u64 = 120;

/// Whether two characters are the same but for the case of an ASCII letter.
pub open spec fn same_letter(c: char, d: char) -> bool {
    c == d || ('a' <= c <= 'z' && d as int == c as int - 32) || ('A' <= c <= 'Z' && d as int
        == c as int + 32)
}

/// Whether two texts are the same but for the case of ASCII letters.
pub open spec fn same_ignoring_ascii_case(a: Seq<char>, b: Seq<char>) -> bool {
    a.len() == b.len() && forall|i: int| 0 <= i < a.len() ==> same_letter(#[trigger] a[i], b[i])
}

/// The verbosity that a text names.
pub open spec fn level_named(text: Seq<char>) -> Option<LogLevel> {
    if same_ignoring_ascii_case(text, "ERROR"@) {
        Some(LogLevel::Error)
    } else if same_ignoring_ascii_case(text, "WARN"@) {
        Some(LogLevel::Warn)
    } else if same_ignoring_ascii_case(text, "INFO"@) {
        Some(LogLevel::Info)
    } else if same_ignoring_ascii_case(text, "DEBUG"@) {
        Some(LogLevel::Debug)
    } else if same_ignoring_ascii_case(text, "TRACE"@) {
        Some(LogLevel::Trace)
    } else {
        None
    }
}

/// What is done after a reading of the configuration file. The verbosity is
/// the one that the file names, and `verbosity` where it names none. The log
/// is told of every failure but that of reading the file, of which it is told
/// once, after the first reading. Only the first reading is followed by the
/// next at once.
pub open spec fn refresh_of(
    verbosity: LogLevel,
    current: LogLevel,
    first_iteration: bool,
    read: ConfigReadView,
) -> RefreshStep {
    let level = match read {
        ConfigReadView::Verbosity(text) => match level_named(text) {
            Some(level) => level,
            None => verbosity,
        },
        _ => verbosity,
    };
    RefreshStep {
        level,
        changed: level != current,
        notice: match read {
            ConfigReadView::Verbosity(text) => if level_named(text) is None {
                RefreshNotice::UnknownLevel
            } else {
                RefreshNotice::Nothing
            },
            ConfigReadView::Malformed => RefreshNotice::Malformed,
            ConfigReadView::Unreadable => if first_iteration {
                RefreshNotice::Unreadable
            } else {
                RefreshNotice::Nothing
            },
        },
        sleep_secs: if first_iteration {
            0
        } else {
            REFRESH_PERIOD_SECS
        },
    }
}

/// The verbosity that a text names. Trusted: `log::Level::from_str` gives the
/// first of the levels error, warn, info, debug and trace whose name in
/// capitals is the text but for the case of ASCII letters, and fails for
/// every other text.
#[verifier::external_body]
fn parse_level(text: &str) -> (r: Option<LogLevel>)
    ensures
        r == level_named(text@),
{
    match log::Level::from_str(text) {
        Ok(log::Level::Error) => Some(LogLevel::Error),
        Ok(log::Level::Warn) => Some(LogLevel::Warn),
        Ok(log::Level::Info) => Some(LogLevel::Info),
        Ok(log::Level::Debug) => Some(LogLevel::Debug),
        Ok(log::Level::Trace) => Some(LogLevel::Trace),
        Err(_) => None,
    }
}

/// Decides what is done after a reading of the configuration file, given the
/// verbosity `verbosity` that the service was started with and the one that
/// is `current`.
pub fn refresh_log_level(
    verbosity: LogLevel,
    current: LogLevel,
    first_iteration: bool,
    read: &ConfigRead,
) -> (r: RefreshStep)
    ensures
        r == refresh_of(verbosity, current, first_iteration, read@),
{
    let (level, notice) = match read {
        ConfigRead::Verbosity(text) => match parse_level(text.as_str()) {
            Some(level) => (level, RefreshNotice::Nothing),
            None => (verbosity, RefreshNotice::UnknownLevel),
        },
        ConfigRead::Malformed => (verbosity, RefreshNotice::Malformed),
        ConfigRead::Unreadable => (
            verbosity,
            if first_iteration {
                RefreshNotice::Unreadable
            } else {
                RefreshNotice::Nothing
            },
        ),
    };
    RefreshStep {
        level,
        changed: level != current,
        notice,
        sleep_secs: if first_iteration {
            0
        } else {
            REFRESH_PERIOD_SECS
        },
    }
}

} // verus!
