use vstd::prelude::*;

verus! {

/// The five ordered severity levels of an event.
#[derive(PartialEq, Eq, Structural, Clone, Copy, Debug)]
pub enum Level {
    Trace,
    Debug,
    Info,
    Warn,
    Error,
}

/// The severities that the systemd journal knows of, as far as this library
/// hands them out.
#[derive(PartialEq, Eq, Structural, Clone, Copy, Debug)]
pub enum JournalLevel {
    Debug,
    Info,
    Notice,
    Warning,
    Error,
}

/// The name of a level as it stands at the start of a rendered line.
pub open spec fn level_name(level: Level) -> Seq<char> {
    match level {
        Level::Trace => "TRACE"@,
        Level::Debug => "DEBUG"@,
        Level::Info => "INFO"@,
        Level::Warn => "WARN"@,
        Level::Error => "ERROR"@,
    }
}

/// The syslog-style priority prefix of a level.
pub open spec fn level_prefix(level: Level) -> Seq<char> {
    match level {
        Level::Trace => "<7>"@,
        Level::Debug => "<6>"@,
        Level::Info => "<5>"@,
        Level::Warn => "<4>"@,
        Level::Error => "<3>"@,
    }
}

/// The journal severity that a level is logged with.
pub open spec fn journal_level(level: Level) -> JournalLevel {
    match level {
        Level::Trace => JournalLevel::Debug,
        Level::Debug => JournalLevel::Info,
        Level::Info => JournalLevel::Notice,
        Level::Warn => JournalLevel::Warning,
        Level::Error => JournalLevel::Error,
    }
}

impl Level {
    /// The upper-case name of the level.
    pub fn as_str(&self) -> (r: &'static str)
        ensures
            r@ == level_name(*self),
    {
        match self {
            Level::Trace => "TRACE",
            Level::Debug => "DEBUG",
            Level::Info => "INFO",
            Level::Warn => "WARN",
            Level::Error => "ERROR",
        }
    }
}

/// Converts a level to the journal's severity.
pub fn journal_level_from_tracing_level(level: &Level) -> (r: JournalLevel)
    ensures
        r == journal_level(*level),
{
    match level {
        Level::Trace => JournalLevel::Debug,
        Level::Debug => JournalLevel::Info,
        Level::Info => JournalLevel::Notice,
        Level::Warn => JournalLevel::Warning,
        Level::Error => JournalLevel::Error,
    }
}

/// The priority prefix (`<7>` for trace down to `<3>` for error) that the
/// journal reads at the start of a line on standard output.
pub fn prefix_from_tracing_level(level: &Level) -> (r: String)
    ensures
        r@ == level_prefix(*level),
{
    match level {
        Level::Trace => String::from_str("<7>"),
        Level::Debug => String::from_str("<6>"),
        Level::Info => String::from_str("<5>"),
        Level::Warn => String::from_str("<4>"),
        Level::Error => String::from_str("<3>"),
    }
}

} // verus!
