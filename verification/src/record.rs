//! The normalized record of one captured event.

use vstd::prelude::*;

verus! {

/// What a record holds, as plain text values.
pub struct Record {
    pub timestamp: Seq<char>,
    pub level: Seq<char>,
    pub target: Seq<char>,
    pub message: Seq<char>,
}

/// One captured event. A record is built once and never changed afterwards;
/// every consumer works on a copy of its own.
#[derive(Debug)]
pub struct LogEntry {
    pub timestamp: String,
    pub level: String,
    pub target: String,
    pub message: String,
}

impl View for LogEntry {
    type V = Record;

    open spec fn view(&self) -> Record {
        Record {
            timestamp: self.timestamp@,
            level: self.level@,
            target: self.target@,
            message: self.message@,
        }
    }
}

impl Clone for LogEntry {
    fn clone(&self) -> (copy: Self)
        ensures
            copy@ == self@,
    {
        LogEntry {
            timestamp: self.timestamp.clone(),
            level: self.level.clone(),
            target: self.target.clone(),
            message: self.message.clone(),
        }
    }
}

/// The models of a sequence of records, in the same order.
pub open spec fn records(entries: Seq<LogEntry>) -> Seq<Record> {
    entries.map_values(|e: LogEntry| e@)
}

/// The severities an event can carry, from the least to the most severe.
#[derive(Clone, Copy, Debug, PartialEq, Eq, Structural)]
pub enum Severity {
    Trace,
    Debug,
    Info,
    Warn,
    Error,
}

impl Severity {
    /// The upper-case name under which a severity is stored in a record.
    pub open spec fn name(self) -> Seq<char> {
        match self {
            Severity::Trace => "TRACE"@,
            Severity::Debug => "DEBUG"@,
            Severity::Info => "INFO"@,
            Severity::Warn => "WARN"@,
            Severity::Error => "ERROR"@,
        }
    }

    /// The name of the severity as text.
    pub fn as_str(self) -> (name: &'static str)
        ensures
            name@ == self.name(),
    {
        match self {
            Severity::Trace => "TRACE",
            Severity::Debug => "DEBUG",
            Severity::Info => "INFO",
            Severity::Warn => "WARN",
            Severity::Error => "ERROR",
        }
    }
}

/// The message stored for an event that carried no message field.
pub open spec fn placeholder_message() -> Seq<char> {
    "<no message>"@
}

/// The message of a record, given the message field of its event if there was one.
pub open spec fn message_or_placeholder(message: Option<Seq<char>>) -> Seq<char> {
    match message {
        Some(text) => text,
        None => placeholder_message(),
    }
}

/// What an optional text holds.
pub open spec fn text_of(s: Option<String>) -> Option<Seq<char>> {
    match s {
        Some(text) => Some(text@),
        None => None,
    }
}

impl LogEntry {
    /// Builds the record of an event from the time of its capture, its
    /// severity, its target and its message field. An event without a message
    /// field gets the placeholder.
    pub fn new(
        timestamp: String,
        level: Severity,
        target: &str,
        message: Option<String>,
    ) -> (entry: LogEntry)
        ensures
            entry@ == (Record {
                timestamp: timestamp@,
                level: level.name(),
                target: target@,
                message: message_or_placeholder(text_of(message)),
            }),
    {
        let message = match message {
            Some(text) => text,
            None => "<no message>".to_owned(),
        };
        LogEntry { timestamp, level: level.as_str().to_owned(), target: target.to_owned(), message }
    }
}

/// Whether a text has the outline of an RFC 3339 timestamp in UTC: room for
/// the date, the `T`, the time of day to the second and the offset, and
/// `+00:00` as that offset at its end.
pub open spec fn is_utc_timestamp(text: Seq<char>) -> bool {
    &&& text.len() >= 25
    &&& text.subrange(text.len() - 6, text.len() as int) == "+00:00"@
}

/// `std::time::SystemTime::now`, turned into chrono's `DateTime<Utc>` by its
/// `From<SystemTime>` and written by `DateTime::to_rfc3339`: the wall-clock
/// time of the call as RFC 3339 text. The conversion takes a clock that reads
/// before 1970 as well as one that reads after it, and chrono holds any
/// instant within some 262,000 years of 1970. Which instant the text names
/// depends on the clock, so only what chrono writes for every instant is
/// claimed: a year of four characters or more, `-MM-DDTHH:MM:SS`, a fraction
/// of the second where there is one, and `+00:00` for the offset of UTC.
#[verifier::external_body]
fn now_rfc3339() -> (text: String)
    ensures
        is_utc_timestamp(text@),
{
    chrono::DateTime::<chrono::Utc>::from(std::time::SystemTime::now()).to_rfc3339()
}

/// Captures an event: reads the wall clock at the moment of the call and
/// builds the record. The timestamp never comes from the event itself; it is
/// RFC 3339 text in UTC.
pub fn capture(level: Severity, target: &str, message: Option<String>) -> (entry: LogEntry)
    ensures
        is_utc_timestamp(entry@.timestamp),
        entry@.level == level.name(),
        entry@.target == target@,
        entry@.message == message_or_placeholder(text_of(message)),
{
    LogEntry::new(now_rfc3339(), level, target, message)
}

} // verus!
