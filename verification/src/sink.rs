//! The line that a record becomes in the durable log: one JSON object per
//! line, with the fields of the record in a fixed order.

use crate::record::{LogEntry, Record};
use vstd::prelude::*;
use vstd::string::StringExecFns;

verus! {

/// The name of the log file, in the working directory of the process, unless
/// another is chosen.
pub const DEFAULT_LOG_FILE: &'static str = "logs.jsonl";

/// The JSON string literal of a text, quotes included, as `serde_json` writes it.
pub uninterp spec fn json_string_text(s: Seq<char>) -> Seq<char>;

/// Whether a text is without a line feed.
pub open spec fn on_one_line(text: Seq<char>) -> bool {
    forall|i: int| 0 <= i < text.len() ==> text[i] != '\n'
}

/// `serde_json::to_string` on a string slice. The result is the JSON string
/// literal of the text. It holds no line feed: the encoder writes every
/// control character as an escape. The call cannot fail on a string slice,
/// since `serde_json` reports only a `Serialize` impl that fails or a map
/// whose keys are not strings, and a string slice is neither.
#[verifier::external_body]
fn json_string(s: &str) -> (literal: String)
    ensures
        literal@ == json_string_text(s@),
        on_one_line(literal@),
{
    match serde_json::to_string(s) {
        Ok(literal) => literal,
        Err(_) => String::new(),
    }
}

/// A log line made of the four encoded fields of a record.
pub open spec fn framed(
    timestamp: Seq<char>,
    level: Seq<char>,
    target: Seq<char>,
    message: Seq<char>,
) -> Seq<char> {
    "{\"timestamp\":"@ + timestamp + ",\"level\":"@ + level + ",\"target\":"@ + target
        + ",\"message\":"@ + message + "}\n"@
}

/// The log line of a record.
pub open spec fn line_of(record: Record) -> Seq<char> {
    framed(
        json_string_text(record.timestamp),
        json_string_text(record.level),
        json_string_text(record.target),
        json_string_text(record.message),
    )
}

/// Whether a text is one complete line: it ends in a line feed and holds no
/// other.
pub open spec fn is_complete_line(text: Seq<char>) -> bool {
    &&& text.len() > 0
    &&& text.last() == '\n'
    &&& on_one_line(text.drop_last())
}

/// Puts four encoded fields into one log line. Where none of them holds a
/// line feed, the result is one complete line.
pub fn frame_line(timestamp: &str, level: &str, target: &str, message: &str) -> (line: String)
    ensures
        line@ == framed(timestamp@, level@, target@, message@),
        on_one_line(timestamp@) && on_one_line(level@) && on_one_line(target@) && on_one_line(
            message@,
        ) ==> is_complete_line(line@),
{
    let mut line = String::new();
    line.append("{\"timestamp\":");
    line.append(timestamp);
    line.append(",\"level\":");
    line.append(level);
    line.append(",\"target\":");
    line.append(target);
    line.append(",\"message\":");
    line.append(message);
    line.append("}\n");
    proof {
        reveal_strlit("{\"timestamp\":");
        reveal_strlit(",\"level\":");
        reveal_strlit(",\"target\":");
        reveal_strlit(",\"message\":");
        reveal_strlit("}\n");
        assert(line@ =~= framed(timestamp@, level@, target@, message@));
    }
    line
}

/// Encodes a record as its line of the durable log. The line is complete and
/// holds the whole record, so that appending it in one write keeps the log
/// free of partial lines.
pub fn json_line(entry: &LogEntry) -> (line: String)
    ensures
        line@ == line_of(entry@),
        is_complete_line(line@),
{
    let timestamp = json_string(entry.timestamp.as_str());
    let level = json_string(entry.level.as_str());
    let target = json_string(entry.target.as_str());
    let message = json_string(entry.message.as_str());
    frame_line(timestamp.as_str(), level.as_str(), target.as_str(), message.as_str())
}

} // verus!
