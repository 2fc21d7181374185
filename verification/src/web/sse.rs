//! The live log stream: which lines a subscriber sees and their markup.
use vstd::prelude::*;
use crate::logs::{format_system_time, timestamp_text, LogLine};
use crate::text::{push_str, str_equals};

verus! {

/// Query parameters of the log stream endpoint.
pub struct LogParams {
    /// Only lines of this server, when present.
    pub server: Option<String>,
}

/// Whether a subscriber filtering on `filter` receives `line`.
pub fn stream_accepts(filter: &Option<String>, line: &LogLine) -> (b: bool)
    ensures
        b == match filter {
            Some(name) => line.server@ == name@,
            None => true,
        },
{
    match filter {
        Some(name) => str_equals(line.server.as_str(), name.as_str()),
        None => true,
    }
}

/// The markup of a streamed log line.
pub open spec fn log_line_markup(line: LogLine) -> Seq<char> {
    "<div class=\"log-line\"><span style=\"color: #569cd6;\">["@ + line.server@
        + "]</span> <span style=\"color: #808080;\">"@ + timestamp_text(line.timestamp.secs as nat)
        + "</span> "@ + line.message@ + "</div>"@
}

/// Render a log line as the HTML fragment sent in a `log` event.
pub fn sse_log_markup(line: &LogLine) -> (r: String)
    ensures
        r@ == log_line_markup(*line),
{
    let ts = format_system_time(line.timestamp);
    let mut r = String::from_str("<div class=\"log-line\"><span style=\"color: #569cd6;\">[");
    push_str(&mut r, line.server.as_str());
    push_str(&mut r, "]</span> <span style=\"color: #808080;\">");
    push_str(&mut r, ts.as_str());
    push_str(&mut r, "</span> ");
    push_str(&mut r, line.message.as_str());
    push_str(&mut r, "</div>");
    r
}

} // verus!
