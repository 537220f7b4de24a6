//! Trusted surface over the JSON library used by the log-ingestion endpoint.
//!
//! What the parse returns is a function of the body alone, but takes pages to
//! state; `json_log_entries` names it, and the one wrapper's contract ties
//! the call to that name. Everything downstream is verified against the name.

use vstd::prelude::*;
use crate::http::LogEntry;

verus! {

/// The entries of `body` read as a JSON array: for each array element, its
/// `message` and `level` string fields (absent or non-string fields read as
/// `None`); `None` when `body` is not a JSON array. A function of the body
/// alone.
pub uninterp spec fn json_log_entries(body: Seq<char>) -> Option<
    Seq<(Option<Seq<char>>, Option<Seq<char>>)>,
>;

/// Relies on serde_json::from_str, Value::get and Value::as_str: parses
/// `body` as a JSON array and reads each element's `message` and `level`
/// string fields. The result depends on the body alone; `json_log_entries`
/// names it.
#[verifier::external_body]
pub fn read_json_log_entries(body: &str) -> (r: Option<Vec<LogEntry>>)
    ensures
        match r {
            Some(entries) => json_log_entries(body@) == Some(entries.deep_view()),
            None => json_log_entries(body@) is None,
        },
{
    let values: Vec<serde_json::Value> = match serde_json::from_str(body) {
        Ok(v) => v,
        Err(_) => return None,
    };
    let field = |v: &serde_json::Value, key: &str| {
        v.get(key).and_then(|f| f.as_str()).map(str::to_owned)
    };
    Some(
        values
            .iter()
            .map(|v| LogEntry { message: field(v, "message"), level: field(v, "level") })
            .collect(),
    )
}

} // verus!
