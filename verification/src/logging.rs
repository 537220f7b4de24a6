//! Session log decisions: paths, rotation, line format and the retention of
//! archived sessions.
//!
//! The writer task that owns the file handle lives outside the library; it is
//! handed complete lines. Starting a session when a `latest.log` already
//! exists renames that file to `session-<unixtime>.log` before any new line
//! is written; the archived sessions are then capped, oldest first.

use vstd::prelude::*;
use vstd::string::{StrSliceExecFns, StringExecFns};
use crate::digits::{all_digits, dec_digits, dec_value, parse_u64, u64_to_string};
use crate::paths::{ends_with, starts_with, str_ends_with, str_eq, str_starts_with};
use crate::timefmt::{format_timestamp, spec_format_timestamp};

verus! {

/// How many archived session logs are kept.
pub const SESSION_LOG_CAP: usize = 10;

/// How many backups are kept.
pub const BACKUP_CAP: usize = 20;

/// The quiet period of the change debouncer, in milliseconds.
pub const DEBOUNCE_MILLIS: u64 = 1500;

/// The default pull interval, in seconds.
pub const DEFAULT_PULL_INTERVAL_SECS: u64 = 30;

pub const LOGS_SUBDIR: &'static str = "/.roxlit/logs";

/// The log directory of a project: `<root>/.roxlit/logs`.
pub open spec fn spec_logs_dir(root: Seq<char>) -> Seq<char> {
    root + LOGS_SUBDIR@
}

/// Name the log directory of `project_root`.
pub fn logs_dir(project_root: &str) -> (r: String)
    ensures
        r@ == spec_logs_dir(project_root@),
{
    let mut r = project_root.to_owned();
    r.append(LOGS_SUBDIR);
    r
}

/// The live log file of a project.
pub open spec fn spec_latest_log_path(root: Seq<char>) -> Seq<char> {
    spec_logs_dir(root) + "/latest.log"@
}

/// Name the live log file of `project_root`.
pub fn latest_log_path(project_root: &str) -> (r: String)
    ensures
        r@ == spec_latest_log_path(project_root@),
{
    let mut r = logs_dir(project_root);
    r.append("/latest.log");
    r
}

/// The archive name of the session rotated at `ts`.
pub open spec fn spec_session_log_name(ts: u64) -> Seq<char> {
    "session-"@ + dec_digits(ts as nat) + ".log"@
}

/// Name the archive file of a session rotated at `ts`.
pub fn session_log_name(ts: u64) -> (r: String)
    ensures
        r@ == spec_session_log_name(ts),
{
    let mut r = "session-".to_owned();
    let n = u64_to_string(ts);
    r.append(n.as_str());
    r.append(".log");
    r
}

/// `name` is an archived session log.
pub open spec fn spec_is_session_log(name: Seq<char>) -> bool {
    starts_with(name, "session-"@) && ends_with(name, ".log"@)
}

/// Whether `name` names an archived session log.
pub fn is_session_log(name: &str) -> (r: bool)
    ensures
        r == spec_is_session_log(name@),
{
    str_starts_with(name, "session-") && str_ends_with(name, ".log")
}

/// The timestamp embedded in an archived session log's name, when its middle
/// is plain digits that fit.
pub open spec fn spec_session_timestamp(name: Seq<char>) -> Option<u64> {
    if spec_is_session_log(name) && name.len() >= 13 {
        let mid = name.subrange(8, name.len() - 4);
        if all_digits(mid) && dec_value(mid) <= u64::MAX {
            Some(dec_value(mid) as u64)
        } else {
            None
        }
    } else {
        None
    }
}

/// Read the timestamp out of an archived session log's name.
pub fn session_timestamp(name: &str) -> (r: Option<u64>)
    ensures
        r == spec_session_timestamp(name@),
{
    proof {
        reveal_strlit("session-");
        reveal_strlit(".log");
    }
    if !is_session_log(name) {
        return None;
    }
    let n = name.unicode_len();
    if n < 13 {
        return None;
    }
    let mid = name.substring_char(8, n - 4);
    parse_u64(mid)
}

/// Log rotation: starting a session when a live log already exists renames it
/// to `session-<now>.log` first; without one there is nothing to rename.
pub fn rotation_plan(latest_exists: bool, now: u64) -> (r: Option<String>)
    ensures
        latest_exists <==> r is Some,
        r matches Some(name) ==> name@ == spec_session_log_name(now),
{
    if latest_exists {
        Some(session_log_name(now))
    } else {
        None
    }
}

/// One formatted log line: `[<iso time>] [<source tag>] <message>` plus a
/// newline.
pub open spec fn spec_log_line(ts: u64, prefix: Seq<char>, msg: Seq<char>) -> Seq<char> {
    "["@ + spec_format_timestamp(ts) + "] ["@ + prefix + "] "@ + msg + "\n"@
}

/// Format one log line for the session file.
pub fn format_log_line(ts: u64, prefix: &str, msg: &str) -> (r: String)
    ensures
        r@ == spec_log_line(ts, prefix@, msg@),
{
    let mut r = "[".to_owned();
    let t = format_timestamp(ts);
    r.append(t.as_str());
    r.append("] [");
    r.append(prefix);
    r.append("] ");
    r.append(msg);
    r.append("\n");
    proof {
        assert(r@ =~= spec_log_line(ts, prefix@, msg@));
    }
    r
}

/// The line opening a session's log.
pub open spec fn spec_session_header(ts: u64) -> Seq<char> {
    "=== Roxlit Session — "@ + spec_format_timestamp(ts) + " ===\n\n"@
}

/// Format the line that opens a session's log.
pub fn session_header(ts: u64) -> (r: String)
    ensures
        r@ == spec_session_header(ts),
{
    let mut r = "=== Roxlit Session — ".to_owned();
    let t = format_timestamp(ts);
    r.append(t.as_str());
    r.append(" ===\n\n");
    proof {
        assert(r@ =~= spec_session_header(ts));
    }
    r
}

/// The line closing a session's log.
pub open spec fn spec_session_footer(ts: u64) -> Seq<char> {
    "\n=== Session ended — "@ + spec_format_timestamp(ts) + " ===\n"@
}

/// Format the line that closes a session's log.
pub fn session_footer(ts: u64) -> (r: String)
    ensures
        r@ == spec_session_footer(ts),
{
    let mut r = "\n=== Session ended — ".to_owned();
    let t = format_timestamp(ts);
    r.append(t.as_str());
    r.append(" ===\n");
    proof {
        assert(r@ =~= spec_session_footer(ts));
    }
    r
}

/// The source tag for one ingested log level: errors and warnings get their
/// own tags, everything else the plain one.
pub open spec fn spec_level_prefix(level: Seq<char>) -> Seq<char> {
    if level == "error"@ {
        "studio-err"@
    } else if level == "warn"@ {
        "studio-warn"@
    } else {
        "studio"@
    }
}

/// The source tag under which an ingested line of the given level is logged.
pub fn level_prefix(level: &str) -> (r: &'static str)
    ensures
        r@ == spec_level_prefix(level@),
{
    if str_eq(level, "error") {
        "studio-err"
    } else if str_eq(level, "warn") {
        "studio-warn"
    } else {
        "studio"
    }
}

} // verus!
