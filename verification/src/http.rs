//! The log-ingestion endpoint's protocol: routing, canned responses, body
//! extraction, and turning a posted batch into session log lines.
//!
//! The listener accepts three shapes: `GET /health`, `POST /log` with a JSON
//! array of `{message, level, timestamp}` objects, and the CORS preflight.
//! Anything else is not found. A malformed body is silently dropped.

use vstd::prelude::*;
use vstd::string::StringExecFns;
use crate::json::{json_log_entries, read_json_log_entries};
use crate::logging::{format_log_line, spec_level_prefix, spec_log_line};
use crate::paths::{has_substring_at, starts_with, str_starts_with};

verus! {

/// What a request asks for.
#[derive(Clone, Copy, Debug, PartialEq, Eq, Structural)]
pub enum Route {
    Health,
    Log,
    Preflight,
    NotFound,
}

/// The route of a request, by its first line: a health probe, a posted log
/// batch, a CORS preflight, or nothing.
pub open spec fn spec_route(first_line: Seq<char>) -> Route {
    if starts_with(first_line, "GET /health"@) {
        Route::Health
    } else if starts_with(first_line, "POST /log"@) {
        Route::Log
    } else if starts_with(first_line, "OPTIONS"@) {
        Route::Preflight
    } else {
        Route::NotFound
    }
}

/// Route a request by its first line.
pub fn route_request(first_line: &str) -> (r: Route)
    ensures
        r == spec_route(first_line@),
{
    if str_starts_with(first_line, "GET /health") {
        Route::Health
    } else if str_starts_with(first_line, "POST /log") {
        Route::Log
    } else if str_starts_with(first_line, "OPTIONS") {
        Route::Preflight
    } else {
        Route::NotFound
    }
}

pub const RESPONSE_OK: &'static str =
    "HTTP/1.1 200 OK\r\nContent-Length: 2\r\nConnection: close\r\nAccess-Control-Allow-Origin: *\r\n\r\nok";

pub const RESPONSE_PREFLIGHT: &'static str =
    "HTTP/1.1 204 No Content\r\nAccess-Control-Allow-Origin: *\r\nAccess-Control-Allow-Methods: GET, POST, OPTIONS\r\nAccess-Control-Allow-Headers: Content-Type\r\nConnection: close\r\n\r\n";

pub const RESPONSE_NOT_FOUND: &'static str =
    "HTTP/1.1 404 Not Found\r\nContent-Length: 9\r\nConnection: close\r\n\r\nnot found";

/// The response sent for each route: `200 ok` for the health probe and for
/// every posted batch (well-formed or not), the preflight headers for
/// `OPTIONS`, and `404` otherwise.
pub fn route_response(r: Route) -> (resp: &'static str)
    ensures
        (r == Route::Health || r == Route::Log) ==> resp@ == RESPONSE_OK@,
        r == Route::Preflight ==> resp@ == RESPONSE_PREFLIGHT@,
        r == Route::NotFound ==> resp@ == RESPONSE_NOT_FOUND@,
{
    match r {
        Route::Health => RESPONSE_OK,
        Route::Log => RESPONSE_OK,
        Route::Preflight => RESPONSE_PREFLIGHT,
        Route::NotFound => RESPONSE_NOT_FOUND,
    }
}

/// Find the first occurrence of `sub` in `s`.
pub fn find_substring(s: &str, sub: &str) -> (r: Option<usize>)
    ensures
        match r {
            Some(i) => has_substring_at(s@, sub@, i as int) && forall|k: int|
                0 <= k < i ==> !has_substring_at(s@, sub@, k),
            None => forall|k: int| !has_substring_at(s@, sub@, k),
        },
{
    let n = s.unicode_len();
    let m = sub.unicode_len();
    if m > n {
        proof {
            assert(forall|k: int| !has_substring_at(s@, sub@, k));
        }
        return None;
    }
    if m == 0 {
        proof {
            assert(s@.subrange(0, 0) =~= sub@);
            assert(has_substring_at(s@, sub@, 0));
        }
        return Some(0);
    }
    let mut i: usize = 0;
    while i <= n - m
        invariant
            n == s@.len(),
            m == sub@.len(),
            1 <= m <= n,
            i <= n - m + 1,
            forall|k: int| 0 <= k < i ==> !has_substring_at(s@, sub@, k),
        decreases n - m - i + 1,
    {
        if crate::paths::str_eq(s.substring_char(i, i + m), sub) {
            proof {
                assert(s@.subrange(i as int, i + m) == sub@);
            }
            return Some(i);
        } else {
            proof {
                assert(s@.subrange(i as int, i + m) != sub@);
            }
        }
        i = i + 1;
    }
    proof {
        assert(forall|k: int| has_substring_at(s@, sub@, k) ==> 0 <= k <= n - m);
    }
    None
}

/// The body of a request: what follows the first blank line (`\r\n\r\n`),
/// or nothing when the request has none.
pub fn request_body<'a>(request: &'a str) -> (r: Option<&'a str>)
    ensures
        match r {
            Some(body) => exists|i: int|
                has_substring_at(request@, "\r\n\r\n"@, i) && body@ == request@.skip(i + 4)
                    && forall|k: int| 0 <= k < i ==> !has_substring_at(request@, "\r\n\r\n"@, k),
            None => forall|k: int| !has_substring_at(request@, "\r\n\r\n"@, k),
        },
{
    proof {
        reveal_strlit("\r\n\r\n");
    }
    match find_substring(request, "\r\n\r\n") {
        Some(i) => {
            let n = request.unicode_len();
            let body = request.substring_char(i + 4, n);
            proof {
                assert(request@.subrange(i as int + 4, n as int) =~= request@.skip(i as int + 4));
            }
            Some(body)
        },
        None => None,
    }
}

/// One entry of a posted batch, as far as it could be read: the `message`
/// and `level` string fields, when present.
pub struct LogEntry {
    pub message: Option<String>,
    pub level: Option<String>,
}

impl View for LogEntry {
    type V = (Option<Seq<char>>, Option<Seq<char>>);

    open spec fn view(&self) -> (Option<Seq<char>>, Option<Seq<char>>) {
        (
            match self.message {
                Some(ref m) => Some(m@),
                None => None,
            },
            match self.level {
                Some(ref l) => Some(l@),
                None => None,
            },
        )
    }
}

impl DeepView for LogEntry {
    type V = (Option<Seq<char>>, Option<Seq<char>>);

    open spec fn deep_view(&self) -> (Option<Seq<char>>, Option<Seq<char>>) {
        self.view()
    }
}

/// The session log line of one entry: a missing message logs as empty text,
/// a missing level as the plain tag.
pub open spec fn spec_entry_line(e: (Option<Seq<char>>, Option<Seq<char>>), ts: u64) -> Seq<char> {
    let msg = match e.0 {
        Some(m) => m,
        None => Seq::empty(),
    };
    let level = match e.1 {
        Some(l) => l,
        None => "info"@,
    };
    spec_log_line(ts, spec_level_prefix(level), msg)
}

/// The session log lines of a batch, in batch order.
pub open spec fn spec_batch_lines(
    entries: Seq<(Option<Seq<char>>, Option<Seq<char>>)>,
    ts: u64,
) -> Seq<Seq<char>>
    decreases entries.len(),
{
    if entries.len() == 0 {
        Seq::empty()
    } else {
        seq![spec_entry_line(entries[0], ts)] + spec_batch_lines(entries.skip(1), ts)
    }
}

/// Render the session log lines of a batch of read entries, at time `ts`.
pub fn render_log_batch(entries: &Vec<LogEntry>, ts: u64) -> (r: Vec<String>)
    ensures
        r.deep_view() == spec_batch_lines(entries.deep_view(), ts),
{
    let ghost evs = entries.deep_view();
    let mut r: Vec<String> = Vec::new();
    let n = entries.len();
    let mut i: usize = 0;
    proof {
        assert(r.deep_view() =~= Seq::<Seq<char>>::empty());
        assert(evs.skip(0) =~= evs);
        assert(r.deep_view() + spec_batch_lines(evs, ts) =~= spec_batch_lines(evs, ts));
    }
    while i < n
        invariant
            n == entries@.len(),
            evs == entries.deep_view(),
            0 <= i <= n,
            spec_batch_lines(evs, ts) == r.deep_view() + spec_batch_lines(evs.skip(i as int), ts),
        decreases n - i,
    {
        proof {
            assert(evs.skip(i as int)[0] == evs[i as int]);
            assert(evs.skip(i as int).skip(1) =~= evs.skip(i as int + 1));
            assert(entries@[i as int]@ == evs[i as int]);
        }
        let msg: &str = match &entries[i].message {
            Some(m) => m.as_str(),
            None => "",
        };
        let level: &str = match &entries[i].level {
            Some(l) => l.as_str(),
            None => "info",
        };
        let prefix = crate::logging::level_prefix(level);
        let line = format_log_line(ts, prefix, msg);
        proof {
            reveal_strlit("");
            assert(line@ == spec_entry_line(evs[i as int], ts));
        }
        let ghost rs = r.deep_view();
        r.push(line);
        proof {
            assert(r.deep_view() =~= rs + seq![spec_entry_line(evs[i as int], ts)]);
            assert(rs + (seq![spec_entry_line(evs[i as int], ts)] + spec_batch_lines(
                evs.skip(i as int + 1),
                ts,
            )) =~= r.deep_view() + spec_batch_lines(evs.skip(i as int + 1), ts));
        }
        i = i + 1;
    }
    proof {
        assert(evs.skip(n as int) =~= Seq::<(Option<Seq<char>>, Option<Seq<char>>)>::empty());
        assert(r.deep_view() + Seq::<Seq<char>>::empty() =~= r.deep_view());
    }
    r
}

/// Read the entries of a posted batch body: the `message` and `level`
/// strings of each object of the JSON array, in order; no entries at all
/// when the body is not a JSON array.
pub fn read_log_entries(body: &str) -> (r: Vec<LogEntry>)
    ensures
        match json_log_entries(body@) {
            Some(entries) => r.deep_view() == entries,
            None => r.deep_view() == Seq::<(Option<Seq<char>>, Option<Seq<char>>)>::empty(),
        },
{
    match read_json_log_entries(body) {
        Some(entries) => entries,
        None => {
            let r: Vec<LogEntry> = Vec::new();
            proof {
                assert(r.deep_view() =~= Seq::<(Option<Seq<char>>, Option<Seq<char>>)>::empty());
            }
            r
        },
    }
}

/// The session log lines of one posted batch body, at time `ts`: one line
/// per entry of the body's JSON array, in array order, each carrying the
/// entry's level tag and message; none at all for a malformed body.
pub fn process_log_batch(body: &str, ts: u64) -> (r: Vec<String>)
    ensures
        r.deep_view() == match json_log_entries(body@) {
            Some(entries) => spec_batch_lines(entries, ts),
            None => Seq::<Seq<char>>::empty(),
        },
{
    let entries = read_log_entries(body);
    let r = render_log_batch(&entries, ts);
    proof {
        if json_log_entries(body@) is None {
            assert(spec_batch_lines(entries.deep_view(), ts) =~= Seq::<Seq<char>>::empty());
        }
    }
    r
}

} // verus!
