//! Small conveniences: expanding a leading `~` to the user's home directory,
//! and the editor deep link for opening a place.

use vstd::prelude::*;
use vstd::string::{StrSliceExecFns, StringExecFns};
use crate::digits::{dec_digits, u64_to_string};
use crate::paths::{starts_with, str_eq, str_starts_with};

verus! {

/// Relies on dirs::home_dir (converted through to_string_lossy): the user's
/// home directory as text, when the platform knows one. Nothing is assumed of
/// the value.
#[verifier::external_body]
fn home_dir_string() -> Option<String> {
    dirs::home_dir().map(|p| p.to_string_lossy().to_string())
}

/// `s` with every `/` turned into `\` when `windows` holds; unchanged
/// otherwise.
pub open spec fn spec_normalize_seps(s: Seq<char>, windows: bool) -> Seq<char> {
    if windows {
        s.map_values(
            |c: char|
                if c == '/' {
                    '\\'
                } else {
                    c
                },
        )
    } else {
        s
    }
}

/// `path` with a leading `~` replaced by `home`: a path that is `~` or starts
/// with `~/` becomes `home` + the part after the `~`; any other path, or a
/// missing home, leaves it unchanged. On Windows every `/` of the result is
/// then replaced by `\`.
pub open spec fn spec_expand_tilde(path: Seq<char>, home: Option<Seq<char>>, windows: bool) -> Seq<
    char,
> {
    spec_normalize_seps(
        match home {
            Some(h) => if starts_with(path, "~/"@) || path == "~"@ {
                h + path.skip(1)
            } else {
                path
            },
            None => path,
        },
        windows,
    )
}

fn normalize_seps(s: String, windows: bool) -> (r: String)
    ensures
        r@ == spec_normalize_seps(s@, windows),
{
    if !windows {
        return s;
    }
    let text = s.as_str();
    let n = text.unicode_len();
    let mut out = String::new();
    let mut i: usize = 0;
    while i < n
        invariant
            n == text@.len(),
            0 <= i <= n,
            out@ =~= spec_normalize_seps(text@, true).take(i as int),
        decreases n - i,
    {
        let c = text.get_char(i);
        let mapped: char = if c == '/' {
            '\\'
        } else {
            c
        };
        crate::text::push_char(&mut out, mapped);
        proof {
            assert(out@ =~= spec_normalize_seps(text@, true).take(i as int + 1));
        }
        i = i + 1;
    }
    proof {
        assert(spec_normalize_seps(text@, true).take(n as int) =~= spec_normalize_seps(
            text@,
            true,
        ));
    }
    out
}

/// Expand a leading `~` in `path` against the given home directory,
/// normalizing separators when `windows` holds.
pub fn expand_tilde_with(path: &str, home: Option<&str>, windows: bool) -> (r: String)
    ensures
        r@ == spec_expand_tilde(
            path@,
            match home {
                Some(h) => Some(h@),
                None => None,
            },
            windows,
        ),
{
    proof {
        reveal_strlit("~/");
        reveal_strlit("~");
    }
    let expanded = match home {
        None => path.to_owned(),
        Some(h) => {
            if str_starts_with(path, "~/") || str_eq(path, "~") {
                let mut r = h.to_owned();
                let n = path.unicode_len();
                let rest = path.substring_char(1, n);
                r.append(rest);
                proof {
                    assert(path@.subrange(1, n as int) =~= path@.skip(1));
                }
                r
            } else {
                path.to_owned()
            }
        },
    };
    normalize_seps(expanded, windows)
}

/// Expand a leading `~` in `path` against this user's home directory,
/// normalizing separators when `windows` holds.
pub fn expand_tilde(path: &str, windows: bool) -> (r: String)
    ensures
        exists|home: Option<Seq<char>>| r@ == spec_expand_tilde(path@, home, windows),
{
    let home = home_dir_string();
    let r = match home {
        Some(h) => expand_tilde_with(path, Some(h.as_str()), windows),
        None => expand_tilde_with(path, None, windows),
    };
    r
}

/// The deep link that opens the editor on one place of one universe.
pub open spec fn spec_studio_url(place_id: u64, universe_id: u64) -> Seq<char> {
    "roblox-studio:1+launchmode:edit+task:EditPlace+placeId:"@ + dec_digits(place_id as nat)
        + "+universeId:"@ + dec_digits(universe_id as nat)
}

/// Build the deep link that opens the editor on the given place.
pub fn studio_url(place_id: u64, universe_id: u64) -> (r: String)
    ensures
        r@ == spec_studio_url(place_id, universe_id),
{
    let mut r = "roblox-studio:1+launchmode:edit+task:EditPlace+placeId:".to_owned();
    let p = u64_to_string(place_id);
    r.append(p.as_str());
    r.append("+universeId:");
    let u = u64_to_string(universe_id);
    r.append(u.as_str());
    proof {
        assert(r@ =~= spec_studio_url(place_id, universe_id));
    }
    r
}

} // verus!
