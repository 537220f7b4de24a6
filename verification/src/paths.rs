//! Classifying watched paths: tracked extensions and ignored subtrees.
//!
//! Paths are handled as plain strings. A path "has an extension" here when it
//! ends in `.` + the extension and the character before that suffix is not a
//! separator (`/` or `\`), so a hidden file such as `.rbxjson` itself does not
//! count.

use vstd::prelude::*;

verus! {

/// `sub` occurs in `s` starting at position `i`.
pub open spec fn has_substring_at(s: Seq<char>, sub: Seq<char>, i: int) -> bool {
    0 <= i && i + sub.len() <= s.len() && s.subrange(i, i + sub.len()) == sub
}

/// `sub` occurs somewhere in `s`.
pub open spec fn contains_substring(s: Seq<char>, sub: Seq<char>) -> bool {
    exists|i: int| has_substring_at(s, sub, i)
}

/// `s` ends with `suffix`.
pub open spec fn ends_with(s: Seq<char>, suffix: Seq<char>) -> bool {
    s.len() >= suffix.len() && s.subrange(s.len() - suffix.len(), s.len() as int) == suffix
}

/// Whether `sub` occurs in `s` starting at `i`.
fn match_at(s: &str, sub: &str, i: usize) -> (r: bool)
    requires
        i + sub@.len() <= s@.len(),
    ensures
        r == has_substring_at(s@, sub@, i as int),
{
    let n = s.unicode_len();
    let m = sub.unicode_len();
    let mut j: usize = 0;
    while j < m
        invariant
            n == s@.len(),
            m == sub@.len(),
            i + m <= n,
            0 <= j <= m,
            forall|l: int| 0 <= l < j ==> s@[i + l] == sub@[l],
        decreases m - j,
    {
        if s.get_char(i + j) != sub.get_char(j) {
            proof {
                assert(s@.subrange(i as int, i + sub@.len())[j as int] != sub@[j as int]);
            }
            return false;
        }
        j = j + 1;
    }
    proof {
        assert(s@.subrange(i as int, i + sub@.len()) =~= sub@);
    }
    true
}

/// Whether `sub` occurs somewhere in `s`.
pub fn str_contains(s: &str, sub: &str) -> (r: bool)
    ensures
        r == contains_substring(s@, sub@),
{
    let n = s.unicode_len();
    let m = sub.unicode_len();
    if m > n {
        proof {
            assert(forall|i: int| !has_substring_at(s@, sub@, i));
        }
        return false;
    }
    if m == 0 {
        proof {
            assert(s@.subrange(0, 0) =~= sub@);
            assert(has_substring_at(s@, sub@, 0));
        }
        return true;
    }
    let mut i: usize = 0;
    while i <= n - m
        invariant
            n == s@.len(),
            m == sub@.len(),
            1 <= m <= n,
            i <= n - m + 1,
            forall|k: int| 0 <= k < i ==> !has_substring_at(s@, sub@, k),
        decreases n - m - i + 1,
    {
        if match_at(s, sub, i) {
            return true;
        }
        i = i + 1;
    }
    proof {
        assert(forall|k: int| has_substring_at(s@, sub@, k) ==> 0 <= k <= n - m);
    }
    false
}

/// `s` starts with `prefix`.
pub open spec fn starts_with(s: Seq<char>, prefix: Seq<char>) -> bool {
    s.len() >= prefix.len() && s.take(prefix.len() as int) == prefix
}

/// Whether `s` starts with `prefix`.
pub fn str_starts_with(s: &str, prefix: &str) -> (r: bool)
    ensures
        r == starts_with(s@, prefix@),
{
    let n = s.unicode_len();
    let m = prefix.unicode_len();
    if m > n {
        return false;
    }
    let r = match_at(s, prefix, 0);
    proof {
        assert(s@.subrange(0, prefix@.len() as int) =~= s@.take(prefix@.len() as int));
    }
    r
}

/// Whether two strings hold the same characters.
pub fn str_eq(a: &str, b: &str) -> (r: bool)
    ensures
        r == (a@ == b@),
{
    let n = a.unicode_len();
    let m = b.unicode_len();
    if n != m {
        return false;
    }
    if match_at(a, b, 0) {
        proof {
            assert(a@.subrange(0, b@.len() as int) =~= a@);
        }
        true
    } else {
        proof {
            assert(a@.subrange(0, b@.len() as int) =~= a@);
        }
        false
    }
}

/// Whether `s` ends with `suffix`.
pub fn str_ends_with(s: &str, suffix: &str) -> (r: bool)
    ensures
        r == ends_with(s@, suffix@),
{
    let n = s.unicode_len();
    let m = suffix.unicode_len();
    if m > n {
        return false;
    }
    match_at(s, suffix, n - m)
}

/// `p` names a file with the given extension: it ends in `.` + `ext` and the
/// character before that suffix is not a path separator.
pub open spec fn has_extension(p: Seq<char>, dot_ext: Seq<char>) -> bool {
    &&& ends_with(p, dot_ext)
    &&& p.len() > dot_ext.len()
    &&& p[p.len() - dot_ext.len() - 1] != '/'
    &&& p[p.len() - dot_ext.len() - 1] != '\\'
}

fn str_has_extension(p: &str, dot_ext: &str) -> (r: bool)
    requires
        dot_ext@.len() > 0,
    ensures
        r == has_extension(p@, dot_ext@),
{
    let n = p.unicode_len();
    let m = dot_ext.unicode_len();
    if n <= m {
        return false;
    }
    let before = p.get_char(n - m - 1);
    if before == '/' || before == '\\' {
        return false;
    }
    match_at(p, dot_ext, n - m)
}

/// A path under one of the ignored subtrees: the hidden tool directory,
/// version control, or dependency directories.
pub open spec fn spec_is_ignored(p: Seq<char>) -> bool {
    ||| contains_substring(p, ".roxlit"@)
    ||| contains_substring(p, ".git"@)
    ||| contains_substring(p, "node_modules"@)
}

/// Whether `path` lies under an ignored subtree.
pub fn is_ignored(path: &str) -> (r: bool)
    ensures
        r == spec_is_ignored(path@),
{
    str_contains(path, ".roxlit") || str_contains(path, ".git") || str_contains(path, "node_modules")
}

/// `p` names an instance-snapshot file.
pub open spec fn spec_is_rbxjson(p: Seq<char>) -> bool {
    has_extension(p, ".rbxjson"@)
}

/// Whether `path` names an instance-snapshot file.
pub fn is_rbxjson(path: &str) -> (r: bool)
    ensures
        r == spec_is_rbxjson(path@),
{
    proof {
        reveal_strlit(".rbxjson");
    }
    str_has_extension(path, ".rbxjson")
}

/// `p` names a script file.
pub open spec fn spec_is_luau(p: Seq<char>) -> bool {
    has_extension(p, ".luau"@)
}

/// Whether `path` names a script file.
pub fn is_luau(path: &str) -> (r: bool)
    ensures
        r == spec_is_luau(path@),
{
    proof {
        reveal_strlit(".luau");
    }
    str_has_extension(path, ".luau")
}

/// A filesystem event qualifies for the push loop exactly when its path has
/// the tracked extension and is not under an ignored subtree.
pub open spec fn spec_qualifies(p: Seq<char>) -> bool {
    spec_is_rbxjson(p) && !spec_is_ignored(p)
}

/// A path under an ignored subtree never qualifies, whatever its extension.
pub proof fn lemma_ignored_never_qualifies(p: Seq<char>)
    ensures
        spec_is_ignored(p) ==> !spec_qualifies(p),
{
}

/// Whether an event on `path` qualifies for the push loop.
pub fn qualifies(path: &str) -> (r: bool)
    ensures
        r == spec_qualifies(path@),
{
    is_rbxjson(path) && !is_ignored(path)
}

} // verus!
