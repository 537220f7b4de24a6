//! Backups of the tracked tree: directory naming, the manifest, and the
//! retention policy.
//!
//! A backup is a directory named by the Unix timestamp of its creation, under
//! `.roxlit/backups/` in the project root, holding a copy of every tracked
//! file (relative paths preserved) and a manifest listing the timestamp and
//! the copied paths. Retention keeps the newest `cap` backups: directory
//! names are decimal timestamps, so their numeric order is chronological.

use vstd::prelude::*;
use vstd::relations::{sorted_by, total_ordering};
use vstd::seq_lib::lemma_sorted_unique;
use vstd::multiset::Multiset;
use vstd::string::{StrSliceExecFns, StringExecFns};
use crate::digits::{dec_digits, u64_to_string, digit_char};
use crate::paths::str_starts_with;
use crate::text::push_char;

verus! {

/// Numeric order on timestamps.
pub open spec fn ts_le() -> spec_fn(u64, u64) -> bool {
    |a: u64, b: u64| a <= b
}

/// The timestamps in ascending order.
pub open spec fn spec_sorted(s: Seq<u64>) -> Seq<u64> {
    s.sort_by(ts_le())
}

proof fn lemma_ts_le_total()
    ensures
        total_ordering(ts_le()),
{
    let leq = ts_le();
    assert forall|a: u64, b: u64| #[trigger] leq(a, b) || #[trigger] leq(b, a) by {}
}

/// Sort backup timestamps ascending (oldest first).
pub fn sort_timestamps(v: Vec<u64>) -> (r: Vec<u64>)
    ensures
        r@ == spec_sorted(v@),
{
    broadcast use vstd::seq_lib::group_to_multiset_ensures;

    let ghost orig = v@;
    let mut rem = v;
    let mut out: Vec<u64> = Vec::new();
    proof {
        assert(out@.to_multiset().add(rem@.to_multiset()) =~= orig.to_multiset());
    }
    while rem.len() > 0
        invariant
            out@.to_multiset().add(rem@.to_multiset()) == orig.to_multiset(),
            sorted_by(out@, ts_le()),
            forall|i: int, j: int|
                0 <= i < out@.len() && 0 <= j < rem@.len() ==> (#[trigger] out@[i])
                    <= (#[trigger] rem@[j]),
        decreases rem@.len(),
    {
        let mut m: usize = 0;
        let mut k: usize = 1;
        while k < rem.len()
            invariant
                rem@.len() > 0,
                0 <= m < rem@.len(),
                m < k <= rem@.len() || (k <= rem@.len() && m == 0),
                forall|j: int| 0 <= j < k ==> rem@[m as int] <= (#[trigger] rem@[j]),
            decreases rem@.len() - k,
        {
            if rem[k] < rem[m] {
                m = k;
            }
            k = k + 1;
        }
        let ghost rem_before = rem@;
        let ghost out_before = out@;
        let x = rem.remove(m);
        out.push(x);
        proof {
            assert(rem_before.contains(x)) by {
                assert(rem_before[m as int] == x);
            }
            rem_before.to_multiset_ensures();
            out_before.to_multiset_ensures();
            assert(rem@ == rem_before.remove(m as int));
            assert(rem_before.remove(m as int).to_multiset() =~= rem_before.to_multiset().remove(
                rem_before[m as int],
            ));
            assert(rem@.to_multiset() =~= rem_before.to_multiset().remove(x));
            assert(out@ == out_before.push(x));
            assert(out_before.push(x).to_multiset() =~= out_before.to_multiset().insert(x));
            assert(out@.to_multiset() =~= out_before.to_multiset().insert(x));
            assert(out@.to_multiset().add(rem@.to_multiset()) =~= orig.to_multiset()) by {
                assert(rem_before.to_multiset().count(x) > 0);
                assert(out_before.to_multiset().insert(x).add(rem_before.to_multiset().remove(x))
                    =~= out_before.to_multiset().add(rem_before.to_multiset()));
            }
            assert(sorted_by(out@, ts_le())) by {
                assert(forall|i: int| 0 <= i < out_before.len() ==> out@[i] == out_before[i]);
                assert(out@.last() == x);
                assert(forall|i: int| 0 <= i < out_before.len() ==> (#[trigger] out_before[i]) <= x);
            }
            assert forall|i: int, j: int|
                0 <= i < out@.len() && 0 <= j < rem@.len() implies (#[trigger] out@[i])
                <= (#[trigger] rem@[j]) by {
                assert(rem@[j] == rem_before[j] || rem@[j] == rem_before[j + 1]);
                assert(x <= rem@[j]);
                if i < out_before.len() {
                    assert(out@[i] == out_before[i]);
                }
            }
        }
    }
    proof {
        assert(rem@.to_multiset() =~= Multiset::<u64>::empty());
        assert(out@.to_multiset() =~= orig.to_multiset());
        lemma_ts_le_total();
        orig.lemma_sort_by_ensures(ts_le());
        lemma_sorted_unique(out@, spec_sorted(orig), ts_le());
    }
    out
}

/// How many entries are over the cap.
pub open spec fn spec_excess(len: nat, cap: nat) -> int {
    if len > cap {
        len - cap
    } else {
        0
    }
}

/// The retention plan over the backups at `timestamps`, with cap `cap`:
/// the first element holds the timestamps to delete, the second those to
/// keep. Exactly the oldest `len - cap` are deleted (none when the count is
/// within the cap), and the `cap` newest are kept: every deleted timestamp
/// is at or below every kept one.
pub fn cleanup_plan(timestamps: Vec<u64>, cap: usize) -> (r: (Vec<u64>, Vec<u64>))
    ensures
        r.0@ == spec_sorted(timestamps@).take(spec_excess(timestamps@.len(), cap as nat)),
        r.1@ == spec_sorted(timestamps@).skip(spec_excess(timestamps@.len(), cap as nat)),
{
    let ghost orig = timestamps@;
    let mut sorted = sort_timestamps(timestamps);
    let excess = if sorted.len() > cap {
        sorted.len() - cap
    } else {
        0
    };
    proof {
        lemma_ts_le_total();
        orig.lemma_sort_by_ensures(ts_le());
        broadcast use vstd::seq_lib::group_to_multiset_ensures;

        assert(spec_sorted(orig).to_multiset() =~= orig.to_multiset());
        assert(spec_sorted(orig).len() == spec_sorted(orig).to_multiset().len());
        assert(orig.len() == orig.to_multiset().len());
        assert(spec_sorted(orig).len() == orig.len());
        assert(excess == spec_excess(orig.len(), cap as nat));
    }
    let kept = sorted.split_off(excess);
    (sorted, kept)
}

/// Backup retention: after sorting, the deleted prefix holds only timestamps
/// at or below every kept one, and the kept suffix has at most `cap` entries
/// (exactly `cap` when there were more).
pub proof fn lemma_retention(timestamps: Seq<u64>, cap: nat)
    ensures
        spec_sorted(timestamps).len() == timestamps.len(),
        spec_sorted(timestamps).to_multiset() == timestamps.to_multiset(),
        sorted_by(spec_sorted(timestamps), ts_le()),
        spec_sorted(timestamps).skip(spec_excess(timestamps.len(), cap)).len() == if timestamps.len()
            <= cap {
            timestamps.len() as int
        } else {
            cap as int
        },
        forall|i: int, j: int|
            0 <= i < spec_excess(timestamps.len(), cap) && spec_excess(timestamps.len(), cap) <= j
                < timestamps.len() ==> spec_sorted(timestamps)[i] <= spec_sorted(timestamps)[j],
{
    broadcast use vstd::seq_lib::group_to_multiset_ensures;

    lemma_ts_le_total();
    timestamps.lemma_sort_by_ensures(ts_le());
    assert(spec_sorted(timestamps).to_multiset() =~= timestamps.to_multiset());
    assert(spec_sorted(timestamps).len() == spec_sorted(timestamps).to_multiset().len());
    assert(timestamps.len() == timestamps.to_multiset().len());
    let sorted = spec_sorted(timestamps);
    assert forall|i: int, j: int|
        0 <= i < spec_excess(timestamps.len(), cap) && spec_excess(timestamps.len(), cap) <= j
            < timestamps.len() implies sorted[i] <= sorted[j] by {
        assert(ts_le()(sorted[i], sorted[j]));
    }
}

pub const BACKUPS_SUBDIR: &'static str = "/.roxlit/backups/";

/// The backup directory for a backup of `project_root` taken at `timestamp`:
/// `<root>/.roxlit/backups/<timestamp>`.
pub open spec fn spec_backup_dir(root: Seq<char>, timestamp: u64) -> Seq<char> {
    root + BACKUPS_SUBDIR@ + dec_digits(timestamp as nat)
}

/// Name the backup directory for a backup of `project_root` at `timestamp`.
pub fn backup_dir_path(project_root: &str, timestamp: u64) -> (r: String)
    ensures
        r@ == spec_backup_dir(project_root@, timestamp),
{
    let mut r = project_root.to_owned();
    r.append(BACKUPS_SUBDIR);
    let ts = u64_to_string(timestamp);
    r.append(ts.as_str());
    r
}

/// `p` relative to the directory `prefix`: `p` with `prefix` and one
/// following separator removed. `None` when `p` does not start with `prefix`.
pub open spec fn spec_strip_prefix(p: Seq<char>, prefix: Seq<char>) -> Option<Seq<char>> {
    if p.len() >= prefix.len() && p.take(prefix.len() as int) == prefix {
        let rest = p.skip(prefix.len() as int);
        if rest.len() > 0 && (rest[0] == '/' || rest[0] == '\\') {
            Some(rest.skip(1))
        } else {
            Some(rest)
        }
    } else {
        None
    }
}

/// Strip the leading directory `prefix` (and one separator) off `p`.
pub fn strip_prefix(p: &str, prefix: &str) -> (r: Option<String>)
    ensures
        match r {
            Some(rel) => spec_strip_prefix(p@, prefix@) == Some(rel@),
            None => spec_strip_prefix(p@, prefix@) is None,
        },
{
    let n = p.unicode_len();
    let m = prefix.unicode_len();
    if !str_starts_with(p, prefix) {
        return None;
    }
    proof {
        assert(p@.take(m as int) == prefix@);
        assert(p@.skip(m as int).len() == n - m);
    }
    let start = if m < n {
        let c = p.get_char(m);
        proof {
            assert(p@.skip(m as int)[0] == p@[m as int]);
        }
        if c == '/' || c == '\\' {
            m + 1
        } else {
            m
        }
    } else {
        m
    };
    let rel = p.substring_char(start, n).to_owned();
    proof {
        if start == m {
            assert(rel@ == p@.skip(m as int)) by {
                assert(p@.subrange(m as int, n as int) =~= p@.skip(m as int));
            }
        } else {
            assert(rel@ == p@.skip(m as int).skip(1)) by {
                assert(p@.subrange(m as int + 1, n as int) =~= p@.skip(m as int).skip(1));
            }
        }
    }
    Some(rel)
}

/// The character for one hexadecimal digit value.
pub open spec fn hex_char(d: int) -> char {
    if d < 10 {
        digit_char(d)
    } else if d == 10 {
        'a'
    } else if d == 11 {
        'b'
    } else if d == 12 {
        'c'
    } else if d == 13 {
        'd'
    } else if d == 14 {
        'e'
    } else {
        'f'
    }
}

/// A character as it stands inside a JSON string literal: quote and backslash
/// escaped, common control characters by letter, other control characters as
/// `\u00` + two hex digits.
pub open spec fn json_escaped_char(c: char) -> Seq<char> {
    if c == '"' {
        seq!['\\', '"']
    } else if c == '\\' {
        seq!['\\', '\\']
    } else if c == '\n' {
        seq!['\\', 'n']
    } else if c == '\r' {
        seq!['\\', 'r']
    } else if c == '\t' {
        seq!['\\', 't']
    } else if (c as int) < 32 {
        seq!['\\', 'u', '0', '0', hex_char(c as int / 16), hex_char(c as int % 16)]
    } else {
        seq![c]
    }
}

/// `s` escaped for a JSON string literal.
pub open spec fn json_escaped(s: Seq<char>) -> Seq<char>
    decreases s.len(),
{
    if s.len() == 0 {
        Seq::empty()
    } else {
        json_escaped_char(s[0]) + json_escaped(s.skip(1))
    }
}

fn hex_char_of(d: u32) -> (r: char)
    requires
        d < 16,
    ensures
        r == hex_char(d as int),
{
    if d < 10 {
        ((48 + d) as u8) as char
    } else {
        ((87 + d) as u8) as char
    }
}

/// Escape `s` for use inside a JSON string literal.
pub fn json_escape(s: &str) -> (r: String)
    ensures
        r@ == json_escaped(s@),
{
    let n = s.unicode_len();
    let mut out = String::new();
    let mut i: usize = 0;
    proof {
        assert(s@.skip(0) =~= s@);
        assert(out@ + json_escaped(s@) =~= json_escaped(s@));
    }
    while i < n
        invariant
            n == s@.len(),
            0 <= i <= n,
            json_escaped(s@) == out@ + json_escaped(s@.skip(i as int)),
        decreases n - i,
    {
        let c = s.get_char(i);
        let ghost before = out@;
        proof {
            assert(s@.skip(i as int)[0] == s@[i as int]);
            assert(s@.skip(i as int).skip(1) =~= s@.skip(i as int + 1));
        }
        if c == '"' {
            push_char(&mut out, '\\');
            push_char(&mut out, '"');
        } else if c == '\\' {
            push_char(&mut out, '\\');
            push_char(&mut out, '\\');
        } else if c == '\n' {
            push_char(&mut out, '\\');
            push_char(&mut out, 'n');
        } else if c == '\r' {
            push_char(&mut out, '\\');
            push_char(&mut out, 'r');
        } else if c == '\t' {
            push_char(&mut out, '\\');
            push_char(&mut out, 't');
        } else if (c as u32) < 32 {
            let v = c as u32;
            push_char(&mut out, '\\');
            push_char(&mut out, 'u');
            push_char(&mut out, '0');
            push_char(&mut out, '0');
            push_char(&mut out, hex_char_of(v / 16));
            push_char(&mut out, hex_char_of(v % 16));
        } else {
            push_char(&mut out, c);
        }
        proof {
            assert(out@ =~= before + json_escaped_char(s@[i as int]));
            assert(before + (json_escaped_char(s@[i as int]) + json_escaped(s@.skip(i as int + 1)))
                =~= out@ + json_escaped(s@.skip(i as int + 1)));
        }
        i = i + 1;
    }
    proof {
        assert(s@.skip(n as int) =~= Seq::<char>::empty());
        assert(out@ + Seq::<char>::empty() =~= out@);
    }
    out
}

/// What a backup records: its creation timestamp and the relative paths of
/// the files it copied.
pub struct BackupManifest {
    pub timestamp: u64,
    pub files: Vec<String>,
}

pub const MANIFEST_OPEN: &'static str = "{\n  \"timestamp\": ";
pub const MANIFEST_MID: &'static str = ",\n  \"files\": [";
pub const MANIFEST_CLOSE: &'static str = "]\n}\n";
pub const MANIFEST_SEP: &'static str = ", ";

/// One file name as a JSON string literal.
pub open spec fn quoted(f: Seq<char>) -> Seq<char> {
    seq!['"'] + json_escaped(f) + seq!['"']
}

/// The comma-separated list of quoted file names.
pub open spec fn spec_file_list(files: Seq<Seq<char>>) -> Seq<char>
    decreases files.len(),
{
    if files.len() == 0 {
        Seq::empty()
    } else if files.len() == 1 {
        quoted(files[0])
    } else {
        quoted(files[0]) + MANIFEST_SEP@ + spec_file_list(files.skip(1))
    }
}

/// The manifest as JSON text: an object holding the timestamp and the file
/// list.
pub open spec fn spec_manifest_json(timestamp: u64, files: Seq<Seq<char>>) -> Seq<char> {
    MANIFEST_OPEN@ + dec_digits(timestamp as nat) + MANIFEST_MID@ + spec_file_list(files)
        + MANIFEST_CLOSE@
}

impl BackupManifest {
    /// Render the manifest as JSON text.
    pub fn to_json(&self) -> (r: String)
        ensures
            r@ == spec_manifest_json(self.timestamp, self.files.deep_view()),
    {
        let ghost files = self.files.deep_view();
        let mut out = String::new();
        out.append(MANIFEST_OPEN);
        let ts = u64_to_string(self.timestamp);
        out.append(ts.as_str());
        out.append(MANIFEST_MID);
        let n = self.files.len();
        let mut i: usize = 0;
        proof {
            assert(out@ =~= MANIFEST_OPEN@ + dec_digits(self.timestamp as nat) + MANIFEST_MID@);
            assert(files.skip(0) =~= files);
        }
        while i < n
            invariant
                n == files.len(),
                n == self.files@.len(),
                files == self.files.deep_view(),
                0 <= i <= n,
                out@ + spec_file_list(files.skip(i as int)) =~= MANIFEST_OPEN@ + dec_digits(
                    self.timestamp as nat,
                ) + MANIFEST_MID@ + spec_file_list(files),
            decreases n - i,
        {
            let ghost before = out@;
            proof {
                assert(files.skip(i as int)[0] == files[i as int]);
                assert(files.skip(i as int).skip(1) =~= files.skip(i as int + 1));
                assert(self.files@[i as int]@ == files[i as int]);
            }
            out.append("\"");
            let esc = json_escape(self.files[i].as_str());
            out.append(esc.as_str());
            out.append("\"");
            proof {
                reveal_strlit("\"");
                assert("\""@ =~= seq!['"']);
                assert(out@ =~= before + quoted(files[i as int]));
            }
            if i + 1 < n {
                out.append(MANIFEST_SEP);
                proof {
                    assert(out@ =~= before + quoted(files[i as int]) + MANIFEST_SEP@);
                    assert(spec_file_list(files.skip(i as int)) =~= quoted(files[i as int])
                        + MANIFEST_SEP@ + spec_file_list(files.skip(i as int + 1)));
                    assert(out@ + spec_file_list(files.skip(i as int + 1)) =~= before
                        + spec_file_list(files.skip(i as int)));
                }
            } else {
                proof {
                    assert(files.skip(i as int).len() == 1);
                    assert(spec_file_list(files.skip(i as int)) =~= quoted(files[i as int]));
                    assert(files.skip(i as int + 1) =~= Seq::<Seq<char>>::empty());
                    assert(out@ + spec_file_list(files.skip(i as int + 1)) =~= before
                        + spec_file_list(files.skip(i as int)));
                }
            }
            i = i + 1;
        }
        proof {
            assert(files.skip(n as int) =~= Seq::<Seq<char>>::empty());
            assert(out@ =~= out@ + spec_file_list(files.skip(n as int)));
        }
        out.append(MANIFEST_CLOSE);
        proof {
            assert(out@ =~= spec_manifest_json(self.timestamp, files));
        }
        out
    }
}

} // verus!
