//! Modification-time snapshots and conflict detection.
//!
//! A snapshot maps each tracked file path to its last-modified time, taken by
//! a single pass over the watched set. The pull cycle takes one snapshot
//! before and one after the external tool rewrites the tree; together with
//! the time of the last successful push they decide which paths are in
//! conflict: the pull changed the file, and the file had been edited locally
//! after the last push went out.

use vstd::prelude::*;
use crate::paths::str_eq;

verus! {

/// The first modification time recorded for `p`, if any.
pub open spec fn snap_lookup(s: Seq<(Seq<char>, u64)>, p: Seq<char>) -> Option<u64>
    decreases s.len(),
{
    if s.len() == 0 {
        None
    } else if s[0].0 == p {
        Some(s[0].1)
    } else {
        snap_lookup(s.skip(1), p)
    }
}

/// No path is recorded twice.
pub open spec fn snap_wf(s: Seq<(Seq<char>, u64)>) -> bool {
    forall|i: int, j: int| 0 <= i < j < s.len() ==> (#[trigger] s[i]).0 != (#[trigger] s[j]).0
}

/// A point-in-time map from tracked file paths to modification times.
pub struct MtimeSnapshot {
    entries: Vec<(String, u64)>,
}

impl View for MtimeSnapshot {
    type V = Seq<(Seq<char>, u64)>;

    closed spec fn view(&self) -> Seq<(Seq<char>, u64)> {
        self.entries.deep_view()
    }
}

fn find_entry(entries: &Vec<(String, u64)>, path: &str) -> (r: Option<usize>)
    ensures
        match r {
            Some(i) => i < entries@.len() && entries.deep_view()[i as int].0 == path@,
            None => forall|i: int|
                0 <= i < entries@.len() ==> (#[trigger] entries.deep_view()[i]).0 != path@,
        },
{
    let n = entries.len();
    let mut i: usize = 0;
    while i < n
        invariant
            n == entries@.len(),
            0 <= i <= n,
            forall|k: int| 0 <= k < i ==> (#[trigger] entries.deep_view()[k]).0 != path@,
        decreases n - i,
    {
        if str_eq(entries[i].0.as_str(), path) {
            proof {
                assert(entries.deep_view()[i as int].0 == path@);
            }
            return Some(i);
        }
        i = i + 1;
    }
    None
}

proof fn lemma_lookup_by_index(s: Seq<(Seq<char>, u64)>, p: Seq<char>, i: int)
    requires
        snap_wf(s),
        0 <= i < s.len(),
        s[i].0 == p,
    ensures
        snap_lookup(s, p) == Some(s[i].1),
    decreases s.len(),
{
    if i == 0 {
    } else {
        assert(s[0].0 != p);
        assert(s.skip(1)[i - 1] == s[i]);
        assert(snap_wf(s.skip(1))) by {
            assert(forall|k: int|
                0 <= k < s.len() - 1 ==> #[trigger] s.skip(1)[k] == s[k + 1]);
        }
        lemma_lookup_by_index(s.skip(1), p, i - 1);
    }
}

proof fn lemma_lookup_absent(s: Seq<(Seq<char>, u64)>, p: Seq<char>)
    requires
        forall|i: int| 0 <= i < s.len() ==> (#[trigger] s[i]).0 != p,
    ensures
        snap_lookup(s, p) is None,
    decreases s.len(),
{
    if s.len() > 0 {
        assert(forall|k: int|
            0 <= k < s.len() - 1 ==> #[trigger] s.skip(1)[k] == s[k + 1]);
        lemma_lookup_absent(s.skip(1), p);
    }
}

impl MtimeSnapshot {
    /// Every recorded path is recorded once.
    pub open spec fn wf(&self) -> bool {
        snap_wf(self@)
    }

    /// An empty snapshot.
    pub fn new() -> (s: MtimeSnapshot)
        ensures
            s@ == Seq::<(Seq<char>, u64)>::empty(),
            s.wf(),
    {
        let s = MtimeSnapshot { entries: Vec::new() };
        proof {
            assert(s@ =~= Seq::<(Seq<char>, u64)>::empty());
        }
        s
    }

    /// How many paths the snapshot records.
    pub fn len(&self) -> (n: usize)
        ensures
            n == self@.len(),
    {
        self.entries.len()
    }

    /// Record the modification time of one file: replaces the time when the
    /// path is already recorded, appends it otherwise.
    pub fn record(&mut self, path: &str, mtime: u64)
        requires
            old(self).wf(),
        ensures
            final(self).wf(),
            snap_lookup(final(self)@, path@) == Some(mtime),
            forall|q: Seq<char>|
                q != path@ ==> snap_lookup(final(self)@, q) == snap_lookup(old(self)@, q),
            final(self)@.len() <= old(self)@.len() + 1,
    {
        let ghost before = self.entries.deep_view();
        match find_entry(&self.entries, path) {
            Some(i) => {
                self.entries[i].1 = mtime;
                proof {
                    let after = self.entries.deep_view();
                    assert(after =~= before.update(i as int, (path@, mtime)));
                    assert(snap_wf(after)) by {
                        assert(forall|k: int|
                            0 <= k < after.len() && k != i ==> (#[trigger] after[k]) == before[k]);
                        assert(after[i as int].0 == before[i as int].0);
                    }
                    lemma_lookup_by_index(after, path@, i as int);
                    assert forall|q: Seq<char>| q != path@ implies snap_lookup(after, q)
                        == snap_lookup(before, q) by {
                        lemma_lookup_frame(before, after, q);
                    }
                }
            },
            None => {
                self.entries.push((path.to_owned(), mtime));
                proof {
                    let after = self.entries.deep_view();
                    assert(after =~= before.push((path@, mtime)));
                    assert(snap_wf(after)) by {
                        assert(forall|k: int|
                            0 <= k < before.len() ==> (#[trigger] after[k]) == before[k]);
                        assert(after[before.len() as int] == (path@, mtime));
                    }
                    lemma_lookup_by_index(after, path@, before.len() as int);
                    assert forall|q: Seq<char>| q != path@ implies snap_lookup(after, q)
                        == snap_lookup(before, q) by {
                        lemma_lookup_frame(before, after, q);
                    }
                }
            },
        }
    }

    /// The recorded modification time of `path`, if any.
    pub fn lookup(&self, path: &str) -> (r: Option<u64>)
        requires
            self.wf(),
        ensures
            r == snap_lookup(self@, path@),
    {
        match find_entry(&self.entries, path) {
            Some(i) => {
                let t = self.entries[i].1;
                proof {
                    lemma_lookup_by_index(self@, path@, i as int);
                }
                Some(t)
            },
            None => {
                proof {
                    lemma_lookup_absent(self@, path@);
                }
                None
            },
        }
    }
}

/// Lookups of keys that two snapshots record identically agree.
proof fn lemma_lookup_frame(before: Seq<(Seq<char>, u64)>, after: Seq<(Seq<char>, u64)>, q: Seq<char>)
    requires
        forall|k: int|
            0 <= k < before.len() ==> ((#[trigger] before[k]).0 == q ==> k < after.len()
                && after[k] == before[k]),
        forall|k: int|
            0 <= k < after.len() ==> ((#[trigger] after[k]).0 == q ==> k < before.len()
                && after[k] == before[k]),
        after.len() == before.len() || after.len() == before.len() + 1,
        after.len() == before.len() + 1 ==> after[before.len() as int].0 != q,
        forall|k: int| 0 <= k < before.len() ==> ((#[trigger] after[k]).0 == before[k].0),
    ensures
        snap_lookup(after, q) == snap_lookup(before, q),
    decreases before.len(),
{
    if before.len() == 0 {
        if after.len() > 0 {
            assert(after[0].0 != q);
            lemma_lookup_absent(after, q);
        }
    } else {
        if before[0].0 == q {
            assert(after[0] == before[0]);
        } else {
            assert(after[0].0 != q);
            assert(forall|k: int|
                0 <= k < before.len() - 1 ==> #[trigger] before.skip(1)[k] == before[k + 1]);
            assert(forall|k: int|
                0 <= k < after.len() - 1 ==> #[trigger] after.skip(1)[k] == after[k + 1]);
            lemma_lookup_frame(before.skip(1), after.skip(1), q);
        }
    }
}

/// Whether a path with pre-pull time `pre`, post-pull time `post`, and last
/// successful push at `last_push` is a conflict: the pull changed the file
/// (`pre` differs from `post`, or the file is new) while the file had been
/// edited locally after the last push (`pre` strictly newer than `last_push`).
///
/// A path that is new in the post snapshot has no local-edit time, so it is
/// never a conflict.
pub open spec fn spec_is_conflict(pre: Option<u64>, post: u64, last_push: u64) -> bool {
    match pre {
        None => false,
        Some(t0) => t0 != post && t0 > last_push,
    }
}

/// Conflict detection on one path: with pre-pull time `t0`, the last
/// successful push at `t1`, and a post-pull time `t2` that differs from
/// `t0`, a conflict is reported exactly when `t0 > t1` — the local edit
/// happened after the last push went out.
pub proof fn lemma_conflict_rule(t0: u64, t1: u64, t2: u64)
    requires
        t0 != t2,
    ensures
        spec_is_conflict(Some(t0), t2, t1) <==> t0 > t1,
{
}

/// Conflict rule on one path.
pub fn is_conflict(pre: Option<u64>, post: u64, last_push: u64) -> (r: bool)
    ensures
        r == spec_is_conflict(pre, post, last_push),
{
    match pre {
        None => false,
        Some(t0) => t0 != post && t0 > last_push,
    }
}

/// The conflicting paths: every path of the post snapshot, in order, whose
/// pre-pull time makes it a conflict.
pub open spec fn spec_conflicts(
    pre: Seq<(Seq<char>, u64)>,
    post: Seq<(Seq<char>, u64)>,
    last_push: u64,
) -> Seq<Seq<char>>
    decreases post.len(),
{
    if post.len() == 0 {
        Seq::empty()
    } else {
        let head: Seq<Seq<char>> = if spec_is_conflict(
            snap_lookup(pre, post[0].0),
            post[0].1,
            last_push,
        ) {
            seq![post[0].0]
        } else {
            Seq::empty()
        };
        head + spec_conflicts(pre, post.skip(1), last_push)
    }
}

/// The paths the pull overwrote under a pending local edit, referencing the
/// `pre` and `post` snapshots around the pull and the last successful push.
pub fn detect_conflicts(pre: &MtimeSnapshot, post: &MtimeSnapshot, last_push: u64) -> (r: Vec<
    String,
>)
    requires
        pre.wf(),
        post.wf(),
    ensures
        r.deep_view() == spec_conflicts(pre@, post@, last_push),
{
    let mut r: Vec<String> = Vec::new();
    let n = post.entries.len();
    let mut i: usize = 0;
    proof {
        assert(r.deep_view() =~= Seq::<Seq<char>>::empty());
        assert(post@.skip(0) =~= post@);
        assert(r.deep_view() + spec_conflicts(pre@, post@, last_push) =~= spec_conflicts(
            pre@,
            post@,
            last_push,
        ));
    }
    while i < n
        invariant
            pre.wf(),
            post.wf(),
            n == post@.len(),
            n == post.entries@.len(),
            0 <= i <= n,
            spec_conflicts(pre@, post@, last_push) == r.deep_view() + spec_conflicts(
                pre@,
                post@.skip(i as int),
                last_push,
            ),
        decreases n - i,
    {
        proof {
            assert(post@.skip(i as int)[0] == post@[i as int]);
            assert(post@.skip(i as int).skip(1) =~= post@.skip(i as int + 1));
            assert(post@[i as int] == (post.entries@[i as int].0@, post.entries@[i as int].1));
        }
        let path: &str = post.entries[i].0.as_str();
        let post_mtime = post.entries[i].1;
        let pre_mtime = pre.lookup(path);
        if is_conflict(pre_mtime, post_mtime, last_push) {
            let ghost rs = r.deep_view();
            r.push(path.to_owned());
            proof {
                assert(r.deep_view() =~= rs + seq![path@]);
                assert(rs + (seq![path@] + spec_conflicts(pre@, post@.skip(i as int + 1), last_push))
                    =~= r.deep_view() + spec_conflicts(pre@, post@.skip(i as int + 1), last_push));
            }
        } else {
            proof {
                assert(Seq::<Seq<char>>::empty() + spec_conflicts(
                    pre@,
                    post@.skip(i as int + 1),
                    last_push,
                ) =~= spec_conflicts(pre@, post@.skip(i as int + 1), last_push));
            }
        }
        i = i + 1;
    }
    proof {
        assert(post@.skip(n as int) =~= Seq::<(Seq<char>, u64)>::empty());
        assert(r.deep_view() + Seq::<Seq<char>>::empty() =~= r.deep_view());
    }
    r
}

/// An unchanged tree yields no conflict: when the post snapshot equals the
/// pre snapshot, every recorded time is its own pre-pull time, so no path is
/// reported, whatever the last push time.
pub proof fn lemma_unchanged_no_conflicts(s: Seq<(Seq<char>, u64)>, last_push: u64)
    requires
        snap_wf(s),
    ensures
        spec_conflicts(s, s, last_push) == Seq::<Seq<char>>::empty(),
{
    lemma_unchanged_no_conflicts_from(s, s, last_push);
}

proof fn lemma_unchanged_no_conflicts_from(
    pre: Seq<(Seq<char>, u64)>,
    post: Seq<(Seq<char>, u64)>,
    last_push: u64,
)
    requires
        snap_wf(pre),
        forall|i: int|
            0 <= i < post.len() ==> pre.contains(#[trigger] post[i]),
    ensures
        spec_conflicts(pre, post, last_push) == Seq::<Seq<char>>::empty(),
    decreases post.len(),
{
    if post.len() > 0 {
        assert(pre.contains(post[0]));
        let j = choose|j: int| 0 <= j < pre.len() && pre[j] == post[0];
        lemma_lookup_by_index(pre, post[0].0, j);
        assert(snap_lookup(pre, post[0].0) == Some(post[0].1));
        assert(!spec_is_conflict(snap_lookup(pre, post[0].0), post[0].1, last_push));
        assert(forall|k: int|
            0 <= k < post.len() - 1 ==> #[trigger] post.skip(1)[k] == post[k + 1]);
        lemma_unchanged_no_conflicts_from(pre, post.skip(1), last_push);
        assert(Seq::<Seq<char>>::empty() + Seq::<Seq<char>>::empty() =~= Seq::<
            Seq<char>,
        >::empty());
    }
}

} // verus!
