//! The change debouncer: coalescing bursts of filesystem events into batches.
//!
//! A batch accumulates the paths of qualifying events (tracked extension,
//! not under an ignored subtree), deduplicated in order of first arrival.
//! A new event belongs to the open batch when it arrives strictly less than
//! the quiet period after the previous event; otherwise the open batch is
//! closed (and emitted if non-empty) and a new one starts.

use vstd::prelude::*;
use crate::paths::{qualifies, spec_qualifies, str_eq};

verus! {

/// One accumulation step: a qualifying path is appended unless already present.
pub open spec fn add_event(batch: Seq<Seq<char>>, p: Seq<char>) -> Seq<Seq<char>> {
    if spec_qualifies(p) && !batch.contains(p) {
        batch.push(p)
    } else {
        batch
    }
}

/// Accumulating every path of `paths` into `batch`, in order.
pub open spec fn accumulate_all(batch: Seq<Seq<char>>, paths: Seq<Seq<char>>) -> Seq<Seq<char>>
    decreases paths.len(),
{
    if paths.len() == 0 {
        batch
    } else {
        accumulate_all(add_event(batch, paths[0]), paths.skip(1))
    }
}

/// No path occurs twice.
pub open spec fn distinct_paths(batch: Seq<Seq<char>>) -> bool {
    forall|i: int, j: int| 0 <= i < j < batch.len() ==> batch[i] != batch[j]
}

/// A batch accumulated after the first qualifying event of a debounce window.
///
/// Holds the deduplicated qualifying paths in order of first arrival.
pub struct ChangeBatch {
    paths: Vec<String>,
}

impl View for ChangeBatch {
    type V = Seq<Seq<char>>;

    closed spec fn view(&self) -> Seq<Seq<char>> {
        self.paths.deep_view()
    }
}

/// Whether `v` holds a string whose characters are `p`.
fn vec_contains_str(v: &Vec<String>, p: &str) -> (r: bool)
    ensures
        r == v.deep_view().contains(p@),
{
    let n = v.len();
    let mut i: usize = 0;
    while i < n
        invariant
            n == v.len(),
            0 <= i <= n,
            forall|k: int| 0 <= k < i ==> v.deep_view()[k] != p@,
        decreases n - i,
    {
        if str_eq(v[i].as_str(), p) {
            proof {
                assert(v.deep_view()[i as int] == p@);
            }
            return true;
        }
        i = i + 1;
    }
    false
}

/// Append `path` to `batch` if it qualifies and is not already present.
fn push_event_path(batch: &mut Vec<String>, path: &str)
    ensures
        final(batch).deep_view() == add_event(old(batch).deep_view(), path@),
{
    if qualifies(path) && !vec_contains_str(batch, path) {
        let ghost before = batch.deep_view();
        batch.push(path.to_owned());
        proof {
            assert(batch.deep_view() =~= before.push(path@));
        }
    }
}

impl ChangeBatch {
    /// An empty batch.
    pub fn new() -> (b: ChangeBatch)
        ensures
            b@ == Seq::<Seq<char>>::empty(),
    {
        let b = ChangeBatch { paths: Vec::new() };
        proof {
            assert(b@ =~= Seq::<Seq<char>>::empty());
        }
        b
    }

    /// Accumulate one event path.
    pub fn add_path(&mut self, path: &str)
        ensures
            final(self)@ == add_event(old(self)@, path@),
    {
        push_event_path(&mut self.paths, path);
    }

    /// Accumulate every path of one filesystem notification, in order.
    pub fn add_paths(&mut self, event_paths: &Vec<String>)
        ensures
            final(self)@ == accumulate_all(old(self)@, event_paths.deep_view()),
    {
        let n = event_paths.len();
        let mut i: usize = 0;
        proof {
            assert(event_paths.deep_view().skip(0) =~= event_paths.deep_view());
        }
        while i < n
            invariant
                n == event_paths.len(),
                0 <= i <= n,
                accumulate_all(old(self)@, event_paths.deep_view()) == accumulate_all(
                    self@,
                    event_paths.deep_view().skip(i as int),
                ),
            decreases n - i,
        {
            proof {
                let evs = event_paths.deep_view();
                assert(evs.skip(i as int)[0] == evs[i as int]);
                assert(evs.skip(i as int).skip(1) =~= evs.skip(i as int + 1));
            }
            self.add_path(event_paths[i].as_str());
            i = i + 1;
        }
        proof {
            assert(event_paths.deep_view().skip(n as int)
                =~= Seq::<Seq<char>>::empty());
        }
    }

    /// How many paths the batch holds.
    pub fn len(&self) -> (n: usize)
        ensures
            n == self@.len(),
    {
        self.paths.len()
    }

    /// Whether the batch holds no path.
    pub fn is_empty(&self) -> (r: bool)
        ensures
            r == (self@.len() == 0),
    {
        self.paths.len() == 0
    }

    /// The accumulated paths, in order of first arrival.
    pub fn into_paths(self) -> (v: Vec<String>)
        ensures
            v.deep_view() == self@,
    {
        self.paths
    }
}

/// What a batch accumulated from `paths` holds: a path is in it exactly when
/// it occurred and qualifies; and it stays deduplicated.
pub proof fn lemma_accumulate_membership(batch: Seq<Seq<char>>, paths: Seq<Seq<char>>, x: Seq<char>)
    ensures
        accumulate_all(batch, paths).contains(x) <==> (batch.contains(x) || (paths.contains(x)
            && spec_qualifies(x))),
    decreases paths.len(),
{
    if paths.len() == 0 {
    } else {
        let b1 = add_event(batch, paths[0]);
        lemma_accumulate_membership(b1, paths.skip(1), x);
        assert(paths.contains(x) <==> (x == paths[0] || paths.skip(1).contains(x))) by {
            if paths.contains(x) {
                let i = choose|i: int| 0 <= i < paths.len() && paths[i] == x;
                if i > 0 {
                    assert(paths.skip(1)[i - 1] == x);
                }
            }
            if paths.skip(1).contains(x) {
                let i = choose|i: int| 0 <= i < paths.skip(1).len() && paths.skip(1)[i] == x;
                assert(paths[i + 1] == x);
            }
        }
        if spec_qualifies(paths[0]) && !batch.contains(paths[0]) {
            assert(b1.contains(x) <==> (batch.contains(x) || x == paths[0])) by {
                if b1.contains(x) {
                    let i = choose|i: int| 0 <= i < b1.len() && b1[i] == x;
                    if i < batch.len() {
                        assert(batch[i] == x);
                    }
                }
                if batch.contains(x) {
                    let i = choose|i: int| 0 <= i < batch.len() && batch[i] == x;
                    assert(b1[i] == x);
                }
                assert(b1[batch.len() as int] == paths[0]);
            }
        }
    }
}

/// Accumulation never introduces a duplicate.
pub proof fn lemma_accumulate_distinct(batch: Seq<Seq<char>>, paths: Seq<Seq<char>>)
    requires
        distinct_paths(batch),
    ensures
        distinct_paths(accumulate_all(batch, paths)),
    decreases paths.len(),
{
    if paths.len() == 0 {
    } else {
        let b1 = add_event(batch, paths[0]);
        assert(distinct_paths(b1)) by {
            if spec_qualifies(paths[0]) && !batch.contains(paths[0]) {
                assert forall|i: int, j: int| 0 <= i < j < b1.len() implies b1[i] != b1[j] by {
                    if j == batch.len() {
                        assert(batch[i] == b1[i]);
                        if batch[i] == paths[0] {
                            assert(batch.contains(paths[0]));
                        }
                    }
                }
            }
        }
        lemma_accumulate_distinct(b1, paths.skip(1));
    }
}

/// A path under an ignored subtree never changes a batch.
pub proof fn lemma_ignored_never_added(batch: Seq<Seq<char>>, p: Seq<char>)
    requires
        crate::paths::spec_is_ignored(p),
    ensures
        add_event(batch, p) == batch,
{
}

/// The batches that the debouncer emits for the timed events `events`, given
/// the open batch `current` and the time `last` of the previous event.
///
/// An event within the quiet period `d` of the previous one joins the open
/// batch; a later one closes it (emitting it when non-empty) and opens a new
/// batch. The last open batch is emitted when non-empty.
pub open spec fn debounce_from(
    events: Seq<(u64, Seq<char>)>,
    d: u64,
    current: Seq<Seq<char>>,
    last: u64,
) -> Seq<Seq<Seq<char>>>
    decreases events.len(),
{
    if events.len() == 0 {
        if current.len() == 0 {
            Seq::empty()
        } else {
            seq![current]
        }
    } else {
        let t = events[0].0;
        let p = events[0].1;
        if t < last + d {
            debounce_from(events.skip(1), d, add_event(current, p), t)
        } else {
            let closed: Seq<Seq<Seq<char>>> = if current.len() == 0 {
                Seq::empty()
            } else {
                seq![current]
            };
            closed + debounce_from(events.skip(1), d, add_event(Seq::empty(), p), t)
        }
    }
}

/// The batches that the debouncer emits for the timed events `events`
/// with quiet period `d`.
pub open spec fn spec_debounce(events: Seq<(u64, Seq<char>)>, d: u64) -> Seq<Seq<Seq<char>>> {
    if events.len() == 0 {
        Seq::empty()
    } else {
        debounce_from(events.skip(1), d, add_event(Seq::empty(), events[0].1), events[0].0)
    }
}

/// Consecutive events are each within the quiet period of the one before.
pub open spec fn closely_spaced(events: Seq<(u64, Seq<char>)>, d: u64) -> bool {
    forall|i: int| 0 <= i < events.len() - 1 ==> (#[trigger] events[i + 1].0) < events[i].0 + d
}

/// Consecutive events are each at or past the quiet period of the one before.
pub open spec fn widely_spaced(events: Seq<(u64, Seq<char>)>, d: u64) -> bool {
    forall|i: int| 0 <= i < events.len() - 1 ==> (#[trigger] events[i + 1].0) >= events[i].0 + d
}

/// Every event's path qualifies.
pub open spec fn all_qualify(events: Seq<(u64, Seq<char>)>) -> bool {
    forall|i: int| 0 <= i < events.len() ==> spec_qualifies((#[trigger] events[i]).1)
}

/// The paths of a sequence of timed events, in order.
pub open spec fn paths_of(events: Seq<(u64, Seq<char>)>) -> Seq<Seq<char>> {
    events.map_values(|e: (u64, Seq<char>)| e.1)
}

proof fn lemma_skip_shift(events: Seq<(u64, Seq<char>)>)
    ensures
        forall|i: int|
            0 <= i < events.len() - 1 ==> #[trigger] events.skip(1)[i] == events[i + 1],
{
}

proof fn lemma_debounce_from_coalesce(
    events: Seq<(u64, Seq<char>)>,
    d: u64,
    current: Seq<Seq<char>>,
    last: u64,
)
    requires
        current.len() > 0,
        closely_spaced(events, d),
        events.len() > 0 ==> events[0].0 < last + d,
    ensures
        debounce_from(events, d, current, last) == seq![accumulate_all(current, paths_of(events))],
    decreases events.len(),
{
    if events.len() == 0 {
        assert(accumulate_all(current, paths_of(events)) == current);
    } else {
        let t = events[0].0;
        let p = events[0].1;
        let next = add_event(current, p);
        assert(next.len() > 0);
        assert(closely_spaced(events.skip(1), d)) by {
            lemma_skip_shift(events);
        }
        lemma_skip_shift(events);
        lemma_debounce_from_coalesce(events.skip(1), d, next, t);
        assert(paths_of(events)[0] == p);
        assert(paths_of(events).skip(1) =~= paths_of(events.skip(1)));
    }
}

/// Debounce correctness, close spacing: any non-empty run of qualifying
/// events, consecutively spaced less than the quiet period apart, yields
/// exactly one batch, and that batch holds exactly the distinct paths of the
/// run, without duplicates.
pub proof fn lemma_debounce_single_batch(events: Seq<(u64, Seq<char>)>, d: u64)
    requires
        events.len() > 0,
        closely_spaced(events, d),
        all_qualify(events),
    ensures
        spec_debounce(events, d).len() == 1,
        distinct_paths(spec_debounce(events, d)[0]),
        forall|x: Seq<char>|
            spec_debounce(events, d)[0].contains(x) <==> paths_of(events).contains(x),
{
    let first = add_event(Seq::empty(), events[0].1);
    assert(spec_qualifies(events[0].1));
    assert(first == seq![events[0].1]);
    assert(closely_spaced(events.skip(1), d)) by {
        lemma_skip_shift(events);
    }
    if events.len() > 1 {
        assert(events[1].0 < events[0].0 + d) by {
            assert(events[(0 + 1) as int].0 < events[0].0 + d);
        }
        assert(events.skip(1)[0] == events[1]);
    }
    lemma_debounce_from_coalesce(events.skip(1), d, first, events[0].0);
    let batch = accumulate_all(first, paths_of(events.skip(1)));
    assert(spec_debounce(events, d) == seq![batch]);
    assert(distinct_paths(first)) by {
        assert(first.len() == 1);
    }
    lemma_accumulate_distinct(first, paths_of(events.skip(1)));
    assert forall|x: Seq<char>| batch.contains(x) <==> paths_of(events).contains(x) by {
        lemma_accumulate_membership(first, paths_of(events.skip(1)), x);
        assert(all_qualify(events.skip(1))) by {
            lemma_skip_shift(events);
        }
        assert(paths_of(events.skip(1)) =~= paths_of(events).skip(1));
        assert(paths_of(events).len() == events.len());
        if first.contains(x) {
            assert(first[0] == x);
            assert(paths_of(events)[0] == x);
        }
        if paths_of(events).contains(x) {
            let i = choose|i: int| 0 <= i < paths_of(events).len() && paths_of(events)[i] == x;
            if i == 0 {
                assert(first[0] == x);
            } else {
                assert(paths_of(events).skip(1)[i - 1] == x);
                assert(spec_qualifies(x)) by {
                    assert(paths_of(events)[i] == events[i].1);
                }
            }
        }
        if paths_of(events.skip(1)).contains(x) {
            let i = choose|i: int|
                0 <= i < paths_of(events.skip(1)).len() && paths_of(events.skip(1))[i] == x;
            assert(paths_of(events).skip(1)[i] == x);
            assert(paths_of(events)[i + 1] == x);
        }
    }
}

proof fn lemma_debounce_from_separate(
    events: Seq<(u64, Seq<char>)>,
    d: u64,
    current: Seq<Seq<char>>,
    last: u64,
)
    requires
        current.len() > 0,
        widely_spaced(events, d),
        all_qualify(events),
        events.len() > 0 ==> events[0].0 >= last + d,
    ensures
        debounce_from(events, d, current, last) == seq![current] + events.map_values(
            |e: (u64, Seq<char>)| seq![e.1],
        ),
    decreases events.len(),
{
    let singles = events.map_values(|e: (u64, Seq<char>)| seq![e.1]);
    if events.len() == 0 {
        assert(debounce_from(events, d, current, last) =~= seq![current] + singles);
    } else {
        let t = events[0].0;
        let p = events[0].1;
        assert(spec_qualifies(p));
        let fresh = add_event(Seq::empty(), p);
        assert(fresh == seq![p]);
        assert(widely_spaced(events.skip(1), d) && all_qualify(events.skip(1))) by {
            lemma_skip_shift(events);
        }
        if events.len() > 1 {
            assert(events[(0 + 1) as int].0 >= events[0].0 + d);
            assert(events.skip(1)[0] == events[1]);
        }
        lemma_debounce_from_separate(events.skip(1), d, fresh, t);
        let tail_singles = events.skip(1).map_values(|e: (u64, Seq<char>)| seq![e.1]);
        assert(debounce_from(events, d, current, last) == seq![current] + (seq![fresh]
            + tail_singles));
        assert(seq![current] + (seq![fresh] + tail_singles) =~= seq![current] + singles) by {
            assert(singles.len() == events.len());
            assert(singles[0] == seq![p]);
            assert(forall|i: int|
                0 <= i < tail_singles.len() ==> tail_singles[i] == seq![events[i + 1].1]
                    && singles[i + 1] == seq![events[i + 1].1]);
        }
    }
}

/// Debounce correctness, wide spacing: qualifying events consecutively spaced
/// at least the quiet period apart yield one singleton batch per event.
pub proof fn lemma_debounce_separate_batches(events: Seq<(u64, Seq<char>)>, d: u64)
    requires
        widely_spaced(events, d),
        all_qualify(events),
    ensures
        spec_debounce(events, d).len() == events.len(),
        forall|i: int|
            0 <= i < events.len() ==> #[trigger] spec_debounce(events, d)[i] == seq![events[i].1],
{
    if events.len() == 0 {
    } else {
        let first = add_event(Seq::empty(), events[0].1);
        assert(spec_qualifies(events[0].1));
        assert(first == seq![events[0].1]);
        assert(widely_spaced(events.skip(1), d) && all_qualify(events.skip(1))) by {
            lemma_skip_shift(events);
        }
        if events.len() > 1 {
            assert(events[(0 + 1) as int].0 >= events[0].0 + d);
            assert(events.skip(1)[0] == events[1]);
        }
        lemma_debounce_from_separate(events.skip(1), d, first, events[0].0);
        let tail_singles = events.skip(1).map_values(|e: (u64, Seq<char>)| seq![e.1]);
        assert(spec_debounce(events, d) == seq![first] + tail_singles);
        assert(forall|i: int|
            0 <= i < tail_singles.len() ==> tail_singles[i] == seq![events[i + 1].1]);
        assert(forall|i: int|
            0 <= i < events.len() ==> #[trigger] spec_debounce(events, d)[i] == seq![events[i].1])
            by {
            assert((seq![first] + tail_singles)[0] == first);
            assert(forall|i: int|
                1 <= i < events.len() ==> (seq![first] + tail_singles)[i] == tail_singles[i - 1]);
        }
    }
}

/// Replay the debouncer over a recorded run of timed events: each pair is the
/// arrival time (any unit) and the path of one event. Returns the emitted
/// batches in order.
pub fn debounce_replay(events: &Vec<(u64, String)>, d: u64) -> (batches: Vec<Vec<String>>)
    ensures
        batches.deep_view() == spec_debounce(events.deep_view(), d),
{
    let ghost all = events.deep_view();
    let mut batches: Vec<Vec<String>> = Vec::new();
    if events.len() == 0 {
        proof {
            assert(batches.deep_view() =~= spec_debounce(all, d));
        }
        return batches;
    }
    let mut current: Vec<String> = Vec::new();
    proof {
        assert(current.deep_view() =~= Seq::<Seq<char>>::empty());
    }
    push_event_path(&mut current, events[0].1.as_str());
    let mut last: u64 = events[0].0;
    let mut i: usize = 1;
    proof {
        assert(all[0] == (events[0].0, events[0].1@));
        assert(batches.deep_view() =~= Seq::<Seq<Seq<char>>>::empty());
        assert(all.skip(1).skip(0) =~= all.skip(1));
        assert(batches.deep_view() + debounce_from(all.skip(1), d, current.deep_view(), last)
            =~= debounce_from(all.skip(1), d, current.deep_view(), last));
    }
    while i < events.len()
        invariant
            1 <= i <= events.len(),
            all == events.deep_view(),
            spec_debounce(all, d) == batches.deep_view() + debounce_from(
                all.skip(i as int),
                d,
                current.deep_view(),
                last,
            ),
        decreases events.len() - i,
    {
        let t = events[i].0;
        proof {
            assert(all.skip(i as int)[0] == all[i as int]);
            assert(all[i as int] == (events[i as int].0, events[i as int].1@));
            assert(all.skip(i as int).skip(1) =~= all.skip(i as int + 1));
        }
        let within = t < last || t - last < d;
        if !within {
            let ghost open_batch = current.deep_view();
            if current.len() > 0 {
                let ghost bs = batches.deep_view();
                batches.push(current);
                current = Vec::new();
                proof {
                    assert(batches.deep_view() =~= bs + seq![open_batch]);
                }
            }
            proof {
                assert(current.deep_view() =~= Seq::<Seq<char>>::empty());
                if open_batch.len() == 0 {
                    assert(batches.deep_view() + (Seq::<Seq<Seq<char>>>::empty()
                        + debounce_from(all.skip(i as int + 1), d, add_event(Seq::empty(), all[i as int].1), t))
                        =~= batches.deep_view() + debounce_from(
                        all.skip(i as int + 1),
                        d,
                        add_event(Seq::empty(), all[i as int].1),
                        t,
                    ));
                } else {
                    assert((batches.deep_view().drop_last()) + (seq![open_batch] + debounce_from(
                        all.skip(i as int + 1),
                        d,
                        add_event(Seq::empty(), all[i as int].1),
                        t,
                    )) =~= batches.deep_view() + debounce_from(
                        all.skip(i as int + 1),
                        d,
                        add_event(Seq::empty(), all[i as int].1),
                        t,
                    ));
                }
            }
            push_event_path(&mut current, events[i].1.as_str());
        } else {
            push_event_path(&mut current, events[i].1.as_str());
        }
        last = t;
        i = i + 1;
    }
    proof {
        assert(all.skip(events.len() as int) =~= Seq::<(u64, Seq<char>)>::empty());
    }
    if current.len() > 0 {
        let ghost bs = batches.deep_view();
        let ghost open_batch = current.deep_view();
        batches.push(current);
        proof {
            assert(batches.deep_view() =~= bs + seq![open_batch]);
        }
    } else {
        proof {
            assert(batches.deep_view() + Seq::<Seq<Seq<char>>>::empty() =~= batches.deep_view());
        }
    }
    batches
}

} // verus!
