//! The coordination rules of the two sync loops: the lock discipline that
//! keeps the external tool from running twice at once, the loops' state
//! machines, and what each cycle reports.
//!
//! The loops themselves wait on timers, the watcher and the subprocess; those
//! waits happen outside the library, which decides every step from plain
//! values.

use vstd::prelude::*;
use vstd::string::{StrSliceExecFns, StringExecFns};
use crate::digits::{dec_digits, u64_to_string};
use crate::events::SyncEvent;
use crate::snapshot::{detect_conflicts, spec_conflicts, MtimeSnapshot};

verus! {

/// One of the two sync directions.
#[derive(Clone, Copy, Debug, PartialEq, Eq, Structural)]
pub enum Side {
    Push,
    Pull,
}

/// The shared coordination state: who holds the sync lock, and which
/// invocations of the external tool are in flight.
pub struct Coordinator {
    lock: Option<Side>,
    push_running: bool,
    pull_running: bool,
}

impl Coordinator {
    /// Who holds the sync lock.
    pub closed spec fn lock_holder(&self) -> Option<Side> {
        self.lock
    }

    /// Whether a push invocation of the external tool is in flight.
    pub closed spec fn push_running(&self) -> bool {
        self.push_running
    }

    /// Whether a pull invocation of the external tool is in flight.
    pub closed spec fn pull_running(&self) -> bool {
        self.pull_running
    }

    /// The lock discipline: the external tool only runs on behalf of the
    /// side that holds the sync lock.
    pub open spec fn inv(&self) -> bool {
        &&& (self.push_running() ==> self.lock_holder() == Some(Side::Push))
        &&& (self.pull_running() ==> self.lock_holder() == Some(Side::Pull))
    }

    /// The initial state: lock free, nothing running.
    pub fn new() -> (c: Coordinator)
        ensures
            c.inv(),
            c.lock_holder() is None,
            !c.push_running(),
            !c.pull_running(),
    {
        Coordinator { lock: None, push_running: false, pull_running: false }
    }

    /// Take the sync lock for one side. Only possible while it is free; a
    /// caller finding it held waits, which happens outside the library.
    pub fn acquire(&mut self, side: Side)
        requires
            old(self).inv(),
            old(self).lock_holder() is None,
        ensures
            final(self).inv(),
            final(self).lock_holder() == Some(side),
            final(self).push_running() == old(self).push_running(),
            final(self).pull_running() == old(self).pull_running(),
    {
        self.lock = Some(side);
    }

    /// Start the external tool on behalf of `side`, which must hold the lock.
    pub fn start_tool(&mut self, side: Side)
        requires
            old(self).inv(),
            old(self).lock_holder() == Some(side),
        ensures
            final(self).inv(),
            final(self).lock_holder() == Some(side),
            side == Side::Push ==> final(self).push_running() && final(self).pull_running() == old(
                self,
            ).pull_running(),
            side == Side::Pull ==> final(self).pull_running() && final(self).push_running() == old(
                self,
            ).push_running(),
    {
        match side {
            Side::Push => {
                self.push_running = true;
            },
            Side::Pull => {
                self.pull_running = true;
            },
        }
    }

    /// The external tool exited for `side`.
    pub fn finish_tool(&mut self, side: Side)
        requires
            old(self).inv(),
        ensures
            final(self).inv(),
            final(self).lock_holder() == old(self).lock_holder(),
            side == Side::Push ==> !final(self).push_running() && final(self).pull_running() == old(
                self,
            ).pull_running(),
            side == Side::Pull ==> !final(self).pull_running() && final(self).push_running() == old(
                self,
            ).push_running(),
    {
        match side {
            Side::Push => {
                self.push_running = false;
            },
            Side::Pull => {
                self.pull_running = false;
            },
        }
    }

    /// Release the sync lock. The holder must have collected its tool first.
    pub fn release(&mut self, side: Side)
        requires
            old(self).inv(),
            old(self).lock_holder() == Some(side),
            !old(self).push_running(),
            !old(self).pull_running(),
        ensures
            final(self).inv(),
            final(self).lock_holder() is None,
            !final(self).push_running(),
            !final(self).pull_running(),
    {
        self.lock = None;
    }
}

/// Mutual exclusion: under the lock discipline, the external tool is never
/// in flight for both directions at once.
pub proof fn lemma_mutual_exclusion(c: &Coordinator)
    requires
        c.inv(),
    ensures
        !(c.push_running() && c.pull_running()),
{
}

/// Where the push loop stands.
#[derive(Clone, Copy, Debug, PartialEq, Eq, Structural)]
pub enum PushPhase {
    Idle,
    Accumulating,
    Syncing,
}

/// What the push loop just observed.
#[derive(Clone, Copy, Debug, PartialEq, Eq, Structural)]
pub enum PushInput {
    QualifyingEvent,
    QuietElapsed { batch_empty: bool },
    SyncFinished,
}

/// The push loop's state machine: a qualifying event starts accumulation;
/// a quiet period ends it, into a sync when the batch is non-empty and back
/// to idle when it is empty; the tool's exit returns to idle. Anything else
/// leaves the phase unchanged.
pub open spec fn spec_push_next(p: PushPhase, ev: PushInput) -> PushPhase {
    match (p, ev) {
        (PushPhase::Idle, PushInput::QualifyingEvent) => PushPhase::Accumulating,
        (PushPhase::Accumulating, PushInput::QuietElapsed { batch_empty }) => if batch_empty {
            PushPhase::Idle
        } else {
            PushPhase::Syncing
        },
        (PushPhase::Syncing, PushInput::SyncFinished) => PushPhase::Idle,
        _ => p,
    }
}

/// Advance the push loop's phase on one observation.
pub fn push_next(p: PushPhase, ev: PushInput) -> (r: PushPhase)
    ensures
        r == spec_push_next(p, ev),
{
    match (p, ev) {
        (PushPhase::Idle, PushInput::QualifyingEvent) => PushPhase::Accumulating,
        (PushPhase::Accumulating, PushInput::QuietElapsed { batch_empty }) => if batch_empty {
            PushPhase::Idle
        } else {
            PushPhase::Syncing
        },
        (PushPhase::Syncing, PushInput::SyncFinished) => PushPhase::Idle,
        _ => p,
    }
}

/// Where the pull loop stands.
#[derive(Clone, Copy, Debug, PartialEq, Eq, Structural)]
pub enum PullPhase {
    Sleeping,
    Snapshotting,
    BackingUp,
    Syncing,
    Reconciling,
}

/// What the pull loop just observed.
#[derive(Clone, Copy, Debug, PartialEq, Eq, Structural)]
pub enum PullInput {
    IntervalElapsed,
    SnapshotTaken,
    BackupDone { tracked_tree: bool },
    SyncDone { success: bool },
    ReconcileDone,
}

/// The pull loop's state machine: each interval it snapshots, backs up
/// (skipping the cycle when there is no tracked tree yet), syncs under the
/// lock (skipping reconciliation when the tool failed), reconciles, and
/// sleeps again. Anything else leaves the phase unchanged.
pub open spec fn spec_pull_next(p: PullPhase, ev: PullInput) -> PullPhase {
    match (p, ev) {
        (PullPhase::Sleeping, PullInput::IntervalElapsed) => PullPhase::Snapshotting,
        (PullPhase::Snapshotting, PullInput::SnapshotTaken) => PullPhase::BackingUp,
        (PullPhase::BackingUp, PullInput::BackupDone { tracked_tree }) => if tracked_tree {
            PullPhase::Syncing
        } else {
            PullPhase::Sleeping
        },
        (PullPhase::Syncing, PullInput::SyncDone { success }) => if success {
            PullPhase::Reconciling
        } else {
            PullPhase::Sleeping
        },
        (PullPhase::Reconciling, PullInput::ReconcileDone) => PullPhase::Sleeping,
        _ => p,
    }
}

/// Advance the pull loop's phase on one observation.
pub fn pull_next(p: PullPhase, ev: PullInput) -> (r: PullPhase)
    ensures
        r == spec_pull_next(p, ev),
{
    match (p, ev) {
        (PullPhase::Sleeping, PullInput::IntervalElapsed) => PullPhase::Snapshotting,
        (PullPhase::Snapshotting, PullInput::SnapshotTaken) => PullPhase::BackingUp,
        (PullPhase::BackingUp, PullInput::BackupDone { tracked_tree }) => if tracked_tree {
            PullPhase::Syncing
        } else {
            PullPhase::Sleeping
        },
        (PullPhase::Syncing, PullInput::SyncDone { success }) => if success {
            PullPhase::Reconciling
        } else {
            PullPhase::Sleeping
        },
        (PullPhase::Reconciling, PullInput::ReconcileDone) => PullPhase::Sleeping,
        _ => p,
    }
}

/// What the push sync reports: the tool's combined output on success, a
/// prefixed failure message otherwise.
pub open spec fn spec_sync_outcome(success: bool, stdout: Seq<char>, stderr: Seq<char>) -> Result<
    Seq<char>,
    Seq<char>,
> {
    if success {
        Ok(stdout + stderr)
    } else {
        Err("rbxsync sync failed: "@ + stdout + stderr)
    }
}

/// Interpret the push tool's exit: `Ok` with its combined output on a zero
/// exit status, `Err` with a prefixed message otherwise.
pub fn sync_outcome(success: bool, stdout: &str, stderr: &str) -> (r: Result<String, String>)
    ensures
        match r {
            Ok(out) => spec_sync_outcome(success, stdout@, stderr@) == Ok::<Seq<char>, Seq<char>>(
                out@,
            ),
            Err(msg) => spec_sync_outcome(success, stdout@, stderr@) == Err::<Seq<char>, Seq<char>>(
                msg@,
            ),
        },
{
    if success {
        let mut out = stdout.to_owned();
        out.append(stderr);
        Ok(out)
    } else {
        let mut msg = "rbxsync sync failed: ".to_owned();
        msg.append(stdout);
        msg.append(stderr);
        Err(msg)
    }
}

/// The note appended when protected script files had to be put back.
pub open spec fn spec_restore_note(restored: u32) -> Seq<char> {
    if restored > 0 {
        "\n(Roxlit: restored "@ + dec_digits(restored as nat)
            + " .luau file(s) — Rojo owns scripts)"@
    } else {
        Seq::empty()
    }
}

/// What the pull extract reports: on success the tool's combined output plus
/// a note when script files were restored; on failure a prefixed message.
pub open spec fn spec_extract_outcome(
    success: bool,
    stdout: Seq<char>,
    stderr: Seq<char>,
    restored: u32,
) -> Result<Seq<char>, Seq<char>> {
    if success {
        Ok(stdout + stderr + spec_restore_note(restored))
    } else {
        Err("rbxsync extract failed: "@ + stdout + stderr)
    }
}

/// Interpret the pull tool's exit, given how many protected script files
/// were restored afterwards.
pub fn extract_outcome(success: bool, stdout: &str, stderr: &str, restored: u32) -> (r: Result<
    String,
    String,
>)
    ensures
        match r {
            Ok(out) => spec_extract_outcome(success, stdout@, stderr@, restored) == Ok::<
                Seq<char>,
                Seq<char>,
            >(out@),
            Err(msg) => spec_extract_outcome(success, stdout@, stderr@, restored) == Err::<
                Seq<char>,
                Seq<char>,
            >(msg@),
        },
{
    if success {
        let mut out = stdout.to_owned();
        out.append(stderr);
        if restored > 0 {
            out.append("\n(Roxlit: restored ");
            let n = u64_to_string(restored as u64);
            out.append(n.as_str());
            out.append(" .luau file(s) — Rojo owns scripts)");
            proof {
                assert(out@ =~= stdout@ + stderr@ + spec_restore_note(restored));
            }
        } else {
            proof {
                assert(out@ =~= stdout@ + stderr@ + spec_restore_note(restored));
            }
        }
        Ok(out)
    } else {
        let mut msg = "rbxsync extract failed: ".to_owned();
        msg.append(stdout);
        msg.append(stderr);
        Err(msg)
    }
}

/// Whether a protected script file must be put back: its content now differs
/// from the snapshot taken before the extract. A file that could not be read
/// back is left alone.
pub fn needs_restore(original: &Vec<u8>, current: Option<&Vec<u8>>) -> (r: bool)
    ensures
        match current {
            Some(c) => r == (c@ != original@),
            None => r == false,
        },
{
    match current {
        None => false,
        Some(c) => {
            if c.len() != original.len() {
                return true;
            }
            let n = c.len();
            let mut i: usize = 0;
            while i < n
                invariant
                    current == Some(c),
                    n == c@.len() == original@.len(),
                    0 <= i <= n,
                    forall|k: int| 0 <= k < i ==> c@[k] == original@[k],
                decreases n - i,
            {
                if c[i] != original[i] {
                    proof {
                        assert(c@ != original@) by {
                            assert(c@[i as int] != original@[i as int]);
                        }
                    }
                    return true;
                }
                i = i + 1;
            }
            proof {
                assert(c@ =~= original@);
            }
            false
        },
    }
}

/// `ev` announces that `p` changed.
pub open spec fn is_file_changed_event(ev: SyncEvent, p: Seq<char>) -> bool {
    match ev {
        SyncEvent::FileChanged { path } => path@ == p,
        _ => false,
    }
}

/// `ev` reports a conflict on `p`, recoverable from the backup at `b`.
pub open spec fn is_conflict_event(ev: SyncEvent, p: Seq<char>, b: Seq<char>) -> bool {
    match ev {
        SyncEvent::Conflict { path, backup_path } => path@ == p && backup_path@ == b,
        _ => false,
    }
}

/// One `FileChanged` event per batch path, in batch order.
pub fn file_changed_events(paths: &Vec<String>) -> (r: Vec<SyncEvent>)
    ensures
        r@.len() == paths@.len(),
        forall|i: int|
            0 <= i < r@.len() ==> is_file_changed_event(#[trigger] r@[i], paths.deep_view()[i]),
{
    let mut r: Vec<SyncEvent> = Vec::new();
    let n = paths.len();
    let mut i: usize = 0;
    while i < n
        invariant
            n == paths@.len(),
            0 <= i <= n,
            r@.len() == i,
            forall|k: int|
                0 <= k < i ==> is_file_changed_event(#[trigger] r@[k], paths.deep_view()[k]),
        decreases n - i,
    {
        proof {
            assert(paths@[i as int]@ == paths.deep_view()[i as int]);
        }
        r.push(SyncEvent::FileChanged { path: paths[i].clone() });
        i = i + 1;
    }
    r
}

/// The conflict events of one pull cycle: none without a prior successful
/// push; otherwise one `Conflict` event per conflicting path of the two
/// snapshots, in post-snapshot order, each naming the backup just taken.
pub fn reconcile_events(
    pre: &MtimeSnapshot,
    post: &MtimeSnapshot,
    last_push: Option<u64>,
    backup_path: &str,
) -> (r: Vec<SyncEvent>)
    requires
        pre.wf(),
        post.wf(),
    ensures
        match last_push {
            None => r@.len() == 0,
            Some(lp) => {
                let cs = spec_conflicts(pre@, post@, lp);
                r@.len() == cs.len() && forall|i: int|
                    0 <= i < cs.len() ==> is_conflict_event(#[trigger] r@[i], cs[i], backup_path@)
            },
        },
{
    let lp = match last_push {
        None => {
            return Vec::new();
        },
        Some(lp) => lp,
    };
    let conflicts = detect_conflicts(pre, post, lp);
    let ghost cs = spec_conflicts(pre@, post@, lp);
    let mut r: Vec<SyncEvent> = Vec::new();
    let n = conflicts.len();
    let mut i: usize = 0;
    while i < n
        invariant
            n == conflicts@.len(),
            conflicts.deep_view() == cs,
            0 <= i <= n,
            r@.len() == i,
            forall|k: int| 0 <= k < i ==> is_conflict_event(#[trigger] r@[k], cs[k], backup_path@),
        decreases n - i,
    {
        proof {
            assert(conflicts@[i as int]@ == conflicts.deep_view()[i as int]);
        }
        r.push(
            SyncEvent::Conflict { path: conflicts[i].clone(), backup_path: backup_path.to_owned() },
        );
        i = i + 1;
    }
    proof {
        assert(cs.len() == conflicts@.len());
    }
    r
}

} // verus!
