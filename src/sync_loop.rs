//! The decisions of the synchronisation loop: how it starts, how it reacts
//! to commands, and what one cycle does with fresh snapshots of both roots.

use vstd::prelude::*;

use crate::action::{is_scheduled, ActionKind, SyncAction};
use crate::datatypes::{DiffItem, DiffSet, DirIndex};
use crate::diff::{compare_dirs, diff_model};
use crate::path::{FsPath, PathKey};
use crate::plan::{actions_view, plan_model, sync_diffs};
use crate::resolve::{resolved_copy, resolved_master, solve_conflicts};

verus! {

/// A message from the controlling side of the loop.
#[derive(Clone, Copy, Debug, PartialEq, Eq, Structural)]
pub enum Command {
    /// Run one final cycle, then stop.
    SyncAndExit,
    /// Run one cycle now and keep going.
    SyncNow,
    /// Stop without another cycle.
    ExitNow,
}

/// What ended one wait of the loop.
#[derive(Clone, Copy, Debug, PartialEq, Eq, Structural)]
pub enum LoopEvent {
    Received(Command),
    /// The interval elapsed with no command.
    Timeout,
    /// The command channel closed.
    Disconnected,
}

/// What the loop does after a wait.
#[derive(Clone, Copy, Debug, PartialEq, Eq, Structural)]
pub enum LoopStep {
    /// Run a cycle, then wait again.
    CycleThenWait,
    /// Run a cycle, then stop.
    CycleThenStop,
    /// Stop now.
    Stop,
}

/// The step that follows an event.
pub open spec fn step_after(e: LoopEvent) -> LoopStep {
    match e {
        LoopEvent::Received(Command::SyncAndExit) => LoopStep::CycleThenStop,
        LoopEvent::Received(Command::SyncNow) => LoopStep::CycleThenWait,
        LoopEvent::Received(Command::ExitNow) => LoopStep::Stop,
        LoopEvent::Timeout => LoopStep::CycleThenWait,
        LoopEvent::Disconnected => LoopStep::Stop,
    }
}

/// Decides what the loop does after `event`.
pub fn next_step(event: LoopEvent) -> (r: LoopStep)
    ensures
        r == step_after(event),
{
    match event {
        LoopEvent::Received(Command::SyncAndExit) => LoopStep::CycleThenStop,
        LoopEvent::Received(Command::SyncNow) => LoopStep::CycleThenWait,
        LoopEvent::Received(Command::ExitNow) => LoopStep::Stop,
        LoopEvent::Timeout => LoopStep::CycleThenWait,
        LoopEvent::Disconnected => LoopStep::Stop,
    }
}

/// How the loop starts: with the persisted snapshots of both roots, or with
/// none, when either could not be loaded.
pub enum Start {
    HaveState(DirIndex, DirIndex),
    NoState,
}

impl Start {
    /// The start that the outcome of loading both persisted snapshots calls
    /// for.
    pub fn from_loaded(a: Option<DirIndex>, b: Option<DirIndex>) -> (r: Start)
        ensures
            (a.is_some() && b.is_some()) <==> r is HaveState,
            r matches Start::HaveState(x, y) ==> a == Some(x) && b == Some(y),
    {
        match (a, b) {
            (Some(x), Some(y)) => Start::HaveState(x, y),
            _ => Start::NoState,
        }
    }
}

/// No action of the sequence deletes anything.
pub open spec fn deletes_nothing(s: Seq<SyncAction>) -> bool {
    forall|i: int|
        0 <= i < s.len() ==> #[trigger] s[i]@.0 != ActionKind::DeleteFile && s[i]@.0
            != ActionKind::DeleteDir
}

/// The work of a first run without persisted state: the differences between
/// the two roots, and the actions that merge them.
pub struct Bootstrap {
    pub diffs: DiffSet,
    pub actions: Vec<SyncAction>,
}

/// Plans the merge of roots `path_a` and `path_b`, from fresh snapshots of
/// both compared with each other: whatever is only on one side, or newer on
/// one side, is copied to the other, and nothing is deleted.
pub fn plan_bootstrap(path_a: &FsPath, path_b: &FsPath, scan_a: &DirIndex, scan_b: &DirIndex) -> (r:
    Bootstrap)
    requires
        scan_a.wf(),
        scan_b.wf(),
    ensures
        r.diffs.wf(),
        r.diffs@ == diff_model(scan_a.contents@, scan_b.contents@),
        is_scheduled(r.actions@),
        actions_view(r.actions@).to_multiset() == plan_model(
            r.diffs.entries(),
            path_a@,
            path_b@,
            true,
        ).to_multiset(),
        deletes_nothing(r.actions@),
{
    let diffs = compare_dirs(scan_a, scan_b);
    let actions = sync_diffs(&diffs, path_a, path_b, true);
    proof {
        lemma_keep_all_deletes_nothing(diffs.entries(), path_a@, path_b@);
        assert forall|i: int| 0 <= i < actions@.len() implies #[trigger] actions@[i]@.0
            != ActionKind::DeleteFile && actions@[i]@.0 != ActionKind::DeleteDir by {
            let v = actions_view(actions@);
            assert(v[i] == actions@[i]@);
            assert(v.to_multiset().count(v[i]) > 0) by {
                broadcast use vstd::seq_lib::group_to_multiset_ensures;

                assert(v.contains(v[i]));
            }
            let p = plan_model(diffs.entries(), path_a@, path_b@, true);
            assert(p.contains(v[i])) by {
                broadcast use vstd::seq_lib::group_to_multiset_ensures;

            }
        }
    }
    Bootstrap { diffs, actions }
}

/// Planning with `keep_all` never deletes.
pub proof fn lemma_keep_all_deletes_nothing(
    entries: Seq<(PathKey, DiffItem)>,
    src_root: PathKey,
    dest_root: PathKey,
)
    ensures
        forall|a|
            plan_model(entries, src_root, dest_root, true).contains(a) ==> a.0
                != ActionKind::DeleteFile && a.0 != ActionKind::DeleteDir,
    decreases entries.len(),
{
    if entries.len() > 0 {
        lemma_keep_all_deletes_nothing(entries.drop_last(), src_root, dest_root);
        let prev = plan_model(entries.drop_last(), src_root, dest_root, true);
        let tail = crate::plan::actions_for(
            entries.last().0,
            entries.last().1,
            src_root,
            dest_root,
            true,
        );
        assert forall|a| (prev + tail).contains(a) implies a.0 != ActionKind::DeleteFile && a.0
            != ActionKind::DeleteDir by {
            let i = choose|i: int| 0 <= i < (prev + tail).len() && (prev + tail)[i] == a;
            if i < prev.len() {
                assert(prev[i] == a);
                assert(prev.contains(a));
            } else {
                assert(tail[i - prev.len()] == a);
                assert(tail.len() == 2);
                assert(tail[1].0 == ActionKind::CopyMeta);
                assert(tail[0].0 != ActionKind::DeleteFile && tail[0].0 != ActionKind::DeleteDir);
            }
        }
    }
}

/// The work of one cycle: the changes of each root since its reference
/// snapshot, after conflict resolution, and the actions that apply each
/// side's changes to the other root.
pub struct CyclePlan {
    pub diff_a: DiffSet,
    pub diff_b: DiffSet,
    /// Applies root A's changes to root B; runs first.
    pub onto_b: Vec<SyncAction>,
    /// Applies root B's changes to root A.
    pub onto_a: Vec<SyncAction>,
}

/// Plans one cycle from the reference snapshots `ref_a`, `ref_b` and fresh
/// snapshots `new_a`, `new_b` of roots `path_a` and `path_b`. Returns `None`
/// when neither root changed: then there is nothing to apply or persist.
pub fn plan_cycle(
    path_a: &FsPath,
    path_b: &FsPath,
    ref_a: &DirIndex,
    ref_b: &DirIndex,
    new_a: &DirIndex,
    new_b: &DirIndex,
) -> (r: Option<CyclePlan>)
    requires
        ref_a.wf(),
        ref_b.wf(),
        new_a.wf(),
        new_b.wf(),
    ensures
        r is None <==> (diff_model(new_a.contents@, ref_a.contents@) == Map::<
            PathKey,
            DiffItem,
        >::empty() && diff_model(new_b.contents@, ref_b.contents@) == Map::<
            PathKey,
            DiffItem,
        >::empty()),
        r matches Some(p) ==> {
            let da = diff_model(new_a.contents@, ref_a.contents@);
            let db = diff_model(new_b.contents@, ref_b.contents@);
            &&& p.diff_a.wf()
            &&& p.diff_b.wf()
            &&& p.diff_a@ == resolved_master(da, db)
            &&& p.diff_b@ == resolved_copy(da, db)
            &&& is_scheduled(p.onto_b@)
            &&& is_scheduled(p.onto_a@)
            &&& actions_view(p.onto_b@).to_multiset() == plan_model(
                p.diff_a.entries(),
                path_a@,
                path_b@,
                false,
            ).to_multiset()
            &&& actions_view(p.onto_a@).to_multiset() == plan_model(
                p.diff_b.entries(),
                path_b@,
                path_a@,
                false,
            ).to_multiset()
        },
{
    let mut diff_a = compare_dirs(new_a, ref_a);
    let mut diff_b = compare_dirs(new_b, ref_b);
    if diff_a.is_empty() && diff_b.is_empty() {
        return None;
    }
    solve_conflicts(&mut diff_a, &mut diff_b);
    let onto_b = sync_diffs(&diff_a, path_a, path_b, false);
    let onto_a = sync_diffs(&diff_b, path_b, path_a, false);
    Some(CyclePlan { diff_a, diff_b, onto_b, onto_a })
}

} // verus!
