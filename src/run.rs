//! The filesystem steps that carry out one action.

use vstd::prelude::*;

use crate::action::{ActionKind, SyncAction};
use crate::path::{FsPath, PathKey};

verus! {

/// What is known of an action's destination just before it runs.
#[derive(Clone, Copy, Debug, PartialEq, Eq, Structural)]
pub struct DestState {
    /// The destination's metadata can be read, following links.
    pub exists: bool,
    /// The destination's own metadata can be read, not following links.
    pub link_exists: bool,
    /// The destination exists and is marked read-only.
    pub readonly: bool,
}

/// One filesystem operation.
#[derive(Clone, Copy, Debug, PartialEq, Eq, Structural)]
pub enum StepKind {
    /// Clear the read-only mark of `dest`.
    MakeWritable,
    /// Copy the contents of file `src` over `dest`.
    CopyContents,
    /// Create directory `dest`.
    CreateDir,
    /// Give `dest` the permissions of `src`.
    CopyPermissions,
    /// Give `dest` the access and modification times of `src`.
    CopyTimes,
    /// Create at `dest` a symbolic link with the target of link `src`.
    CopyLinkTarget,
    /// Remove file or link `dest`.
    RemoveFile,
    /// Remove empty directory `dest`.
    RemoveDir,
}

/// A filesystem operation with its paths; `src` is empty where the
/// operation has no source.
#[derive(Debug)]
pub struct FsStep {
    pub kind: StepKind,
    pub src: FsPath,
    pub dest: FsPath,
}

/// The model of a step: its operation, source and destination.
pub type StepView = (StepKind, PathKey, PathKey);

impl View for FsStep {
    type V = StepView;

    open spec fn view(&self) -> StepView {
        (self.kind, self.src@, self.dest@)
    }
}

/// The models of a sequence of steps.
pub open spec fn steps_view(s: Seq<FsStep>) -> Seq<StepView> {
    s.map_values(|x: FsStep| x@)
}

/// The steps that carry out action `a` on a destination in state `d`.
/// Read-only destinations are made writable before they are overwritten or
/// removed; an existing link is removed before it is recreated.
pub open spec fn steps_of(a: (ActionKind, PathKey, PathKey), d: DestState) -> Seq<StepView> {
    let (k, s, t) = a;
    let none = Seq::<Seq<char>>::empty();
    let unlock = if d.readonly {
        seq![(StepKind::MakeWritable, none, t)]
    } else {
        Seq::empty()
    };
    match k {
        ActionKind::CopyFile => unlock.push((StepKind::CopyContents, s, t)),
        ActionKind::CopyDir => if d.exists {
            Seq::empty()
        } else {
            seq![(StepKind::CreateDir, none, t)]
        },
        ActionKind::CopyLink => if d.link_exists {
            seq![(StepKind::RemoveFile, none, t), (StepKind::CopyLinkTarget, s, t)]
        } else {
            seq![(StepKind::CopyLinkTarget, s, t)]
        },
        ActionKind::CopyMeta => seq![(StepKind::CopyPermissions, s, t), (StepKind::CopyTimes, s, t)],
        ActionKind::DeleteFile => unlock.push((StepKind::RemoveFile, none, t)),
        ActionKind::DeleteDir => unlock.push((StepKind::RemoveDir, none, t)),
    }
}

/// Carrying out an action as filesystem steps.
pub trait RunAction: View<V = (ActionKind, PathKey, PathKey)> {
    /// The steps, in order, that carry out this action on a destination in
    /// state `dest`. Running stops at the first step that fails.
    fn run_steps(&self, dest: &DestState) -> (r: Vec<FsStep>)
        ensures
            steps_view(r@) == steps_of(self@, *dest),
    ;
}

fn step(kind: StepKind, src: FsPath, dest: FsPath) -> (r: FsStep)
    ensures
        r@ == (kind, src@, dest@),
{
    FsStep { kind, src, dest }
}

impl RunAction for SyncAction {
    fn run_steps(&self, dest: &DestState) -> (r: Vec<FsStep>) {
        let mut r: Vec<FsStep> = Vec::new();
        let ghost a = self@;
        let t = self.destination();
        match self {
            SyncAction::CopyFile { src, .. } => {
                if dest.readonly {
                    r.push(step(StepKind::MakeWritable, FsPath::empty(), t.duplicate()));
                }
                r.push(step(StepKind::CopyContents, src.duplicate(), t.duplicate()));
            },
            SyncAction::CopyDir { .. } => {
                if !dest.exists {
                    r.push(step(StepKind::CreateDir, FsPath::empty(), t.duplicate()));
                }
            },
            SyncAction::CopyLink { src, .. } => {
                if dest.link_exists {
                    r.push(step(StepKind::RemoveFile, FsPath::empty(), t.duplicate()));
                }
                r.push(step(StepKind::CopyLinkTarget, src.duplicate(), t.duplicate()));
            },
            SyncAction::CopyMeta { src, .. } => {
                r.push(step(StepKind::CopyPermissions, src.duplicate(), t.duplicate()));
                r.push(step(StepKind::CopyTimes, src.duplicate(), t.duplicate()));
            },
            SyncAction::DeleteFile { .. } => {
                if dest.readonly {
                    r.push(step(StepKind::MakeWritable, FsPath::empty(), t.duplicate()));
                }
                r.push(step(StepKind::RemoveFile, FsPath::empty(), t.duplicate()));
            },
            SyncAction::DeleteDir { .. } => {
                if dest.readonly {
                    r.push(step(StepKind::MakeWritable, FsPath::empty(), t.duplicate()));
                }
                r.push(step(StepKind::RemoveDir, FsPath::empty(), t.duplicate()));
            },
        }
        assert(steps_view(r@) =~= steps_of(a, *dest));
        r
    }
}

} // verus!
