//! Filesystem actions and the order in which a batch of them runs.

use vstd::prelude::*;

use crate::path::{FsPath, PathKey};

verus! {

/// A filesystem mutation, holding the absolute paths it works on.
#[derive(Debug)]
pub enum SyncAction {
    /// Copy a regular file's contents.
    CopyFile { src: FsPath, dest: FsPath },
    /// Create a directory where the source has one.
    CopyDir { src: FsPath, dest: FsPath },
    /// Recreate a symbolic link with the source's target.
    CopyLink { src: FsPath, dest: FsPath },
    /// Copy permissions and timestamps only.
    CopyMeta { src: FsPath, dest: FsPath },
    DeleteFile { dest: FsPath },
    DeleteDir { dest: FsPath },
}

/// The variant of an action, without its paths.
#[derive(Clone, Copy, Debug, PartialEq, Eq, Structural)]
pub enum ActionKind {
    CopyFile,
    CopyDir,
    CopyLink,
    CopyMeta,
    DeleteFile,
    DeleteDir,
}

impl ActionKind {
    /// The name shown for this variant.
    pub fn label(&self) -> (r: String)
        ensures
            r@ == action_label(*self),
    {
        match self {
            ActionKind::CopyFile => String::from_str("CopyFile"),
            ActionKind::CopyDir => String::from_str("CopyDir"),
            ActionKind::CopyLink => String::from_str("CopyLink"),
            ActionKind::CopyMeta => String::from_str("CopyMeta"),
            ActionKind::DeleteFile => String::from_str("DeleteFile"),
            ActionKind::DeleteDir => String::from_str("DeleteDir"),
        }
    }
}

/// The name shown for an action variant.
pub open spec fn action_label(k: ActionKind) -> Seq<char> {
    match k {
        ActionKind::CopyFile => "CopyFile"@,
        ActionKind::CopyDir => "CopyDir"@,
        ActionKind::CopyLink => "CopyLink"@,
        ActionKind::CopyMeta => "CopyMeta"@,
        ActionKind::DeleteFile => "DeleteFile"@,
        ActionKind::DeleteDir => "DeleteDir"@,
    }
}

/// The model of an action: its variant, its source (empty for deletions)
/// and its destination.
pub type ActionView = (ActionKind, PathKey, PathKey);

impl View for SyncAction {
    type V = ActionView;

    open spec fn view(&self) -> ActionView {
        match self {
            SyncAction::CopyFile { src, dest } => (ActionKind::CopyFile, src@, dest@),
            SyncAction::CopyDir { src, dest } => (ActionKind::CopyDir, src@, dest@),
            SyncAction::CopyLink { src, dest } => (ActionKind::CopyLink, src@, dest@),
            SyncAction::CopyMeta { src, dest } => (ActionKind::CopyMeta, src@, dest@),
            SyncAction::DeleteFile { dest } => (ActionKind::DeleteFile, Seq::empty(), dest@),
            SyncAction::DeleteDir { dest } => (ActionKind::DeleteDir, Seq::empty(), dest@),
        }
    }
}

/// Base priority of each variant: lower runs first.
pub open spec fn kind_prio(k: ActionKind) -> nat {
    match k {
        ActionKind::CopyDir => 1,
        ActionKind::CopyFile => 2,
        ActionKind::CopyLink => 4,
        ActionKind::DeleteFile => 5,
        ActionKind::DeleteDir => 6,
        ActionKind::CopyMeta => 7,
    }
}

/// Tie-break among actions of one variant: copies by ascending source depth,
/// metadata by descending source depth, deletions by descending destination
/// depth.
pub open spec fn depth_key(a: ActionView) -> int {
    match a.0 {
        ActionKind::CopyFile | ActionKind::CopyDir | ActionKind::CopyLink => a.1.len() as int,
        ActionKind::CopyMeta => -(a.1.len() as int),
        _ => -(a.2.len() as int),
    }
}

/// `a` may run before `b`.
pub open spec fn runs_before_or_with(a: ActionView, b: ActionView) -> bool {
    kind_prio(a.0) < kind_prio(b.0) || (kind_prio(a.0) == kind_prio(b.0) && depth_key(a)
        <= depth_key(b))
}

/// How two actions compare in the run order.
pub open spec fn schedule_order(a: ActionView, b: ActionView) -> core::cmp::Ordering {
    if runs_before_or_with(a, b) && runs_before_or_with(b, a) {
        core::cmp::Ordering::Equal
    } else if runs_before_or_with(a, b) {
        core::cmp::Ordering::Less
    } else {
        core::cmp::Ordering::Greater
    }
}

/// Every action may run before or with every later one.
pub open spec fn is_scheduled(s: Seq<SyncAction>) -> bool {
    forall|i: int, j: int| 0 <= i < j < s.len() ==> runs_before_or_with(#[trigger] s[i]@, #[trigger] s[j]@)
}

/// Access to an action's base priority.
pub trait Prio {
    spec fn prio_spec(&self) -> nat;

    fn prio(&self) -> (r: usize)
        ensures
            r == self.prio_spec(),
    ;
}

impl Prio for SyncAction {
    open spec fn prio_spec(&self) -> nat {
        kind_prio(self@.0)
    }

    fn prio(&self) -> (r: usize) {
        match self {
            SyncAction::CopyFile { .. } => 2,
            SyncAction::CopyDir { .. } => 1,
            SyncAction::CopyLink { .. } => 4,
            SyncAction::CopyMeta { .. } => 7,
            SyncAction::DeleteFile { .. } => 5,
            SyncAction::DeleteDir { .. } => 6,
        }
    }
}

impl SyncAction {
    /// The variant of this action.
    pub fn kind(&self) -> (r: ActionKind)
        ensures
            r == self@.0,
    {
        match self {
            SyncAction::CopyFile { .. } => ActionKind::CopyFile,
            SyncAction::CopyDir { .. } => ActionKind::CopyDir,
            SyncAction::CopyLink { .. } => ActionKind::CopyLink,
            SyncAction::CopyMeta { .. } => ActionKind::CopyMeta,
            SyncAction::DeleteFile { .. } => ActionKind::DeleteFile,
            SyncAction::DeleteDir { .. } => ActionKind::DeleteDir,
        }
    }

    /// The source path, for the copying variants.
    pub fn source(&self) -> (r: Option<&FsPath>)
        ensures
            match r {
                Some(p) => p@ == self@.1 && !(self@.0 == ActionKind::DeleteFile || self@.0
                    == ActionKind::DeleteDir),
                None => self@.0 == ActionKind::DeleteFile || self@.0 == ActionKind::DeleteDir,
            },
    {
        match self {
            SyncAction::CopyFile { src, .. } => Some(src),
            SyncAction::CopyDir { src, .. } => Some(src),
            SyncAction::CopyLink { src, .. } => Some(src),
            SyncAction::CopyMeta { src, .. } => Some(src),
            SyncAction::DeleteFile { .. } => None,
            SyncAction::DeleteDir { .. } => None,
        }
    }

    /// The destination path.
    pub fn destination(&self) -> (r: &FsPath)
        ensures
            r@ == self@.2,
    {
        match self {
            SyncAction::CopyFile { dest, .. } => dest,
            SyncAction::CopyDir { dest, .. } => dest,
            SyncAction::CopyLink { dest, .. } => dest,
            SyncAction::CopyMeta { dest, .. } => dest,
            SyncAction::DeleteFile { dest } => dest,
            SyncAction::DeleteDir { dest } => dest,
        }
    }

    /// Whether this action may run before or together with `other`.
    pub fn runs_before_or_with(&self, other: &SyncAction) -> (r: bool)
        ensures
            r == runs_before_or_with(self@, other@),
    {
        let pa = self.prio();
        let pb = other.prio();
        if pa != pb {
            return pa < pb;
        }
        match (self, other) {
            (SyncAction::CopyFile { src: a, .. }, SyncAction::CopyFile { src: b, .. })
            | (SyncAction::CopyDir { src: a, .. }, SyncAction::CopyDir { src: b, .. })
            | (SyncAction::CopyLink { src: a, .. }, SyncAction::CopyLink { src: b, .. }) => {
                a.depth() <= b.depth()
            },
            (SyncAction::CopyMeta { src: a, .. }, SyncAction::CopyMeta { src: b, .. }) => {
                b.depth() <= a.depth()
            },
            _ => {
                let a = self.destination();
                let b = other.destination();
                b.depth() <= a.depth()
            },
        }
    }

    /// How this action compares with `other` in the run order.
    pub fn schedule_cmp(&self, other: &SyncAction) -> (r: core::cmp::Ordering)
        ensures
            r == schedule_order(self@, other@),
    {
        let le = self.runs_before_or_with(other);
        let ge = other.runs_before_or_with(self);
        if le && ge {
            core::cmp::Ordering::Equal
        } else if le {
            core::cmp::Ordering::Less
        } else {
            core::cmp::Ordering::Greater
        }
    }

    /// Whether both actions are the same variant on the same paths.
    pub fn same_as(&self, other: &SyncAction) -> (r: bool)
        ensures
            r == (self@ == other@),
    {
        match (self, other) {
            (SyncAction::CopyFile { src: sa, dest: da }, SyncAction::CopyFile { src: sb, dest: db })
            | (SyncAction::CopyDir { src: sa, dest: da }, SyncAction::CopyDir { src: sb, dest: db })
            | (SyncAction::CopyLink { src: sa, dest: da }, SyncAction::CopyLink { src: sb, dest: db })
            | (SyncAction::CopyMeta { src: sa, dest: da }, SyncAction::CopyMeta { src: sb, dest: db }) => {
                sa.same_as(sb) && da.same_as(db)
            },
            (SyncAction::DeleteFile { dest: da }, SyncAction::DeleteFile { dest: db })
            | (SyncAction::DeleteDir { dest: da }, SyncAction::DeleteDir { dest: db }) => {
                da.same_as(db)
            },
            _ => false,
        }
    }
}

impl PartialEq for SyncAction {
    fn eq(&self, other: &SyncAction) -> (r: bool) {
        self.same_as(other)
    }
}

impl vstd::std_specs::cmp::PartialEqSpecImpl for SyncAction {
    open spec fn obeys_eq_spec() -> bool {
        true
    }

    open spec fn eq_spec(&self, other: &SyncAction) -> bool {
        self@ == other@
    }
}

impl Eq for SyncAction {
}

} // verus!
