//! Turning the changes of one root into filesystem actions for the other.

use vstd::prelude::*;

use crate::action::{is_scheduled, ActionKind, ActionView, SyncAction};
use crate::datatypes::{ChangeType, DiffItem, DiffSet, FileType};
use crate::path::{strictly_under, FsPath, PathKey};
use crate::schedule::{copies_nest_by_depth, is_content_copy, lemma_scheduled_parents_first, parents_first, schedule};

verus! {

/// The models of a sequence of actions.
pub open spec fn actions_view(s: Seq<SyncAction>) -> Seq<ActionView> {
    s.map_values(|a: SyncAction| a@)
}

/// The copying variant for an object of type `t`.
pub open spec fn copy_kind(t: FileType) -> ActionKind {
    match t {
        FileType::Link => ActionKind::CopyLink,
        FileType::Dir => ActionKind::CopyDir,
        FileType::File => ActionKind::CopyFile,
    }
}

/// The actions for one changed path `k`, whose change was seen under
/// `src_root` and is applied under `dest_root`.
pub open spec fn actions_for(
    k: PathKey,
    item: DiffItem,
    src_root: PathKey,
    dest_root: PathKey,
    keep_all: bool,
) -> Seq<ActionView> {
    let s = src_root + k;
    let d = dest_root + k;
    if item.diff == ChangeType::Newer || item.diff == ChangeType::NewOnly || item.diff
        == ChangeType::Modified {
        seq![(copy_kind(item.ftype), s, d), (ActionKind::CopyMeta, s, d)]
    } else if item.diff == ChangeType::RefOnly && !keep_all {
        if item.ftype == FileType::Dir {
            seq![(ActionKind::DeleteDir, Seq::empty(), d)]
        } else {
            seq![(ActionKind::DeleteFile, Seq::empty(), d)]
        }
    } else {
        seq![(copy_kind(item.ftype), d, s), (ActionKind::CopyMeta, d, s)]
    }
}

/// The actions for a sequence of changed paths, in that order.
pub open spec fn plan_model(
    entries: Seq<(PathKey, DiffItem)>,
    src_root: PathKey,
    dest_root: PathKey,
    keep_all: bool,
) -> Seq<ActionView>
    decreases entries.len(),
{
    if entries.len() == 0 {
        Seq::empty()
    } else {
        plan_model(entries.drop_last(), src_root, dest_root, keep_all) + actions_for(
            entries.last().0,
            entries.last().1,
            src_root,
            dest_root,
            keep_all,
        )
    }
}

/// `path` under `root`.
pub fn append_base_path(path: &FsPath, root: &FsPath) -> (r: FsPath)
    ensures
        r@ == root@ + path@,
{
    FsPath::join(root, path)
}

/// The copy of an object of type `ftype` from `src` to `dest`.
fn copy_action(ftype: FileType, src: FsPath, dest: FsPath) -> (r: SyncAction)
    ensures
        r@ == (copy_kind(ftype), src@, dest@),
{
    match ftype {
        FileType::Link => SyncAction::CopyLink { src, dest },
        FileType::Dir => SyncAction::CopyDir { src, dest },
        FileType::File => SyncAction::CopyFile { src, dest },
    }
}

/// Plans the actions that apply the changes `diff`, seen under `path_src`,
/// to `path_dest`. New, newer and modified paths are copied to `path_dest`
/// and older ones back from it, each followed by its metadata; removed paths
/// are deleted from `path_dest`, or, with `keep_all`, copied back from it.
pub fn plan_actions(diff: &DiffSet, path_src: &FsPath, path_dest: &FsPath, keep_all: bool) -> (r:
    Vec<SyncAction>)
    requires
        diff.wf(),
    ensures
        actions_view(r@) == plan_model(diff.entries(), path_src@, path_dest@, keep_all),
{
    let ghost entries = diff.entries();
    let mut actions: Vec<SyncAction> = Vec::new();
    let n = diff.len();
    let mut i: usize = 0;
    assert(entries.subrange(0, 0) =~= Seq::<(PathKey, DiffItem)>::empty());
    assert(actions_view(actions@) =~= Seq::<ActionView>::empty());
    while i < n
        invariant
            diff.wf(),
            entries == diff.entries(),
            n == entries.len(),
            i <= n,
            actions_view(actions@) == plan_model(
                entries.subrange(0, i as int),
                path_src@,
                path_dest@,
                keep_all,
            ),
        decreases n - i,
    {
        let path = diff.key_at(i);
        let item = *diff.value_at(i);
        let ghost before = actions@;
        let src = append_base_path(path, path_src);
        let dest = append_base_path(path, path_dest);
        match item.diff {
            ChangeType::Newer | ChangeType::NewOnly | ChangeType::Modified => {
                let meta = SyncAction::CopyMeta { src: src.duplicate(), dest: dest.duplicate() };
                actions.push(copy_action(item.ftype, src, dest));
                actions.push(meta);
            },
            ChangeType::RefOnly if !keep_all => {
                if item.ftype == FileType::Dir {
                    actions.push(SyncAction::DeleteDir { dest });
                } else {
                    actions.push(SyncAction::DeleteFile { dest });
                }
            },
            _ => {
                let meta = SyncAction::CopyMeta { src: dest.duplicate(), dest: src.duplicate() };
                actions.push(copy_action(item.ftype, dest, src));
                actions.push(meta);
            },
        }
        proof {
            let prefix = entries.subrange(0, i + 1);
            assert(prefix.drop_last() =~= entries.subrange(0, i as int));
            assert(prefix.last() == entries[i as int]);
            assert(actions_view(actions@) =~= actions_view(before) + actions_for(
                path@,
                item,
                path_src@,
                path_dest@,
                keep_all,
            ));
        }
        i = i + 1;
    }
    assert(entries.subrange(0, n as int) =~= entries);
    actions
}

/// Plans the actions that apply `diff`, seen under `path_src`, to
/// `path_dest` (see `plan_actions`), in the order in which they must run.
pub fn sync_diffs(diff: &DiffSet, path_src: &FsPath, path_dest: &FsPath, keep_all: bool) -> (r: Vec<
    SyncAction,
>)
    requires
        diff.wf(),
    ensures
        is_scheduled(r@),
        disjoint_roots(path_src@, path_dest@) ==> parents_first(r@),
        actions_view(r@).to_multiset() == plan_model(
            diff.entries(),
            path_src@,
            path_dest@,
            keep_all,
        ).to_multiset(),
{
    let planned = plan_actions(diff, path_src, path_dest, keep_all);
    let r = schedule(planned);
    proof {
        lemma_same_actions_same_views(r@, planned@);
        if disjoint_roots(path_src@, path_dest@) {
            broadcast use vstd::seq_lib::group_to_multiset_ensures;

            lemma_plan_mirrors(diff.entries(), path_src@, path_dest@, keep_all);
            assert forall|i: int| 0 <= i < r@.len() implies is_mirrored(
                #[trigger] r@[i]@,
                path_src@,
                path_dest@,
            ) by {
                assert(r@.to_multiset().count(r@[i]) > 0);
                assert(planned@.contains(r@[i]));
                let j = choose|j: int| 0 <= j < planned@.len() && planned@[j] == r@[i];
                assert(actions_view(planned@)[j] == r@[i]@);
            }
            lemma_mirrored_copies_nest(r@, path_src@, path_dest@);
            lemma_scheduled_parents_first(r@);
        }
    }
    r
}

/// `a` is a prefix of `b`.
pub open spec fn prefix_of(a: PathKey, b: PathKey) -> bool {
    a.len() <= b.len() && b.subrange(0, a.len() as int) == a
}

/// Neither root lies within the other.
pub open spec fn disjoint_roots(a: PathKey, b: PathKey) -> bool {
    !prefix_of(a, b) && !prefix_of(b, a)
}

/// `a` is a deletion, or goes between the same relative path under the two
/// roots, in either direction.
pub open spec fn is_mirrored(a: ActionView, s: PathKey, d: PathKey) -> bool {
    a.0 == ActionKind::DeleteFile || a.0 == ActionKind::DeleteDir || (a.1.len() >= s.len()
        && a.2.len() >= d.len() && a.1.subrange(0, s.len() as int) == s && a.2.subrange(
        0,
        d.len() as int,
    ) == d && a.1.len() - s.len() == a.2.len() - d.len()) || (a.1.len() >= d.len() && a.2.len()
        >= s.len() && a.1.subrange(0, d.len() as int) == d && a.2.subrange(0, s.len() as int) == s
        && a.1.len() - d.len() == a.2.len() - s.len())
}

/// Every planned action is mirrored between the two roots.
pub proof fn lemma_plan_mirrors(
    entries: Seq<(PathKey, DiffItem)>,
    src_root: PathKey,
    dest_root: PathKey,
    keep_all: bool,
)
    ensures
        forall|i: int|
            0 <= i < plan_model(entries, src_root, dest_root, keep_all).len() ==> is_mirrored(
                #[trigger] plan_model(entries, src_root, dest_root, keep_all)[i],
                src_root,
                dest_root,
            ),
    decreases entries.len(),
{
    if entries.len() > 0 {
        lemma_plan_mirrors(entries.drop_last(), src_root, dest_root, keep_all);
        let k = entries.last().0;
        assert((src_root + k).subrange(0, src_root.len() as int) =~= src_root);
        assert((dest_root + k).subrange(0, dest_root.len() as int) =~= dest_root);
        let prev = plan_model(entries.drop_last(), src_root, dest_root, keep_all);
        let tail = actions_for(k, entries.last().1, src_root, dest_root, keep_all);
        assert forall|i: int| 0 <= i < (prev + tail).len() implies is_mirrored(
            #[trigger] (prev + tail)[i],
            src_root,
            dest_root,
        ) by {
            if i >= prev.len() {
                assert((prev + tail)[i] == tail[i - prev.len()]);
            }
        }
    }
}

/// Copies that are mirrored between two disjoint roots nest by depth.
pub proof fn lemma_mirrored_copies_nest(s: Seq<SyncAction>, src_root: PathKey, dest_root: PathKey)
    requires
        disjoint_roots(src_root, dest_root),
        forall|i: int| 0 <= i < s.len() ==> is_mirrored(#[trigger] s[i]@, src_root, dest_root),
    ensures
        copies_nest_by_depth(s),
{
    assert forall|i: int, j: int|
        0 <= i < s.len() && 0 <= j < s.len() && s[j]@.0 == ActionKind::CopyDir && is_content_copy(
            s[i]@.0,
        ) && strictly_under(#[trigger] s[i]@.2, #[trigger] s[j]@.2) implies s[j]@.1.len()
        < s[i]@.1.len() by {
        let x = s[i]@;
        let d = s[j]@;
        assert(is_mirrored(x, src_root, dest_root));
        assert(is_mirrored(d, src_root, dest_root));
        let xr = if x.2.len() >= dest_root.len() && x.2.subrange(0, dest_root.len() as int)
            == dest_root && x.1.len() - src_root.len() == x.2.len() - dest_root.len() {
            dest_root
        } else {
            src_root
        };
        let dr = if d.2.len() >= dest_root.len() && d.2.subrange(0, dest_root.len() as int)
            == dest_root && d.1.len() - src_root.len() == d.2.len() - dest_root.len() {
            dest_root
        } else {
            src_root
        };
        if xr != dr {
            lemma_prefixes_of_one_path(d.2, x.2, dr, xr);
        }
    }
}

/// Two roots that begin a path and a path under it are one within the other.
proof fn lemma_prefixes_of_one_path(outer: PathKey, inner: PathKey, a: PathKey, b: PathKey)
    requires
        strictly_under(inner, outer),
        a.len() <= outer.len(),
        outer.subrange(0, a.len() as int) == a,
        b.len() <= inner.len(),
        inner.subrange(0, b.len() as int) == b,
    ensures
        prefix_of(a, b) || prefix_of(b, a),
{
    if a.len() <= b.len() {
        assert forall|t: int| 0 <= t < a.len() implies b.subrange(0, a.len() as int)[t] == a[t] by {
            assert(outer.subrange(0, a.len() as int)[t] == outer[t]);
            assert(inner.subrange(0, outer.len() as int)[t] == inner[t]);
            assert(inner.subrange(0, b.len() as int)[t] == inner[t]);
        }
        assert(b.subrange(0, a.len() as int) =~= a);
    } else {
        assert forall|t: int| 0 <= t < b.len() implies a.subrange(0, b.len() as int)[t] == b[t] by {
            assert(outer.subrange(0, a.len() as int)[t] == outer[t]);
            assert(inner.subrange(0, outer.len() as int)[t] == inner[t]);
            assert(inner.subrange(0, b.len() as int)[t] == inner[t]);
        }
        assert(a.subrange(0, b.len() as int) =~= b);
    }
}

/// Two sequences holding the same actions hold the same action models.
pub proof fn lemma_same_actions_same_views(s1: Seq<SyncAction>, s2: Seq<SyncAction>)
    requires
        s1.to_multiset() == s2.to_multiset(),
    ensures
        actions_view(s1).to_multiset() == actions_view(s2).to_multiset(),
    decreases s1.len(),
{
    broadcast use vstd::seq_lib::group_to_multiset_ensures;

    if s1.len() == 0 {
        assert(s2.len() == s2.to_multiset().len());
        assert(s1.len() == s1.to_multiset().len());
        assert(actions_view(s1) =~= actions_view(s2));
    } else {
        let x = s1.last();
        let rest = s1.drop_last();
        assert(s1 =~= rest.push(x));
        assert(s2.to_multiset().count(x) > 0);
        assert(s2.contains(x));
        let i = choose|i: int| 0 <= i < s2.len() && s2[i] == x;
        let s2r = s2.remove(i);
        assert(s2r.to_multiset() =~= rest.to_multiset());
        lemma_same_actions_same_views(rest, s2r);
        assert(actions_view(s2r) =~= actions_view(s2).remove(i));
        assert(actions_view(s1) =~= actions_view(rest).push(x@));
        assert(actions_view(s2).to_multiset() =~= actions_view(s2r).to_multiset().insert(x@));
    }
}

} // verus!
