//! Comparing a fresh snapshot of a root with its reference snapshot.

use vstd::prelude::*;

use crate::datatypes::{ChangeType, DiffItem, DiffSet, DirIndex, PathData};
use crate::path::PathKey;
use crate::pathmap::PathMap;

verus! {

/// Whether path `k` changed between the reference contents `refm` and the
/// current contents `cur`.
pub open spec fn changed(cur: Map<PathKey, PathData>, refm: Map<PathKey, PathData>, k: PathKey) -> bool {
    if cur.contains_key(k) {
        !refm.contains_key(k) || cur[k] != refm[k]
    } else {
        refm.contains_key(k)
    }
}

/// The change recorded for a path that `changed` reports.
pub open spec fn change_at(cur: Map<PathKey, PathData>, refm: Map<PathKey, PathData>, k: PathKey) -> DiffItem {
    if cur.contains_key(k) {
        let n = cur[k];
        let kind = if !refm.contains_key(k) {
            ChangeType::NewOnly
        } else if n.mtime > refm[k].mtime {
            ChangeType::Newer
        } else if n.mtime < refm[k].mtime {
            ChangeType::Older
        } else {
            ChangeType::Modified
        };
        DiffItem { diff: kind, ftype: n.ftype, mtime: n.mtime }
    } else {
        DiffItem { diff: ChangeType::RefOnly, ftype: refm[k].ftype, mtime: refm[k].mtime }
    }
}

/// The changes from `refm` to `cur`: every changed path, and nothing else.
pub open spec fn diff_model(cur: Map<PathKey, PathData>, refm: Map<PathKey, PathData>) -> Map<
    PathKey,
    DiffItem,
> {
    Map::new(|k: PathKey| changed(cur, refm, k), |k: PathKey| change_at(cur, refm, k))
}

/// Compares the snapshot `dir_new` with the reference snapshot `dir_ref` of
/// the same root.
pub fn compare_dirs(dir_new: &DirIndex, dir_ref: &DirIndex) -> (r: DiffSet)
    requires
        dir_new.wf(),
        dir_ref.wf(),
    ensures
        r.wf(),
        r@ == diff_model(dir_new.contents@, dir_ref.contents@),
{
    let ghost cur = dir_new.contents@;
    let ghost refm = dir_ref.contents@;
    let ghost model = diff_model(cur, refm);
    let mut diffs: DiffSet = PathMap::new();
    let ghost mut seen: Set<PathKey> = Set::empty();
    proof {
        dir_new.contents.lemma_entries();
        dir_ref.contents.lemma_entries();
        assert(diffs@ =~= model.restrict(seen));
    }
    let n = dir_new.contents.len();
    let mut i: usize = 0;
    while i < n
        invariant
            dir_new.wf(),
            dir_ref.wf(),
            cur == dir_new.contents@,
            refm == dir_ref.contents@,
            model == diff_model(cur, refm),
            n == dir_new.contents.entries().len(),
            i <= n,
            diffs.wf(),
            diffs@ == model.restrict(seen),
            seen.subset_of(cur.dom()),
            forall|j: int| 0 <= j < i ==> seen.contains(#[trigger] dir_new.contents.entries()[j].0),
        decreases n - i,
    {
        let path = dir_new.contents.key_at(i);
        let data_new = *dir_new.contents.value_at(i);
        proof {
            dir_new.contents.lemma_entries();
        }
        match dir_ref.contents.get(path) {
            Some(data_ref) => {
                if data_new == *data_ref {
                } else if data_new.mtime > data_ref.mtime {
                    diffs.insert(path.duplicate(), DiffItem::new(ChangeType::Newer, data_new.ftype, data_new.mtime));
                } else if data_new.mtime < data_ref.mtime {
                    diffs.insert(path.duplicate(), DiffItem::new(ChangeType::Older, data_new.ftype, data_new.mtime));
                } else {
                    diffs.insert(path.duplicate(), DiffItem::new(ChangeType::Modified, data_new.ftype, data_new.mtime));
                }
            },
            None => {
                diffs.insert(path.duplicate(), DiffItem::new(ChangeType::NewOnly, data_new.ftype, data_new.mtime));
            },
        }
        proof {
            seen = seen.insert(path@);
            assert(diffs@ =~= model.restrict(seen));
        }
        i = i + 1;
    }
    proof {
        dir_new.contents.lemma_entries();
        assert(seen =~= cur.dom());
    }
    let ghost seen_new = seen;
    let m = dir_ref.contents.len();
    let mut i: usize = 0;
    while i < m
        invariant
            dir_new.wf(),
            dir_ref.wf(),
            cur == dir_new.contents@,
            refm == dir_ref.contents@,
            model == diff_model(cur, refm),
            m == dir_ref.contents.entries().len(),
            i <= m,
            diffs.wf(),
            diffs@ == model.restrict(seen),
            seen_new == cur.dom(),
            seen_new.subset_of(seen),
            seen.subset_of(cur.dom().union(refm.dom())),
            forall|j: int| 0 <= j < i ==> seen.contains(#[trigger] dir_ref.contents.entries()[j].0),
        decreases m - i,
    {
        let path = dir_ref.contents.key_at(i);
        let data_ref = *dir_ref.contents.value_at(i);
        proof {
            dir_ref.contents.lemma_entries();
        }
        match dir_new.contents.get(path) {
            Some(_) => {},
            None => {
                diffs.insert(path.duplicate(), DiffItem::new(ChangeType::RefOnly, data_ref.ftype, data_ref.mtime));
            },
        }
        proof {
            seen = seen.insert(path@);
            assert(diffs@ =~= model.restrict(seen));
        }
        i = i + 1;
    }
    proof {
        dir_ref.contents.lemma_entries();
        assert(seen =~= cur.dom().union(refm.dom()));
        assert(diffs@ =~= model);
    }
    diffs
}

/// Comparing a snapshot's contents with themselves finds no change.
pub proof fn lemma_diff_self_empty(m: Map<PathKey, PathData>)
    ensures
        diff_model(m, m) == Map::<PathKey, DiffItem>::empty(),
{
    assert(diff_model(m, m) =~= Map::<PathKey, DiffItem>::empty());
}

/// A path is added in the comparison of `a` against `b` exactly when it is
/// removed in the comparison of `b` against `a`.
pub proof fn lemma_added_iff_removed(a: Map<PathKey, PathData>, b: Map<PathKey, PathData>)
    ensures
        forall|k: PathKey|
            (#[trigger] diff_model(a, b).contains_key(k) && diff_model(a, b)[k].diff
                == ChangeType::NewOnly) <==> (diff_model(b, a).contains_key(k) && diff_model(
                b,
                a,
            )[k].diff == ChangeType::RefOnly),
        forall|k: PathKey|
            (#[trigger] diff_model(a, b).contains_key(k) && diff_model(a, b)[k].diff
                == ChangeType::RefOnly) <==> (diff_model(b, a).contains_key(k) && diff_model(
                b,
                a,
            )[k].diff == ChangeType::NewOnly),
{
}

} // verus!
