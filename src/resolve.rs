//! Conflict resolution between the changes found on the two roots.

use vstd::prelude::*;

use crate::datatypes::{ChangeType, DiffItem, DiffSet};
use crate::path::PathKey;
use crate::pathmap::PathMap;

verus! {

/// Both changes are about existence or timing without either dominating:
/// each is `Newer` or `Older`, or both are `NewOnly`.
pub open spec fn timing_conflict(m: ChangeType, c: ChangeType) -> bool {
    ((m == ChangeType::Newer || m == ChangeType::Older) && (c == ChangeType::Newer || c
        == ChangeType::Older)) || (m == ChangeType::NewOnly && c == ChangeType::NewOnly)
}

/// Which of the two entries for one path survive resolution, as
/// (master's kept, copy's kept).
pub open spec fn verdict(m: DiffItem, c: DiffItem) -> (bool, bool) {
    if timing_conflict(m.diff, c.diff) {
        if m.mtime >= c.mtime {
            (true, false)
        } else {
            (false, true)
        }
    } else if m.diff == ChangeType::RefOnly && c.diff == ChangeType::RefOnly {
        (false, false)
    } else if (m.diff == ChangeType::Modified && c.diff == ChangeType::Modified) || m.diff
        == ChangeType::Newer {
        (true, false)
    } else if c.diff == ChangeType::Newer {
        (false, true)
    } else {
        (true, true)
    }
}

/// The master's changes that survive resolution against the copy's.
pub open spec fn resolved_master(m: Map<PathKey, DiffItem>, c: Map<PathKey, DiffItem>) -> Map<
    PathKey,
    DiffItem,
> {
    Map::new(
        |k: PathKey| m.contains_key(k) && (!c.contains_key(k) || verdict(m[k], c[k]).0),
        |k: PathKey| m[k],
    )
}

/// The copy's changes that survive resolution against the master's.
pub open spec fn resolved_copy(m: Map<PathKey, DiffItem>, c: Map<PathKey, DiffItem>) -> Map<
    PathKey,
    DiffItem,
> {
    Map::new(
        |k: PathKey| c.contains_key(k) && (!m.contains_key(k) || verdict(m[k], c[k]).1),
        |k: PathKey| c[k],
    )
}

/// Decides which of two changes to the same path survive, as (master's
/// kept, copy's kept).
pub fn resolve_pair(m: &DiffItem, c: &DiffItem) -> (r: (bool, bool))
    ensures
        r == verdict(*m, *c),
{
    match (m.diff, c.diff) {
        (ChangeType::Newer, ChangeType::Newer)
        | (ChangeType::Newer, ChangeType::Older)
        | (ChangeType::Older, ChangeType::Newer)
        | (ChangeType::Older, ChangeType::Older)
        | (ChangeType::NewOnly, ChangeType::NewOnly) => {
            if m.mtime >= c.mtime {
                (true, false)
            } else {
                (false, true)
            }
        },
        (ChangeType::RefOnly, ChangeType::RefOnly) => (false, false),
        (ChangeType::Modified, ChangeType::Modified) | (ChangeType::Newer, _) => (true, false),
        (_, ChangeType::Newer) => (false, true),
        _ => (true, true),
    }
}

/// The keys of the first `i` entries.
pub open spec fn keys_before<V>(entries: Seq<(PathKey, V)>, i: int) -> Set<PathKey> {
    Set::new(|k: PathKey| exists|j: int| 0 <= j < i && #[trigger] entries[j].0 == k)
}

/// Resolves the changes found on the master root against those found on the
/// copy root, dropping from each side the entries that must not be applied
/// to the other side.
pub fn solve_conflicts(diff_master: &mut DiffSet, diff_copy: &mut DiffSet)
    requires
        old(diff_master).wf(),
        old(diff_copy).wf(),
    ensures
        final(diff_master).wf(),
        final(diff_copy).wf(),
        final(diff_master)@ == resolved_master(old(diff_master)@, old(diff_copy)@),
        final(diff_copy)@ == resolved_copy(old(diff_master)@, old(diff_copy)@),
{
    let ghost m = diff_master@;
    let ghost c = diff_copy@;
    let ghost entries = diff_master.entries();
    let mut kept: DiffSet = PathMap::new();
    proof {
        diff_master.lemma_entries();
        assert(kept@ =~= resolved_master(m, c).restrict(keys_before(entries, 0)));
        assert(diff_copy@ =~= Map::new(
            |k: PathKey|
                c.contains_key(k) && (!keys_before(entries, 0).contains(k) || !m.contains_key(k)
                    || verdict(m[k], c[k]).1),
            |k: PathKey| c[k],
        ));
    }
    let n = diff_master.len();
    let mut i: usize = 0;
    while i < n
        invariant
            diff_master.wf(),
            diff_master@ == m,
            diff_master.entries() == entries,
            n == entries.len(),
            i <= n,
            kept.wf(),
            diff_copy.wf(),
            kept@ == resolved_master(m, c).restrict(keys_before(entries, i as int)),
            diff_copy@ == Map::new(
                |k: PathKey|
                    c.contains_key(k) && (!keys_before(entries, i as int).contains(k)
                        || !m.contains_key(k) || verdict(m[k], c[k]).1),
                |k: PathKey| c[k],
            ),
        decreases n - i,
    {
        proof {
            diff_master.lemma_entries();
        }
        let path = diff_master.key_at(i);
        let item = *diff_master.value_at(i);
        let ghost k = path@;
        assert(!keys_before(entries, i as int).contains(k)) by {
            if keys_before(entries, i as int).contains(k) {
                let j = choose|j: int| 0 <= j < i && #[trigger] entries[j].0 == k;
                assert(entries[j].0 != entries[i as int].0);
            }
        }
        assert(keys_before(entries, i + 1) =~= keys_before(entries, i as int).insert(k)) by {
            assert forall|k2: PathKey| keys_before(entries, i + 1).contains(k2) implies keys_before(
                entries,
                i as int,
            ).contains(k2) || k2 == k by {
                let j = choose|j: int| 0 <= j < i + 1 && #[trigger] entries[j].0 == k2;
                if j < i {
                    assert(keys_before(entries, i as int).contains(k2));
                }
            }
            assert(entries[i as int].0 == k);
        }
        let mut keep_master = true;
        match diff_copy.get(path) {
            Some(copy_item) => {
                let c_item = *copy_item;
                let (km, kc) = resolve_pair(&item, &c_item);
                keep_master = km;
                if !kc {
                    diff_copy.remove(path);
                }
            },
            None => {},
        }
        if keep_master {
            kept.insert(path.duplicate(), item);
        }
        proof {
            let s = keys_before(entries, i + 1);
            assert(kept@ =~= resolved_master(m, c).restrict(s));
            assert(diff_copy@ =~= Map::new(
                |k2: PathKey|
                    c.contains_key(k2) && (!s.contains(k2) || !m.contains_key(k2) || verdict(
                        m[k2],
                        c[k2],
                    ).1),
                |k2: PathKey| c[k2],
            ));
        }
        i = i + 1;
    }
    proof {
        diff_master.lemma_entries();
        let s = keys_before(entries, n as int);
        assert(s =~= m.dom()) by {
            assert forall|k: PathKey| m.contains_key(k) implies s.contains(k) by {
                let j = choose|j: int| 0 <= j < entries.len() && entries[j].0 == k;
                assert(entries[j].0 == k);
            }
        }
        assert(kept@ =~= resolved_master(m, c));
        assert(diff_copy@ =~= resolved_copy(m, c));
    }
    *diff_master = kept;
}

/// Resolving a second time changes nothing.
pub proof fn lemma_resolve_idempotent(m: Map<PathKey, DiffItem>, c: Map<PathKey, DiffItem>)
    ensures
        resolved_master(resolved_master(m, c), resolved_copy(m, c)) == resolved_master(m, c),
        resolved_copy(resolved_master(m, c), resolved_copy(m, c)) == resolved_copy(m, c),
{
    let m1 = resolved_master(m, c);
    let c1 = resolved_copy(m, c);
    assert(resolved_master(m1, c1) =~= m1);
    assert(resolved_copy(m1, c1) =~= c1);
}

} // verus!
