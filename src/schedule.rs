//! Ordering a batch of actions so that parents are created before their
//! children and removed after them.

use vstd::prelude::*;
use vstd::multiset::Multiset;
use vstd::seq_lib::lemma_multiset_commutative;

use crate::action::{is_scheduled, runs_before_or_with, ActionKind, SyncAction};
use crate::path::strictly_under;

verus! {

broadcast use vstd::seq_lib::group_to_multiset_ensures;

/// The elements of `v` in reverse order.
fn reversed<T>(v: Vec<T>) -> (r: Vec<T>)
    ensures
        r@ == v@.reverse(),
{
    let mut v = v;
    let ghost orig = v@;
    let mut r: Vec<T> = Vec::new();
    while v.len() > 0
        invariant
            v@.len() <= orig.len(),
            v@ == orig.subrange(0, v@.len() as int),
            r@ == orig.subrange(v@.len() as int, orig.len() as int).reverse(),
        decreases v@.len(),
    {
        let ghost n = v@.len();
        match v.pop() {
            Some(x) => {
                r.push(x);
                assert(r@ =~= orig.subrange(n - 1, orig.len() as int).reverse());
                assert(v@ =~= orig.subrange(0, n - 1));
            },
            None => {},
        }
    }
    assert(orig.subrange(0, orig.len() as int) =~= orig);
    r
}

/// The elements of two scheduled batches, as one scheduled batch; on ties
/// the elements of `a` come first.
fn merge(a: Vec<SyncAction>, b: Vec<SyncAction>) -> (r: Vec<SyncAction>)
    requires
        is_scheduled(a@),
        is_scheduled(b@),
    ensures
        is_scheduled(r@),
        r@.to_multiset() == a@.to_multiset().add(b@.to_multiset()),
{
    let mut ra = reversed(a);
    let mut rb = reversed(b);
    let ghost total = a@.to_multiset().add(b@.to_multiset());
    proof {
        a@.lemma_reverse_to_multiset();
        b@.lemma_reverse_to_multiset();
    }
    let mut out: Vec<SyncAction> = Vec::new();
    assert(out@.to_multiset() =~= Multiset::empty());
    while ra.len() > 0 || rb.len() > 0
        invariant
            out@.to_multiset().add(ra@.to_multiset()).add(rb@.to_multiset()) == total,
            is_scheduled(out@),
            forall|i: int, j: int|
                0 <= i < j < ra@.len() ==> runs_before_or_with(#[trigger] ra@[j]@, #[trigger] ra@[i]@),
            forall|i: int, j: int|
                0 <= i < j < rb@.len() ==> runs_before_or_with(#[trigger] rb@[j]@, #[trigger] rb@[i]@),
            forall|i: int, j: int|
                0 <= i < out@.len() && 0 <= j < ra@.len() ==> runs_before_or_with(
                    #[trigger] out@[i]@,
                    #[trigger] ra@[j]@,
                ),
            forall|i: int, j: int|
                0 <= i < out@.len() && 0 <= j < rb@.len() ==> runs_before_or_with(
                    #[trigger] out@[i]@,
                    #[trigger] rb@[j]@,
                ),
        decreases ra@.len() + rb@.len(),
    {
        let take_a = if ra.len() == 0 {
            false
        } else if rb.len() == 0 {
            true
        } else {
            ra[ra.len() - 1].runs_before_or_with(&rb[rb.len() - 1])
        };
        let ghost old_out = out@;
        let ghost old_ra = ra@;
        let ghost old_rb = rb@;
        if take_a {
            match ra.pop() {
                Some(x) => {
                    proof {
                        assert(old_ra =~= ra@.push(x));
                        assert forall|j: int| 0 <= j < rb@.len() implies runs_before_or_with(x@, #[trigger] rb@[j]@) by {
                            if j < rb@.len() - 1 {
                                assert(runs_before_or_with(rb@[rb@.len() - 1]@, rb@[j]@));
                            }
                        }
                        assert forall|j: int| 0 <= j < ra@.len() implies runs_before_or_with(x@, #[trigger] ra@[j]@) by {
                            assert(old_ra[j] == ra@[j]);
                            assert(runs_before_or_with(old_ra[old_ra.len() - 1]@, old_ra[j]@));
                        }
                    }
                    out.push(x);
                    proof {
                        assert(out@ =~= old_out.push(x));
                        assert forall|i: int, j: int| 0 <= i < out@.len() && 0 <= j < ra@.len()
                            implies runs_before_or_with(#[trigger] out@[i]@, #[trigger] ra@[j]@) by {
                            if i < old_out.len() {
                                assert(old_ra[j] == ra@[j]);
                            }
                        }
                        assert forall|i: int, j: int| 0 <= i < j < out@.len() implies runs_before_or_with(
                            #[trigger] out@[i]@,
                            #[trigger] out@[j]@,
                        ) by {
                            if j == old_out.len() {
                                assert(old_ra[old_ra.len() - 1] == x);
                            }
                        }
                    }
                },
                None => {},
            }
        } else {
            match rb.pop() {
                Some(x) => {
                    proof {
                        assert(old_rb =~= rb@.push(x));
                        assert forall|j: int| 0 <= j < ra@.len() implies runs_before_or_with(x@, #[trigger] ra@[j]@) by {
                            if j < ra@.len() - 1 {
                                assert(runs_before_or_with(ra@[ra@.len() - 1]@, ra@[j]@));
                            }
                        }
                        assert forall|j: int| 0 <= j < rb@.len() implies runs_before_or_with(x@, #[trigger] rb@[j]@) by {
                            assert(old_rb[j] == rb@[j]);
                            assert(runs_before_or_with(old_rb[old_rb.len() - 1]@, old_rb[j]@));
                        }
                    }
                    out.push(x);
                    proof {
                        assert(out@ =~= old_out.push(x));
                        assert forall|i: int, j: int| 0 <= i < out@.len() && 0 <= j < rb@.len()
                            implies runs_before_or_with(#[trigger] out@[i]@, #[trigger] rb@[j]@) by {
                            if i < old_out.len() {
                                assert(old_rb[j] == rb@[j]);
                            }
                        }
                        assert forall|i: int, j: int| 0 <= i < j < out@.len() implies runs_before_or_with(
                            #[trigger] out@[i]@,
                            #[trigger] out@[j]@,
                        ) by {
                            if j == old_out.len() {
                                assert(old_rb[old_rb.len() - 1] == x);
                            }
                        }
                    }
                },
                None => {},
            }
        }
    }
    assert(ra@.to_multiset() =~= Multiset::empty());
    assert(rb@.to_multiset() =~= Multiset::empty());
    out
}

/// Orders a batch of actions for running: by variant priority, then by
/// depth (see `runs_before_or_with`). The result holds the same actions.
pub fn schedule(actions: Vec<SyncAction>) -> (r: Vec<SyncAction>)
    ensures
        is_scheduled(r@),
        r@.to_multiset() == actions@.to_multiset(),
    decreases actions@.len(),
{
    let mut left = actions;
    let n = left.len();
    if n <= 1 {
        return left;
    }
    let right = left.split_off(n / 2);
    proof {
        assert(actions@ =~= left@ + right@);
        lemma_multiset_commutative(left@, right@);
    }
    let l = schedule(left);
    let r = schedule(right);
    merge(l, r)
}

/// A file or directory copy.
pub open spec fn is_content_copy(k: ActionKind) -> bool {
    k == ActionKind::CopyFile || k == ActionKind::CopyDir
}

/// Whenever a file or directory copy lands strictly under the destination of
/// a directory copy, its source is deeper than that directory copy's source.
pub open spec fn copies_nest_by_depth(s: Seq<SyncAction>) -> bool {
    forall|i: int, j: int|
        0 <= i < s.len() && 0 <= j < s.len() && s[j]@.0 == ActionKind::CopyDir
            && is_content_copy(s[i]@.0) && strictly_under(#[trigger] s[i]@.2, #[trigger] s[j]@.2)
            ==> s[j]@.1.len() < s[i]@.1.len()
}

/// No file or directory copy runs before a directory copy whose destination
/// holds its own.
pub open spec fn parents_first(s: Seq<SyncAction>) -> bool {
    forall|i: int, j: int|
        0 <= i < j < s.len() && s[j]@.0 == ActionKind::CopyDir && is_content_copy(s[i]@.0)
            ==> !strictly_under(#[trigger] s[i]@.2, #[trigger] s[j]@.2)
}

/// In a scheduled batch whose copies nest by depth, every directory is
/// created before what is copied into it.
pub proof fn lemma_scheduled_parents_first(s: Seq<SyncAction>)
    requires
        is_scheduled(s),
        copies_nest_by_depth(s),
    ensures
        parents_first(s),
{
    assert forall|i: int, j: int|
        0 <= i < j < s.len() && s[j]@.0 == ActionKind::CopyDir && is_content_copy(
            s[i]@.0,
        ) implies !strictly_under(#[trigger] s[i]@.2, #[trigger] s[j]@.2) by {
        assert(runs_before_or_with(s[i]@, s[j]@));
    }
}

} // verus!
