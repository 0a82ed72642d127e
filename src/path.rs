//! Paths as sequences of components.

use vstd::prelude::*;

verus! {

/// The mathematical model of a path: its components, in order.
pub type PathKey = Seq<Seq<char>>;

/// A filesystem path held as its components (the root directory, when
/// present, is not a component).
#[derive(Debug)]
pub struct FsPath {
    parts: Vec<String>,
}

/// The components of a path as character sequences.
pub open spec fn parts_view(parts: Seq<String>) -> PathKey {
    parts.map_values(|s: String| s@)
}

impl View for FsPath {
    type V = PathKey;

    closed spec fn view(&self) -> PathKey {
        parts_view(self.parts@)
    }
}

/// `p` is `q` followed by at least one more component.
pub open spec fn strictly_under(p: PathKey, q: PathKey) -> bool {
    q.len() < p.len() && p.subrange(0, q.len() as int) == q
}

impl FsPath {
    /// The empty path.
    pub fn empty() -> (r: FsPath)
        ensures
            r@ == Seq::<Seq<char>>::empty(),
    {
        let r = FsPath { parts: Vec::new() };
        assert(r@ =~= Seq::<Seq<char>>::empty());
        r
    }

    /// A path made of the given components.
    pub fn from_parts(parts: Vec<String>) -> (r: FsPath)
        ensures
            r@ == parts_view(parts@),
    {
        FsPath { parts }
    }

    /// The number of components.
    pub fn depth(&self) -> (r: usize)
        ensures
            r == self@.len(),
    {
        self.parts.len()
    }

    /// The component at position `i`.
    pub fn part(&self, i: usize) -> (r: &String)
        requires
            i < self@.len(),
        ensures
            r@ == self@[i as int],
    {
        &self.parts[i]
    }

    /// This path with one more component at its end.
    pub fn push(&mut self, part: String)
        ensures
            final(self)@ == old(self)@.push(part@),
    {
        self.parts.push(part);
        assert(self@ =~= old(self)@.push(part@));
    }

    /// A copy of this path.
    pub fn duplicate(&self) -> (r: FsPath)
        ensures
            r@ == self@,
    {
        let mut parts: Vec<String> = Vec::new();
        let mut i: usize = 0;
        while i < self.parts.len()
            invariant
                i <= self.parts@.len(),
                parts@.len() == i,
                forall|j: int| 0 <= j < i ==> #[trigger] parts@[j]@ == self.parts@[j]@,
            decreases self.parts@.len() - i,
        {
            parts.push(self.parts[i].clone());
            i = i + 1;
        }
        let r = FsPath { parts };
        assert(r@ =~= self@);
        r
    }

    /// `root` followed by the components of `rel`.
    pub fn join(root: &FsPath, rel: &FsPath) -> (r: FsPath)
        ensures
            r@ == root@ + rel@,
    {
        let mut r = root.duplicate();
        let mut i: usize = 0;
        while i < rel.parts.len()
            invariant
                i <= rel@.len(),
                r@ =~= root@ + rel@.subrange(0, i as int),
            decreases rel@.len() - i,
        {
            r.push(rel.parts[i].clone());
            i = i + 1;
            assert(r@ =~= root@ + rel@.subrange(0, i as int));
        }
        assert(rel@.subrange(0, i as int) =~= rel@);
        r
    }

    /// Whether both paths have the same components.
    pub fn same_as(&self, other: &FsPath) -> (r: bool)
        ensures
            r == (self@ == other@),
    {
        if self.parts.len() != other.parts.len() {
            return false;
        }
        let mut i: usize = 0;
        while i < self.parts.len()
            invariant
                i <= self@.len(),
                self@.len() == other@.len(),
                self@.subrange(0, i as int) =~= other@.subrange(0, i as int),
            decreases self@.len() - i,
        {
            if self.parts[i] != other.parts[i] {
                assert(self@[i as int] != other@[i as int]);
                return false;
            }
            i = i + 1;
            assert(self@.subrange(0, i as int) =~= other@.subrange(0, i as int));
        }
        assert(self@ =~= self@.subrange(0, i as int));
        assert(other@ =~= other@.subrange(0, i as int));
        true
    }
}

impl PartialEq for FsPath {
    fn eq(&self, other: &FsPath) -> (r: bool) {
        self.same_as(other)
    }
}

impl vstd::std_specs::cmp::PartialEqSpecImpl for FsPath {
    open spec fn obeys_eq_spec() -> bool {
        true
    }

    open spec fn eq_spec(&self, other: &FsPath) -> bool {
        self@ == other@
    }
}

impl Eq for FsPath {
}

} // verus!
