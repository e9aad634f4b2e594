//! Resolved locations and the component-wise containment test on them.

use vstd::prelude::*;

verus! {

/// The mathematical form of a resolved location: its components, outermost
/// first, each one the text of a single directory or file name.
pub type PathView = Seq<Seq<char>>;

/// `path` is `root` itself or lies somewhere beneath it.
///
/// The comparison goes component by component, so `/a/foobar` is not within
/// `/a/foo` although the text of one begins with the text of the other.
pub open spec fn is_within(path: PathView, root: PathView) -> bool {
    &&& root.len() <= path.len()
    &&& forall|i: int| 0 <= i < root.len() ==> path[i] == root[i]
}

/// Containment is decided by whole components: a root with a component that
/// the location lacks, or holds differently at the same depth, does not
/// contain it, even where one component's text begins with the other's.
pub proof fn lemma_differing_component_excludes(path: PathView, root: PathView, depth: int)
    requires
        0 <= depth < root.len(),
        path.len() <= depth || path[depth] != root[depth],
    ensures
        !is_within(path, root),
{
}

/// Every location is within itself, and containment carries over from a
/// directory to the directories above it.
pub proof fn lemma_within_is_a_preorder(path: PathView, inner: PathView, outer: PathView)
    ensures
        is_within(path, path),
        is_within(path, inner) && is_within(inner, outer) ==> is_within(path, outer),
{
}

/// An absolute location with links and relative steps already resolved,
/// stored as the list of its components.
#[derive(Debug)]
pub struct CanonicalPath {
    segments: Vec<String>,
}

impl View for CanonicalPath {
    type V = PathView;

    closed spec fn view(&self) -> PathView {
        self.segments.deep_view()
    }
}

impl DeepView for CanonicalPath {
    type V = PathView;

    open spec fn deep_view(&self) -> PathView {
        self@
    }
}

impl Clone for CanonicalPath {
    fn clone(&self) -> (copy: Self)
        ensures
            copy@ == self@,
    {
        let mut segments: Vec<String> = Vec::new();
        let mut i: usize = 0;
        while i < self.segments.len()
            invariant
                i <= self.segments.len(),
                segments.len() == i,
                forall|j: int| 0 <= j < i ==> segments@[j]@ == self.segments@[j]@,
            decreases self.segments.len() - i,
        {
            segments.push(self.segments[i].clone());
            i += 1;
        }
        assert(segments.deep_view() =~= self.segments.deep_view());
        CanonicalPath { segments }
    }
}

impl CanonicalPath {
    /// Builds a location from its components, outermost first.
    pub fn new(segments: Vec<String>) -> (path: Self)
        ensures
            path@ == segments.deep_view(),
    {
        CanonicalPath { segments }
    }

    /// The components of this location, outermost first.
    pub fn segments(&self) -> (segments: &Vec<String>)
        ensures
            segments.deep_view() == self@,
    {
        &self.segments
    }

    /// Whether this location is `root` or lies beneath it.
    pub fn starts_with(&self, root: &CanonicalPath) -> (within: bool)
        ensures
            within == is_within(self@, root@),
    {
        if root.segments.len() > self.segments.len() {
            return false;
        }
        let mut i: usize = 0;
        while i < root.segments.len()
            invariant
                i <= root.segments.len() <= self.segments.len(),
                forall|j: int| 0 <= j < i ==> self@[j] == root@[j],
            decreases root.segments.len() - i,
        {
            assert(self@[i as int] == self.segments@[i as int]@);
            assert(root@[i as int] == root.segments@[i as int]@);
            if self.segments[i] != root.segments[i] {
                return false;
            }
            i += 1;
        }
        true
    }

    /// Whether the two locations have exactly the same components.
    pub fn same_as(&self, other: &CanonicalPath) -> (same: bool)
        ensures
            same == (self@ == other@),
    {
        let same = self.segments.len() == other.segments.len() && self.starts_with(other);
        assert(self@.len() == self.segments.len() && other@.len() == other.segments.len());
        assert(same ==> self@ =~= other@);
        same
    }
}

} // verus!
