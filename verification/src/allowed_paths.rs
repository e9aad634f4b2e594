//! The registry of directories that file operations may reach into.

use vstd::prelude::*;
use crate::path::{is_within, CanonicalPath, PathView};

verus! {

/// What the registry holds, as mathematics: at most one source directory and
/// an ordered list of further roots.
pub struct AllowList {
    /// The directory scanned last, if any.
    pub source_root: Option<PathView>,
    /// The roots added one by one, oldest first.
    pub extra_roots: Seq<PathView>,
}

/// One change that can be asked of the registry, with what resolving the
/// named location gave.
pub enum Request {
    /// Make the location the source directory.
    SetSource(Option<PathView>),
    /// Add the location to the further roots.
    AddRoot(Option<PathView>),
}

impl AllowList {
    /// The registry as it is at start-up: nothing is allowed.
    pub open spec fn empty() -> AllowList {
        AllowList { source_root: None, extra_roots: Seq::empty() }
    }

    /// No root is stored twice.
    pub open spec fn wf(self) -> bool {
        self.extra_roots.no_duplicates()
    }

    /// The source directory is set and contains `path`.
    pub open spec fn allows_by_source(self, path: PathView) -> bool {
        self.source_root matches Some(root) && is_within(path, root)
    }

    /// Some further root contains `path`.
    pub open spec fn allows_by_further_root(self, path: PathView) -> bool {
        exists|i: int|
            0 <= i < self.extra_roots.len() && is_within(path, #[trigger] self.extra_roots[i])
    }

    /// `path` is the source directory, one of the further roots, or lies
    /// beneath one of them.
    pub open spec fn allows(self, path: PathView) -> bool {
        self.allows_by_source(path) || self.allows_by_further_root(path)
    }

    /// The answer to an access query, given what resolving the queried
    /// location produced: a location that did not resolve is never allowed.
    pub open spec fn permits(self, resolved: Option<PathView>) -> bool {
        match resolved {
            Some(path) => self.allows(path),
            None => false,
        }
    }

    /// The registry after a request to make `resolved` the source directory:
    /// a resolved location replaces the previous one, an unresolved one
    /// changes nothing.
    pub open spec fn set_source(self, resolved: Option<PathView>) -> AllowList {
        match resolved {
            Some(root) => AllowList { source_root: Some(root), ..self },
            None => self,
        }
    }

    /// The registry after a request to add `resolved` as a further root: a
    /// resolved location that is not yet stored is appended, anything else
    /// changes nothing.
    pub open spec fn add_root(self, resolved: Option<PathView>) -> AllowList {
        match resolved {
            Some(root) if !self.extra_roots.contains(root) => AllowList {
                extra_roots: self.extra_roots.push(root),
                ..self
            },
            _ => self,
        }
    }

    /// The registry after one request.
    pub open spec fn after(self, request: Request) -> AllowList {
        match request {
            Request::SetSource(resolved) => self.set_source(resolved),
            Request::AddRoot(resolved) => self.add_root(resolved),
        }
    }

    /// The registry after a run of requests, served first to last.
    pub open spec fn after_all(self, requests: Seq<Request>) -> AllowList
        decreases requests.len(),
    {
        if requests.len() == 0 {
            self
        } else {
            self.after_all(requests.drop_last()).after(requests.last())
        }
    }
}

/// A location that lies within neither the source directory nor any further
/// root is refused.
pub proof fn lemma_outside_every_root_is_refused(list: AllowList, path: PathView)
    requires
        list.source_root matches Some(root) ==> !is_within(path, root),
        forall|i: int| 0 <= i < list.extra_roots.len() ==> !is_within(path, list.extra_roots[i]),
    ensures
        !list.allows(path),
        !list.permits(Some(path)),
{
}

/// A location that did not resolve is refused, whatever the registry holds.
pub proof fn lemma_unresolved_is_refused(list: AllowList)
    ensures
        !list.permits(None),
{
}

/// Once a resolved directory has been made the source directory, every
/// location within it is allowed.
pub proof fn lemma_source_directory_is_allowed(list: AllowList, root: PathView, path: PathView)
    requires
        is_within(path, root),
    ensures
        list.set_source(Some(root)).allows_by_source(path),
        list.set_source(Some(root)).permits(Some(path)),
{
}

/// Once a resolved directory has been added as a further root, every location
/// within it is allowed, whether the directory was stored before or not.
pub proof fn lemma_added_root_is_allowed(list: AllowList, root: PathView, path: PathView)
    requires
        is_within(path, root),
    ensures
        list.add_root(Some(root)).allows_by_further_root(path),
        list.add_root(Some(root)).permits(Some(path)),
{
    let after = list.add_root(Some(root));
    if list.extra_roots.contains(root) {
        let i = choose|i: int| 0 <= i < list.extra_roots.len() && list.extra_roots[i] == root;
        assert(is_within(path, after.extra_roots[i]));
    } else {
        assert(is_within(path, after.extra_roots[list.extra_roots.len() as int]));
    }
}

/// No request takes away what a further root allows: the further roots only
/// grow.
pub proof fn lemma_further_roots_only_grow(list: AllowList, request: Request, path: PathView)
    ensures
        list.extra_roots.is_prefix_of(list.after(request).extra_roots),
        list.allows_by_further_root(path) ==> list.after(request).allows_by_further_root(path),
{
    let after = list.after(request);
    if list.allows_by_further_root(path) {
        let i = choose|i: int|
            0 <= i < list.extra_roots.len() && is_within(path, #[trigger] list.extra_roots[i]);
        assert(is_within(path, after.extra_roots[i]));
    }
}

/// What a further root allows stays allowed for good, whatever is asked
/// afterwards.
pub proof fn lemma_added_root_stays_allowed(
    list: AllowList,
    root: PathView,
    path: PathView,
    later: Seq<Request>,
)
    requires
        is_within(path, root),
    ensures
        list.add_root(Some(root)).after_all(later).allows_by_further_root(path),
        list.add_root(Some(root)).after_all(later).permits(Some(path)),
    decreases later.len(),
{
    if later.len() == 0 {
        lemma_added_root_is_allowed(list, root, path);
    } else {
        lemma_added_root_stays_allowed(list, root, path, later.drop_last());
        lemma_further_roots_only_grow(
            list.add_root(Some(root)).after_all(later.drop_last()),
            later.last(),
            path,
        );
    }
}

/// What the source directory allows stays allowed until another directory
/// takes its place: requests that add roots, and requests that name a
/// directory that does not resolve, leave it alone.
pub proof fn lemma_source_directory_stays_allowed(
    list: AllowList,
    root: PathView,
    path: PathView,
    later: Seq<Request>,
)
    requires
        is_within(path, root),
        forall|i: int|
            0 <= i < later.len() ==> !(#[trigger] later[i] matches Request::SetSource(Some(_))),
    ensures
        list.set_source(Some(root)).after_all(later).source_root == Some(root),
        list.set_source(Some(root)).after_all(later).permits(Some(path)),
    decreases later.len(),
{
    if later.len() > 0 {
        lemma_source_directory_stays_allowed(list, root, path, later.drop_last());
        assert(!(later[later.len() - 1] matches Request::SetSource(Some(_))));
    }
}

/// The source directory is overwritten, never merged: after a second
/// directory has been set, a location is allowed only through that one or
/// through a further root.
pub proof fn lemma_source_directory_is_replaced(
    list: AllowList,
    first: PathView,
    second: PathView,
    path: PathView,
)
    ensures
        list.set_source(Some(first)).set_source(Some(second)) == list.set_source(Some(second)),
        list.set_source(Some(first)).set_source(Some(second)).allows(path) <==> is_within(
            path,
            second,
        ) || list.allows_by_further_root(path),
{
    let after = list.set_source(Some(first)).set_source(Some(second));
    assert(after.extra_roots == list.extra_roots);
    assert(after.allows_by_further_root(path) == list.allows_by_further_root(path));
}

/// Adding the same location twice stores it once: the second request changes
/// nothing, and exactly one entry of the further roots equals it.
pub proof fn lemma_add_root_is_idempotent(list: AllowList, resolved: Option<PathView>)
    requires
        list.wf(),
    ensures
        list.add_root(resolved).add_root(resolved) == list.add_root(resolved),
        list.add_root(resolved).wf(),
        resolved matches Some(root) ==> {
            let roots = list.add_root(resolved).extra_roots;
            &&& roots.contains(root)
            &&& forall|i: int, j: int|
                0 <= i < roots.len() && 0 <= j < roots.len() && roots[i] == root && roots[j]
                    == root ==> i == j
        },
{
    let after = list.add_root(resolved);
    if let Some(root) = resolved {
        if !list.extra_roots.contains(root) {
            assert(after.extra_roots[list.extra_roots.len() as int] == root);
        }
    }
}

/// No run of requests stores a root twice.
pub proof fn lemma_roots_stay_distinct(list: AllowList, requests: Seq<Request>)
    requires
        list.wf(),
    ensures
        list.after_all(requests).wf(),
    decreases requests.len(),
{
    if requests.len() > 0 {
        lemma_roots_stay_distinct(list, requests.drop_last());
        let before = list.after_all(requests.drop_last());
        match requests.last() {
            Request::SetSource(resolved) => {
                assert(before.set_source(resolved).extra_roots == before.extra_roots);
            },
            Request::AddRoot(resolved) => {
                lemma_add_root_is_idempotent(before, resolved);
            },
        }
    }
}

/// Tracks the directories that file operations are allowed to touch.
pub struct AllowedPaths {
    source_directory: Option<CanonicalPath>,
    allowed_paths: Vec<CanonicalPath>,
}

impl View for AllowedPaths {
    type V = AllowList;

    closed spec fn view(&self) -> AllowList {
        AllowList {
            source_root: self.source_directory.deep_view(),
            extra_roots: self.allowed_paths.deep_view(),
        }
    }
}

impl Default for AllowedPaths {
    fn default() -> (registry: Self)
        ensures
            registry@ == AllowList::empty(),
    {
        AllowedPaths::new()
    }
}

impl AllowedPaths {
    /// Holds of every registry at all times: no root is stored twice.
    #[verifier::type_invariant]
    pub open spec fn distinct_roots(self) -> bool {
        self@.wf()
    }

    /// A registry that allows nothing yet.
    pub fn new() -> (registry: Self)
        ensures
            registry@ == AllowList::empty(),
    {
        let registry = AllowedPaths { source_directory: None, allowed_paths: Vec::new() };
        assert(registry@.extra_roots =~= Seq::empty());
        registry
    }

    /// The source directory, if one has been set.
    pub fn source_directory(&self) -> (source: Option<&CanonicalPath>)
        ensures
            source.deep_view() == self@.source_root,
    {
        self.source_directory.as_ref()
    }

    /// The further roots, oldest first.
    pub fn allowed_paths(&self) -> (roots: &Vec<CanonicalPath>)
        ensures
            roots.deep_view() == self@.extra_roots,
    {
        &self.allowed_paths
    }

    /// Makes `path` the source directory, replacing the previous one. `path`
    /// is what resolving the chosen directory gave; `None`, for a directory
    /// that could not be resolved, leaves the registry as it was.
    pub fn set_source_directory(&mut self, path: Option<CanonicalPath>)
        ensures
            final(self)@ == old(self)@.set_source(path.deep_view()),
            final(self)@.wf(),
    {
        proof {
            use_type_invariant(&*self);
        }
        if let Some(root) = path {
            self.source_directory = Some(root);
        }
    }

    /// Adds `path` to the further roots unless it is stored already. `path`
    /// is what resolving the chosen location gave; `None`, for a location
    /// that could not be resolved, leaves the registry as it was.
    pub fn add_allowed_path(&mut self, path: Option<CanonicalPath>)
        ensures
            final(self)@ == old(self)@.add_root(path.deep_view()),
            final(self)@.wf(),
    {
        proof {
            use_type_invariant(&*self);
        }
        if let Some(root) = path {
            if !self.holds_root(&root) {
                let mut roots: Vec<CanonicalPath> = Vec::new();
                std::mem::swap(&mut self.allowed_paths, &mut roots);
                roots.push(root);
                assert(roots.deep_view() =~= old(self)@.extra_roots.push(root@));
                self.allowed_paths = roots;
            }
        }
    }

    /// Whether `root` is one of the stored further roots.
    fn holds_root(&self, root: &CanonicalPath) -> (held: bool)
        ensures
            held == self@.extra_roots.contains(root@),
    {
        let mut i: usize = 0;
        while i < self.allowed_paths.len()
            invariant
                i <= self.allowed_paths.len(),
                forall|j: int| 0 <= j < i ==> self@.extra_roots[j] != root@,
            decreases self.allowed_paths.len() - i,
        {
            if self.allowed_paths[i].same_as(root) {
                assert(self@.extra_roots[i as int] == root@);
                return true;
            }
            i += 1;
        }
        false
    }

    /// Decides an access query. `path` is what resolving the queried location
    /// gave. The answer is `true` exactly when the location resolved and is
    /// the source directory, a further root, or lies beneath one of them.
    pub fn is_path_allowed(&self, path: Option<&CanonicalPath>) -> (allowed: bool)
        ensures
            allowed == self@.permits(path.deep_view()),
    {
        let canonical = match path {
            Some(p) => p,
            None => return false,
        };
        if let Some(source) = &self.source_directory {
            if canonical.starts_with(source) {
                return true;
            }
        }
        let mut i: usize = 0;
        while i < self.allowed_paths.len()
            invariant
                i <= self.allowed_paths.len(),
                path.deep_view() == Some(canonical@),
                forall|j: int| 0 <= j < i ==> !is_within(canonical@, self@.extra_roots[j]),
            decreases self.allowed_paths.len() - i,
        {
            if canonical.starts_with(&self.allowed_paths[i]) {
                assert(is_within(canonical@, self@.extra_roots[i as int]));
                return true;
            }
            i += 1;
        }
        false
    }
}

} // verus!
