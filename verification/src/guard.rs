//! The containment guard: which canonical paths lie within a sandbox.
//!
//! The guard never touches storage. It names the path that is to be made
//! canonical, takes what the file system answered, and accepts the answer
//! only where it walks through the whole sandbox root first.

use crate::path::{
    all_normal, any_parent_dir, copy_segments, has_parent_dir, is_absolute, is_normal,
    is_parent_dir, lemma_rendered_prefix, lemma_segments_normal, lemma_segments_of_joined,
    render, rendered, segments, segments_start_with, split_segments, starts_with, views, DOT,
    SEPARATOR,
};
use vstd::prelude::*;

verus! {

/// Why the guard turned a path down.
#[derive(Clone, Copy, Debug, PartialEq, Eq, Structural)]
pub enum GuardError {
    /// The file system could not make the path canonical.
    NotFound,
    /// The path leaves the sandbox, or there is no sandbox yet.
    PermissionDenied,
    /// The path does not start with the prefix that was to be removed.
    InvalidInput,
}

/// An absolute path that the guard found to lie within a sandbox root.
#[derive(Debug)]
pub struct ResolvedPath {
    segments: Vec<Vec<u8>>,
    root_len: usize,
}

impl View for ResolvedPath {
    type V = Seq<Seq<u8>>;

    closed spec fn view(&self) -> Seq<Seq<u8>> {
        views(self.segments@)
    }
}

impl ResolvedPath {
    #[verifier::type_invariant]
    spec fn confined(&self) -> bool {
        &&& self.root_len <= self.segments.len()
        &&& !has_parent_dir(views(self.segments@))
        &&& all_normal(views(self.segments@))
    }

    /// The sandbox root that this path was found to lie within.
    pub closed spec fn root(&self) -> Seq<Seq<u8>> {
        views(self.segments@).subrange(0, self.root_len as int)
    }

    /// The path as bytes, for the storage to act on. It is an absolute
    /// path that is read back as the very segments that the guard accepted;
    /// it walks through its whole root first, never steps to a parent, and
    /// begins with the bytes of the root.
    pub fn to_bytes(&self) -> (bytes: Vec<u8>)
        ensures
            bytes@ == rendered(self@),
            is_absolute(bytes@),
            segments(bytes@) == self@,
            starts_with(self@, self.root()),
            !has_parent_dir(self@),
            rendered(self.root()).is_prefix_of(bytes@),
    {
        proof {
            use_type_invariant(self);
            lemma_segments_of_joined(views(self.segments@));
            assert(views(self.segments@).subrange(0, self.root_len as int).subrange(
                0,
                self.root_len as int,
            ) =~= views(self.segments@).subrange(0, self.root_len as int));
            lemma_rendered_prefix(
                views(self.segments@),
                views(self.segments@).subrange(0, self.root_len as int),
            );
        }
        render(&self.segments)
    }

    /// Whether the path is the sandbox root itself.
    pub fn is_root(&self) -> (yes: bool)
        ensures
            yes == (self@ == self.root()),
    {
        proof {
            use_type_invariant(self);
            assert(views(self.segments@).subrange(0, self.segments.len() as int) =~= views(
                self.segments@,
            ));
        }
        self.root_len == self.segments.len()
    }
}

/// What the guard says of the answer `canonical` that the file system gave,
/// for a sandbox rooted at `root`; `ready` tells whether a root was recorded.
pub open spec fn guard_verdict(ready: bool, root: Seq<Seq<u8>>, canonical: Option<Seq<u8>>) -> Result<
    Seq<Seq<u8>>,
    GuardError,
> {
    if !ready {
        Err(GuardError::PermissionDenied)
    } else {
        match canonical {
            None => Err(GuardError::NotFound),
            Some(c) => if is_absolute(c) && !has_parent_dir(segments(c)) && starts_with(
                segments(c),
                root,
            ) {
                Ok(segments(c))
            } else {
                Err(GuardError::PermissionDenied)
            },
        }
    }
}

/// Judges the answer `canonical` of the file system against the sandbox
/// rooted at `root`.
pub fn confine(ready: bool, root: &Vec<Vec<u8>>, canonical: Option<Vec<u8>>) -> (r: Result<
    ResolvedPath,
    GuardError,
>)
    ensures
        match r {
            Ok(p) => guard_verdict(ready, views(root@), option_bytes(canonical)) == Ok::<
                Seq<Seq<u8>>,
                GuardError,
            >(p@) && p.root() == views(root@),
            Err(e) => guard_verdict(ready, views(root@), option_bytes(canonical)) == Err::<
                Seq<Seq<u8>>,
                GuardError,
            >(e),
        },
{
    if !ready {
        return Err(GuardError::PermissionDenied);
    }
    match canonical {
        None => Err(GuardError::NotFound),
        Some(c) => {
            if c.len() == 0 || c[0] != SEPARATOR {
                return Err(GuardError::PermissionDenied);
            }
            let segs = split_segments(c.as_slice());
            if any_parent_dir(&segs) || !segments_start_with(&segs, root) {
                return Err(GuardError::PermissionDenied);
            }
            proof {
                lemma_segments_normal(c@);
            }
            let root_len = root.len();
            Ok(ResolvedPath { segments: segs, root_len })
        },
    }
}

/// The bytes of an answer, if there is one.
pub open spec fn option_bytes(canonical: Option<Vec<u8>>) -> Option<Seq<u8>> {
    match canonical {
        None => None,
        Some(c) => Some(c@),
    }
}

/// The path that is to be made canonical for the client's `path`: the root,
/// then the segments of `path`, whether or not `path` is absolute.
pub open spec fn candidate_of(root: Seq<Seq<u8>>, path: Seq<u8>) -> Seq<u8> {
    rendered(root + segments(path))
}

/// The directory in which the client's `path` names an entry: the root, then
/// all segments of `path` but the last.
pub open spec fn parent_candidate_of(root: Seq<Seq<u8>>, path: Seq<u8>) -> Seq<u8> {
    if segments(path).len() == 0 {
        rendered(root)
    } else {
        rendered(root + segments(path).drop_last())
    }
}

/// What the guard says of an entry that `path` names and that need not
/// exist yet, where `parent` is the file system's answer for its directory.
pub open spec fn guard_verdict_new(
    ready: bool,
    root: Seq<Seq<u8>>,
    path: Seq<u8>,
    parent: Option<Seq<u8>>,
) -> Result<Seq<Seq<u8>>, GuardError> {
    let segs = segments(path);
    if segs.len() == 0 || is_parent_dir(segs.last()) {
        Err(GuardError::PermissionDenied)
    } else {
        match guard_verdict(ready, root, parent) {
            Ok(dir) => Ok(dir.push(segs.last())),
            Err(e) => Err(e),
        }
    }
}

/// Whether the path starts at the root of the file system.
pub fn starts_at_root(path: &[u8]) -> (yes: bool)
    ensures
        yes == is_absolute(path@),
{
    path.len() > 0 && path[0] == SEPARATOR
}

/// Names the path to make canonical for the client's `path`.
pub fn candidate(root: &Vec<Vec<u8>>, path: &[u8]) -> (c: Vec<u8>)
    ensures
        c@ == candidate_of(views(root@), path@),
{
    let mut all = copy_segments(root, 0, root.len());
    let mut rest = split_segments(path);
    proof {
        assert(views(root@).subrange(0, root.len() as int) =~= views(root@));
    }
    let ghost head = views(all@);
    let ghost tail = views(rest@);
    all.append(&mut rest);
    proof {
        assert(views(all@) =~= head + tail);
    }
    render(&all)
}

/// Names the directory to make canonical for an entry that the client's
/// `path` names.
pub fn parent_candidate(root: &Vec<Vec<u8>>, path: &[u8]) -> (c: Vec<u8>)
    ensures
        c@ == parent_candidate_of(views(root@), path@),
{
    let mut all = copy_segments(root, 0, root.len());
    let mut rest = split_segments(path);
    proof {
        assert(views(root@).subrange(0, root.len() as int) =~= views(root@));
    }
    if rest.len() > 0 {
        let ghost whole = views(rest@);
        rest.pop();
        proof {
            assert(views(rest@) =~= whole.drop_last());
        }
    }
    let ghost head = views(all@);
    let ghost tail = views(rest@);
    all.append(&mut rest);
    proof {
        assert(views(all@) =~= head + tail);
    }
    render(&all)
}

/// Judges an entry that `path` names and that need not exist yet, from the
/// file system's answer `parent` for its directory.
pub fn confine_new(ready: bool, root: &Vec<Vec<u8>>, path: &[u8], parent: Option<Vec<u8>>) -> (r:
    Result<ResolvedPath, GuardError>)
    ensures
        match r {
            Ok(p) => guard_verdict_new(ready, views(root@), path@, option_bytes(parent)) == Ok::<
                Seq<Seq<u8>>,
                GuardError,
            >(p@) && p.root() == views(root@),
            Err(e) => guard_verdict_new(ready, views(root@), path@, option_bytes(parent)) == Err::<
                Seq<Seq<u8>>,
                GuardError,
            >(e),
        },
{
    let mut segs = split_segments(path);
    if segs.len() == 0 {
        return Err(GuardError::PermissionDenied);
    }
    let ghost all = views(segs@);
    let leaf = match segs.pop() {
        Some(l) => l,
        None => { return Err(GuardError::PermissionDenied); },
    };
    proof {
        assert(leaf@ == all.last());
        lemma_segments_normal(path@);
        assert(is_normal(all[all.len() - 1]));
    }
    if leaf.len() == 2 && leaf[0] == DOT && leaf[1] == DOT {
        return Err(GuardError::PermissionDenied);
    }
    match confine(ready, root, parent) {
        Err(e) => Err(e),
        Ok(dir) => {
            proof {
                use_type_invariant(&dir);
            }
            let ResolvedPath { segments: mut inner, root_len } = dir;
            let ghost before = views(inner@);
            inner.push(leaf);
            proof {
                assert(views(inner@) =~= before.push(leaf@));
                assert(views(inner@).subrange(0, root_len as int) =~= before.subrange(
                    0,
                    root_len as int,
                ));
                assert forall|i: int| 0 <= i < views(inner@).len() implies !is_parent_dir(
                    #[trigger] views(inner@)[i],
                ) && is_normal(views(inner@)[i]) by {
                    if i < before.len() {
                        assert(views(inner@)[i] == before[i]);
                    }
                }
            }
            Ok(ResolvedPath { segments: inner, root_len })
        },
    }
}

/// The containment guard of a handler that serves files from a sandbox.
pub trait FileHandler {
    /// Whether a sandbox root was recorded.
    spec fn guard_ready(&self) -> bool;

    /// The segments of the sandbox root.
    spec fn guard_root(&self) -> Seq<Seq<u8>>;

    /// Names the path that the file system is to make canonical for the
    /// client's `path`: absolute or not, it is joined onto the root.
    fn candidate_path(&self, path: &[u8]) -> (c: Vec<u8>)
        ensures
            c@ == candidate_of(self.guard_root(), path@),
    ;

    /// Judges the canonical path that the file system answered, `None` where
    /// it could not make the path canonical. The answer is accepted where it
    /// is absolute, steps to no parent and walks through the whole root
    /// first.
    fn complete_path(&self, canonical: Option<Vec<u8>>) -> (r: Result<ResolvedPath, GuardError>)
        ensures
            match r {
                Ok(p) => guard_verdict(
                    self.guard_ready(),
                    self.guard_root(),
                    option_bytes(canonical),
                ) == Ok::<Seq<Seq<u8>>, GuardError>(p@) && p.root() == self.guard_root(),
                Err(e) => guard_verdict(
                    self.guard_ready(),
                    self.guard_root(),
                    option_bytes(canonical),
                ) == Err::<Seq<Seq<u8>>, GuardError>(e),
            },
    ;

    /// Removes `prefix` from the front of `path`, component by component,
    /// as the standard library's `strip_prefix` does: a `.` at the very
    /// front of a path counts as a component, and the empty prefix leaves
    /// the whole of `path`.
    fn remove_prefix_str(&self, path: &[u8], prefix: &[u8]) -> (r: Result<Vec<u8>, GuardError>)
        ensures
            match r {
                Ok(rest) => crate::prefix::strip_verdict(path@, prefix@) == Ok::<
                    Seq<u8>,
                    GuardError,
                >(rest@),
                Err(e) => crate::prefix::strip_verdict(path@, prefix@) == Err::<
                    Seq<u8>,
                    GuardError,
                >(e),
            },
    ;
}

impl ResolvedPath {
    /// The sandbox root itself as a resolved path.
    pub fn of_root(root: &Vec<Vec<u8>>) -> (p: ResolvedPath)
        requires
            !has_parent_dir(views(root@)),
            all_normal(views(root@)),
        ensures
            p@ == views(root@),
            p.root() == views(root@),
    {
        let segs = copy_segments(root, 0, root.len());
        proof {
            assert(views(root@).subrange(0, root.len() as int) =~= views(root@));
        }
        ResolvedPath { segments: segs, root_len: root.len() }
    }
}

} // verus!
