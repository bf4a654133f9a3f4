//! The path sandbox: a resolved path is served only if it lies within the
//! notes root.

use crate::error::ServeError;
use vstd::prelude::*;

verus! {

/// An absolute path with every symbolic link, `.` and `..` resolved, as the
/// names of its components from the top down.
pub struct CanonicalPath {
    pub parts: Vec<String>,
}

impl CanonicalPath {
    /// The names of the components.
    pub open spec fn names(self) -> Seq<Seq<char>> {
        Seq::new(self.parts@.len(), |i: int| self.parts@[i]@)
    }

    /// A copy of this path.
    pub fn copy(&self) -> (out: CanonicalPath)
        ensures
            out.names() == self.names(),
    {
        let mut parts: Vec<String> = Vec::new();
        let mut i: usize = 0;
        while i < self.parts.len()
            invariant
                i <= self.parts.len(),
                parts.len() == i,
                forall|j: int| 0 <= j < i ==> (#[trigger] parts[j])@ == self.parts[j]@,
            decreases self.parts.len() - i,
        {
            parts.push(self.parts[i].clone());
            i += 1;
        }
        let out = CanonicalPath { parts };
        assert(out.names() =~= self.names());
        out
    }

    /// The path of the entry `name` in the directory at this path. It is
    /// made of names and not in resolved form: the entry may be a symbolic
    /// link that leads elsewhere, so it is resolved before anything at it is
    /// read.
    pub fn child(&self, name: &str) -> (out: CanonicalPath)
        ensures
            out.names() == self.names().push(name@),
    {
        let mut out = self.copy();
        let ghost before = out.names();
        out.parts.push(name.to_owned());
        assert(out.names() =~= before.push(name@));
        out
    }

    /// Whether this path and `other` are the same.
    pub fn same_as(&self, other: &CanonicalPath) -> (same: bool)
        ensures
            same == (self.names() == other.names()),
    {
        if self.parts.len() != other.parts.len() {
            assert(self.names().len() != other.names().len());
            return false;
        }
        let mut i: usize = 0;
        while i < self.parts.len()
            invariant
                i <= self.parts.len(),
                self.parts.len() == other.parts.len(),
                forall|j: int| 0 <= j < i ==> self.names()[j] == other.names()[j],
            decreases self.parts.len() - i,
        {
            if self.parts[i] != other.parts[i] {
                assert(self.names()[i as int] != other.names()[i as int]);
                return false;
            }
            i += 1;
        }
        assert(self.names() =~= other.names());
        true
    }
}

/// `path` is `root` or lies below it: the components of `root` are the first
/// components of `path`, one for one. Whole components are compared, never
/// pieces of text.
pub open spec fn within(root: Seq<Seq<char>>, path: Seq<Seq<char>>) -> bool {
    root.len() <= path.len() && path.subrange(0, root.len() as int) == root
}

/// The root lies within itself.
pub proof fn lemma_root_within(root: Seq<Seq<char>>)
    ensures
        within(root, root),
{
    assert(root.subrange(0, root.len() as int) =~= root);
}

/// Whether `path` is `root` or lies below it.
pub fn is_within(root: &CanonicalPath, path: &CanonicalPath) -> (inside: bool)
    ensures
        inside == within(root.names(), path.names()),
{
    if root.parts.len() > path.parts.len() {
        return false;
    }
    let mut i: usize = 0;
    while i < root.parts.len()
        invariant
            i <= root.parts.len() <= path.parts.len(),
            forall|j: int| 0 <= j < i ==> root.names()[j] == path.names()[j],
        decreases root.parts.len() - i,
    {
        if root.parts[i] != path.parts[i] {
            assert(path.names().subrange(0, root.names().len() as int)[i as int]
                != root.names()[i as int]);
            return false;
        }
        i += 1;
    }
    assert(path.names().subrange(0, root.names().len() as int) =~= root.names());
    true
}

/// Lets a requested path pass after it and the notes root were resolved on
/// disk; `None` stands for a path that did not resolve.
///
/// The request fails as not found when its path does not resolve; as an
/// internal error when the root does not; as forbidden when the resolved
/// path lies outside the resolved root. Otherwise the resolved path is
/// handed back, and it lies within the root.
pub fn resolve(path: Option<CanonicalPath>, root: &Option<CanonicalPath>) -> (res: Result<
    CanonicalPath,
    ServeError,
>)
    ensures
        match res {
            Ok(p) => path == Some(p) && root is Some && within(root->0.names(), p.names()),
            Err(e) => e == (if path is None {
                ServeError::NotFound
            } else if root is None {
                ServeError::Internal
            } else {
                ServeError::Forbidden
            }) && !(path is Some && root is Some && within(root->0.names(), path->0.names())),
        },
{
    match path {
        None => Err(ServeError::NotFound),
        Some(p) => match root {
            None => Err(ServeError::Internal),
            Some(r) => if is_within(r, &p) {
                Ok(p)
            } else {
                Err(ServeError::Forbidden)
            },
        },
    }
}

} // verus!
