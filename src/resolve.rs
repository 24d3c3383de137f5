//! Confinement of requested names to the storage root.
//!
//! A requested name is first checked to be a single leaf name, so that the
//! joined path is a direct child of the root; the caller then confirms on
//! the filesystem that the joined path's parent is the root directory
//! itself and that the object exists.
use vstd::prelude::*;
use vstd::string::StrSliceExecFns;
use vstd::string::StringExecFns;

verus! {

/// Why a requested name does not resolve. Callers answer both alike.
#[derive(Debug, Clone, Copy, PartialEq, Eq, Structural)]
pub enum ResolveError {
    /// The name could lead outside the storage root.
    Rejected,
    /// No object has that name.
    NotFound,
}

/// A single path component naming an entry of a directory: not empty, no
/// separator, and not one of the directory links `.` and `..`.
pub open spec fn is_leaf_name(n: Seq<char>) -> bool {
    &&& n.len() > 0
    &&& forall|i: int| 0 <= i < n.len() ==> n[i] != '/'
    &&& n != seq!['.']
    &&& n != seq!['.', '.']
}

/// The path of `name` under `root`, if `name` is a leaf name.
pub fn resolve_leaf(root: &str, name: &str) -> (r: Result<String, ResolveError>)
    ensures
        is_leaf_name(name@) ==> r is Ok && r->Ok_0@ == root@ + seq!['/'] + name@,
        !is_leaf_name(name@) ==> r == Err::<String, ResolveError>(ResolveError::Rejected),
{
    let n = name.unicode_len();
    if n == 0 {
        return Err(ResolveError::Rejected);
    }
    let mut i: usize = 0;
    while i < n
        invariant
            n == name@.len(),
            i <= n,
            forall|j: int| 0 <= j < i ==> name@[j] != '/',
        decreases n - i,
    {
        if name.get_char(i) == '/' {
            return Err(ResolveError::Rejected);
        }
        i = i + 1;
    }
    let first = name.get_char(0);
    if n == 1 && first == '.' {
        assert(name@ =~= seq!['.']);
        return Err(ResolveError::Rejected);
    }
    if n == 2 && first == '.' && name.get_char(1) == '.' {
        assert(name@ =~= seq!['.', '.']);
        return Err(ResolveError::Rejected);
    }
    assert(name@ != seq!['.']);
    assert(name@ != seq!['.', '.']);
    proof {
        reveal_strlit("/");
    }
    let mut r = String::from_str(root);
    r.append("/");
    r.append(name);
    Ok(r)
}

/// The verdict on a leaf name once the filesystem has answered.
pub open spec fn verdict(parent_is_root: bool, exists: bool) -> Result<(), ResolveError> {
    if !parent_is_root {
        Err(ResolveError::Rejected)
    } else if !exists {
        Err(ResolveError::NotFound)
    } else {
        Ok(())
    }
}

/// Verdict once the filesystem has been asked whether the joined path's
/// parent is the storage root itself and whether the object exists.
pub fn confirm_resolution(parent_is_root: bool, exists: bool) -> (r: Result<(), ResolveError>)
    ensures
        r == verdict(parent_is_root, exists),
{
    if !parent_is_root {
        Err(ResolveError::Rejected)
    } else if !exists {
        Err(ResolveError::NotFound)
    } else {
        Ok(())
    }
}

/// A requested name that holds `../` anywhere is never a leaf name, so it
/// is rejected before any file is opened.
pub proof fn law_traversal_rejected(name: Seq<char>)
    requires
        exists|i: int| 0 <= i && i + 3 <= name.len() && #[trigger] name.subrange(i, i + 3) == seq!['.', '.', '/'],
    ensures
        !is_leaf_name(name),
{
    let i = choose|i: int| 0 <= i && i + 3 <= name.len() && #[trigger] name.subrange(i, i + 3) == seq!['.', '.', '/'];
    assert(name.subrange(i, i + 3)[2] == name[i + 2]);
}

} // verus!
