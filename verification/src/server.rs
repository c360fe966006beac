//! The server's side: which paths a request may touch, and how a partial
//! read and a rename are worked out.

use vstd::prelude::*;
use crate::path::{join, join_path, parent, parent_spec, path_starts_with, starts_with};
use crate::range::{content_range, content_range_text, parse_range, parse_range_spec, RangeError};

verus! {

/// The directory whose tree the server serves.
pub const ROOT_DIR: &'static str = "/tmp/rfs_storage";

/// Why the path of a request is refused.
#[derive(Debug, Clone, Copy, PartialEq, Eq, Structural)]
pub enum PathError {
    /// Nothing is at the path.
    NotFound,
    /// The path leads out of the served directory.
    Traversal,
    /// The path or the root could not be resolved.
    Internal,
}

/// A path that a request may touch: once resolved, it lies within the
/// served directory, component by component.
pub struct SafePath {
    path: String,
    root: Ghost<Seq<char>>,
}

impl View for SafePath {
    type V = Seq<char>;

    closed spec fn view(&self) -> Seq<char> {
        self.path@
    }
}

impl SafePath {
    /// The path lies within the root it was checked against.
    #[verifier::type_invariant]
    closed spec fn within_root(self) -> bool {
        path_starts_with(self.path@, self.root@)
    }

    /// The resolved root directory that the path was checked against.
    pub closed spec fn root(&self) -> Seq<char> {
        self.root@
    }

    /// The path, in the served tree, that a request names by the path
    /// `relative`: `relative` joined to the served directory (an absolute
    /// `relative` replaces it, and the check that follows refuses it unless
    /// it leads into the served directory).
    pub fn candidate(relative: &str) -> (r: String)
        ensures
            r@ == join_path(ROOT_DIR@, relative@),
    {
        join(ROOT_DIR, relative)
    }

    /// Accepts the resolved path `canonical_path` where it lies within the
    /// resolved served directory `canonical_root`, component by component;
    /// refuses it as a traversal otherwise.
    pub fn from_canonical(canonical_path: String, canonical_root: &str) -> (r: Result<SafePath, PathError>)
        ensures
            match r {
                Ok(p) => p@ == canonical_path@ && p.root() == canonical_root@,
                Err(e) => e == PathError::Traversal && !path_starts_with(canonical_path@, canonical_root@),
            },
    {
        if starts_with(canonical_path.as_str(), canonical_root) {
            Ok(SafePath { path: canonical_path, root: Ghost(canonical_root@) })
        } else {
            Err(PathError::Traversal)
        }
    }

    /// The path, which lies within the directory it was checked against.
    pub fn into_inner(self) -> (r: String)
        ensures
            r@ == self@,
            path_starts_with(r@, self.root()),
    {
        proof {
            use_type_invariant(&self);
        }
        self.path
    }

    /// The path, which lies within the directory it was checked against.
    pub fn as_str(&self) -> (r: &str)
        ensures
            r@ == self@,
            path_starts_with(r@, self.root()),
    {
        proof {
            use_type_invariant(self);
        }
        self.path.as_str()
    }
}

/// The path to which a file is renamed: `new_name` joined to the file's
/// parent directory; `None` where the path has no parent.
pub open spec fn rename_target_spec(full_path: Seq<char>, new_name: Seq<char>) -> Option<Seq<char>> {
    match parent_spec(full_path) {
        Some(p) => Some(join_path(p, new_name)),
        None => None,
    }
}

/// The path to which the file at `full_path` is renamed when it is given the
/// name `new_name`.
pub fn rename_target(full_path: &str, new_name: &str) -> (r: Option<String>)
    ensures
        match r {
            Some(t) => rename_target_spec(full_path@, new_name@) == Some(t@),
            None => rename_target_spec(full_path@, new_name@) is None,
        },
{
    match parent(full_path) {
        Some(p) => Some(join(p.as_str(), new_name)),
        None => None,
    }
}

/// How the server answers a ranged read of a file: the first byte sent, the
/// number of bytes, and the `Content-Range` header.
#[derive(Debug)]
pub struct PartialRead {
    pub start: u64,
    pub end: u64,
    pub length: u64,
    pub content_range: String,
}

/// The answer to a ranged read of a file of `file_size` bytes with the
/// `Range` header `header`: the range that `parse_range` grants, its length
/// (both ends included) and its `Content-Range` header; or why the range is
/// refused.
pub fn partial_read(header: Option<&str>, file_size: u64) -> (r: Result<PartialRead, RangeError>)
    ensures
        match parse_range_spec(
            match header {
                Some(h) => Some(h@),
                None => None,
            },
            file_size,
        ) {
            Ok((start, end)) => r matches Ok(p) && p.start == start && p.end == end && p.length == end
                - start + 1 && p.content_range@ == content_range_text(start, end, file_size),
            Err(e) => r matches Err(f) && f == e,
        },
{
    match parse_range(header, file_size) {
        Err(e) => Err(e),
        Ok((start, end)) => {
            let length = end - start + 1;
            Ok(PartialRead { start, end, length, content_range: content_range(start, end, file_size) })
        },
    }
}

} // verus!
