//! The values that travel between producers, the orchestrator and
//! consumers.

use vstd::prelude::*;

verus! {

/// An entry of a directory listing: a file, or a directory to descend into.
pub enum DirContent {
    File(String),
    Dir(String),
}

impl DirContent {
    /// The path that the entry names, whatever its kind.
    pub open spec fn path_string(self) -> String {
        match self {
            DirContent::File(path) => path,
            DirContent::Dir(path) => path,
        }
    }

    /// The entry's path.
    pub fn path(&self) -> (p: &String)
        ensures
            *p == self.path_string(),
    {
        match self {
            DirContent::File(path) => path,
            DirContent::Dir(path) => path,
        }
    }

    /// The entry's path, taken out of the entry.
    pub fn into_path(self) -> (p: String)
        ensures
            p == self.path_string(),
    {
        match self {
            DirContent::File(path) => path,
            DirContent::Dir(path) => path,
        }
    }

    /// Whether the entry is a directory.
    pub fn is_dir(&self) -> (b: bool)
        ensures
            b == (*self is Dir),
    {
        match self {
            DirContent::File(_) => false,
            DirContent::Dir(_) => true,
        }
    }
}

impl Clone for DirContent {
    fn clone(&self) -> (r: Self)
        ensures
            r == *self,
    {
        match self {
            DirContent::File(path) => DirContent::File(path.clone()),
            DirContent::Dir(path) => DirContent::Dir(path.clone()),
        }
    }
}

/// What the file system says a path is at the moment it is looked at
/// (following symbolic links): a regular file, a directory, or neither
/// (gone, a dangling link, or unreadable).
pub enum EntryKind {
    File,
    Directory,
    Other,
}

/// A reported hit: the path that matched and whether it is a directory.
pub struct SearchMatch {
    pub path: String,
    pub is_directory: bool,
}

} // verus!
