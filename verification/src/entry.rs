//! The listed entries: one immediate child of a directory, classified as a
//! file or a directory and annotated with its computed size.

use vstd::prelude::*;

verus! {

/// The kind of a listed entry: a plain file or a directory.
#[derive(Clone, Copy, PartialEq, Eq, Structural, Debug)]
pub enum EntryKind {
    File,
    Directory,
}

/// One immediate child of a listed directory: its kind, its path as handed
/// over by whoever walked the filesystem, and its size in bytes.  The size is
/// the file's own byte length for a file and the recursively aggregated total
/// for a directory; `None` marks a size that could not be determined.
#[derive(Debug, PartialEq, Eq)]
pub struct Entry {
    pub kind: EntryKind,
    pub path: String,
    pub size: Option<u64>,
}

impl Clone for Entry {
    fn clone(&self) -> (res: Self)
        ensures
            res == *self,
    {
        Entry { kind: self.kind, path: self.path.clone(), size: self.size }
    }
}

/// How listing or aggregating a directory can fail.
#[derive(Clone, Copy, PartialEq, Eq, Structural, Debug)]
pub enum DuError {
    /// A directory could not be listed, or an entry's metadata not read.
    Io,
    /// A top-level child is neither a file nor a directory.
    UnsupportedEntryType,
    /// A subtree's total byte size does not fit in a `u64`.
    TooLarge,
}

/// The size an entry counts for when ordered: a missing size counts as zero.
pub open spec fn entry_weight(e: Entry) -> nat {
    match e.size {
        Some(s) => s as nat,
        None => 0,
    }
}

} // verus!
