//! Listing a directory's immediate children as display entries.
//!
//! Each child is classified as a file or a directory and annotated with its
//! size: a file's own byte length, or a directory's aggregated total.  A
//! child of any other kind fails the whole listing — stricter than the
//! aggregator, which skips such children when they sit deeper in a subtree.

use vstd::prelude::*;
use crate::entry::{DuError, Entry, EntryKind};
use crate::tree::{FsChild, FsNode, dir_res, lemma_dir_res_bound, aggregate};

verus! {

/// The entry one child turns into, or the error that stops the listing:
/// an unreadable child or subtree is an I/O failure, a child that is
/// neither file nor directory an unsupported entry type, and a directory
/// whose total cannot be represented is reported as too large.
pub open spec fn entry_result(c: FsChild) -> Result<Entry, DuError> {
    match c.node {
        FsNode::File { size } => Ok(
            Entry { kind: EntryKind::File, path: c.path, size: Some(size) },
        ),
        FsNode::Dir { .. } => match dir_res(c.node) {
            Ok(v) => Ok(Entry { kind: EntryKind::Directory, path: c.path, size: Some(v as u64) }),
            Err(e) => Err(e),
        },
        FsNode::Other => Err(DuError::UnsupportedEntryType),
        FsNode::Unreadable => Err(DuError::Io),
    }
}

/// What listing a sequence of children returns: every child's entry in
/// listed order, or the error of the first child that fails.
pub open spec fn list_result(s: Seq<FsChild>) -> Result<Seq<Entry>, DuError>
    decreases s,
{
    if s.len() == 0 {
        Ok(Seq::<Entry>::empty())
    } else {
        match entry_result(s[0]) {
            Ok(e) => match list_result(s.drop_first()) {
                Ok(rest) => Ok(seq![e] + rest),
                Err(err) => Err(err),
            },
            Err(err) => Err(err),
        }
    }
}

/// What listing a node returns: only a directory can be listed; anything
/// else fails as an I/O error.
pub open spec fn node_list_result(n: FsNode) -> Result<Seq<Entry>, DuError> {
    match n {
        FsNode::Dir { children } => list_result(children@),
        _ => Err(DuError::Io),
    }
}

/// Lists the immediate children of a directory node, in listed order, each
/// classified and annotated with its size.  Fails with the error of the
/// first child that cannot be turned into an entry, and with `Io` when the
/// node itself is not a readable directory.
#[verifier::loop_isolation(false)]
pub fn list(n: &FsNode) -> (r: Result<Vec<Entry>, DuError>)
    ensures
        node_list_result(*n) is Ok ==> r is Ok && r->Ok_0@ == node_list_result(*n)->Ok_0,
        node_list_result(*n) is Err ==> r == Result::<Vec<Entry>, DuError>::Err(
            node_list_result(*n)->Err_0,
        ),
{
    match n {
        FsNode::Dir { children } => {
            let ghost s = children@;
            let mut out: Vec<Entry> = Vec::new();
            let mut i: usize = 0;
            proof {
                assert(s.subrange(0, s.len() as int) =~= s);
            }
            while i < children.len()
                invariant
                    i <= children.len(),
                    list_result(s) == (match list_result(
                        s.subrange(i as int, s.len() as int),
                    ) {
                        Ok(rest) => Ok::<Seq<Entry>, DuError>(out@ + rest),
                        Err(err) => Err(err),
                    }),
                decreases children.len() - i,
            {
                let ghost rest = s.subrange(i as int, s.len() as int);
                proof {
                    assert(rest.drop_first() =~= s.subrange(i + 1, s.len() as int));
                }
                let child = &children[i];
                let entry: Entry = match &child.node {
                    FsNode::File { size } => Entry {
                        kind: EntryKind::File,
                        path: child.path.clone(),
                        size: Some(*size),
                    },
                    FsNode::Dir { .. } => match aggregate(&child.node) {
                        Ok(total) => {
                            proof {
                                lemma_dir_res_bound(s[i as int].node);
                            }
                            Entry {
                                kind: EntryKind::Directory,
                                path: child.path.clone(),
                                size: Some(total),
                            }
                        },
                        Err(e) => {
                            return Err(e);
                        },
                    },
                    FsNode::Other => {
                        return Err(DuError::UnsupportedEntryType);
                    },
                    FsNode::Unreadable => {
                        return Err(DuError::Io);
                    },
                };
                let ghost prev = out@;
                out.push(entry);
                proof {
                    let rest2 = s.subrange(i + 1, s.len() as int);
                    if list_result(rest2) is Ok {
                        let r2 = list_result(rest2)->Ok_0;
                        assert(prev + (seq![entry] + r2) =~= out@ + r2);
                    }
                }
                i = i + 1;
            }
            proof {
                assert(s.subrange(s.len() as int, s.len() as int) =~= Seq::<FsChild>::empty());
                if list_result(s) is Ok {
                    assert(out@ + Seq::<Entry>::empty() =~= out@);
                }
            }
            Ok(out)
        },
        _ => Err(DuError::Io),
    }
}

/// Lists a directory node and sorts the entries into display order:
/// directories before files, larger first within one kind.  Fails exactly
/// as `list` does.
pub fn list_sorted(n: &FsNode) -> (r: Result<Vec<Entry>, DuError>)
    ensures
        node_list_result(*n) is Ok ==> r is Ok && r->Ok_0@ == crate::sorter::sort_spec(
            node_list_result(*n)->Ok_0,
        ),
        node_list_result(*n) is Err ==> r == Result::<Vec<Entry>, DuError>::Err(
            node_list_result(*n)->Err_0,
        ),
{
    match list(n) {
        Ok(entries) => Ok(crate::sorter::sort(&entries)),
        Err(e) => Err(e),
    }
}

} // verus!
