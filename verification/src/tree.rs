//! The modelled file tree and the size aggregator.
//!
//! The explorer's I/O shell walks the filesystem and hands the core a tree of
//! plain values: every node is a file with its byte length, a directory with
//! its children, an unsupported entry (device node, symlink, ...), or a node
//! whose metadata or listing could not be read.  Aggregation then sums the
//! file sizes of a directory's whole subtree.

use vstd::prelude::*;
use crate::entry::DuError;

verus! {

/// One child of a directory: the path it was found under, and its node.
pub struct FsChild {
    pub path: String,
    pub node: FsNode,
}

/// A node of the modelled file tree.
pub enum FsNode {
    /// A plain file with its metadata-reported byte length.
    File { size: u64 },
    /// A directory with its immediate children, in the order they were listed.
    Dir { children: Vec<FsChild> },
    /// An entry that is neither a file nor a directory.
    Other,
    /// An entry whose metadata, or a directory whose listing, could not be read.
    Unreadable,
}

/// The total byte size of a node: a file counts its length, a directory the
/// sum over its children; unsupported and unreadable nodes count zero.
pub open spec fn node_size(n: FsNode) -> nat
    decreases n,
{
    match n {
        FsNode::File { size } => size as nat,
        FsNode::Dir { children } => children_size(children@),
        FsNode::Other => 0,
        FsNode::Unreadable => 0,
    }
}

/// The sum of `node_size` over a sequence of children.
pub open spec fn children_size(s: Seq<FsChild>) -> nat
    decreases s,
{
    if s.len() == 0 {
        0
    } else {
        node_size(s[0].node) + children_size(s.drop_first())
    }
}

/// The height of a node: directories stand one above their tallest child,
/// leaves at zero.  It bounds the aggregator's recursion depth.
pub open spec fn node_height(n: FsNode) -> nat
    decreases n,
{
    match n {
        FsNode::Dir { children } => children_height(children@) + 1,
        _ => 0,
    }
}

/// The height of the tallest node among a sequence of children.
pub open spec fn children_height(s: Seq<FsChild>) -> nat
    decreases s,
{
    if s.len() == 0 {
        0
    } else {
        let h0 = node_height(s[0].node);
        let hr = children_height(s.drop_first());
        if h0 > hr {
            h0
        } else {
            hr
        }
    }
}

/// Every child's node stands no taller than the tallest of the sequence.
proof fn lemma_child_height(s: Seq<FsChild>, i: int)
    requires
        0 <= i < s.len(),
    ensures
        node_height(s[i].node) <= children_height(s),
    decreases s,
{
    if i == 0 {
    } else {
        lemma_child_height(s.drop_first(), i - 1);
    }
}

/// What aggregating a directory node returns: the left-to-right fold the
/// aggregator computes, with the error of the first child that fails.
/// `acc` is the running total; a step that would push it past `u64::MAX`
/// stops with `TooLarge`, an unreadable child with `Io`.  Children that are
/// neither files nor directories are skipped and count zero.
pub open spec fn sum_res(acc: nat, s: Seq<FsChild>) -> Result<nat, DuError>
    decreases s,
{
    if s.len() == 0 {
        Ok(acc)
    } else {
        match s[0].node {
            FsNode::File { size } => if acc + size <= u64::MAX {
                sum_res(acc + size as nat, s.drop_first())
            } else {
                Err(DuError::TooLarge)
            },
            FsNode::Dir { .. } => match dir_res(s[0].node) {
                Ok(d) => if acc + d <= u64::MAX {
                    sum_res(acc + d, s.drop_first())
                } else {
                    Err(DuError::TooLarge)
                },
                Err(e) => Err(e),
            },
            FsNode::Other => sum_res(acc, s.drop_first()),
            FsNode::Unreadable => Err(DuError::Io),
        }
    }
}

/// What aggregating a node returns: only a directory can be aggregated
/// (listing anything else fails as an I/O error), and its total is the fold
/// over its children starting from zero.
pub open spec fn dir_res(n: FsNode) -> Result<nat, DuError>
    decreases n,
{
    match n {
        FsNode::Dir { children } => sum_res(0, children@),
        _ => Err(DuError::Io),
    }
}

/// A successful fold stays within `u64::MAX` whenever it started there.
proof fn lemma_sum_res_bound(acc: nat, s: Seq<FsChild>)
    requires
        acc <= u64::MAX,
        sum_res(acc, s) is Ok,
    ensures
        sum_res(acc, s)->Ok_0 <= u64::MAX,
    decreases s,
{
    if s.len() == 0 {
    } else {
        match s[0].node {
            FsNode::File { size } => {
                lemma_sum_res_bound(acc + size as nat, s.drop_first());
            },
            FsNode::Dir { .. } => {
                let d = dir_res(s[0].node)->Ok_0;
                lemma_sum_res_bound(acc + d, s.drop_first());
            },
            FsNode::Other => {
                lemma_sum_res_bound(acc, s.drop_first());
            },
            FsNode::Unreadable => {},
        }
    }
}

/// A successful aggregation of a directory fits in a `u64`.
pub proof fn lemma_dir_res_bound(n: FsNode)
    requires
        dir_res(n) is Ok,
    ensures
        dir_res(n)->Ok_0 <= u64::MAX,
{
    match n {
        FsNode::Dir { children } => {
            lemma_sum_res_bound(0, children@);
        },
        _ => {},
    }
}

/// A successful fold returns its starting total plus the plain subtree sum.
proof fn lemma_sum_res_is_size(acc: nat, s: Seq<FsChild>)
    requires
        sum_res(acc, s) is Ok,
    ensures
        sum_res(acc, s)->Ok_0 == acc + children_size(s),
    decreases s,
{
    if s.len() == 0 {
    } else {
        match s[0].node {
            FsNode::File { size } => {
                lemma_sum_res_is_size(acc + size as nat, s.drop_first());
                assert(children_size(s) == node_size(s[0].node) + children_size(s.drop_first()));
            },
            FsNode::Dir { .. } => {
                lemma_sum_res_is_size(acc + dir_res(s[0].node)->Ok_0, s.drop_first());
                lemma_dir_res_is_size(s[0].node);
                assert(children_size(s) == node_size(s[0].node) + children_size(s.drop_first()));
            },
            FsNode::Other => {
                lemma_sum_res_is_size(acc, s.drop_first());
                assert(children_size(s) == node_size(s[0].node) + children_size(s.drop_first()));
            },
            FsNode::Unreadable => {},
        }
    }
}

/// When aggregation succeeds, it returns exactly the sum of the sizes of all
/// `File` nodes in the directory's subtree.
pub proof fn lemma_dir_res_is_size(n: FsNode)
    requires
        dir_res(n) is Ok,
    ensures
        dir_res(n)->Ok_0 == node_size(n),
    decreases n,
{
    match n {
        FsNode::Dir { children } => {
            lemma_sum_res_is_size(0, children@);
        },
        _ => {},
    }
}

/// Aggregates the total byte size of a directory node: files contribute
/// their length, subdirectories their own aggregate, other entries zero.
/// Fails with `Io` on the node itself not being a readable directory or on
/// the first unreadable descendant, and with `TooLarge` when the running
/// total would not fit in a `u64`.
#[verifier::loop_isolation(false)]
pub fn aggregate(n: &FsNode) -> (r: Result<u64, DuError>)
    ensures
        dir_res(*n) is Ok ==> r is Ok && r->Ok_0 as nat == dir_res(*n)->Ok_0,
        dir_res(*n) is Err ==> r == Result::<u64, DuError>::Err(dir_res(*n)->Err_0),
    decreases node_height(*n),
{
    match n {
        FsNode::Dir { children } => {
            let ghost s = children@;
            let mut total: u64 = 0;
            let mut i: usize = 0;
            proof {
                assert(s.subrange(0, s.len() as int) =~= s);
            }
            while i < children.len()
                invariant
                    i <= children.len(),
                    children@ == s,
                    sum_res(0, s) == sum_res(total as nat, s.subrange(i as int, s.len() as int)),
                decreases children.len() - i,
            {
                let ghost rest = s.subrange(i as int, s.len() as int);
                proof {
                    assert(rest.drop_first() =~= s.subrange(i + 1, s.len() as int));
                }
                match &children[i].node {
                    FsNode::File { size } => {
                        if *size > u64::MAX - total {
                            return Err(DuError::TooLarge);
                        }
                        total = total + *size;
                    },
                    FsNode::Dir { .. } => {
                        proof {
                            lemma_child_height(s, i as int);
                            assert(node_height(s[i as int].node) < node_height(*n));
                        }
                        let sub = aggregate(&children[i].node);
                        proof {
                            if dir_res(s[i as int].node) is Ok {
                                lemma_dir_res_bound(s[i as int].node);
                            }
                        }
                        match sub {
                            Ok(d) => {
                                if d > u64::MAX - total {
                                    return Err(DuError::TooLarge);
                                }
                                total = total + d;
                            },
                            Err(e) => {
                                return Err(e);
                            },
                        }
                    },
                    FsNode::Other => {},
                    FsNode::Unreadable => {
                        return Err(DuError::Io);
                    },
                }
                i = i + 1;
            }
            proof {
                assert(s.subrange(s.len() as int, s.len() as int) =~= Seq::<FsChild>::empty());
            }
            Ok(total)
        },
        _ => Err(DuError::Io),
    }
}

} // verus!
