//! The display order of a listing and the sorter that produces it.
//!
//! Entries are ordered with every directory before every file; within one
//! kind, larger entries come first, and a missing size counts as zero.  The
//! order is total, and the sorter is stable: entries that compare as equal
//! keep the order the listing gave them.

use vstd::prelude::*;
use vstd::seq_lib::lemma_multiset_commutative;
use vstd::multiset::Multiset;
use crate::entry::{Entry, EntryKind, entry_weight};

verus! {

/// The display order, pairwise: `a` may stand no later than `b`.
/// Directories precede files; within one kind, the heavier entry precedes.
pub open spec fn entry_le(a: Entry, b: Entry) -> bool {
    if a.kind == b.kind {
        entry_weight(a) >= entry_weight(b)
    } else {
        a.kind is Directory
    }
}

/// A sequence that stands in display order.
pub open spec fn sorted_le(s: Seq<Entry>) -> bool {
    forall|i: int, j: int| 0 <= i < j < s.len() ==> entry_le(s[i], s[j])
}

/// Where a stable insertion places `x`: before the first element that `x`
/// precedes or ties with, after everything it strictly follows.
pub open spec fn insert_sorted(x: Entry, s: Seq<Entry>) -> Seq<Entry>
    decreases s,
{
    if s.len() == 0 {
        seq![x]
    } else if entry_le(x, s[0]) {
        seq![x] + s
    } else {
        seq![s[0]] + insert_sorted(x, s.drop_first())
    }
}

/// The sorted permutation of a listing: insertion sort, element by element
/// from the front, which keeps tied entries in their listed order.
pub open spec fn sort_spec(s: Seq<Entry>) -> Seq<Entry>
    decreases s,
{
    if s.len() == 0 {
        s
    } else {
        insert_sorted(s[0], sort_spec(s.drop_first()))
    }
}

/// Insertion grows the sequence by one, and adds no element but `x`.
proof fn lemma_insert_sorted_elems(x: Entry, s: Seq<Entry>)
    ensures
        insert_sorted(x, s).len() == s.len() + 1,
        forall|k: int|
            0 <= k < insert_sorted(x, s).len() ==> (insert_sorted(x, s)[k] == x || s.contains(
                insert_sorted(x, s)[k],
            )),
    decreases s,
{
    if s.len() == 0 {
    } else if entry_le(x, s[0]) {
    } else {
        lemma_insert_sorted_elems(x, s.drop_first());
        let r = insert_sorted(x, s);
        let ins = insert_sorted(x, s.drop_first());
        assert forall|k: int| 0 <= k < r.len() implies (r[k] == x || s.contains(r[k])) by {
            if k == 0 {
                assert(s[0] == r[k]);
            } else {
                if ins[k - 1] != x {
                    let i = choose|i: int|
                        0 <= i < s.drop_first().len() && s.drop_first()[i] == ins[k - 1];
                    assert(s[i + 1] == ins[k - 1]);
                }
            }
        }
    }
}

/// Inserting into an ordered sequence keeps it ordered.
proof fn lemma_insert_sorted_sorted(x: Entry, s: Seq<Entry>)
    requires
        sorted_le(s),
    ensures
        sorted_le(insert_sorted(x, s)),
    decreases s,
{
    if s.len() == 0 {
    } else if entry_le(x, s[0]) {
        assert forall|k: int| 0 <= k < s.len() implies entry_le(x, s[k]) by {
            if k > 0 {
                assert(entry_le(s[0], s[k]));
            }
        }
    } else {
        assert(sorted_le(s.drop_first()));
        lemma_insert_sorted_sorted(x, s.drop_first());
        lemma_insert_sorted_elems(x, s.drop_first());
        let ins = insert_sorted(x, s.drop_first());
        assert(entry_le(s[0], x));
        assert forall|k: int| 0 <= k < ins.len() implies entry_le(s[0], ins[k]) by {
            if ins[k] != x {
                let i = choose|i: int|
                    0 <= i < s.drop_first().len() && s.drop_first()[i] == ins[k];
                assert(s[i + 1] == ins[k]);
                assert(entry_le(s[0], s[i + 1]));
            }
        }
        let r = seq![s[0]] + ins;
        assert forall|i: int, j: int| 0 <= i < j < r.len() implies entry_le(r[i], r[j]) by {
            if i > 0 {
                assert(entry_le(ins[i - 1], ins[j - 1]));
            }
        }
    }
}

/// Insertion adds exactly `x` to the sequence's contents.
proof fn lemma_insert_sorted_multiset(x: Entry, s: Seq<Entry>)
    ensures
        insert_sorted(x, s).to_multiset() == s.to_multiset().insert(x),
    decreases s,
{
    broadcast use vstd::seq_lib::group_to_multiset_ensures;

    if s.len() == 0 {
        assert(seq![x] =~= Seq::<Entry>::empty().push(x));
        assert(seq![x].to_multiset() =~= s.to_multiset().insert(x));
    } else if entry_le(x, s[0]) {
        lemma_multiset_commutative(seq![x], s);
        assert(seq![x].to_multiset() =~= Multiset::<Entry>::empty().insert(x));
        assert((seq![x] + s).to_multiset() =~= s.to_multiset().insert(x));
    } else {
        lemma_insert_sorted_multiset(x, s.drop_first());
        let ins = insert_sorted(x, s.drop_first());
        lemma_multiset_commutative(seq![s[0]], ins);
        lemma_multiset_commutative(seq![s[0]], s.drop_first());
        assert(s =~= seq![s[0]] + s.drop_first());
        assert(seq![s[0]].to_multiset() =~= Multiset::<Entry>::empty().insert(s[0]));
        assert((seq![s[0]] + ins).to_multiset() =~= s.to_multiset().insert(x));
    }
}

/// The sorter's output stands in display order: directories before files,
/// and within one kind the sizes descend.
pub proof fn lemma_sort_sorted(s: Seq<Entry>)
    ensures
        sorted_le(sort_spec(s)),
    decreases s,
{
    if s.len() == 0 {
    } else {
        lemma_sort_sorted(s.drop_first());
        lemma_insert_sorted_sorted(s[0], sort_spec(s.drop_first()));
    }
}

/// The sorter permutes its input: same entries, same counts, same length.
pub proof fn lemma_sort_permutes(s: Seq<Entry>)
    ensures
        sort_spec(s).to_multiset() == s.to_multiset(),
        sort_spec(s).len() == s.len(),
    decreases s,
{
    broadcast use vstd::seq_lib::group_to_multiset_ensures;

    if s.len() == 0 {
    } else {
        lemma_sort_permutes(s.drop_first());
        lemma_insert_sorted_multiset(s[0], sort_spec(s.drop_first()));
        lemma_insert_sorted_elems(s[0], sort_spec(s.drop_first()));
        lemma_multiset_commutative(seq![s[0]], s.drop_first());
        assert(s =~= seq![s[0]] + s.drop_first());
        assert(seq![s[0]].to_multiset() =~= Multiset::<Entry>::empty().insert(s[0]));
        assert(sort_spec(s).to_multiset() =~= s.to_multiset());
    }
}

/// Sorting an already-ordered sequence yields the same sequence.
pub proof fn lemma_sort_of_sorted_identity(s: Seq<Entry>)
    requires
        sorted_le(s),
    ensures
        sort_spec(s) == s,
    decreases s,
{
    if s.len() == 0 {
    } else {
        assert(sorted_le(s.drop_first()));
        lemma_sort_of_sorted_identity(s.drop_first());
        if s.drop_first().len() == 0 {
            assert(sort_spec(s) =~= s);
        } else {
            assert(entry_le(s[0], s.drop_first()[0]));
            assert(sort_spec(s) =~= s);
        }
    }
}

/// The sorter is idempotent: sorting twice is sorting once.
pub proof fn lemma_sort_idempotent(s: Seq<Entry>)
    ensures
        sort_spec(sort_spec(s)) == sort_spec(s),
{
    lemma_sort_sorted(s);
    lemma_sort_of_sorted_identity(sort_spec(s));
}

/// In any sorted output, two entries of the same kind stand with the
/// heavier one first.
pub proof fn lemma_sort_same_kind_descending(s: Seq<Entry>)
    ensures
        forall|i: int, j: int|
            0 <= i < j < sort_spec(s).len() && sort_spec(s)[i].kind == sort_spec(s)[j].kind
                ==> entry_weight(sort_spec(s)[i]) >= entry_weight(sort_spec(s)[j]),
{
    lemma_sort_sorted(s);
    assert forall|i: int, j: int|
        0 <= i < j < sort_spec(s).len() && sort_spec(s)[i].kind == sort_spec(
            s,
        )[j].kind implies entry_weight(sort_spec(s)[i]) >= entry_weight(sort_spec(s)[j]) by {
        assert(entry_le(sort_spec(s)[i], sort_spec(s)[j]));
    }
}

/// In any sorted output, every directory precedes every file.
pub proof fn lemma_sort_directories_first(s: Seq<Entry>)
    ensures
        forall|i: int, j: int|
            0 <= i < j < sort_spec(s).len() && sort_spec(s)[i].kind is File ==> sort_spec(
                s,
            )[j].kind is File,
{
    lemma_sort_sorted(s);
    assert forall|i: int, j: int|
        0 <= i < j < sort_spec(s).len() && sort_spec(s)[i].kind is File implies sort_spec(
        s,
    )[j].kind is File by {
        assert(entry_le(sort_spec(s)[i], sort_spec(s)[j]));
    }
}

/// Whether `a` may stand no later than `b` in the display order.
pub fn entry_le_exec(a: &Entry, b: &Entry) -> (r: bool)
    ensures
        r == entry_le(*a, *b),
{
    let wa: u64 = match a.size {
        Some(s) => s,
        None => 0,
    };
    let wb: u64 = match b.size {
        Some(s) => s,
        None => 0,
    };
    if a.kind == b.kind {
        wa >= wb
    } else {
        matches!(a.kind, EntryKind::Directory)
    }
}

/// Characterizes insertion by the position the scan finds: everything
/// before `j` strictly precedes `x`, and `x` goes in at `j`.
proof fn lemma_insert_sorted_at(x: Entry, s: Seq<Entry>, j: int)
    requires
        0 <= j <= s.len(),
        forall|k: int| 0 <= k < j ==> !entry_le(x, s[k]),
        j < s.len() ==> entry_le(x, s[j]),
    ensures
        insert_sorted(x, s) == s.subrange(0, j) + seq![x] + s.subrange(j, s.len() as int),
    decreases j,
{
    if j == 0 {
        if s.len() == 0 {
            assert(insert_sorted(x, s) =~= s.subrange(0, 0) + seq![x] + s.subrange(0, 0));
        } else {
            assert(insert_sorted(x, s) =~= s.subrange(0, 0) + seq![x] + s.subrange(
                0,
                s.len() as int,
            ));
        }
    } else {
        assert(!entry_le(x, s[0]));
        lemma_insert_sorted_at(x, s.drop_first(), j - 1);
        assert(insert_sorted(x, s) =~= s.subrange(0, j) + seq![x] + s.subrange(j, s.len() as int));
    }
}

/// Inserts `x` into an ordered vector at its display-order position,
/// keeping it after everything it ties with.
fn insert_exec(v: &mut Vec<Entry>, x: Entry)
    ensures
        final(v)@ == insert_sorted(x, old(v)@),
{
    let ghost s = v@;
    let mut j: usize = 0;
    while j < v.len() && !entry_le_exec(&x, &v[j])
        invariant
            j <= v.len(),
            v@ == s,
            forall|k: int| 0 <= k < j ==> !entry_le(x, s[k]),
        decreases v.len() - j,
    {
        j = j + 1;
    }
    proof {
        lemma_insert_sorted_at(x, s, j as int);
    }
    v.insert(j, x);
    proof {
        assert(v@ =~= s.subrange(0, j as int) + seq![x] + s.subrange(j as int, s.len() as int));
    }
}

/// Sorts a listing into display order.  The result is exactly the stable
/// sorted permutation `sort_spec` of the input.
pub fn sort(entries: &Vec<Entry>) -> (r: Vec<Entry>)
    ensures
        r@ == sort_spec(entries@),
{
    let ghost s = entries@;
    let mut r: Vec<Entry> = Vec::new();
    let mut i: usize = entries.len();
    proof {
        assert(s.subrange(s.len() as int, s.len() as int) =~= Seq::<Entry>::empty());
    }
    while i > 0
        invariant
            i <= entries.len(),
            entries@ == s,
            r@ == sort_spec(s.subrange(i as int, s.len() as int)),
        decreases i,
    {
        i = i - 1;
        let x = entries[i].clone();
        let ghost sub = s.subrange(i as int, s.len() as int);
        proof {
            assert(sub[0] == s[i as int]);
            assert(sub.drop_first() =~= s.subrange(i + 1, s.len() as int));
        }
        insert_exec(&mut r, x);
    }
    proof {
        assert(s.subrange(0, s.len() as int) =~= s);
    }
    r
}

} // verus!
