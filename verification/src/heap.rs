//! A binary max-heap of records laid out in a vector: the record at index
//! `i` has its parent at index `(i - 1) / 2`, and no record outranks its
//! parent. The record that outranks all others is therefore at index 0.

use crate::position::PatientPosition;
use vstd::prelude::*;
use vstd::seq_lib::{to_multiset_contains, to_multiset_update};

verus! {

/// Index of the parent of the record at index `i > 0`.
pub(crate) open spec fn parent(i: int) -> int {
    (i - 1) / 2
}

/// The record at index `i` does not outrank its parent.
pub(crate) open spec fn below_parent(s: Seq<PatientPosition>, i: int) -> bool {
    !s[i].outranks(s[parent(i)])
}

/// The record at index `i` does not outrank its parent's parent.
pub(crate) open spec fn below_grandparent(s: Seq<PatientPosition>, i: int) -> bool {
    !s[i].outranks(s[parent(parent(i))])
}

/// No record outranks its parent.
pub(crate) open spec fn heap_ordered(s: Seq<PatientPosition>) -> bool {
    forall|i: int| 0 < i < s.len() ==> #[trigger] below_parent(s, i)
}

/// The heap order holds everywhere but, possibly, between the record at
/// `hole` and its parent; the children of `hole` do not outrank that parent.
pub(crate) open spec fn ordered_but_above(s: Seq<PatientPosition>, hole: int) -> bool {
    &&& forall|i: int| 0 < i < s.len() && i != hole ==> #[trigger] below_parent(s, i)
    &&& forall|i: int|
        0 < i < s.len() && parent(i) == hole && hole > 0 ==> #[trigger] below_grandparent(s, i)
}

/// The heap order holds everywhere but, possibly, between the record at
/// `hole` and its children; those children do not outrank the parent of
/// `hole`.
pub(crate) open spec fn ordered_but_below(s: Seq<PatientPosition>, hole: int) -> bool {
    &&& forall|i: int| 0 < i < s.len() && parent(i) != hole ==> #[trigger] below_parent(s, i)
    &&& forall|i: int|
        0 < i < s.len() && parent(i) == hole && hole > 0 ==> #[trigger] below_grandparent(s, i)
}

/// `s` with the records at `i` and `j` exchanged.
pub(crate) open spec fn exchanged(s: Seq<PatientPosition>, i: int, j: int) -> Seq<
    PatientPosition,
> {
    s.update(i, s[j]).update(j, s[i])
}

/// Exchanging two records changes their order, not which records there are.
pub(crate) proof fn lemma_exchange_keeps_records(s: Seq<PatientPosition>, i: int, j: int)
    requires
        0 <= i < s.len(),
        0 <= j < s.len(),
    ensures
        exchanged(s, i, j).to_multiset() == s.to_multiset(),
        exchanged(s, i, j).len() == s.len(),
{
    broadcast use vstd::multiset::group_multiset_axioms;

    let half = s.update(i, s[j]);
    to_multiset_update(s, i, s[j]);
    to_multiset_update(half, j, s[i]);
    to_multiset_contains(s, s[i]);
    to_multiset_contains(s, s[j]);
    assert(s.contains(s[i]));
    assert(s.contains(s[j]));
    assert(exchanged(s, i, j).to_multiset() =~= s.to_multiset());
}

/// In a heap no record outranks the one at index 0.
pub(crate) proof fn lemma_root_is_outranked_by_none(s: Seq<PatientPosition>, i: int)
    requires
        heap_ordered(s),
        0 <= i < s.len(),
    ensures
        !s[i].outranks(s[0]),
    decreases i,
{
    if i > 0 {
        assert(below_parent(s, i));
        lemma_root_is_outranked_by_none(s, parent(i));
    }
}

/// Moving a record that outranks its parent one level up keeps the heap
/// order everywhere but above the record's new place.
proof fn lemma_step_up(s: Seq<PatientPosition>, i: int)
    requires
        0 < i < s.len(),
        ordered_but_above(s, i),
        s[i].outranks(s[parent(i)]),
    ensures
        ordered_but_above(exchanged(s, i, parent(i)), parent(i)),
{
    let p = parent(i);
    let t = exchanged(s, i, p);
    assert forall|k: int| 0 < k < t.len() && k != p implies #[trigger] below_parent(t, k) by {
        if k == i {
        } else if parent(k) == i {
            assert(below_grandparent(s, k));
        } else {
            assert(below_parent(s, k));
        }
    }
    assert forall|k: int| 0 < k < t.len() && parent(k) == p && p > 0 implies #[trigger]
        below_grandparent(t, k) by {
        assert(below_parent(s, p));
        if k != i {
            assert(below_parent(s, k));
        }
    }
}

/// Moving a record that is outranked by its higher-ranking child one level
/// down keeps the heap order everywhere but below the record's new place.
proof fn lemma_step_down(s: Seq<PatientPosition>, i: int, c: int)
    requires
        0 <= i < c < s.len(),
        parent(c) == i,
        ordered_but_below(s, i),
        s[c].outranks(s[i]),
        forall|k: int| 0 < k < s.len() && parent(k) == i ==> !(#[trigger] s[k]).outranks(s[c]),
    ensures
        ordered_but_below(exchanged(s, i, c), c),
{
    let t = exchanged(s, i, c);
    assert forall|k: int| 0 < k < t.len() && parent(k) != c implies #[trigger] below_parent(
        t,
        k,
    ) by {
        if k == c {
        } else if parent(k) == i {
            assert(!s[k].outranks(s[c]));
        } else if k == i {
            assert(below_grandparent(s, c));
        } else {
            assert(below_parent(s, k));
        }
    }
    assert forall|k: int| 0 < k < t.len() && parent(k) == c && c > 0 implies #[trigger]
        below_grandparent(t, k) by {
        assert(below_parent(s, k));
    }
}

/// Restores the heap order after the record at `start` may have come to
/// outrank its parent, by moving it up as far as it belongs.
pub(crate) fn sift_up(heap: &mut Vec<PatientPosition>, start: usize)
    requires
        start < old(heap)@.len(),
        ordered_but_above(old(heap)@, start as int),
    ensures
        heap_ordered(final(heap)@),
        final(heap)@.to_multiset() == old(heap)@.to_multiset(),
        final(heap)@.len() == old(heap)@.len(),
{
    let ghost before = heap@;
    let mut i: usize = start;
    while i > 0
        invariant
            i < heap@.len(),
            heap@.len() == before.len(),
            heap@.to_multiset() == before.to_multiset(),
            ordered_but_above(heap@, i as int),
        ensures
            heap@.len() == before.len(),
            heap@.to_multiset() == before.to_multiset(),
            heap_ordered(heap@),
        decreases i,
    {
        let up: usize = (i - 1) / 2;
        let record = heap[i];
        let above = heap[up];
        if !record.has_priority_over(&above) {
            assert(below_parent(heap@, i as int));
            break ;
        }
        proof {
            lemma_exchange_keeps_records(heap@, i as int, up as int);
            lemma_step_up(heap@, i as int);
        }
        heap.set(i, above);
        heap.set(up, record);
        i = up;
    }
}

/// Restores the heap order after the record at `start` may have come to be
/// outranked by a child, by moving it down as far as it belongs.
pub(crate) fn sift_down(heap: &mut Vec<PatientPosition>, start: usize)
    requires
        start < old(heap)@.len(),
        ordered_but_below(old(heap)@, start as int),
    ensures
        heap_ordered(final(heap)@),
        final(heap)@.to_multiset() == old(heap)@.to_multiset(),
        final(heap)@.len() == old(heap)@.len(),
{
    let ghost before = heap@;
    let len: usize = heap.len();
    let mut i: usize = start;
    while i < len / 2
        invariant
            i < len,
            len == heap@.len(),
            heap@.len() == before.len(),
            heap@.to_multiset() == before.to_multiset(),
            ordered_but_below(heap@, i as int),
        ensures
            heap@.len() == before.len(),
            heap@.to_multiset() == before.to_multiset(),
            heap_ordered(heap@),
        decreases len - i,
    {
        let left: usize = 2 * i + 1;
        let right: usize = left + 1;
        let mut child: usize = left;
        if right < len {
            let r = heap[right];
            let l = heap[left];
            if r.has_priority_over(&l) {
                child = right;
            }
        }
        let record = heap[i];
        let below = heap[child];
        if !below.has_priority_over(&record) {
            assert forall|k: int| 0 < k < heap@.len() implies #[trigger] below_parent(heap@, k) by {
                if parent(k) == i as int {
                    assert(k == left || k == right);
                }
            }
            break ;
        }
        proof {
            assert forall|k: int| 0 < k < heap@.len() && parent(k) == i as int implies !(#[trigger]
            heap@[k]).outranks(heap@[child as int]) by {
                assert(k == left || k == right);
            }
            lemma_exchange_keeps_records(heap@, i as int, child as int);
            lemma_step_down(heap@, i as int, child as int);
        }
        heap.set(i, below);
        heap.set(child, record);
        i = child;
    }
}

} // verus!
