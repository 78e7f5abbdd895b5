//! The triage queue: patients enter with the score they have at that
//! moment, and leave in the order of treatment.

use crate::heap::{
    below_parent, heap_ordered, lemma_root_is_outranked_by_none, ordered_but_below, parent,
    sift_down, sift_up,
};
use crate::patient::Patient;
use crate::position::{lemma_tolerance_is_exact, tied, PatientPosition};
use crate::score::{position_score, SEVERITY_RATIO, SHORTEST_JOB_RATIO, TIME_WAITED_RATIO};
use vstd::multiset::{lemma_multiset_empty_len, Multiset};
use vstd::prelude::*;
use vstd::seq_lib::{
    to_multiset_build, to_multiset_contains, to_multiset_len, to_multiset_remove,
    to_multiset_update,
};

verus! {

/// The record that stands for `patient` in the queue: the patient's
/// identifier and current score.
pub open spec fn record_of(patient: Patient) -> PatientPosition {
    PatientPosition { id: patient.id, position_score: position_score(patient) as u128 }
}

/// A record carries the patient's identifier and exact score: no score is
/// too large for the record to hold.
pub proof fn lemma_record_keeps_score(patient: Patient)
    ensures
        record_of(patient).id == patient.id,
        record_of(patient).position_score == position_score(patient),
{
}

/// `top` is one of `records` and none of them outranks it.
pub open spec fn is_max(records: Multiset<PatientPosition>, top: PatientPosition) -> bool {
    &&& records.contains(top)
    &&& forall|other: PatientPosition| #[trigger] records.contains(other) ==> !other.outranks(top)
}

/// The record of `records` that is treated next, if there is any.
pub open spec fn max_of(records: Multiset<PatientPosition>) -> Option<PatientPosition> {
    if records.len() == 0 {
        None
    } else {
        Some(choose|top: PatientPosition| is_max(records, top))
    }
}

/// What is left of `records` once the record that is treated next has gone.
pub open spec fn rest_of(records: Multiset<PatientPosition>) -> Multiset<PatientPosition> {
    match max_of(records) {
        None => records,
        Some(top) => records.remove(top),
    }
}

/// What is left of `records` after `count` records have been treated.
pub open spec fn after_pops(records: Multiset<PatientPosition>, count: nat) -> Multiset<
    PatientPosition,
>
    decreases count,
{
    if count == 0 {
        records
    } else {
        after_pops(rest_of(records), (count - 1) as nat)
    }
}

/// At most one record can be the next to be treated.
pub proof fn lemma_max_is_unique(
    records: Multiset<PatientPosition>,
    a: PatientPosition,
    b: PatientPosition,
)
    requires
        is_max(records, a),
        is_max(records, b),
    ensures
        a == b,
{
}

/// Among any records, as long as there are some, one is the next to be
/// treated.
pub proof fn lemma_max_exists(records: Multiset<PatientPosition>)
    requires
        records.len() > 0,
    ensures
        exists|top: PatientPosition| is_max(records, top),
    decreases records.len(),
{
    broadcast use vstd::multiset::group_multiset_axioms;

    let one = records.choose();
    let others = records.remove(one);
    if others.len() == 0 {
        assert forall|other: PatientPosition| #[trigger]
            records.contains(other) implies !other.outranks(one) by {
            if other != one {
                assert(others.count(other) > 0);
            }
        }
        assert(is_max(records, one));
    } else {
        lemma_max_exists(others);
        let best = choose|top: PatientPosition| is_max(others, top);
        let top = if one.outranks(best) {
            one
        } else {
            best
        };
        assert forall|other: PatientPosition| #[trigger]
            records.contains(other) implies !other.outranks(top) by {
            if other != one {
                assert(others.contains(other));
            }
        }
        assert(is_max(records, top));
    }
}

/// The record that none of `records` outranks is the one `max_of` names.
pub proof fn lemma_max_of_is_the_max(records: Multiset<PatientPosition>, top: PatientPosition)
    requires
        is_max(records, top),
    ensures
        max_of(records) == Some(top),
        rest_of(records) == records.remove(top),
{
    broadcast use vstd::multiset::group_multiset_axioms;

    let chosen = choose|top: PatientPosition| is_max(records, top);
    lemma_max_is_unique(records, chosen, top);
}

/// A single queue of waiting patients, ordered by score. The patient with
/// the highest score is treated next; among patients with the same score,
/// the one with the lowest identifier.
#[derive(Debug)]
pub struct SchedulerSingleQueue {
    queue: Vec<PatientPosition>,
}

impl View for SchedulerSingleQueue {
    type V = Multiset<PatientPosition>;

    /// The records in the queue, each as often as it was pushed and not yet
    /// popped.
    closed spec fn view(&self) -> Multiset<PatientPosition> {
        self.queue@.to_multiset()
    }
}

impl SchedulerSingleQueue {
    /// The stored records form a heap. This holds of every queue at all
    /// times, so no operation asks for it.
    #[verifier::type_invariant]
    spec fn heap_intact(self) -> bool {
        heap_ordered(self.queue@)
    }

    /// An empty queue.
    pub fn new() -> (scheduler: SchedulerSingleQueue)
        ensures
            scheduler@ == Multiset::<PatientPosition>::empty(),
    {
        let scheduler = SchedulerSingleQueue { queue: Vec::new() };
        proof {
            to_multiset_len(scheduler.queue@);
            lemma_multiset_empty_len(scheduler@);
        }
        scheduler
    }

    /// Enters `patient` into the queue with the score the patient has now.
    /// The record keeps that score however long the patient waits.
    pub fn push(&mut self, patient: &Patient)
        ensures
            final(self)@ == old(self)@.insert(record_of(*patient)),
            final(self)@.len() == old(self)@.len() + 1,
    {
        proof {
            use_type_invariant(&*self);
        }
        let pt_score = self.calculate_position_score(patient);
        let record = PatientPosition { id: patient.id, position_score: pt_score };
        let mut heap: Vec<PatientPosition> = Vec::new();
        core::mem::swap(&mut heap, &mut self.queue);
        let ghost before = heap@;
        heap.push(record);
        let last: usize = heap.len() - 1;
        proof {
            to_multiset_build(before, record);
            assert forall|i: int| 0 < i < heap@.len() && i != last implies #[trigger] below_parent(
                heap@,
                i,
            ) by {
                assert(below_parent(before, i));
            }
        }
        sift_up(&mut heap, last);
        self.queue = heap;
    }

    /// The record that `pop_max` would return, which stays in the queue;
    /// `None` when the queue is empty.
    pub fn peek_max(&self) -> (top: Option<PatientPosition>)
        ensures
            top == max_of(self@),
            top is None <==> self@.len() == 0,
            top matches Some(record) ==> is_max(self@, record),
    {
        proof {
            use_type_invariant(&*self);
            to_multiset_len(self.queue@);
        }
        if self.queue.len() == 0 {
            None
        } else {
            let record = self.queue[0];
            proof {
                lemma_root_is_max(self.queue@);
                lemma_max_of_is_the_max(self@, record);
            }
            Some(record)
        }
    }

    /// Takes out the record that is treated next: the one with the highest
    /// score, and among those with the highest score the one with the lowest
    /// identifier. Returns `None`, and changes nothing, when the queue is
    /// empty.
    pub fn pop_max(&mut self) -> (top: Option<PatientPosition>)
        ensures
            top == max_of(old(self)@),
            final(self)@ == rest_of(old(self)@),
            top is None <==> old(self)@.len() == 0,
            top is None ==> final(self)@ == old(self)@,
            top matches Some(record) ==> {
                &&& is_max(old(self)@, record)
                &&& final(self)@ == old(self)@.remove(record)
                &&& final(self)@.len() == old(self)@.len() - 1
                &&& forall|other: PatientPosition| #[trigger]
                    old(self)@.contains(other) ==> other.position_score <= record.position_score
            },
    {
        proof {
            use_type_invariant(&*self);
            to_multiset_len(self.queue@);
        }
        if self.queue.len() == 0 {
            return None;
        }
        let mut heap: Vec<PatientPosition> = Vec::new();
        core::mem::swap(&mut heap, &mut self.queue);
        let ghost before = heap@;
        proof {
            lemma_root_is_max(before);
            lemma_max_of_is_the_max(before.to_multiset(), before[0]);
            lemma_root_removed(before);
        }
        let record = heap.swap_remove(0);
        if heap.len() > 0 {
            sift_down(&mut heap, 0);
        }
        proof {
            to_multiset_len(heap@);
        }
        self.queue = heap;
        Some(record)
    }

    /// The score that `patient` would enter the queue with, in tenths of a
    /// point: 5 for each point of severity, 3 for each tick waited and 2 for
    /// each tick of treatment. Neither the queue nor the patient changes.
    pub fn calculate_position_score(&self, patient: &Patient) -> (score: u128)
        ensures
            score == position_score(*patient),
    {
        patient.severity_score as u128 * SEVERITY_RATIO + patient.time_waited as u128
            * TIME_WAITED_RATIO + patient.time_to_treat as u128 * SHORTEST_JOB_RATIO
    }
}

/// In a non-empty heap the first record is the one that is treated next.
proof fn lemma_root_is_max(heap: Seq<PatientPosition>)
    requires
        heap_ordered(heap),
        heap.len() > 0,
    ensures
        is_max(heap.to_multiset(), heap[0]),
{
    to_multiset_contains(heap, heap[0]);
    assert(heap.contains(heap[0]));
    assert forall|other: PatientPosition| #[trigger]
        heap.to_multiset().contains(other) implies !other.outranks(heap[0]) by {
        to_multiset_contains(heap, other);
        let i = choose|i: int| 0 <= i < heap.len() && heap[i] == other;
        lemma_root_is_outranked_by_none(heap, i);
    }
}

/// Putting the last record of a heap in the place of the first and
/// shortening the heap by one takes out the first record and no other, and
/// leaves the heap order intact everywhere but below the first place.
proof fn lemma_root_removed(heap: Seq<PatientPosition>)
    requires
        heap_ordered(heap),
        heap.len() > 0,
    ensures
        heap.update(0, heap.last()).drop_last().to_multiset() == heap.to_multiset().remove(
            heap[0],
        ),
        heap.len() > 1 ==> ordered_but_below(heap.update(0, heap.last()).drop_last(), 0),
{
    broadcast use vstd::multiset::group_multiset_axioms;

    let moved = heap.update(0, heap.last());
    let shorter = moved.drop_last();
    to_multiset_update(heap, 0, heap.last());
    to_multiset_remove(moved, moved.len() - 1);
    to_multiset_contains(heap, heap[0]);
    to_multiset_contains(heap, heap.last());
    assert(heap.contains(heap[0]));
    assert(heap.contains(heap.last()));
    assert(shorter =~= moved.remove(moved.len() - 1));
    assert(shorter.to_multiset() =~= heap.to_multiset().remove(heap[0]));
    assert forall|i: int| 0 < i < shorter.len() && parent(i) != 0 implies #[trigger] below_parent(
        shorter,
        i,
    ) by {
        assert(below_parent(heap, i));
    }
}

/// A record that enters the queue is treated next if the queue was empty or
/// if it outranks the record that was next until then; otherwise that
/// record stays next.
pub proof fn lemma_max_after_push(records: Multiset<PatientPosition>, record: PatientPosition)
    ensures
        max_of(records.insert(record)) == match max_of(records) {
            None => Some(record),
            Some(top) => if record.outranks(top) {
                Some(record)
            } else {
                Some(top)
            },
        },
{
    broadcast use vstd::multiset::group_multiset_axioms;

    let grown = records.insert(record);
    if records.len() == 0 {
        lemma_multiset_empty_len(records);
        assert(is_max(grown, record));
        lemma_max_of_is_the_max(grown, record);
    } else {
        lemma_max_exists(records);
        let top = choose|top: PatientPosition| is_max(records, top);
        lemma_max_of_is_the_max(records, top);
        let next = if record.outranks(top) {
            record
        } else {
            top
        };
        assert forall|other: PatientPosition| #[trigger]
            grown.contains(other) implies !other.outranks(next) by {
            if other != record {
                assert(records.contains(other));
            }
        }
        assert(is_max(grown, next));
        lemma_max_of_is_the_max(grown, next);
    }
}

/// A patient pushed onto an empty queue is the next one popped, under the
/// same identifier and with the score the patient had when pushed; popping
/// leaves the queue empty again.
pub proof fn lemma_push_then_pop_on_empty(patient: Patient)
    ensures
        max_of(Multiset::empty().insert(record_of(patient))) == Some(record_of(patient)),
        record_of(patient).id == patient.id,
        rest_of(Multiset::empty().insert(record_of(patient))) == Multiset::<
            PatientPosition,
        >::empty(),
{
    broadcast use vstd::multiset::group_multiset_axioms;

    let record = record_of(patient);
    let records = Multiset::empty().insert(record);
    assert(is_max(records, record));
    lemma_max_of_is_the_max(records, record);
    assert(records.remove(record) =~= Multiset::<PatientPosition>::empty());
}

/// Each pop takes exactly one record out, as long as there is one.
pub proof fn lemma_pops_shrink(records: Multiset<PatientPosition>, count: nat)
    requires
        count <= records.len(),
    ensures
        after_pops(records, count).len() == records.len() - count,
    decreases count,
{
    broadcast use vstd::multiset::group_multiset_axioms;

    if count > 0 {
        lemma_max_exists(records);
        let top = choose|top: PatientPosition| is_max(records, top);
        lemma_max_of_is_the_max(records, top);
        assert(records.remove(top).len() == records.len() - 1);
        lemma_pops_shrink(rest_of(records), (count - 1) as nat);
    }
}

/// Popping as many records as the queue holds empties it, and after that
/// there is no record to pop or to peek at.
pub proof fn lemma_pops_drain(records: Multiset<PatientPosition>)
    ensures
        after_pops(records, records.len()) == Multiset::<PatientPosition>::empty(),
        max_of(after_pops(records, records.len())) is None,
        rest_of(after_pops(records, records.len())) == Multiset::<PatientPosition>::empty(),
{
    broadcast use vstd::multiset::group_multiset_axioms;

    lemma_pops_shrink(records, records.len());
    assert(after_pops(records, records.len()) =~= Multiset::<PatientPosition>::empty());
}

/// The record that is popped has the highest score in the queue.
pub proof fn lemma_max_has_highest_score(
    records: Multiset<PatientPosition>,
    other: PatientPosition,
)
    requires
        records.contains(other),
    ensures
        max_of(records) matches Some(top) && other.position_score <= top.position_score,
{
    broadcast use vstd::multiset::group_multiset_axioms;

    lemma_max_exists(records);
    let top = choose|top: PatientPosition| is_max(records, top);
    lemma_max_of_is_the_max(records, top);
}

/// Two waiting records whose scores are tied leave in the order of their
/// identifiers: the one with the higher identifier is not popped while the
/// other is still in the queue. Which record is popped depends on nothing
/// but the records in the queue.
pub proof fn lemma_ties_go_to_lower_id(
    records: Multiset<PatientPosition>,
    first: PatientPosition,
    second: PatientPosition,
)
    requires
        records.contains(first),
        records.contains(second),
        tied(first.position_score, second.position_score),
        first.id < second.id,
    ensures
        max_of(records) != Some(second),
{
    broadcast use vstd::multiset::group_multiset_axioms;

    lemma_tolerance_is_exact(first.position_score, second.position_score);
    lemma_max_exists(records);
    let top = choose|top: PatientPosition| is_max(records, top);
    lemma_max_of_is_the_max(records, top);
    assert(first.outranks(second));
}

} // verus!
