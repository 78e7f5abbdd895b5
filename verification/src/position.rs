//! The record that stands for a patient in the queue, and how two records
//! compare.

use crate::score::SCORE_SCALE;
use std::cmp::Ordering;
use vstd::prelude::*;

verus! {

/// Two scores closer than one part in `TIES_PER_POINT` of a point are tied.
pub const TIES_PER_POINT: u128 = 100_000;

/// The two scores are less than 0.00001 points apart.
pub open spec fn tied(a: u128, b: u128) -> bool {
    if a <= b {
        (b - a) * TIES_PER_POINT < SCORE_SCALE
    } else {
        (a - b) * TIES_PER_POINT < SCORE_SCALE
    }
}

/// Score `a` is at least 0.00001 points below score `b`.
pub open spec fn clearly_below(a: u128, b: u128) -> bool {
    (b - a) * TIES_PER_POINT >= SCORE_SCALE
}

/// Scores are whole tenths of a point, which is coarser than the tolerance:
/// two scores are tied exactly when they are the same number, and one is
/// clearly below the other exactly when it is smaller.
pub proof fn lemma_tolerance_is_exact(a: u128, b: u128)
    ensures
        tied(a, b) <==> a == b,
        clearly_below(a, b) <==> a < b,
{
}

/// What the queue keeps of a patient: the identifier, and the score the
/// patient had when entering the queue, in tenths of a point.
#[derive(Debug, Clone, Copy)]
pub struct PatientPosition {
    pub id: u64,
    pub position_score: u128,
}

impl PartialEq for PatientPosition {
    /// Two records are equal when their scores are tied, whoever they
    /// belong to.
    fn eq(&self, other: &Self) -> (r: bool) {
        proof {
            lemma_tolerance_is_exact(self.position_score, other.position_score);
        }
        self.position_score == other.position_score
    }
}

impl vstd::std_specs::cmp::PartialEqSpecImpl for PatientPosition {
    open spec fn obeys_eq_spec() -> bool {
        true
    }

    open spec fn eq_spec(&self, other: &Self) -> bool {
        tied(self.position_score, other.position_score)
    }
}

impl Eq for PatientPosition {

}

impl PartialOrd for PatientPosition {
    /// Records compare by score alone: less or greater when the scores are
    /// clearly apart, equal when they are tied. Every pair is comparable.
    fn partial_cmp(&self, other: &Self) -> (r: Option<Ordering>) {
        proof {
            lemma_tolerance_is_exact(self.position_score, other.position_score);
            lemma_tolerance_is_exact(other.position_score, self.position_score);
        }
        if self.position_score < other.position_score {
            Some(Ordering::Less)
        } else if self.position_score > other.position_score {
            Some(Ordering::Greater)
        } else {
            Some(Ordering::Equal)
        }
    }
}

impl vstd::std_specs::cmp::PartialOrdSpecImpl for PatientPosition {
    open spec fn obeys_partial_cmp_spec() -> bool {
        true
    }

    open spec fn partial_cmp_spec(&self, other: &Self) -> Option<Ordering> {
        if clearly_below(self.position_score, other.position_score) {
            Some(Ordering::Less)
        } else if clearly_below(other.position_score, self.position_score) {
            Some(Ordering::Greater)
        } else {
            Some(Ordering::Equal)
        }
    }
}

impl PatientPosition {
    /// `self` is treated before `other`: its score is higher, or the scores
    /// are the same and its identifier is lower. Of two different records
    /// one always outranks the other.
    pub open spec fn outranks(self, other: PatientPosition) -> bool {
        ||| self.position_score > other.position_score
        ||| (self.position_score == other.position_score && self.id < other.id)
    }

    /// Whether `self` is treated before `other`.
    pub fn has_priority_over(&self, other: &PatientPosition) -> (yes: bool)
        ensures
            yes == self.outranks(*other),
    {
        self.position_score > other.position_score || (self.position_score
            == other.position_score && self.id < other.id)
    }
}

/// The treatment order follows the tolerance: a record outranks another when
/// the other's score is clearly below its own, or when the scores are tied
/// and its identifier is the lower one.
pub proof fn lemma_outranks_follows_tolerance(a: PatientPosition, b: PatientPosition)
    ensures
        a.outranks(b) <==> (clearly_below(b.position_score, a.position_score) || (tied(
            a.position_score,
            b.position_score,
        ) && a.id < b.id)),
{
    lemma_tolerance_is_exact(a.position_score, b.position_score);
    lemma_tolerance_is_exact(b.position_score, a.position_score);
}

/// The treatment order is a strict total order on records: nothing outranks
/// itself, no two records outrank each other, outranking carries over a
/// chain, and of two different records one outranks the other.
pub proof fn lemma_outranks_is_strict_total_order(
    a: PatientPosition,
    b: PatientPosition,
    c: PatientPosition,
)
    ensures
        !a.outranks(a),
        a.outranks(b) ==> !b.outranks(a),
        a.outranks(b) && b.outranks(c) ==> a.outranks(c),
        a != b ==> a.outranks(b) || b.outranks(a),
{
}

} // verus!
