//! The score that ranks patients.
//!
//! A score weighs severity by 0.5, time waited by 0.3 and treatment time by
//! 0.2. Scores are kept as whole numbers of tenths of a point, so the three
//! weights are 5, 3 and 2 and no score is ever rounded: a patient with
//! severity 50 who has waited 30 ticks and needs 18 ticks of treatment
//! scores 376 tenths, that is 37.6 points.

use crate::patient::Patient;
use vstd::prelude::*;

verus! {

/// Score units per point.
pub const SCORE_SCALE: u128 = 10;

/// Weight of the severity, in score units per severity point.
pub const SEVERITY_RATIO: u128 = 5;

/// Weight of the time waited, in score units per tick.
pub const TIME_WAITED_RATIO: u128 = 3;

/// Weight of the treatment time, in score units per tick. The treatment time
/// is added, so of two otherwise equal patients the one with the longer
/// treatment ranks higher.
pub const SHORTEST_JOB_RATIO: u128 = 2;

/// The score of `patient`, in tenths of a point.
pub open spec fn position_score(patient: Patient) -> nat {
    (SEVERITY_RATIO * patient.severity_score + TIME_WAITED_RATIO * patient.time_waited
        + SHORTEST_JOB_RATIO * patient.time_to_treat) as nat
}

/// The three weights add up to one point.
pub proof fn lemma_weights_sum_to_one_point()
    ensures
        SEVERITY_RATIO + TIME_WAITED_RATIO + SHORTEST_JOB_RATIO == SCORE_SCALE,
{
}

/// The score is a function of severity, time waited and treatment time
/// alone: two patients that agree on these three score the same, whatever
/// their identifiers and arrival times.
pub proof fn lemma_score_depends_on_three_attributes(a: Patient, b: Patient)
    requires
        a.severity_score == b.severity_score,
        a.time_waited == b.time_waited,
        a.time_to_treat == b.time_to_treat,
    ensures
        position_score(a) == position_score(b),
{
}

/// With severity and treatment time fixed, a longer wait gives a strictly
/// higher score; each further tick adds 0.3 points.
pub proof fn lemma_score_grows_with_waiting(a: Patient, b: Patient)
    requires
        a.severity_score == b.severity_score,
        a.time_to_treat == b.time_to_treat,
        a.time_waited < b.time_waited,
    ensures
        position_score(a) < position_score(b),
        position_score(b) - position_score(a) == TIME_WAITED_RATIO * (b.time_waited
            - a.time_waited),
{
}

/// No attribute lowers the score: a patient who is at least as severe, has
/// waited at least as long and needs at least as long a treatment as another
/// scores at least as high.
pub proof fn lemma_score_is_monotone(a: Patient, b: Patient)
    requires
        a.severity_score <= b.severity_score,
        a.time_waited <= b.time_waited,
        a.time_to_treat <= b.time_to_treat,
    ensures
        position_score(a) <= position_score(b),
{
}

} // verus!
