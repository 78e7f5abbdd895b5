//! Patients and the factory that registers them.

use crate::sampling::sample_uniform;
use vstd::prelude::*;

verus! {

/// Lowest severity a generated patient can have.
pub const SEVERITY_MIN: u64 = 0;

/// Exclusive upper bound of the severity of a generated patient.
pub const SEVERITY_END: u64 = 100;

/// Shortest treatment time, in ticks, of a generated patient.
pub const TIME_TO_TREAT_MIN: u64 = 15;

/// Exclusive upper bound of the treatment time of a generated patient.
pub const TIME_TO_TREAT_END: u64 = 60;

/// A patient waiting for, or undergoing, treatment. Times are in ticks.
#[derive(Debug)]
pub struct Patient {
    pub id: u64,
    pub severity_score: u64,
    pub time_of_arrival: u64,
    pub time_waited: u64,
    pub time_to_treat: u64,
}

impl Patient {
    /// The ranges every generated patient lies in: severity in `[0, 100)` and
    /// treatment time in `[15, 60)`.
    pub open spec fn in_domain(&self) -> bool {
        &&& SEVERITY_MIN <= self.severity_score < SEVERITY_END
        &&& TIME_TO_TREAT_MIN <= self.time_to_treat < TIME_TO_TREAT_END
    }
}

/// The identifier that follows `id`. Identifiers wrap around after
/// `u64::MAX`.
pub open spec fn id_after(id: u64) -> u64 {
    if id == u64::MAX {
        0
    } else {
        (id + 1) as u64
    }
}

/// Hands out patient identifiers in increasing order, starting over at 0
/// once `u64::MAX` has been given out, and builds the patients that carry
/// them.
pub struct PatientFactory {
    next_id: u64,
}

impl PatientFactory {
    /// The identifier that the next patient will get.
    pub closed spec fn next_id(&self) -> u64 {
        self.next_id
    }

    /// A factory whose first patient gets identifier 0.
    pub fn new() -> (factory: PatientFactory)
        ensures
            factory.next_id() == 0,
    {
        PatientFactory { next_id: 0 }
    }

    /// Registers a patient whose severity and treatment time are already
    /// known. The patient gets the next identifier and has not waited yet.
    /// Severity and treatment time are taken as they are, in or out of the
    /// ranges of a generated patient.
    pub fn register(
        &mut self,
        severity_score: u64,
        time_to_treat: u64,
        time_of_arrival: u64,
    ) -> (patient: Patient)
        ensures
            patient == (Patient {
                id: old(self).next_id(),
                severity_score,
                time_of_arrival,
                time_waited: 0,
                time_to_treat,
            }),
            final(self).next_id() == id_after(old(self).next_id()),
    {
        let id = self.next_id;
        self.next_id = id.wrapping_add(1);
        Patient { id, severity_score, time_of_arrival, time_waited: 0, time_to_treat }
    }

    /// Registers a patient with a random severity and a random treatment
    /// time, drawn in that order from `rng`.
    ///
    /// Which severity and treatment time are drawn is up to the generator;
    /// whatever it yields, the patient lies in the documented ranges, has
    /// not waited yet, and carries the next identifier.
    pub fn create_patient(
        &mut self,
        rng: &mut rand_chacha::ChaCha8Rng,
        time_of_arrival: u64,
    ) -> (patient: Patient)
        ensures
            patient.in_domain(),
            patient.id == old(self).next_id(),
            patient.time_of_arrival == time_of_arrival,
            patient.time_waited == 0,
            final(self).next_id() == id_after(old(self).next_id()),
    {
        let severity_score = sample_uniform(rng, SEVERITY_MIN, SEVERITY_END);
        let time_to_treat = sample_uniform(rng, TIME_TO_TREAT_MIN, TIME_TO_TREAT_END);
        self.register(severity_score, time_to_treat, time_of_arrival)
    }
}

} // verus!
