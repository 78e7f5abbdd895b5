use rand::SeedableRng;
use rand_chacha::ChaCha8Rng;
use rand_distr::{Distribution, Uniform};
use triage_queue::patient::{
    PatientFactory, SEVERITY_END, SEVERITY_MIN, TIME_TO_TREAT_END, TIME_TO_TREAT_MIN,
};

const SEED: u64 = 123;

#[test]
fn test_create_patient() {
    let mut rng = ChaCha8Rng::seed_from_u64(SEED);
    let mut factory = PatientFactory::new();
    let pt = factory.create_patient(&mut rng, 10);

    assert!((0..100).contains(&pt.severity_score));
    assert_eq!(*&pt.time_waited, 0);
    assert!((15..60).contains(&pt.time_to_treat));
}

#[test]
fn created_patient_keeps_arrival_and_gets_first_identifier() {
    let mut rng = ChaCha8Rng::seed_from_u64(SEED);
    let mut factory = PatientFactory::new();
    let pt = factory.create_patient(&mut rng, 10);
    assert_eq!(pt.id, 0);
    assert_eq!(pt.time_of_arrival, 10);
}

#[test]
fn domain_bounds_are_as_documented() {
    assert_eq!(SEVERITY_MIN, 0);
    assert_eq!(SEVERITY_END, 100);
    assert_eq!(TIME_TO_TREAT_MIN, 15);
    assert_eq!(TIME_TO_TREAT_END, 60);
}

#[test]
fn identifiers_count_up_from_zero() {
    let mut rng = ChaCha8Rng::seed_from_u64(SEED);
    let mut factory = PatientFactory::new();
    for expected in 0..100u64 {
        let pt = if expected % 2 == 0 {
            factory.create_patient(&mut rng, expected)
        } else {
            factory.register(1, 20, expected)
        };
        assert_eq!(pt.id, expected);
        assert_eq!(pt.time_of_arrival, expected);
    }
}

#[test]
fn each_factory_counts_for_itself() {
    let mut first = PatientFactory::new();
    let mut second = PatientFactory::new();
    assert_eq!(first.register(5, 20, 0).id, 0);
    assert_eq!(first.register(5, 20, 0).id, 1);
    assert_eq!(second.register(5, 20, 0).id, 0);
    assert_eq!(first.register(5, 20, 0).id, 2);
}

#[test]
fn register_keeps_the_given_attributes() {
    let mut factory = PatientFactory::new();
    let pt = factory.register(42, 17, 300);
    assert_eq!(pt.id, 0);
    assert_eq!(pt.severity_score, 42);
    assert_eq!(pt.time_to_treat, 17);
    assert_eq!(pt.time_of_arrival, 300);
    assert_eq!(pt.time_waited, 0);
}

#[test]
fn register_does_not_check_the_domain() {
    let mut factory = PatientFactory::new();
    let pt = factory.register(1000, 3, u64::MAX);
    assert_eq!(pt.severity_score, 1000);
    assert_eq!(pt.time_to_treat, 3);
    assert_eq!(pt.time_of_arrival, u64::MAX);
}

#[test]
fn created_patients_stay_in_range_and_vary() {
    let mut rng = ChaCha8Rng::seed_from_u64(SEED);
    let mut factory = PatientFactory::new();
    let mut severities = Vec::new();
    let mut treatments = Vec::new();
    for tick in 0..500u64 {
        let pt = factory.create_patient(&mut rng, tick);
        assert!(pt.severity_score < 100);
        assert!(pt.time_to_treat >= 15 && pt.time_to_treat < 60);
        assert_eq!(pt.time_waited, 0);
        if !severities.contains(&pt.severity_score) {
            severities.push(pt.severity_score);
        }
        if !treatments.contains(&pt.time_to_treat) {
            treatments.push(pt.time_to_treat);
        }
    }
    // 500 uniform draws leave no value of either range out with any
    // probability worth mentioning; at the very least they are not constant.
    assert!(severities.len() > 50);
    assert!(treatments.len() > 30);
}

#[test]
fn same_seed_gives_the_same_patients() {
    let mut rng_a = ChaCha8Rng::seed_from_u64(SEED);
    let mut rng_b = ChaCha8Rng::seed_from_u64(SEED);
    let mut factory_a = PatientFactory::new();
    let mut factory_b = PatientFactory::new();
    for tick in 0..50u64 {
        let a = factory_a.create_patient(&mut rng_a, tick);
        let b = factory_b.create_patient(&mut rng_b, tick);
        assert_eq!(a.id, b.id);
        assert_eq!(a.severity_score, b.severity_score);
        assert_eq!(a.time_to_treat, b.time_to_treat);
    }
}

#[test]
fn severity_is_drawn_before_treatment_time() {
    let mut rng = ChaCha8Rng::seed_from_u64(SEED);
    let mut reference = ChaCha8Rng::seed_from_u64(SEED);
    let mut factory = PatientFactory::new();
    for tick in 0..20u64 {
        let pt = factory.create_patient(&mut rng, tick);
        let severity: u64 = Uniform::new(0, 100).sample(&mut reference);
        let treatment: u64 = Uniform::new(15, 60).sample(&mut reference);
        assert_eq!(pt.severity_score, severity);
        assert_eq!(pt.time_to_treat, treatment);
    }
}
