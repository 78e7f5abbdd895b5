use std::cmp::Ordering;
use triage_queue::position::{PatientPosition, TIES_PER_POINT};
use triage_queue::score::SCORE_SCALE;

fn record(id: u64, position_score: u128) -> PatientPosition {
    PatientPosition { id, position_score }
}

#[test]
fn tolerance_is_finer_than_one_score_unit() {
    assert_eq!(TIES_PER_POINT, 100_000);
    // One score unit is a tenth of a point; the tolerance is 0.00001 points.
    assert!(1 * TIES_PER_POINT >= SCORE_SCALE);
    assert!(0 * TIES_PER_POINT < SCORE_SCALE);
}

#[test]
fn records_with_the_same_score_are_equal() {
    assert!(record(1, 376) == record(2, 376));
    assert!(record(1, 0) == record(1, 0));
    assert!(!(record(1, 376) != record(2, 376)));
}

#[test]
fn records_one_unit_apart_are_not_equal() {
    assert!(record(1, 376) != record(1, 377));
    assert!(record(1, 377) != record(1, 376));
    assert!(!(record(5, 0) == record(5, 1)));
}

#[test]
fn equality_is_symmetric() {
    let low = record(1, 100);
    let high = record(2, 900);
    assert_eq!(low == high, high == low);
    assert!(low != high);
}

#[test]
fn partial_cmp_goes_by_score() {
    assert_eq!(record(1, 376).partial_cmp(&record(2, 377)), Some(Ordering::Less));
    assert_eq!(record(1, 377).partial_cmp(&record(2, 376)), Some(Ordering::Greater));
    assert_eq!(record(1, 376).partial_cmp(&record(2, 376)), Some(Ordering::Equal));
    assert_eq!(record(9, 0).partial_cmp(&record(3, u128::MAX)), Some(Ordering::Less));
    assert_eq!(record(9, u128::MAX).partial_cmp(&record(3, 0)), Some(Ordering::Greater));
}

#[test]
fn comparison_operators_go_by_score() {
    assert!(record(1, 10) < record(2, 11));
    assert!(record(1, 11) > record(2, 10));
    assert!(record(1, 10) <= record(2, 10));
    assert!(record(1, 10) >= record(2, 10));
    assert!(!(record(1, 10) < record(2, 10)));
    assert!(!(record(1, 10) > record(2, 10)));
}

#[test]
fn higher_score_has_priority() {
    assert!(record(9, 377).has_priority_over(&record(1, 376)));
    assert!(!record(1, 376).has_priority_over(&record(9, 377)));
}

#[test]
fn lower_identifier_has_priority_among_equal_scores() {
    assert!(record(1, 376).has_priority_over(&record(2, 376)));
    assert!(!record(2, 376).has_priority_over(&record(1, 376)));
}

#[test]
fn no_record_has_priority_over_itself() {
    let r = record(4, 250);
    assert!(!r.has_priority_over(&r));
    assert!(!r.has_priority_over(&record(4, 250)));
}

#[test]
fn of_two_different_records_exactly_one_has_priority() {
    let records = [record(1, 5), record(2, 5), record(1, 6), record(3, 0), record(0, u128::MAX)];
    for a in records.iter() {
        for b in records.iter() {
            let same = a.id == b.id && a.position_score == b.position_score;
            if same {
                assert!(!a.has_priority_over(b));
            } else {
                assert!(a.has_priority_over(b) != b.has_priority_over(a));
            }
        }
    }
}

#[test]
fn record_can_be_copied() {
    let r = record(3, 123);
    let copy = r;
    let clone = r.clone();
    assert_eq!(copy.id, 3);
    assert_eq!(clone.position_score, 123);
    assert_eq!(r.id, 3);
}
