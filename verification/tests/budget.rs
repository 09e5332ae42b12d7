//! Budget admission and the deadline.

use runtime_trail::budget::QueryBudget;
use runtime_trail::result::{Dimension, Magnitude};
use runtime_trail::spend::ScanAllowance;
use std::time::{Duration, Instant};

fn budget() -> QueryBudget {
    QueryBudget::new(Duration::from_millis(10), 10, 512, 100, 4_096)
}

#[test]
fn admission_captures_the_deadline_and_remaining_is_measured_from_it() {
    let budget = budget();
    let earlier = Instant::now();
    let later = earlier + Duration::from_millis(5);
    let first = budget.admit_at(earlier);
    let second = budget.admit_at(later);

    let reading = later + Duration::from_millis(1);
    let first_remaining = first.deadline_remaining(reading);
    let second_remaining = second.deadline_remaining(reading);
    assert_eq!(first_remaining, Duration::from_millis(4));
    assert_eq!(second_remaining, Duration::from_millis(9));
    assert_eq!(
        second_remaining.checked_sub(first_remaining),
        Some(Duration::from_millis(5))
    );
    assert!(!first.deadline_exhausted(reading));
    assert_eq!(
        first.deadline_remaining(reading + Duration::from_millis(2)),
        Duration::from_millis(2)
    );
}

#[test]
fn deadline_refusals_name_the_dimension_limit_and_elapsed_spend() {
    let budget = budget();
    let admitted_at = Instant::now();
    let mut session = budget.admit_at(admitted_at);
    let late = admitted_at + Duration::from_millis(25);

    let ScanAllowance::Partial { granted, refusal } = session.allow_results(late, 5) else {
        panic!("work past the deadline must not be granted");
    };
    assert_eq!(granted, 0);
    assert_eq!(refusal.dimension, Dimension::Deadline);
    assert_eq!(
        refusal.limit,
        Magnitude::Duration(Duration::from_millis(10))
    );
    assert_eq!(
        refusal.observed,
        Magnitude::Duration(Duration::from_millis(25))
    );
    assert_eq!(session.ledger().remaining_results(), 10);

    let Err(refusal) = session.charge_aggregation_memory(late, 1) else {
        panic!("aggregation past the deadline must refuse");
    };
    assert_eq!(refusal.dimension, Dimension::Deadline);
    assert_eq!(
        refusal.limit,
        Magnitude::Duration(Duration::from_millis(10))
    );
    assert_eq!(
        refusal.observed,
        Magnitude::Duration(Duration::from_millis(25))
    );
    assert_eq!(session.ledger().remaining_aggregation_memory(), 4_096);
}

#[test]
fn a_real_deadline_expires_after_real_elapsed_time() {
    let budget = budget();
    let admitted_at = Instant::now();
    let session = budget.admit_at(admitted_at);
    assert_eq!(
        session.deadline_remaining(admitted_at),
        Duration::from_millis(10)
    );
    assert!(!session.deadline_exhausted(admitted_at));

    let mut now = Instant::now();
    while now < admitted_at + Duration::from_millis(30) {
        now = Instant::now();
    }
    assert!(session.deadline_exhausted(now));
    assert_eq!(session.deadline_remaining(now), Duration::ZERO);
}

#[test]
fn expiry_names_whichever_dimension_expired_first() {
    let budget = budget();
    let admitted_at = Instant::now();

    let mut spent = budget.admit_at(admitted_at);
    assert_eq!(
        spent.allow_scan(admitted_at, 100),
        ScanAllowance::Exact(100)
    );
    let Err(refusal) = spent.charge_scan_strict(admitted_at, 1) else {
        panic!("a strict charge past the spent scan ceiling must refuse");
    };
    assert_eq!(refusal.dimension, Dimension::Scan);
    assert_eq!(refusal.observed, Magnitude::Units(100));

    let late = admitted_at + Duration::from_millis(11);
    let mut expired = budget.admit_at(admitted_at);
    let Err(refusal) = expired.charge_scan_strict(late, 1) else {
        panic!("a strict charge past the deadline must refuse");
    };
    assert_eq!(refusal.dimension, Dimension::Deadline);
    let Err(refusal) = expired.charge_aggregation_memory(late, 1) else {
        panic!("a memory charge past the deadline must refuse");
    };
    assert_eq!(refusal.dimension, Dimension::Deadline);
    let ScanAllowance::Partial { granted, refusal } = expired.allow_bytes(late, 1) else {
        panic!("a byte ask past the deadline must degrade to nothing");
    };
    assert_eq!(granted, 0);
    assert_eq!(refusal.dimension, Dimension::Deadline);
    assert_eq!(expired.ledger().remaining_bytes(), 512);
}

#[test]
fn a_deadline_that_has_passed_stays_passed() {
    let admitted = Instant::now() + Duration::from_secs(5);
    let limit = Duration::from_millis(10);
    let session = QueryBudget::new(limit, 1, 1, 1, 1).admit_at(admitted);
    assert!(!session.deadline_exhausted(admitted - Duration::from_secs(1)));
    assert!(!session.deadline_exhausted(admitted));
    assert!(!session.deadline_exhausted(admitted + Duration::from_nanos(9_999_999)));
    assert!(session.deadline_exhausted(admitted + limit));
    assert!(session.deadline_exhausted(admitted + Duration::from_secs(1)));
    let none = QueryBudget::new(Duration::ZERO, 1, 1, 1, 1).admit_at(admitted);
    assert!(none.deadline_exhausted(admitted - Duration::from_secs(1)));
}
