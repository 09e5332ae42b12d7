//! The budget of buffered request bodies.

use runtime_trail::transport_guard::{body_charge, charged_total, InflightBodyBudget};
use std::sync::Arc;

#[test]
fn the_gate_refuses_when_the_aggregate_would_exceed_the_ceiling() {
    let budget = Arc::new(InflightBodyBudget::new(1024));

    let first = budget.try_acquire(512).expect("half the budget is fine");
    assert_eq!(budget.in_flight(), 512);
    // 512 + 768 already exceeds 1024, so the second charge must be refused.
    assert!(
        budget.try_acquire(768).is_none(),
        "the aggregate may not pass the ceiling"
    );
    let second = budget
        .try_acquire(512)
        .expect("a second charge can still fit");
    assert_eq!(budget.in_flight(), 512 + 512);
    // The aggregate is now at 1024, exactly the ceiling: no further room.
    assert!(
        budget.try_acquire(1).is_none(),
        "no further buffering once the aggregate is at the ceiling"
    );

    // Letting go returns the headroom: the same charge now fits.
    drop(first);
    assert_eq!(budget.in_flight(), 512);
    let again = budget
        .try_acquire(256)
        .expect("released headroom is reusable");
    assert_eq!(budget.in_flight(), 512 + 256);

    drop(second);
    drop(again);
    assert_eq!(budget.in_flight(), 0, "every acquired byte is returned");
}

#[test]
fn a_charge_over_the_ceiling_cannot_round_trip() {
    let budget = Arc::new(InflightBodyBudget::new(1024));
    assert!(
        budget.try_acquire(1025).is_none(),
        "a single body buffering more than the whole budget is refused"
    );
    assert_eq!(budget.in_flight(), 0);
}

#[test]
fn a_charge_can_be_given_back_by_hand() {
    let budget = Arc::new(InflightBodyBudget::new(100));
    assert_eq!(budget.ceiling_bytes(), 100);
    let held = budget.try_acquire(60).expect("it fits");
    std::mem::forget(held);
    assert_eq!(budget.in_flight(), 60);
    budget.release(60);
    assert_eq!(budget.in_flight(), 0);
    assert!(budget.try_acquire(100).is_some());
}

#[test]
fn a_total_that_cannot_be_counted_is_refused() {
    assert_eq!(charged_total(10, 20, 30), Some(30));
    assert_eq!(charged_total(10, 21, 30), None);
    assert_eq!(charged_total(usize::MAX, 1, usize::MAX), None);
}

#[test]
fn an_honest_length_is_charged_and_any_other_is_charged_as_the_ceiling() {
    assert_eq!(body_charge(Some(7), 100), 7);
    assert_eq!(body_charge(Some(100), 100), 100);
    assert_eq!(body_charge(Some(101), 100), 100);
    assert_eq!(body_charge(None, 100), 100);
}

#[test]
fn the_total_is_the_sum_of_the_charges_held() {
    let budget = Arc::new(InflightBodyBudget::new(100));
    assert_eq!(budget.in_flight(), 0);
    let mut held = Vec::new();
    for charge in [40_usize, 30, 20] {
        held.push(budget.try_acquire(charge).expect("the charge fits"));
    }
    assert_eq!(budget.in_flight(), 90);
    assert!(budget.try_acquire(11).is_none());
    assert_eq!(budget.in_flight(), 90, "a refused charge leaves the total");
    drop(held.remove(1));
    assert_eq!(budget.in_flight(), 60);
    let again = budget.try_acquire(30).expect("what was given back fits again");
    assert_eq!(budget.in_flight(), 90);
    drop(again);
    drop(held);
    assert_eq!(budget.in_flight(), 0);
    assert_eq!(budget.ceiling_bytes(), 100);
}
