//! The spend ledger, on concrete charges.

use runtime_trail::result::{BudgetRefusal, Dimension, Magnitude};
use runtime_trail::spend::{ScanAllowance, SpendLedger};


fn ledger() -> SpendLedger {
    SpendLedger::new(10, 512, 100, 4_096)
}

#[test]
fn refusals_name_dimension_limit_and_observed_in_the_right_magnitude() {
    let mut ledger = ledger();
    let Err(refusal) = ledger.charge_scan_strict(150) else {
        panic!("a scan charge past an untouched limit must refuse");
    };
    assert_eq!(refusal.dimension, Dimension::Scan);
    assert_eq!(refusal.limit, Magnitude::Units(100));
    assert_eq!(refusal.observed, Magnitude::Units(0));

    assert_eq!(ledger.charge_scan_strict(60), Ok(()));
    let Err(refusal) = ledger.charge_scan_strict(50) else {
        panic!("a scan charge past the remaining allowance must refuse");
    };
    assert_eq!(refusal.dimension, Dimension::Scan);
    assert_eq!(refusal.limit, Magnitude::Units(100));
    assert_eq!(refusal.observed, Magnitude::Units(60));

    assert_eq!(ledger.allow_bytes(512), ScanAllowance::Exact(512));
    let ScanAllowance::Partial { refusal, .. } = ledger.allow_bytes(1) else {
        panic!("a byte ask past the exhausted dimension must degrade");
    };
    assert_eq!(refusal.dimension, Dimension::Bytes);
    assert_eq!(refusal.limit, Magnitude::Bytes(512));
    assert_eq!(refusal.observed, Magnitude::Bytes(512));
}

#[test]
fn traversal_partial_grants_take_exactly_the_remaining_allowance() {
    let mut ledger = ledger();
    assert_eq!(ledger.allow_results(4), ScanAllowance::Exact(4));
    assert_eq!(ledger.remaining_results(), 6);
    let ScanAllowance::Partial { granted, refusal } = ledger.allow_results(25) else {
        panic!("an ask past the remaining allowance must degrade");
    };
    assert_eq!(granted, 6);
    assert_eq!(refusal.dimension, Dimension::Results);
    assert_eq!(refusal.limit, Magnitude::Units(10));
    assert_eq!(refusal.observed, Magnitude::Units(10));
    assert_eq!(ledger.remaining_results(), 0);

    assert_eq!(ledger.allow_scan(15), ScanAllowance::Exact(15));
    let ScanAllowance::Partial { granted, .. } = ledger.allow_scan(1_000) else {
        panic!("an ask past the remaining allowance must degrade");
    };
    assert_eq!(granted, 85);
    assert_eq!(ledger.remaining_scan(), 0);
}

#[test]
fn aggregation_charges_refuse_and_leave_the_ledger_unchanged() {
    let mut ledger = ledger();
    assert_eq!(ledger.charge_aggregation_memory(4_000), Ok(()));
    assert_eq!(ledger.remaining_aggregation_memory(), 96);
    let Err(refusal) = ledger.charge_aggregation_memory(97) else {
        panic!("a memory charge past the remaining allowance must refuse");
    };
    assert_eq!(refusal.dimension, Dimension::AggregationMemory);
    assert_eq!(refusal.limit, Magnitude::Bytes(4_096));
    assert_eq!(refusal.observed, Magnitude::Bytes(4_000));
    assert_eq!(ledger.remaining_aggregation_memory(), 96);

    assert_eq!(ledger.charge_scan_strict(60), Ok(()));
    let Err(refusal) = ledger.charge_scan_strict(41) else {
        panic!("a strict scan charge past the remaining allowance must refuse");
    };
    assert_eq!(refusal.dimension, Dimension::Scan);
    assert_eq!(refusal.limit, Magnitude::Units(100));
    assert_eq!(refusal.observed, Magnitude::Units(60));
    assert_eq!(ledger.remaining_scan(), 40);
}

#[test]
fn identical_charge_sequences_produce_identical_outcomes() {
    fn run_script() -> (Vec<ScanAllowance>, Vec<Result<(), BudgetRefusal>>, [u64; 4]) {
        let mut ledger = SpendLedger::new(10, 512, 100, 4_096);
        let allowances = vec![
            ledger.allow_results(4),
            ledger.allow_bytes(400),
            ledger.allow_scan(60),
            ledger.allow_results(25),
            ledger.allow_bytes(200),
            ledger.allow_scan(1_000),
            ledger.allow_results(0),
        ];
        let charges = vec![
            ledger.charge_aggregation_memory(4_000),
            ledger.charge_scan_strict(20),
            ledger.charge_aggregation_memory(200),
            ledger.charge_scan_strict(1_000),
        ];
        let remaining = [
            ledger.remaining_results(),
            ledger.remaining_bytes(),
            ledger.remaining_scan(),
            ledger.remaining_aggregation_memory(),
        ];
        (allowances, charges, remaining)
    }

    assert_eq!(run_script(), run_script());
    assert_eq!(run_script(), run_script());
}

#[test]
fn a_zero_ask_on_an_exhausted_dimension_is_truthful_per_shape() {
    let mut ledger = ledger();
    assert_eq!(ledger.allow_bytes(512), ScanAllowance::Exact(512));
    assert_eq!(ledger.remaining_bytes(), 0);
    assert_eq!(ledger.allow_bytes(0), ScanAllowance::Exact(0));
    assert_eq!(ledger.remaining_bytes(), 0);
    let ScanAllowance::Partial { granted, refusal } = ledger.allow_bytes(7) else {
        panic!("a positive ask past the exhausted dimension must degrade");
    };
    assert_eq!(granted, 0);
    assert_eq!(refusal.dimension, Dimension::Bytes);
    assert_eq!(refusal.limit, Magnitude::Bytes(512));
    assert_eq!(refusal.observed, Magnitude::Bytes(512));

    assert_eq!(ledger.charge_scan_strict(100), Ok(()));
    let Err(refusal) = ledger.charge_scan_strict(0) else {
        panic!("aggregation may not continue on an exhausted ceiling, even for zero");
    };
    assert_eq!(refusal.dimension, Dimension::Scan);
    assert_eq!(refusal.limit, Magnitude::Units(100));
    assert_eq!(refusal.observed, Magnitude::Units(100));
}
