//! The end-of-run statistics the reporter attaches to each extracted entry.
//!
//! The library hands back raw tick samples; the reporting side converts them
//! to nanoseconds and computes the arithmetic and geometric means with the
//! statistical crate, exactly as these tests do.

use hostcall_timing::store::TimingStore;
use statistical::mean;
use statistical::univariate::geometric_mean;

const CYCLES_PER_NS: f64 = 2.1;

#[test]
fn one_element_sample_set_means_equal_the_element() {
    let mut s = TimingStore::new();
    assert!(s.push_result("clock_time_get", 100, 121).is_ok());
    let entries = s.report_entries();
    assert_eq!(entries.len(), 1);
    let ns: Vec<f64> = entries[0]
        .samples
        .iter()
        .map(|&t| t as f64 / CYCLES_PER_NS)
        .collect();
    assert_eq!(ns.len(), 1);
    let element = ns[0];
    assert_eq!(mean(&ns), element);
    assert_eq!(geometric_mean(&ns), element);
}

#[test]
fn arithmetic_mean_of_one_two_three_is_two() {
    assert_eq!(mean(&[1.0, 2.0, 3.0]), 2.0);
}

#[test]
fn geometric_mean_of_all_ones_is_one() {
    assert_eq!(geometric_mean(&[1.0, 1.0, 1.0]), 1.0);
}

#[test]
fn geometric_mean_with_a_zero_sample_is_zero() {
    assert_eq!(geometric_mean(&[0.0, 5.0, 7.0]), 0.0);
}
