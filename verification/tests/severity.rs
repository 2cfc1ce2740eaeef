//! Typical values.

use oxmgr::reading::Reading;
use oxmgr::severity::{
    typical_from_samples, Middle, Typical, TypicalUnavailable, DEFAULT_BAND_HYSTERESIS_PERCENT,
    DEFAULT_CRITICAL_PERCENT, DEFAULT_WARNING_PERCENT, MINIMUM_TYPICAL_SAMPLES,
};

fn readings(values: &[f64]) -> Vec<Reading> {
    values
        .iter()
        .map(|value| Reading { bits: value.to_bits() })
        .collect()
}

fn typical(values: &[f64], window_secs: u64) -> Typical {
    typical_from_samples(&readings(values), window_secs)
}

/// The median that a middle stands for.
fn median(middle: Middle) -> f64 {
    match middle {
        Middle::Sample(reading) => f64::from_bits(reading.bits),
        Middle::Pair(low, high) => (f64::from_bits(low.bits) + f64::from_bits(high.bits)) / 2.0,
    }
}

#[test]
fn a_single_spike_does_not_move_the_typical_value() {
    let steady = [100.0, 102.0, 98.0, 101.0, 99.0, 100.0, 101.0];
    let mut spiked = steady.to_vec();
    spiked.push(9000.0);

    let before = median(typical(&steady, 600).value().expect("available").median);
    let after = median(typical(&spiked, 600).value().expect("available").median);
    assert!(
        (after - before).abs() <= 1.0,
        "median moved from {before} to {after}"
    );

    let mean_before: f64 = steady.iter().sum::<f64>() / 7.0;
    let mean_after: f64 = spiked.iter().sum::<f64>() / 8.0;
    assert!(mean_after - mean_before > 1000.0);
}

#[test]
fn a_sustained_change_moves_the_typical_value() {
    let low = [100.0; 9];
    let settled = [
        500.0, 505.0, 495.0, 500.0, 502.0, 498.0, 501.0, 499.0, 500.0,
    ];
    let before = typical(&low, 600).value().expect("available");
    let after = typical(&settled, 600).value().expect("available");
    assert!(median(after.median) > median(before.median) * 4.0);
}

#[test]
fn too_few_samples_are_withheld_rather_than_computed() {
    let result = typical(&[100.0, 4000.0, 101.0], 600);
    assert_eq!(
        result,
        Typical::Unavailable {
            reason: TypicalUnavailable::NotEnoughSamples {
                retained: 3,
                required: MINIMUM_TYPICAL_SAMPLES
            }
        }
    );
    assert!(result.value().is_none());
}

#[test]
fn absent_history_is_unavailable_rather_than_zero() {
    let result = typical(&[], 600);
    assert_eq!(
        result,
        Typical::Unavailable {
            reason: TypicalUnavailable::NoHistory
        }
    );
    assert!(result.value().is_none());
    assert!(result.is_unavailable());
}

#[test]
fn the_window_and_sample_count_accompany_a_typical_value() {
    let typical = typical(&[1.0, 2.0, 3.0, 4.0, 5.0], 900)
        .value()
        .expect("available");
    assert_eq!(typical.window_secs, 900);
    assert_eq!(typical.sample_count, 5);
    assert_eq!(median(typical.median), 3.0);
}

#[test]
fn an_even_sample_count_averages_the_middle_pair() {
    let typical = typical(&[1.0, 2.0, 3.0, 4.0, 5.0, 6.0], 60)
        .value()
        .expect("available");
    assert_eq!(median(typical.median), 3.5);
}

#[test]
fn a_non_finite_sample_yields_unavailable_not_nan() {
    let result = typical(&[1.0, 2.0, f64::NAN, 4.0, 5.0], 600);
    assert_eq!(
        result,
        Typical::Unavailable {
            reason: TypicalUnavailable::NonFiniteSample
        }
    );
}

#[test]
fn deriving_a_typical_value_does_not_reorder_the_callers_samples() {
    let samples = readings(&[5.0, 1.0, 4.0, 2.0, 3.0]);
    let snapshot = samples.clone();
    let _ = typical_from_samples(&samples, 600);
    assert_eq!(samples, snapshot);
}

#[test]
fn the_order_of_samples_does_not_matter() {
    let shuffled = typical(&[5.0, -1.0, 4.0, 2.0, 3.0, -7.5], 600);
    let sorted = typical(&[-7.5, -1.0, 2.0, 3.0, 4.0, 5.0], 600);
    assert_eq!(shuffled, sorted);
    assert_eq!(median(sorted.value().expect("available").median), 2.5);
}

#[test]
fn the_bands_are_the_documented_ones() {
    assert_eq!(DEFAULT_WARNING_PERCENT, 75);
    assert_eq!(DEFAULT_CRITICAL_PERCENT, 90);
    assert_eq!(DEFAULT_BAND_HYSTERESIS_PERCENT, 2);
}

#[test]
fn readings_compare_as_numbers() {
    let r = |value: f64| Reading { bits: value.to_bits() };
    assert!(r(-1.0).is_below(r(0.5)));
    assert!(r(-2.0).is_below(r(-1.0)));
    assert!(!r(0.0).is_below(r(-0.0)));
    assert!(r(0.0).is_equal(r(-0.0)));
    assert!(!r(f64::NAN).is_equal(r(f64::NAN)));
    assert!(!r(f64::NAN).is_at_most(r(1.0)));
    assert!(r(1.0).is_at_most(r(1.0)));
    assert!(r(-0.0).ranks_before(r(0.0)));
    assert!(r(f64::NAN).is_nan());
    assert!(!r(f64::INFINITY).is_finite());
    assert!(r(1.0).is_finite());
    assert_eq!(r(f64::INFINITY).non_finite_text(), Some("inf"));
    assert_eq!(r(1.0).non_finite_text(), None);
}
