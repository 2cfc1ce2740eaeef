//! Findings: construction, identity, lifecycle and guidance.

use oxmgr::findings::{
    guidance_for, Agreement, BaselineSummary, Confidence, ConfidenceBasis, ConfidenceTerms,
    Detector, Direction, Evidence, EvidenceWindow, Finding, FindingError, FindingKey,
    FindingRegistry, FindingStatus, ForecastAssumption, Metric, SampleRef, ThresholdForecast,
    Transition, TrendFit,
};
use oxmgr::ordered_map::OrderedMap;
use oxmgr::reading::Reading;

fn r(value: f64) -> Reading {
    Reading { bits: value.to_bits() }
}

fn key(process: &str, detector: Detector, metric: Metric) -> FindingKey {
    FindingKey::new(process.to_string(), detector, metric)
}

fn window(start: u64, end: u64, count: u32) -> EvidenceWindow {
    EvidenceWindow {
        start_unix: start,
        end_unix: end,
        sample_count: count,
    }
}

fn ready_baseline() -> BaselineSummary {
    BaselineSummary {
        center: r(100.0),
        spread: r(10.0),
        sample_count: 60,
        min_samples: 30,
    }
}

/// A level-departure observation: statistic 4.5 against a threshold of 3.0.
fn level_evidence() -> Evidence {
    Evidence {
        window: window(1_000, 1_010, 6),
        observed: r(145.0),
        expected: r(100.0),
        statistic: r(4.5),
        threshold: r(3.0),
        direction: Some(Direction::Above),
        agreement: Some(Agreement {
            consecutive_samples: 3,
            required_samples: 3,
        }),
        baseline: Some(ready_baseline()),
        trend: None,
        forecast: None,
        samples: vec![
            SampleRef::new(1_000, r(143.0)),
            SampleRef::new(1_005, r(144.0)),
            SampleRef::new(1_010, r(145.0)),
        ],
        extra: OrderedMap::new(),
    }
}

fn level_key() -> FindingKey {
    key("api", Detector::LevelDeparture, Metric::MemoryBytes).with_variant("above".to_string())
}

/// A score for evidence, with exactly the terms its basis has.
fn score(evidence: &Evidence) -> Confidence {
    let basis = ConfidenceBasis::from_evidence(evidence);
    let ratio = |(have, need): (u32, u32)| r((f64::from(have) / f64::from(need)).min(1.0));
    let exceedance = f64::from_bits(basis.exceedance.0.bits)
        / f64::from_bits(basis.exceedance.1.bits);
    Confidence {
        score: r((exceedance / 10.0).clamp(0.0, 1.0)),
        terms: ConfidenceTerms {
            exceedance: r((exceedance / 10.0).clamp(0.0, 1.0)),
            agreement: basis.agreement.map(ratio),
            maturity: basis.maturity.map(ratio),
            fit: basis.fit,
        },
    }
}

fn build(key: FindingKey, at: u64, evidence: Evidence) -> Result<Finding, FindingError> {
    let confidence = score(&evidence);
    Finding::builder(key, at, evidence, confidence).build()
}

fn observe(
    registry: &mut FindingRegistry,
    key: FindingKey,
    at: u64,
    evidence: Evidence,
) -> Result<Transition, FindingError> {
    let confidence = score(&evidence);
    registry.observe(key, at, evidence, confidence)
}

#[test]
fn a_finding_cannot_be_built_without_samples() {
    let mut evidence = level_evidence();
    evidence.samples.clear();
    let error = build(level_key(), 1_010, evidence)
        .expect_err("evidence with no samples must be refused");
    assert_eq!(error, FindingError::NoSamples);
}

#[test]
fn a_finding_cannot_be_built_from_an_unusable_threshold() {
    let mut evidence = level_evidence();
    evidence.threshold = r(0.0);
    let error = build(level_key(), 1_010, evidence)
        .expect_err("a zero threshold cannot be exceeded");
    assert_eq!(
        error,
        FindingError::NonPositiveThreshold { threshold: r(0.0) }
    );
}

#[test]
fn a_finding_cannot_be_built_from_a_non_finite_value() {
    let mut evidence = level_evidence();
    evidence.observed = r(f64::NAN);
    let error =
        build(level_key(), 1_010, evidence).expect_err("NaN must not reach a ranked field");
    assert!(matches!(
        error,
        FindingError::NonFinite {
            field: "observed",
            ..
        }
    ));
}

#[test]
fn an_empty_window_is_refused() {
    let mut evidence = level_evidence();
    evidence.window.sample_count = 0;
    assert!(matches!(
        build(level_key(), 1_010, evidence),
        Err(FindingError::InvalidWindow { .. })
    ));
}

#[test]
fn an_immature_baseline_cannot_raise_a_finding() {
    let mut evidence = level_evidence();
    evidence.baseline = Some(BaselineSummary {
        sample_count: 29,
        min_samples: 30,
        ..ready_baseline()
    });
    assert!(matches!(
        build(level_key(), 1_010, evidence),
        Err(FindingError::InvalidWindow { .. })
    ));
}

#[test]
fn a_detector_with_no_baseline_is_not_treated_as_immature() {
    let mut evidence = level_evidence();
    evidence.baseline = None;
    let finding = build(
        key("api", Detector::ResourceLeak, Metric::MemoryBytes),
        1_010,
        evidence,
    )
    .expect("a leak finding needs no baseline");
    assert!(finding.confidence.terms.maturity.is_none());
}

#[test]
fn evidence_carries_the_detector_metric_window_and_comparison() {
    let finding = build(level_key(), 1_010, level_evidence()).expect("valid evidence");
    assert_eq!(finding.key.detector, Detector::LevelDeparture);
    assert_eq!(finding.key.metric, Metric::MemoryBytes);
    assert_eq!(finding.evidence.window.sample_count, 6);
    assert_eq!(finding.evidence.observed, r(145.0));
    assert_eq!(finding.evidence.expected, r(100.0));
    assert_eq!(finding.evidence.threshold, r(3.0));
    assert_eq!(finding.evidence.samples.len(), 3);
}

#[test]
fn the_same_inputs_give_the_same_finding_and_confidence() {
    let first = build(level_key(), 1_010, level_evidence()).expect("valid");
    let second = build(level_key(), 1_010, level_evidence()).expect("valid");
    assert_eq!(first, second);
    assert_eq!(first.confidence, second.confidence);
    assert_eq!(first.evidence, second.evidence);
    assert_eq!(first.id, second.id);
}

#[test]
fn confidence_recomputes_from_the_carried_evidence() {
    let finding = build(level_key(), 1_010, level_evidence()).expect("valid");
    let recomputed = score(&finding.evidence);
    assert!(finding.confidence_is_reproducible(&recomputed));
    assert_eq!(recomputed, finding.confidence);
}

#[test]
fn a_tampered_score_is_detectable() {
    let mut finding = build(level_key(), 1_010, level_evidence()).expect("valid");
    finding.confidence.score = r(0.99);
    assert!(!finding.confidence_is_reproducible(&score(&finding.evidence)));
}

#[test]
fn identity_does_not_depend_on_time_or_magnitude() {
    let first = build(level_key(), 1_010, level_evidence()).expect("valid");
    let mut later_evidence = level_evidence();
    later_evidence.window = window(2_000, 2_010, 6);
    later_evidence.observed = r(190.0);
    later_evidence.statistic = r(9.0);
    let later = build(level_key(), 2_010, later_evidence).expect("valid");
    assert_eq!(first.key, later.key);
    assert_eq!(first.id, later.id);
}

#[test]
fn two_detectors_on_one_metric_are_two_findings() {
    let level = key("api", Detector::LevelDeparture, Metric::MemoryBytes);
    let leak = key("api", Detector::ResourceLeak, Metric::MemoryBytes);
    assert_ne!(level, leak);
    assert!(!level.same(&leak));
}

#[test]
fn direction_variants_are_distinct_conditions() {
    let above = key("api", Detector::LevelDeparture, Metric::CpuPercent)
        .with_variant("above".to_string());
    let below = key("api", Detector::LevelDeparture, Metric::CpuPercent)
        .with_variant("below".to_string());
    assert_ne!(above, below);
    assert!(!above.same(&below));
}

#[test]
fn the_same_condition_observed_twice_is_one_finding() {
    let mut registry = FindingRegistry::new();
    let raised = observe(&mut registry, level_key(), 1_010, level_evidence()).expect("valid");
    assert!(matches!(raised, Transition::Raised { .. }));

    let mut second_evidence = level_evidence();
    second_evidence.window = window(1_010, 1_020, 6);
    second_evidence.observed = r(150.0);
    let held = observe(&mut registry, level_key(), 1_020, second_evidence).expect("valid");

    assert!(matches!(held, Transition::Held { .. }));
    assert!(!held.is_new_episode());
    assert_eq!(raised.id(), held.id(), "identity must not change on a hold");
    assert_eq!(registry.active().len(), 1, "one finding, not two");

    let finding = registry.get(&level_key()).expect("present");
    assert_eq!(finding.occurrence, 1);
    assert_eq!(finding.raised_at_unix, 1_010, "raise time must not move");
    assert_eq!(finding.last_seen_unix, 1_020);
    assert_eq!(finding.observation_count, 2);
    assert_eq!(finding.evidence.observed, r(150.0), "evidence refreshes");
    assert_eq!(finding.duration_seconds(), 10);
}

#[test]
fn a_held_finding_is_not_re_raised_across_many_ticks() {
    let mut registry = FindingRegistry::new();
    let mut transitions = Vec::new();
    for tick in 0..20u64 {
        let at = 1_000 + tick * 2;
        let mut evidence = level_evidence();
        evidence.window = window(at, at + 2, 6);
        transitions.push(observe(&mut registry, level_key(), at, evidence).expect("valid"));
    }
    let new_episodes = transitions
        .iter()
        .filter(|transition| transition.is_new_episode())
        .count();
    assert_eq!(new_episodes, 1, "20 ticks of one condition raise once");
    assert_eq!(registry.active().len(), 1);
    assert_eq!(
        registry
            .get(&level_key())
            .expect("present")
            .observation_count,
        20
    );
}

#[test]
fn a_resolved_finding_is_distinguishable_from_an_active_one() {
    let mut registry = FindingRegistry::new();
    observe(&mut registry, level_key(), 1_010, level_evidence()).expect("valid");
    let active = registry.get(&level_key()).expect("present").clone();
    assert!(active.is_active());
    assert_eq!(active.status, FindingStatus::Active);
    assert!(active.cleared_at_unix.is_none());

    let cleared_transition = registry.clear(&level_key(), 1_040).expect("was active");
    assert!(matches!(cleared_transition, Transition::Cleared { .. }));

    let cleared = registry.get(&level_key()).expect("retained after clearing");
    assert!(!cleared.is_active());
    assert_eq!(cleared.status, FindingStatus::Cleared);
    assert_eq!(cleared.cleared_at_unix, Some(1_040));
    assert_eq!(cleared.id, active.id, "clearing does not change identity");
    assert!(registry.active().is_empty(), "not listed as active");
}

#[test]
fn clearing_twice_is_a_no_op() {
    let mut registry = FindingRegistry::new();
    observe(&mut registry, level_key(), 1_010, level_evidence()).expect("valid");
    assert!(registry.clear(&level_key(), 1_040).is_some());
    assert!(
        registry.clear(&level_key(), 1_050).is_none(),
        "a second clear must not emit a second event"
    );
    assert_eq!(
        registry.get(&level_key()).expect("present").cleared_at_unix,
        Some(1_040),
        "the original clear time stands"
    );
}

#[test]
fn a_re_occurrence_after_clearing_is_visible() {
    let mut registry = FindingRegistry::new();
    observe(&mut registry, level_key(), 1_010, level_evidence()).expect("valid");
    let first = registry.get(&level_key()).expect("present").clone();
    registry.clear(&level_key(), 1_040).expect("was active");

    let mut recurrence_evidence = level_evidence();
    recurrence_evidence.window = window(5_000, 5_010, 6);
    let transition =
        observe(&mut registry, level_key(), 5_010, recurrence_evidence).expect("valid");

    assert!(
        matches!(transition, Transition::ReRaised { occurrence: 2, .. }),
        "expected a re-raise, got {transition:?}"
    );
    assert!(transition.is_new_episode());
    let second = registry.get(&level_key()).expect("present");
    assert_eq!(second.occurrence, 2);
    assert!(second.is_recurrence());
    assert!(!first.is_recurrence());
    assert_ne!(second.id, first.id, "a new episode has a new id");
    assert_eq!(second.raised_at_unix, 5_010);
    assert!(second.cleared_at_unix.is_none());
    assert_eq!(second.observation_count, 1);
    assert_eq!(registry.occurrence_count(&level_key()), 2);
}

#[test]
fn a_re_occurrence_after_forgetting_still_counts_as_a_recurrence() {
    let mut registry = FindingRegistry::new();
    observe(&mut registry, level_key(), 1_010, level_evidence()).expect("valid");
    registry.clear(&level_key(), 1_040).expect("was active");
    assert_eq!(registry.forget_cleared(2_000), 1);
    assert!(registry.get(&level_key()).is_none());

    observe(&mut registry, level_key(), 9_000, level_evidence()).expect("valid");
    assert_eq!(
        registry.get(&level_key()).expect("present").occurrence,
        2,
        "episode history outlives the finding"
    );
}

#[test]
fn a_rejected_observation_leaves_a_held_finding_untouched() {
    let mut registry = FindingRegistry::new();
    observe(&mut registry, level_key(), 1_010, level_evidence()).expect("valid");
    let before = registry.get(&level_key()).expect("present").clone();

    let mut bad_evidence = level_evidence();
    bad_evidence.samples.clear();
    assert!(observe(&mut registry, level_key(), 1_020, bad_evidence).is_err());

    assert_eq!(registry.get(&level_key()).expect("present"), &before);
}

#[test]
fn a_sweep_clears_what_the_detectors_no_longer_report() {
    let mut registry = FindingRegistry::new();
    let leak_key = key("api", Detector::ResourceLeak, Metric::MemoryBytes);
    let other_process = key("worker", Detector::LevelDeparture, Metric::CpuPercent);
    for each in [level_key(), leak_key.clone(), other_process.clone()] {
        observe(&mut registry, each, 1_010, level_evidence()).expect("valid");
    }

    let still_holding = [level_key()];
    let cleared = registry.sweep("api", &still_holding, 1_020);

    assert_eq!(cleared.len(), 1);
    assert_eq!(cleared[0].id(), format!("{}#1", leak_key.as_string()));
    assert!(registry.get(&level_key()).expect("present").is_active());
    assert!(!registry.get(&leak_key).expect("present").is_active());
    assert!(
        registry.get(&other_process).expect("present").is_active(),
        "a sweep of one process must not clear another's findings"
    );
}

#[test]
fn a_sweep_does_not_re_clear_an_already_cleared_finding() {
    let mut registry = FindingRegistry::new();
    observe(&mut registry, level_key(), 1_010, level_evidence()).expect("valid");
    registry.clear(&level_key(), 1_020).expect("was active");
    assert!(registry.sweep("api", &[], 1_030).is_empty());
}

#[test]
fn deleting_a_process_clears_its_findings() {
    let mut registry = FindingRegistry::new();
    observe(&mut registry, level_key(), 1_010, level_evidence()).expect("valid");
    observe(
        &mut registry,
        key("worker", Detector::ResourceLeak, Metric::MemoryBytes),
        1_010,
        level_evidence(),
    )
    .expect("valid");

    assert_eq!(registry.clear_process("api"), 1);
    assert!(registry.active_for("api").is_empty());
    assert!(registry.get(&level_key()).is_none());
    assert_eq!(
        registry.occurrence_count(&level_key()),
        0,
        "a later process reusing the name starts fresh"
    );
    assert_eq!(registry.active_for("worker").len(), 1);
}

#[test]
fn active_findings_are_listable_with_what_an_operator_needs() {
    let mut registry = FindingRegistry::new();
    observe(&mut registry, level_key(), 1_010, level_evidence()).expect("valid");
    let listed = registry.active_for("api");
    assert_eq!(listed.len(), 1);
    let finding = listed[0];
    assert_eq!(finding.key.detector, Detector::LevelDeparture);
    assert!(finding.confidence.score.is_positive());
    assert!(!finding.evidence.samples.is_empty());
    assert_eq!(finding.raised_at_unix, 1_010);
}

#[test]
fn listing_order_is_deterministic() {
    let keys = [
        key("api", Detector::ResourceLeak, Metric::MemoryBytes),
        key("api", Detector::LevelDeparture, Metric::CpuPercent),
        key("worker", Detector::Drift, Metric::CpuPercent),
    ];
    let mut forwards = FindingRegistry::new();
    for each in keys.iter().cloned() {
        observe(&mut forwards, each, 1_010, level_evidence()).expect("valid");
    }
    let mut backwards = FindingRegistry::new();
    for each in keys.iter().rev().cloned() {
        observe(&mut backwards, each, 1_010, level_evidence()).expect("valid");
    }
    let ids = |registry: &FindingRegistry| -> Vec<String> {
        registry.all().iter().map(|f| f.id.clone()).collect()
    };
    assert_eq!(ids(&forwards), ids(&backwards), "order is key order");
}

#[test]
fn a_known_detector_name_normalises_rather_than_becoming_other() {
    assert_eq!(Detector::from_wire("drift"), Detector::Drift);
    assert_ne!(
        Detector::from_wire("drift"),
        Detector::Other("drift".into())
    );
    assert_eq!(Metric::from_wire("cpu_percent"), Metric::CpuPercent);
}

fn new_test_finding(
    detector: Detector,
    metric: Metric,
    direction: Option<Direction>,
    forecast: Option<ThresholdForecast>,
) -> Finding {
    let mut evidence = level_evidence();
    evidence.direction = direction;
    evidence.forecast = forecast;
    build(key("api", detector, metric), 1_000, evidence).expect("must build")
}

#[test]
fn guidance_for_resource_leak_includes_forecast_when_finite() {
    let forecast = ThresholdForecast {
        threshold_value: r(100.0),
        eta_seconds: r(7200.0),
        eta_whole_seconds: 7200,
        interval_low_seconds: r(7000.0),
        interval_high_seconds: r(7400.0),
        assumes: ForecastAssumption::CurrentTrendContinues,
    };
    let finding = new_test_finding(
        Detector::ResourceLeak,
        Metric::MemoryBytes,
        None,
        Some(forecast),
    );
    let guidance = guidance_for(&finding).expect("known detector");
    assert_eq!(
        guidance[2],
        "At the current rate the configured limit is reached in about 2h 0m, if the trend continues unchanged."
    );
}

#[test]
fn guidance_for_level_departure_above_memory() {
    let finding = new_test_finding(
        Detector::LevelDeparture,
        Metric::MemoryBytes,
        Some(Direction::Above),
        None,
    );
    let guidance = guidance_for(&finding).expect("known detector");
    assert_eq!(
        guidance[0],
        "This metric sits well above the level this process itself established, sustained across consecutive samples rather than a single spike."
    );
    assert!(guidance[1].contains("workload change"));
}

#[test]
fn guidance_for_unknown_detector_is_none() {
    let finding = new_test_finding(
        Detector::Other("foo".to_string()),
        Metric::CpuPercent,
        None,
        None,
    );
    assert!(guidance_for(&finding).is_none());
}

#[test]
fn a_leak_forecast_that_is_not_finite_is_left_out() {
    let forecast = ThresholdForecast {
        threshold_value: r(100.0),
        eta_seconds: r(f64::INFINITY),
        eta_whole_seconds: 0,
        interval_low_seconds: r(7000.0),
        interval_high_seconds: r(7400.0),
        assumes: ForecastAssumption::CurrentTrendContinues,
    };
    let without = new_test_finding(Detector::ResourceLeak, Metric::MemoryBytes, None, None);
    let mut with = without.clone();
    with.evidence.forecast = Some(forecast);
    assert_eq!(guidance_for(&with), guidance_for(&without));
}

#[test]
fn wire_names_round_trip_and_unknown_names_are_kept() {
    for detector in [
        Detector::LevelDeparture,
        Detector::ResourceLeak,
        Detector::Drift,
        Detector::Other("future_detector".to_string()),
    ] {
        assert_eq!(Detector::from_wire(detector.as_wire()), detector);
    }
    for metric in [
        Metric::CpuPercent,
        Metric::MemoryBytes,
        Metric::DiskWriteBytes,
        Metric::Other("gpu_percent".to_string()),
    ] {
        assert_eq!(Metric::from_wire(metric.as_wire()), metric);
    }
    assert_eq!(
        Detector::from_wire("future_detector").as_wire(),
        "future_detector"
    );
    assert!(!Detector::from_wire("future_detector").is_known());
    assert!(Detector::Drift.is_known());
}

#[test]
fn an_episode_is_named_by_its_key_and_number() {
    let finding = build(level_key(), 1_010, level_evidence()).expect("valid");
    assert_eq!(finding.id, "api/level_departure/memory_bytes/above#1");
    let confidence = score(&level_evidence());
    let second = Finding::builder(level_key(), 1_010, level_evidence(), confidence)
        .occurrence(12)
        .summary("memory 45% above its baseline".to_string())
        .build()
        .expect("valid");
    assert_eq!(second.id, "api/level_departure/memory_bytes/above#12");
    assert_eq!(
        second.summary.as_deref(),
        Some("memory 45% above its baseline")
    );
    let clamped = Finding::builder(level_key(), 1_010, level_evidence(), confidence)
        .occurrence(0)
        .build()
        .expect("valid");
    assert_eq!(clamped.occurrence, 1);
}

#[test]
fn every_construction_error_has_a_message() {
    assert_eq!(
        FindingError::NoSamples.message(""),
        "evidence references no samples: a finding must name the samples it was derived from"
    );
    assert_eq!(
        FindingError::NonFinite {
            field: "observed",
            value: r(f64::NAN)
        }
        .message(""),
        "evidence field `observed` is not finite: NaN"
    );
    assert_eq!(
        FindingError::NonFinite {
            field: "expected",
            value: r(f64::NEG_INFINITY)
        }
        .message(""),
        "evidence field `expected` is not finite: -inf"
    );
    assert_eq!(
        FindingError::NonPositiveThreshold { threshold: r(0.0) }.message("0"),
        "evidence threshold must be positive, got 0"
    );
    let mut backwards = level_evidence();
    backwards.window = window(1_010, 1_000, 6);
    let error = build(level_key(), 1_010, backwards).expect_err("ends before it starts");
    assert!(error
        .message("")
        .starts_with("evidence window is not a real window: "));
}

#[test]
fn a_broken_sample_is_refused_by_name() {
    let mut evidence = level_evidence();
    evidence.samples[1] = SampleRef::new(1_005, r(f64::INFINITY));
    assert!(matches!(
        build(level_key(), 1_010, evidence),
        Err(FindingError::NonFinite { .. })
    ));
    let mut evidence = level_evidence();
    evidence.threshold = r(-1.0);
    assert!(matches!(
        build(level_key(), 1_010, evidence),
        Err(FindingError::NonPositiveThreshold { .. })
    ));
}

#[test]
fn a_term_that_does_not_apply_is_absent_from_the_basis() {
    let mut evidence = level_evidence();
    evidence.trend = Some(TrendFit {
        slope_per_second: r(1_024.0),
        fit_quality: r(0.94),
        monotonicity_ratio: Some(r(0.97)),
        slope_std_error: None,
    });
    let basis = ConfidenceBasis::from_evidence(&evidence);
    assert_eq!(basis.exceedance, (r(4.5), r(3.0)));
    assert_eq!(basis.agreement, Some((3, 3)));
    assert_eq!(basis.maturity, Some((60, 30)));
    assert_eq!(basis.fit, Some(r(0.94)));

    evidence.agreement = Some(Agreement {
        consecutive_samples: 4,
        required_samples: 0,
    });
    evidence.baseline = None;
    evidence.trend = None;
    let basis = ConfidenceBasis::from_evidence(&evidence);
    assert_eq!(basis.agreement, None);
    assert_eq!(basis.maturity, None);
    assert_eq!(basis.fit, None);
}

#[test]
fn clearing_before_the_last_sighting_ends_at_the_last_sighting() {
    let mut registry = FindingRegistry::new();
    observe(&mut registry, level_key(), 1_010, level_evidence()).expect("valid");
    registry.clear(&level_key(), 900).expect("was active");
    assert_eq!(
        registry.get(&level_key()).expect("present").cleared_at_unix,
        Some(1_010)
    );
}
