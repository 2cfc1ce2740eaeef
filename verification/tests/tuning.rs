//! Tuning: disables, suppressions and threshold overrides.

use oxmgr::findings::Detector;
use oxmgr::reading::{Figure, Reading};
use oxmgr::tuning::{
    Blocked, Gate, ProcessThresholds, SuppressionCounters, TuningConfig, DEFAULT_DEPARTURE_Z,
    DEFAULT_MIN_BASELINE_SAMPLES, DEFAULT_MIN_CONSECUTIVE_SAMPLES,
};

fn r(value: f64) -> Reading {
    Reading { bits: value.to_bits() }
}

fn figure(value: f64) -> Figure {
    Figure {
        reading: r(value),
        text: format!("{value}"),
    }
}

fn detectors() -> Vec<Detector> {
    vec![
        Detector::LevelDeparture,
        Detector::ResourceLeak,
        Detector::Drift,
    ]
}

#[test]
fn the_default_configuration_allows_every_detector() {
    let config = TuningConfig::default();
    for detector in detectors() {
        assert!(
            config.gate("api", &detector).is_allowed(),
            "{detector:?} should be allowed by default"
        );
    }
    assert!(config.suppressions_for("api", &detectors()).is_empty());
}

#[test]
fn a_global_disable_blocks_every_detector_for_every_process() {
    let config = TuningConfig {
        detection_disabled: true,
        ..TuningConfig::default()
    };

    for process in ["api", "worker"] {
        for detector in detectors() {
            assert_eq!(
                config.gate(process, &detector),
                Gate::Blocked(Blocked::DetectionDisabled),
                "{detector:?} on {process} must be blocked"
            );
        }
    }
}

#[test]
fn a_global_disable_is_reported_once_rather_than_per_detector() {
    let config = TuningConfig {
        detection_disabled: true,
        ..TuningConfig::default()
    };

    let reported = config.suppressions_for("api", &detectors());
    assert_eq!(reported, vec![Blocked::DetectionDisabled]);
}

#[test]
fn a_global_disable_does_not_touch_retention() {
    let config = TuningConfig {
        detection_disabled: true,
        ..TuningConfig::default()
    };

    assert!(!config.gate("api", &Detector::LevelDeparture).is_allowed());
    assert!(config.resolve_thresholds("api").is_clean());
}

#[test]
fn disabling_one_detector_leaves_the_others_producing() {
    let mut config = TuningConfig::default();
    config
        .disabled_detectors
        .insert(Detector::ResourceLeak.as_wire().to_string(), ());

    assert_eq!(
        config.gate("api", &Detector::ResourceLeak),
        Gate::Blocked(Blocked::DetectorDisabled {
            detector: Detector::ResourceLeak
        })
    );
    assert!(
        config.gate("api", &Detector::LevelDeparture).is_allowed(),
        "another detector must be unaffected"
    );
}

#[test]
fn a_disabled_detector_is_disabled_for_every_process() {
    let mut config = TuningConfig::default();
    config
        .disabled_detectors
        .insert(Detector::Drift.as_wire().to_string(), ());

    for process in ["api", "worker", "batch"] {
        assert!(!config.gate(process, &Detector::Drift).is_allowed());
    }
}

#[test]
fn suppression_is_scoped_to_one_process_and_one_detector() {
    let mut config = TuningConfig::default();
    config.suppress("api", &Detector::LevelDeparture, None);

    assert!(config.is_suppressed("api", &Detector::LevelDeparture));
    assert!(
        config.gate("api", &Detector::ResourceLeak).is_allowed(),
        "another detector on the same process must still run"
    );
    assert!(
        config
            .gate("worker", &Detector::LevelDeparture)
            .is_allowed(),
        "the same detector on another process must still run"
    );
}

#[test]
fn a_suppression_is_visible_when_findings_are_queried() {
    let mut config = TuningConfig::default();
    config.suppress(
        "api",
        &Detector::LevelDeparture,
        Some("known noisy during nightly batch".to_string()),
    );

    let reported = config.suppressions_for("api", &detectors());
    assert_eq!(reported.len(), 1, "the suppression is reported");
    match &reported[0] {
        Blocked::SuppressedForProcess {
            detector,
            process,
            note,
        } => {
            assert_eq!(detector, &Detector::LevelDeparture);
            assert_eq!(process, "api");
            assert_eq!(note.as_deref(), Some("known noisy during nightly batch"));
            assert!(reported[0].reason().contains("nightly batch"));
        }
        other => panic!("expected a process suppression, got {other:?}"),
    }
    assert!(config.suppressions_for("worker", &detectors()).is_empty());
}

#[test]
fn lifting_a_suppression_reports_whether_one_was_in_effect() {
    let mut config = TuningConfig::default();
    config.suppress("api", &Detector::LevelDeparture, None);

    assert!(config.unsuppress("api", &Detector::LevelDeparture));
    assert!(config.gate("api", &Detector::LevelDeparture).is_allowed());
    assert!(!config.unsuppress("api", &Detector::LevelDeparture));
    assert!(!config.suppressions.contains(&"api".to_string()));
}

#[test]
fn the_widest_applicable_scope_is_the_one_reported() {
    let mut config = TuningConfig {
        detection_disabled: true,
        ..TuningConfig::default()
    };
    config.suppress("api", &Detector::LevelDeparture, None);

    assert_eq!(
        config.gate("api", &Detector::LevelDeparture),
        Gate::Blocked(Blocked::DetectionDisabled)
    );
}

#[test]
fn forgetting_a_process_drops_its_tuning() {
    let mut config = TuningConfig::default();
    config.suppress("api", &Detector::LevelDeparture, None);
    config.suppress("worker", &Detector::LevelDeparture, None);
    config.thresholds.insert(
        "api".to_string(),
        ProcessThresholds {
            departure_z: Some(figure(5.0)),
            ..ProcessThresholds::default()
        },
    );

    config.forget("api");

    assert!(config.gate("api", &Detector::LevelDeparture).is_allowed());
    assert_eq!(
        config.resolve_thresholds("api").departure_z.bits,
        DEFAULT_DEPARTURE_Z
    );
    assert!(
        config.is_suppressed("worker", &Detector::LevelDeparture),
        "forgetting one process must not clear another"
    );
}

#[test]
fn an_override_applies_to_its_process_and_others_use_the_default() {
    let mut config = TuningConfig::default();
    config.thresholds.insert(
        "api".to_string(),
        ProcessThresholds {
            departure_z: Some(figure(6.0)),
            min_consecutive_samples: Some(5),
            min_baseline_samples: None,
        },
    );

    let api = config.resolve_thresholds("api");
    assert_eq!(api.departure_z, r(6.0));
    assert_eq!(api.min_consecutive_samples, 5);
    assert_eq!(api.min_baseline_samples, DEFAULT_MIN_BASELINE_SAMPLES);
    assert!(api.is_clean(), "usable values produce no fallbacks");

    let worker = config.resolve_thresholds("worker");
    assert_eq!(worker.departure_z.bits, DEFAULT_DEPARTURE_Z);
    assert_eq!(
        worker.min_consecutive_samples,
        DEFAULT_MIN_CONSECUTIVE_SAMPLES
    );
}

#[test]
fn an_unusable_departure_z_falls_back_and_reports() {
    for (bad, expected_problem) in [
        (0.0_f64, "not positive"),
        (-3.5, "not positive"),
        (f64::NAN, "finite"),
        (f64::INFINITY, "finite"),
    ] {
        let mut config = TuningConfig::default();
        config.thresholds.insert(
            "api".to_string(),
            ProcessThresholds {
                departure_z: Some(figure(bad)),
                ..ProcessThresholds::default()
            },
        );

        let resolved = config.resolve_thresholds("api");
        assert_eq!(
            resolved.departure_z.bits, DEFAULT_DEPARTURE_Z,
            "{bad} must fall back to the documented default"
        );
        assert!(!resolved.is_clean(), "{bad} must be reported");
        let fallback = &resolved.fallbacks[0];
        assert_eq!(fallback.setting, "departure_z");
        assert_eq!(fallback.process.as_deref(), Some("api"));
        assert!(
            fallback.problem.contains(expected_problem),
            "problem {:?} should mention {expected_problem}",
            fallback.problem
        );
        assert!(fallback.applied.contains("3.5"));
        assert!(fallback.reason().contains("departure_z"));
    }
}

#[test]
fn the_default_departure_is_three_and_a_half() {
    assert_eq!(f64::from_bits(DEFAULT_DEPARTURE_Z), 3.5);
}

#[test]
fn a_zero_sample_requirement_falls_back_and_reports() {
    let mut config = TuningConfig::default();
    config.thresholds.insert(
        "api".to_string(),
        ProcessThresholds {
            departure_z: None,
            min_consecutive_samples: Some(0),
            min_baseline_samples: Some(0),
        },
    );

    let resolved = config.resolve_thresholds("api");
    assert_eq!(
        resolved.min_consecutive_samples,
        DEFAULT_MIN_CONSECUTIVE_SAMPLES
    );
    assert_eq!(resolved.min_baseline_samples, DEFAULT_MIN_BASELINE_SAMPLES);
    assert_eq!(
        resolved.fallbacks.len(),
        2,
        "both unusable values are reported, not just the first"
    );
    let settings: Vec<&str> = resolved
        .fallbacks
        .iter()
        .map(|fallback| fallback.setting.as_str())
        .collect();
    assert!(settings.contains(&"min_consecutive_samples"));
    assert!(settings.contains(&"min_baseline_samples"));
}

#[test]
fn one_unusable_value_does_not_discard_the_usable_ones() {
    let mut config = TuningConfig::default();
    config.thresholds.insert(
        "api".to_string(),
        ProcessThresholds {
            departure_z: Some(figure(-1.0)),
            min_consecutive_samples: Some(7),
            min_baseline_samples: Some(60),
        },
    );

    let resolved = config.resolve_thresholds("api");
    assert_eq!(
        resolved.departure_z.bits, DEFAULT_DEPARTURE_Z,
        "the bad one falls back"
    );
    assert_eq!(
        resolved.min_consecutive_samples, 7,
        "the good ones are kept"
    );
    assert_eq!(resolved.min_baseline_samples, 60);
    assert_eq!(resolved.fallbacks.len(), 1);
}

#[test]
fn suppression_counters_attribute_each_block_to_its_scope() {
    let mut counters = SuppressionCounters::default();
    counters.record(&Blocked::DetectionDisabled);
    counters.record(&Blocked::DetectorDisabled {
        detector: Detector::Drift,
    });
    counters.record(&Blocked::SuppressedForProcess {
        detector: Detector::LevelDeparture,
        process: "api".to_string(),
        note: None,
    });
    counters.record(&Blocked::SuppressedForProcess {
        detector: Detector::ResourceLeak,
        process: "api".to_string(),
        note: None,
    });

    assert_eq!(counters.blocked_globally, 1);
    assert_eq!(counters.blocked_by_detector, 1);
    assert_eq!(counters.blocked_by_process, 2);
    assert_eq!(counters.total(), 4);
}

#[test]
fn the_absence_of_findings_is_explainable() {
    let mut config = TuningConfig::default();
    config.suppress("api", &Detector::ResourceLeak, Some("expected".to_string()));
    config
        .disabled_detectors
        .insert(Detector::Drift.as_wire().to_string(), ());

    let reported = config.suppressions_for("api", &detectors());
    assert_eq!(
        reported.len(),
        2,
        "both the per-detector disable and the per-process suppression are reported"
    );
    let scopes: Vec<&str> = reported.iter().map(Blocked::scope).collect();
    assert!(scopes.contains(&"detector"));
    assert!(scopes.contains(&"process"));

    assert!(config.gate("api", &Detector::LevelDeparture).is_allowed());
}

#[test]
fn a_gate_hands_out_its_reason() {
    let mut config = TuningConfig::default();
    assert!(config.gate("api", &Detector::Drift).blocked().is_none());
    config.suppress("api", &Detector::Drift, None);
    let gate = config.gate("api", &Detector::Drift);
    assert_eq!(gate.blocked().map(Blocked::scope), Some("process"));
}

#[test]
fn counters_stay_at_their_largest() {
    let mut counters = SuppressionCounters {
        blocked_globally: u64::MAX,
        blocked_by_detector: 1,
        blocked_by_process: 0,
    };
    counters.record(&Blocked::DetectionDisabled);
    assert_eq!(counters.blocked_globally, u64::MAX);
    assert_eq!(counters.total(), u64::MAX);
}

#[test]
fn suppressions_are_listed_widest_scope_first() {
    let mut config = TuningConfig::default();
    config.suppress("api", &Detector::ResourceLeak, Some("expected".to_string()));
    config.disabled_detectors.insert("drift".to_string(), ());

    let asked = [
        Detector::LevelDeparture,
        Detector::ResourceLeak,
        Detector::Drift,
    ];
    assert_eq!(
        config.suppressions_for("api", &asked),
        vec![
            Blocked::DetectorDisabled {
                detector: Detector::Drift
            },
            Blocked::SuppressedForProcess {
                detector: Detector::ResourceLeak,
                process: "api".to_string(),
                note: Some("expected".to_string()),
            },
        ]
    );
}

#[test]
fn each_scope_is_listed_in_the_order_asked() {
    let mut config = TuningConfig::default();
    config.suppress("api", &Detector::ResourceLeak, None);
    config.suppress("api", &Detector::CrashLoop, None);
    config.suppress("api", &Detector::Drift, None);
    config.disabled_detectors.insert("drift".to_string(), ());
    config
        .disabled_detectors
        .insert("change_point".to_string(), ());

    let asked = [
        Detector::CrashLoop,
        Detector::Drift,
        Detector::ResourceLeak,
        Detector::ChangePoint,
    ];
    let reasons: Vec<String> = config
        .suppressions_for("api", &asked)
        .iter()
        .map(Blocked::reason)
        .collect();
    assert_eq!(
        reasons,
        vec![
            "detector drift is disabled",
            "detector change_point is disabled",
            "detector crash_loop is suppressed for api",
            "detector resource_leak is suppressed for api",
        ]
    );
}

#[test]
fn lifting_a_fresh_suppression_gives_back_the_configuration() {
    let mut before = TuningConfig::default();
    before.suppress("worker", &Detector::Drift, Some("batch".to_string()));
    before.disabled_detectors.insert("drift".to_string(), ());

    for other in [false, true] {
        if other {
            before.suppress("api", &Detector::ResourceLeak, None);
        }
        let mut config = before.clone();
        config.suppress("api", &Detector::LevelDeparture, Some("noisy".to_string()));
        assert_ne!(config, before);
        assert!(config.unsuppress("api", &Detector::LevelDeparture));
        assert_eq!(config, before);
        assert!(!config.unsuppress("api", &Detector::LevelDeparture));
        assert_eq!(config, before);
        assert_eq!(config.suppressions.contains(&"api".to_string()), other);
    }
}
