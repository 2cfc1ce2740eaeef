//! Rules: order, refusals, the confidence gate and the decision record.

use oxmgr::findings::{
    Agreement, BaselineSummary, Confidence, ConfidenceTerms, Detector, Direction, Evidence,
    EvidenceWindow, Finding, FindingKey, FindingStatus, Metric, SampleRef,
};
use oxmgr::ordered_map::OrderedMap;
use oxmgr::reading::Reading;
use oxmgr::rules::{
    decide, declared_rules, Action, Decision, DecisionLog, ProcessFacts, RuleConfig, RuleId,
    Withheld, DEFAULT_MIN_CONFIDENCE,
};

fn r(value: f64) -> Reading {
    Reading { bits: value.to_bits() }
}

fn strong_evidence() -> Evidence {
    Evidence {
        window: EvidenceWindow {
            start_unix: 1_000,
            end_unix: 1_060,
            sample_count: 30,
        },
        observed: r(400.0),
        expected: r(100.0),
        statistic: r(9.0),
        threshold: r(3.0),
        direction: Some(Direction::Above),
        agreement: Some(Agreement {
            consecutive_samples: 6,
            required_samples: 3,
        }),
        baseline: Some(BaselineSummary {
            center: r(100.0),
            spread: r(10.0),
            sample_count: 120,
            min_samples: 30,
        }),
        trend: None,
        forecast: None,
        samples: vec![
            SampleRef::new(1_000, r(380.0)),
            SampleRef::new(1_030, r(390.0)),
            SampleRef::new(1_060, r(400.0)),
        ],
        extra: OrderedMap::new(),
    }
}

fn weak_evidence() -> Evidence {
    let mut evidence = strong_evidence();
    evidence.statistic = r(3.05);
    evidence.agreement = Some(Agreement {
        consecutive_samples: 1,
        required_samples: 3,
    });
    evidence.baseline = Some(BaselineSummary {
        center: r(100.0),
        spread: r(10.0),
        sample_count: 30,
        min_samples: 30,
    });
    evidence
}

fn confidence(score: f64) -> Confidence {
    Confidence {
        score: r(score),
        terms: ConfidenceTerms {
            exceedance: r(score),
            agreement: None,
            maturity: None,
            fit: None,
        },
    }
}

fn key(process: &str, detector: Detector, metric: Metric) -> FindingKey {
    FindingKey::new(process.to_string(), detector, metric)
}

/// The strong fixture scores 1.0, the weak one 0.0037.
fn scored(
    process: &str,
    detector: Detector,
    metric: Metric,
    evidence: Evidence,
    score: f64,
) -> Finding {
    Finding::builder(
        key(process, detector, metric),
        1_060,
        evidence,
        confidence(score),
    )
    .build()
    .expect("fixture evidence must be valid")
}

fn leak(process: &str) -> Finding {
    scored(
        process,
        Detector::ResourceLeak,
        Metric::MemoryBytes,
        strong_evidence(),
        1.0,
    )
}

fn departure(process: &str) -> Finding {
    scored(
        process,
        Detector::LevelDeparture,
        Metric::CpuPercent,
        strong_evidence(),
        1.0,
    )
}

fn no_match(process: &str, at: u64) -> Decision {
    Decision::no_match(process.to_string(), at)
}

#[test]
fn the_same_findings_give_the_same_decision() {
    let leak = leak("api");
    let departure = departure("api");
    let findings = [&leak, &departure];
    let facts = ProcessFacts::running();
    let config = RuleConfig::default();

    let first = decide("api", &findings, &facts, &config, 2_000);
    let second = decide("api", &findings, &facts, &config, 2_000);

    assert_eq!(first, second, "two evaluations of one input must agree");
}

#[test]
fn production_order_does_not_affect_the_outcome() {
    let leak = leak("api");
    let departure = departure("api");
    let facts = ProcessFacts::running();
    let config = RuleConfig::default();

    let forward = decide("api", &[&leak, &departure], &facts, &config, 2_000);
    let reversed = decide("api", &[&departure, &leak], &facts, &config, 2_000);

    assert_eq!(
        forward, reversed,
        "reordering the findings changed the decision"
    );
}

#[test]
fn rule_order_resolves_conflicting_findings() {
    let leak = leak("api");
    let departure = departure("api");
    let facts = ProcessFacts::running();

    let decision = decide(
        "api",
        &[&departure, &leak],
        &facts,
        &RuleConfig::default(),
        2_000,
    );

    assert_eq!(decision.rule, Some(RuleId::ResourceLeak));
    assert_eq!(decision.action, Some(Action::Restart));
    assert_eq!(decision.findings, vec![leak.key.clone()]);
}

#[test]
fn no_matching_rule_means_no_action() {
    let facts = ProcessFacts::running();
    let decision = decide("api", &[], &facts, &RuleConfig::default(), 2_000);

    assert_eq!(decision.rule, None);
    assert_eq!(decision.action, None);
    assert!(decision.withheld.is_none());
    assert!(decision.findings.is_empty());
    assert!(!decision.proposes_action());
}

#[test]
fn an_unknown_detector_never_satisfies_a_rule() {
    let unknown = scored(
        "api",
        Detector::from_wire("some_future_detector"),
        Metric::MemoryBytes,
        strong_evidence(),
        1.0,
    );
    let decision = decide(
        "api",
        &[&unknown],
        &ProcessFacts::running(),
        &RuleConfig::default(),
        2_000,
    );

    assert_eq!(
        decision.rule, None,
        "an unrecognised detector must not match a rule"
    );
}

#[test]
fn a_cleared_finding_does_not_drive_a_decision() {
    let mut leak = leak("api");
    leak.status = FindingStatus::Cleared;
    leak.cleared_at_unix = Some(1_100);

    let decision = decide(
        "api",
        &[&leak],
        &ProcessFacts::running(),
        &RuleConfig::default(),
        2_000,
    );

    assert_eq!(decision.rule, None);
}

#[test]
fn an_implicated_dependency_withholds_action_and_names_it() {
    let leak = leak("api");
    let facts = ProcessFacts {
        implicated_dependencies: vec!["db".to_string()],
        ..ProcessFacts::running()
    };

    let decision = decide("api", &[&leak], &facts, &RuleConfig::default(), 2_000);

    assert_eq!(decision.rule, Some(RuleId::DependencyImplicated));
    assert_eq!(
        decision.action, None,
        "a dependent process must not be acted upon"
    );
    assert_eq!(
        decision.withheld,
        Some(Withheld::DependencyImplicated {
            dependencies: vec!["db".to_string()]
        })
    );
    assert_eq!(decision.findings, vec![leak.key.clone()]);
}

#[test]
fn action_proceeds_once_the_dependency_recovers() {
    let leak = leak("api");
    let config = RuleConfig::default();

    let suppressed = decide(
        "api",
        &[&leak],
        &ProcessFacts {
            implicated_dependencies: vec!["db".to_string()],
            ..ProcessFacts::running()
        },
        &config,
        2_000,
    );
    assert_eq!(suppressed.action, None);

    let recovered = decide("api", &[&leak], &ProcessFacts::running(), &config, 2_060);
    assert_eq!(
        recovered.action,
        Some(Action::Restart),
        "the decision must resume once nothing is implicated"
    );
}

#[test]
fn a_stopped_process_is_not_acted_upon() {
    let leak = leak("api");
    let facts = ProcessFacts {
        desired_stopped: true,
        ..ProcessFacts::running()
    };

    let decision = decide("api", &[&leak], &facts, &RuleConfig::default(), 2_000);

    assert_eq!(decision.rule, Some(RuleId::ProcessStopped));
    assert_eq!(decision.action, None);
    assert_eq!(decision.withheld, Some(Withheld::ProcessStopped));
}

#[test]
fn a_process_at_its_crash_loop_limit_is_not_restarted() {
    let leak = leak("api");
    let facts = ProcessFacts {
        at_crash_loop_limit: true,
        ..ProcessFacts::running()
    };

    let decision = decide("api", &[&leak], &facts, &RuleConfig::default(), 2_000);

    assert_eq!(decision.rule, Some(RuleId::CrashLoopLimitReached));
    assert_eq!(decision.action, None);
    assert_eq!(decision.withheld, Some(Withheld::CrashLoopLimitReached));
}

#[test]
fn refusals_are_declared_before_the_acting_rules() {
    let declared = declared_rules();
    let refusals = [
        RuleId::DependencyImplicated,
        RuleId::ProcessStopped,
        RuleId::CrashLoopLimitReached,
    ];
    let acting = [RuleId::ResourceLeak, RuleId::LevelDeparture];

    let last_refusal = refusals
        .iter()
        .map(|id| {
            declared
                .iter()
                .position(|d| d == id)
                .expect("every refusal must be declared")
        })
        .max()
        .expect("refusals is not empty");
    let first_acting = acting
        .iter()
        .map(|id| {
            declared
                .iter()
                .position(|d| d == id)
                .expect("every acting rule must be declared")
        })
        .min()
        .expect("acting is not empty");

    assert!(
        last_refusal < first_acting,
        "every refusal must precede every acting rule: refusals end at {last_refusal}, acting starts at {first_acting}"
    );
}

#[test]
fn a_low_confidence_finding_does_not_act_but_is_still_reported() {
    let weak = scored(
        "api",
        Detector::ResourceLeak,
        Metric::MemoryBytes,
        weak_evidence(),
        0.0037,
    );

    let decision = decide(
        "api",
        &[&weak],
        &ProcessFacts::running(),
        &RuleConfig::default(),
        2_000,
    );

    assert_eq!(decision.action, None, "a weak finding must not act");
    assert_eq!(decision.rule, Some(RuleId::ResourceLeak));
    assert_eq!(decision.findings, vec![weak.key.clone()]);
    match decision.withheld {
        Some(Withheld::BelowMinConfidence { observed, required }) => {
            assert!(observed.is_below(required), "{observed:?} should be below {required:?}");
            assert_eq!(required.bits, DEFAULT_MIN_CONFIDENCE);
        }
        other => panic!("expected a confidence refusal, got {other:?}"),
    }
}

#[test]
fn a_high_confidence_finding_may_act() {
    let decision = decide(
        "api",
        &[&leak("api")],
        &ProcessFacts::running(),
        &RuleConfig::default(),
        2_000,
    );

    assert_eq!(decision.action, Some(Action::Restart));
    assert!(decision.withheld.is_none());
}

#[test]
fn the_gate_reads_the_strongest_supporting_finding() {
    let strong = leak("api");
    let weak = scored(
        "api",
        Detector::ResourceLeak,
        Metric::DiskWriteBytes,
        weak_evidence(),
        0.0037,
    );

    let decision = decide(
        "api",
        &[&weak, &strong],
        &ProcessFacts::running(),
        &RuleConfig::default(),
        2_000,
    );

    assert_eq!(
        decision.action,
        Some(Action::Restart),
        "a weak finding must not veto a strong one"
    );
    assert_eq!(decision.findings.len(), 2, "both are named as supporting");
}

#[test]
fn an_unusable_min_confidence_falls_back_and_reports() {
    for bad in [95.0_f64, -1.0, f64::NAN, f64::INFINITY] {
        let (config, accepted) = RuleConfig::with_min_confidence(r(bad));
        assert!(!accepted, "{bad} should be rejected");
        assert_eq!(config.min_confidence.bits, DEFAULT_MIN_CONFIDENCE);
    }

    let (config, accepted) = RuleConfig::with_min_confidence(r(0.9));
    assert!(accepted, "an in-range value is applied");
    assert_eq!(config.min_confidence, r(0.9));
}

#[test]
fn the_default_minimum_confidence_is_three_fifths() {
    assert_eq!(f64::from_bits(DEFAULT_MIN_CONFIDENCE), 0.6);
}

#[test]
fn a_configured_minimum_is_applied() {
    let (config, accepted) = RuleConfig::with_min_confidence(r(1.0));
    assert!(accepted);
    let decision = decide(
        "api",
        &[&leak("api")],
        &ProcessFacts::running(),
        &config,
        2_000,
    );
    assert_eq!(
        decision.action,
        Some(Action::Restart),
        "a score meeting the threshold exactly must act"
    );
}

#[test]
fn a_decision_reports_its_rule_and_supporting_findings() {
    let leak = leak("api");
    let decision = decide(
        "api",
        &[&leak],
        &ProcessFacts::running(),
        &RuleConfig::default(),
        2_000,
    );

    assert_eq!(decision.process, "api");
    assert_eq!(
        decision.at_unix, 2_000,
        "the evaluation timestamp is carried"
    );
    assert_eq!(decision.rule, Some(RuleId::ResourceLeak));
    assert_eq!(decision.findings, vec![leak.key.clone()]);
    assert_eq!(decision.action, Some(Action::Restart));
    assert!(decision.summary("", "").contains("restart"));
    assert!(!RuleId::ResourceLeak.rationale().is_empty());
}

#[test]
fn the_decision_record_is_bounded_and_evicts_oldest_first() {
    let mut log = DecisionLog::new(3);
    for tick in 0..10u64 {
        log.record(no_match("api", tick));
    }

    assert_eq!(log.len(), 3, "capacity must not be exceeded");
    let retained: Vec<u64> = log
        .all()
        .iter()
        .map(|decision| decision.at_unix)
        .collect();
    assert_eq!(
        retained,
        vec![7, 8, 9],
        "the most recent are retained and the oldest discarded"
    );
}

#[test]
fn decisions_are_retrievable_per_process() {
    let mut log = DecisionLog::new(16);
    log.record(no_match("api", 1));
    log.record(no_match("worker", 2));
    log.record(no_match("api", 3));

    let api: Vec<u64> = log
        .for_process("api")
        .iter()
        .map(|decision| decision.at_unix)
        .collect();
    assert_eq!(api, vec![1, 3], "oldest first, and only this process");
    assert!(log.for_process("ghost").is_empty());
}

#[test]
fn forgetting_a_process_leaves_the_others() {
    let mut log = DecisionLog::new(16);
    log.record(no_match("api", 1));
    log.record(no_match("worker", 2));

    assert_eq!(log.forget("api"), 1);
    assert!(log.for_process("api").is_empty());
    assert_eq!(log.for_process("worker").len(), 1);
}

#[test]
fn a_zero_capacity_log_still_records() {
    let mut log = DecisionLog::new(0);
    assert_eq!(log.capacity(), 1);
    log.record(no_match("api", 1));
    assert_eq!(log.len(), 1);
    assert!(!log.is_empty());
}

#[test]
fn summaries_name_the_rule_and_the_reason() {
    assert_eq!(no_match("api", 1).summary("", ""), "api: no rule matched");
    let mut decision = no_match("api", 1);
    decision.rule = Some(RuleId::ResourceLeak);
    assert_eq!(
        decision.summary("", ""),
        "api: resource_leak proposed no action"
    );
    decision.action = Some(Action::Restart);
    assert_eq!(decision.summary("", ""), "api: resource_leak would restart");
    decision.action = None;
    decision.withheld = Some(Withheld::BelowMinConfidence {
        observed: r(0.41),
        required: r(0.6),
    });
    assert_eq!(
        decision.summary("0.41", "0.60"),
        "api: resource_leak — withheld: confidence 0.41 is below the required 0.60"
    );
    decision.withheld = Some(Withheld::DependencyImplicated {
        dependencies: vec!["db".to_string(), "cache".to_string()],
    });
    assert_eq!(
        decision.summary("", ""),
        "api: resource_leak — withheld: dependency implicated (db, cache)"
    );
    assert_eq!(
        Withheld::ProcessStopped.reason("", ""),
        "withheld: process is stopped by operator intent"
    );
    assert_eq!(
        Withheld::CrashLoopLimitReached.reason("", ""),
        "withheld: process is at its crash-restart limit"
    );
}

#[test]
fn supporting_findings_are_listed_in_key_order() {
    let memory = leak("api");
    let disk = scored(
        "api",
        Detector::ResourceLeak,
        Metric::DiskWriteBytes,
        strong_evidence(),
        1.0,
    );
    let config = RuleConfig::default();
    let facts = ProcessFacts::running();
    let one = decide("api", &[&memory, &disk], &facts, &config, 1);
    let other = decide("api", &[&disk, &memory], &facts, &config, 1);
    assert_eq!(one.findings, other.findings);
    assert_eq!(one.findings.len(), 2);
}
