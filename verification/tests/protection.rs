//! Protection mode: what it may do, when it is held back, and what it records.

use oxmgr::findings::{
    Agreement, BaselineSummary, Confidence, ConfidenceTerms, Detector, Direction, Evidence,
    EvidenceWindow, Finding, FindingKey, Metric, SampleRef,
};
use oxmgr::ordered_map::OrderedMap;
use oxmgr::protection::{
    ActionRecord, Gate, ProcessPolicy, ProtectionConfig, Refusal, DEFAULT_COOLDOWN_SECS,
};
use oxmgr::reading::Reading;
use oxmgr::rules::{decide, Action, Decision, ProcessFacts, RuleConfig, RuleId};

fn r(value: f64) -> Reading {
    Reading { bits: value.to_bits() }
}

fn restart_decision(process: &str, at_unix: u64) -> Decision {
    Decision {
        process: process.to_string(),
        at_unix,
        rule: Some(RuleId::ResourceLeak),
        action: Some(Action::Restart),
        withheld: None,
        findings: Vec::new(),
    }
}

fn acting_config(process: &str) -> ProtectionConfig {
    let mut config = ProtectionConfig {
        enabled: true,
        ..ProtectionConfig::default()
    };
    config.processes.insert(
        process.to_string(),
        ProcessPolicy::acting(vec![Action::Restart]),
    );
    config
}

fn last_refusal(gate: &Gate) -> Option<&Refusal> {
    gate.history()
        .last()
        .and_then(|record| record.refusal.as_ref())
}

#[test]
fn the_default_configuration_acts_for_nobody() {
    let config = ProtectionConfig::default();
    assert!(!config.enabled);
    assert!(config.processes.is_empty());

    let mut gate = Gate::default();
    let admitted = gate.admit_decision(&restart_decision("api", 1_000), &config, 1_000);

    assert_eq!(admitted, None, "the default must not act");
    assert_eq!(last_refusal(&gate), Some(&Refusal::Disabled));
}

#[test]
fn enabling_the_daemon_alone_does_not_act_for_a_process() {
    let config = ProtectionConfig {
        enabled: true,
        ..ProtectionConfig::default()
    };
    let mut gate = Gate::default();

    assert_eq!(
        gate.admit_decision(&restart_decision("api", 1_000), &config, 1_000),
        None
    );
    assert_eq!(
        last_refusal(&gate),
        Some(&Refusal::NotEnabledForProcess),
        "an unconfigured process must be observe-only"
    );
}

#[test]
fn enabling_actions_is_per_process() {
    let mut config = acting_config("api");
    config
        .processes
        .insert("worker".to_string(), ProcessPolicy::default());
    let mut gate = Gate::default();

    assert_eq!(
        gate.admit_decision(&restart_decision("api", 1_000), &config, 1_000),
        Some(Action::Restart)
    );
    assert_eq!(
        gate.admit_decision(&restart_decision("worker", 1_000), &config, 1_000),
        None,
        "a process without act enabled must not be acted upon"
    );
}

#[test]
fn a_decision_that_proposes_nothing_is_distinguished_from_a_refusal() {
    let mut gate = Gate::default();
    let config = acting_config("api");
    let decision = Decision::no_match("api".to_string(), 1_000);

    assert_eq!(gate.admit_decision(&decision, &config, 1_000), None);
    let refusal = last_refusal(&gate).expect("recorded");
    assert_eq!(refusal, &Refusal::NoActionProposed);
    assert!(
        !refusal.is_safety_limit(),
        "nothing to do is not a safety limit"
    );
}

#[test]
fn an_unpermitted_action_is_refused_and_records_what_was_allowed() {
    let mut config = ProtectionConfig {
        enabled: true,
        ..ProtectionConfig::default()
    };
    config.processes.insert(
        "api".to_string(),
        ProcessPolicy::acting(vec![Action::Notify]),
    );
    let mut gate = Gate::default();

    assert_eq!(
        gate.admit_decision(&restart_decision("api", 1_000), &config, 1_000),
        None
    );
    match last_refusal(&gate) {
        Some(Refusal::ActionNotPermitted { action, permitted }) => {
            assert_eq!(*action, Action::Restart);
            assert_eq!(permitted, &vec![Action::Notify]);
        }
        other => panic!("expected a permission refusal, got {other:?}"),
    }
}

#[test]
fn an_empty_permission_list_means_no_action() {
    let mut config = ProtectionConfig {
        enabled: true,
        ..ProtectionConfig::default()
    };
    config.processes.insert(
        "api".to_string(),
        ProcessPolicy {
            act: true,
            permitted: Vec::new(),
            ..ProcessPolicy::default()
        },
    );
    let mut gate = Gate::default();

    assert_eq!(
        gate.admit_decision(&restart_decision("api", 1_000), &config, 1_000),
        None
    );
    assert!(matches!(
        last_refusal(&gate),
        Some(Refusal::ActionNotPermitted { .. })
    ));
}

#[test]
fn a_second_action_is_withheld_during_cooldown_and_resumes_after() {
    let config = acting_config("api");
    let mut gate = Gate::default();

    assert_eq!(
        gate.admit_decision(&restart_decision("api", 1_000), &config, 1_000),
        Some(Action::Restart)
    );
    gate.confirm("api", 1_000);

    assert_eq!(
        gate.admit_decision(&restart_decision("api", 1_002), &config, 1_002),
        None
    );
    match last_refusal(&gate) {
        Some(Refusal::InCooldown {
            remaining_secs,
            cooldown_secs,
        }) => {
            assert_eq!(*cooldown_secs, DEFAULT_COOLDOWN_SECS);
            assert_eq!(*remaining_secs, DEFAULT_COOLDOWN_SECS - 2);
        }
        other => panic!("expected a cooldown refusal, got {other:?}"),
    }

    let after = 1_000 + DEFAULT_COOLDOWN_SECS;
    assert_eq!(
        gate.admit_decision(&restart_decision("api", after), &config, after),
        Some(Action::Restart),
        "action must resume once the cooldown has elapsed"
    );
}

#[test]
fn cooldown_is_per_process() {
    let mut config = acting_config("api");
    config.processes.insert(
        "worker".to_string(),
        ProcessPolicy::acting(vec![Action::Restart]),
    );
    let mut gate = Gate::default();

    gate.admit_decision(&restart_decision("api", 1_000), &config, 1_000);
    gate.confirm("api", 1_000);

    assert_eq!(
        gate.admit_decision(&restart_decision("api", 1_010), &config, 1_010),
        None
    );
    assert_eq!(
        gate.admit_decision(&restart_decision("worker", 1_010), &config, 1_010),
        Some(Action::Restart),
        "one process in cooldown must not block another"
    );
}

#[test]
fn a_configured_cooldown_is_applied() {
    let mut config = acting_config("api");
    config.processes.insert(
        "api".to_string(),
        ProcessPolicy {
            act: true,
            permitted: vec![Action::Restart],
            cooldown_secs: Some(30),
            ..ProcessPolicy::default()
        },
    );
    let mut gate = Gate::default();

    gate.admit_decision(&restart_decision("api", 1_000), &config, 1_000);
    gate.confirm("api", 1_000);

    assert_eq!(gate.cooldown_remaining("api", &config, 1_010), 20);
    assert_eq!(
        gate.admit_decision(&restart_decision("api", 1_030), &config, 1_030),
        Some(Action::Restart)
    );
}

#[test]
fn a_withheld_action_starts_no_cooldown() {
    let config = ProtectionConfig::default();
    let mut gate = Gate::default();

    gate.admit_decision(&restart_decision("api", 1_000), &config, 1_000);
    assert_eq!(
        gate.cooldown_remaining("api", &config, 1_001),
        0,
        "a refusal must not start a cooldown"
    );
}

#[test]
fn actions_stop_at_the_per_process_cap_without_escalating() {
    let mut config = acting_config("api");
    config.processes.insert(
        "api".to_string(),
        ProcessPolicy {
            act: true,
            permitted: vec![Action::Restart, Action::Notify],
            cooldown_secs: Some(0),
            max_actions: Some(2),
        },
    );
    let mut gate = Gate::default();

    for tick in 0..2u64 {
        let at = 1_000 + tick;
        assert_eq!(
            gate.admit_decision(&restart_decision("api", at), &config, at),
            Some(Action::Restart),
            "the first two actions are within the cap"
        );
        gate.confirm("api", at);
    }

    assert_eq!(
        gate.admit_decision(&restart_decision("api", 1_002), &config, 1_002),
        None
    );
    match last_refusal(&gate) {
        Some(Refusal::PerProcessCapReached { taken, cap, .. }) => {
            assert_eq!(*taken, 2);
            assert_eq!(*cap, 2);
        }
        other => panic!("expected a per-process cap refusal, got {other:?}"),
    }

    let history = gate.history();
    let last = history.last().expect("a record exists");
    assert_eq!(last.action, Some(Action::Restart));
    assert!(!last.taken);
    assert!(
        history
            .iter()
            .all(|record| record.action != Some(Action::Notify)),
        "reaching a cap must not substitute a different action"
    );
}

#[test]
fn actions_stop_at_the_daemon_cap() {
    let mut config = ProtectionConfig {
        enabled: true,
        daemon_cap: 2,
        ..ProtectionConfig::default()
    };
    for name in ["api", "worker", "batch"] {
        config.processes.insert(
            name.to_string(),
            ProcessPolicy {
                act: true,
                permitted: vec![Action::Restart],
                cooldown_secs: Some(0),
                max_actions: Some(10),
            },
        );
    }
    let mut gate = Gate::default();

    for name in ["api", "worker"] {
        assert_eq!(
            gate.admit_decision(&restart_decision(name, 1_000), &config, 1_000),
            Some(Action::Restart)
        );
        gate.confirm(name, 1_000);
    }

    assert_eq!(
        gate.admit_decision(&restart_decision("batch", 1_000), &config, 1_000),
        None,
        "the daemon-wide cap must stop a process that is within its own"
    );
    assert!(matches!(
        last_refusal(&gate),
        Some(Refusal::DaemonCapReached {
            taken: 2,
            cap: 2,
            ..
        })
    ));
}

#[test]
fn capacity_returns_as_the_window_passes() {
    let mut config = acting_config("api");
    config.processes.insert(
        "api".to_string(),
        ProcessPolicy {
            act: true,
            permitted: vec![Action::Restart],
            cooldown_secs: Some(0),
            max_actions: Some(1),
        },
    );
    let mut gate = Gate::default();

    gate.admit_decision(&restart_decision("api", 1_000), &config, 1_000);
    gate.confirm("api", 1_000);
    assert_eq!(
        gate.admit_decision(&restart_decision("api", 1_100), &config, 1_100),
        None
    );

    let after_window = 1_000 + config.rate_window_secs + 1;
    assert_eq!(
        gate.actions_taken("api", &config, after_window),
        0,
        "the earlier action has fallen out of the window"
    );
    assert_eq!(
        gate.admit_decision(
            &restart_decision("api", after_window),
            &config,
            after_window
        ),
        Some(Action::Restart)
    );
}

#[test]
fn a_suppressed_decision_never_reaches_the_gate_as_an_action() {
    let evidence = Evidence {
        window: EvidenceWindow {
            start_unix: 1_000,
            end_unix: 1_060,
            sample_count: 30,
        },
        observed: r(400.0),
        expected: r(100.0),
        statistic: r(9.0),
        threshold: r(3.0),
        direction: Some(Direction::Above),
        agreement: Some(Agreement {
            consecutive_samples: 6,
            required_samples: 3,
        }),
        baseline: Some(BaselineSummary {
            center: r(100.0),
            spread: r(10.0),
            sample_count: 120,
            min_samples: 30,
        }),
        trend: None,
        forecast: None,
        samples: vec![SampleRef::new(1_060, r(400.0))],
        extra: OrderedMap::new(),
    };
    let confidence = Confidence {
        score: r(1.0),
        terms: ConfidenceTerms {
            exceedance: r(1.0),
            agreement: Some(r(1.0)),
            maturity: Some(r(1.0)),
            fit: None,
        },
    };
    let leak = Finding::builder(
        FindingKey::new(
            "api".to_string(),
            Detector::ResourceLeak,
            Metric::MemoryBytes,
        ),
        1_060,
        evidence,
        confidence,
    )
    .build()
    .expect("valid fixture");

    let config = acting_config("api");

    for facts in [
        ProcessFacts {
            implicated_dependencies: vec!["db".to_string()],
            ..ProcessFacts::running()
        },
        ProcessFacts {
            at_crash_loop_limit: true,
            ..ProcessFacts::running()
        },
        ProcessFacts {
            desired_stopped: true,
            ..ProcessFacts::running()
        },
    ] {
        let decision = decide("api", &[&leak], &facts, &RuleConfig::default(), 2_000);
        assert_eq!(
            decision.action, None,
            "the decision itself must withhold for {facts:?}"
        );

        let mut gate = Gate::default();
        assert_eq!(
            gate.admit_decision(&decision, &config, 2_000),
            None,
            "nothing arrives as an action for {facts:?}"
        );
        assert_eq!(last_refusal(&gate), Some(&Refusal::NoActionProposed));
    }
}

#[test]
fn protection_mode_has_no_path_to_block_an_operator_command() {
    let config = ProtectionConfig::default();
    let mut gate = Gate::default();

    let admitted = gate.admit_decision(
        &Decision::no_match("api".to_string(), 1_000),
        &config,
        1_000,
    );
    assert_eq!(
        admitted, None,
        "no action comes from a decision that proposed none"
    );
}

#[test]
fn disabling_takes_effect_immediately_without_a_restart() {
    let mut config = acting_config("api");
    let mut gate = Gate::default();

    assert_eq!(
        gate.admit_decision(&restart_decision("api", 1_000), &config, 1_000),
        Some(Action::Restart)
    );

    config.enabled = false;

    assert_eq!(
        gate.admit_decision(&restart_decision("api", 1_001), &config, 1_001),
        None,
        "a runtime disable must apply to the very next decision"
    );
    assert_eq!(last_refusal(&gate), Some(&Refusal::Disabled));
}

#[test]
fn disabling_stops_action_but_not_recording() {
    let config = ProtectionConfig::default();
    let mut gate = Gate::default();

    let before = gate.history().len();
    gate.admit_decision(&restart_decision("api", 1_000), &config, 1_000);
    gate.admit_decision(&restart_decision("api", 1_002), &config, 1_002);

    assert_eq!(
        gate.history().len(),
        before + 2,
        "decisions must still be recorded while action is disabled"
    );
    assert!(gate.history().iter().all(|record| !record.taken));
}

#[test]
fn an_abandoned_action_leaves_consistent_state() {
    let config = acting_config("api");
    let mut gate = Gate::default();

    assert_eq!(
        gate.admit_decision(&restart_decision("api", 1_000), &config, 1_000),
        Some(Action::Restart)
    );

    assert_eq!(gate.cooldown_remaining("api", &config, 1_001), 0);
    assert_eq!(gate.actions_taken("api", &config, 1_001), 0);
    assert_eq!(
        gate.admit_decision(&restart_decision("api", 1_001), &config, 1_001),
        Some(Action::Restart),
        "an abandoned action must not block the next decision"
    );
}

#[test]
fn every_refusal_records_a_reason() {
    let mut gate = Gate::default();

    gate.admit_decision(&restart_decision("api", 1), &ProtectionConfig::default(), 1);
    let daemon_only = ProtectionConfig {
        enabled: true,
        ..ProtectionConfig::default()
    };
    gate.admit_decision(&restart_decision("api", 2), &daemon_only, 2);
    let mut notify_only = daemon_only.clone();
    notify_only.processes.insert(
        "api".to_string(),
        ProcessPolicy::acting(vec![Action::Notify]),
    );
    gate.admit_decision(&restart_decision("api", 3), &notify_only, 3);
    let acting = acting_config("api");
    gate.admit_decision(&restart_decision("api", 4), &acting, 4);
    gate.confirm("api", 4);
    gate.admit_decision(&restart_decision("api", 5), &acting, 5);

    let withheld: Vec<&ActionRecord> = gate
        .history()
        .into_iter()
        .filter(|record| !record.taken)
        .collect();
    assert_eq!(withheld.len(), 4, "four refusals expected");
    for record in withheld {
        let refusal = record
            .refusal
            .as_ref()
            .expect("every withheld action records a refusal");
        assert!(
            refusal.is_safety_limit(),
            "{refusal:?} should be a safety limit"
        );
        assert!(!refusal.reason().is_empty());
        assert!(record.summary().contains("withheld"));
    }
}

#[test]
fn the_record_is_bounded_and_scoped_per_process() {
    let mut gate = Gate::new(3);
    let config = ProtectionConfig::default();
    for tick in 0..10u64 {
        gate.admit_decision(&restart_decision("api", tick), &config, tick);
    }
    assert_eq!(gate.history().len(), 3, "capacity must not be exceeded");
    let retained: Vec<u64> = gate
        .history()
        .iter()
        .map(|record| record.at_unix)
        .collect();
    assert_eq!(retained, vec![7, 8, 9], "oldest discarded first");

    let mut gate = Gate::new(16);
    gate.admit_decision(&restart_decision("api", 1), &config, 1);
    gate.admit_decision(&restart_decision("worker", 2), &config, 2);
    assert_eq!(gate.history_for("api").len(), 1);

    gate.forget("api");
    assert!(gate.history_for("api").is_empty());
    assert_eq!(
        gate.history_for("worker").len(),
        1,
        "forgetting one process must not clear another"
    );
}

#[test]
fn a_zero_capacity_gate_still_records() {
    let mut gate = Gate::new(0);
    let config = ProtectionConfig::default();
    gate.admit_decision(&restart_decision("api", 1), &config, 1);
    gate.admit_decision(&restart_decision("api", 2), &config, 2);
    assert_eq!(gate.history().len(), 1);
    assert_eq!(gate.history()[0].at_unix, 2);
}

#[test]
fn policies_override_the_defaults_field_by_field() {
    let mut config = acting_config("api");
    config.processes.insert(
        "worker".to_string(),
        ProcessPolicy {
            act: true,
            permitted: vec![Action::Notify],
            cooldown_secs: Some(7),
            max_actions: Some(9),
        },
    );
    assert_eq!(config.cooldown_for("worker"), 7);
    assert_eq!(config.cap_for("worker"), 9);
    assert_eq!(config.cooldown_for("api"), DEFAULT_COOLDOWN_SECS);
    assert_eq!(config.cap_for("api"), 3);
    assert!(config.acts_for("api"));
    assert!(!config.acts_for("ghost"));
    assert_eq!(config.permitted_for("worker"), vec![Action::Notify]);
    assert!(config.permitted_for("ghost").is_empty());
}

#[test]
fn refusal_reasons_carry_their_figures() {
    let gate = Gate::default();
    let config = acting_config("api");
    assert_eq!(gate.refusal_for("api", Action::Restart, &config, 1), None);
    let refusal = gate
        .refusal_for("api", Action::Notify, &config, 1)
        .expect("not permitted");
    assert!(refusal.reason().contains("notify"));
    assert!(refusal.reason().contains("restart"));
    assert!(Refusal::InCooldown {
        remaining_secs: 298,
        cooldown_secs: 300
    }
    .reason()
    .contains("298"));
}
