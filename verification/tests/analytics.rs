//! Advisories, findings, decisions and typical values as they are served.

use oxmgr::findings::{
    Confidence, ConfidenceTerms, Detector, Evidence, EvidenceWindow, Finding, FindingKey,
    FindingStatus, Metric, SampleRef,
};
use oxmgr::http::analytics::{
    get_advisories, get_decisions, get_findings, get_process_decisions, get_process_findings,
    get_typical, Advisory, AdvisoriesReport, Dismissals, EvaluatedProcess, ShownDecision,
    TypicalReport,
};
use oxmgr::http::host::{HostCpu, HostIdentity, HostMemory, HostMetrics};
use oxmgr::http::render::{AnalysisSnapshot, ScoredFinding};
use oxmgr::ordered_map::OrderedMap;
use oxmgr::process::{DesiredState, ManagedProcess};
use oxmgr::reading::{Figure, Reading};
use oxmgr::rules::{Action, Decision, RuleId, Withheld};
use oxmgr::severity::{typical_from_samples, Typical, TypicalUnavailable};
use oxmgr::tuning::SuppressionCounters;

const CRITICAL: u8 = 2;
const WARNING: u8 = 1;

fn r(value: f64) -> Reading {
    Reading { bits: value.to_bits() }
}

fn figure(value: f64) -> Figure {
    Figure {
        reading: r(value),
        text: format!("{value}"),
    }
}

fn fixture_metrics_process() -> ManagedProcess {
    ManagedProcess {
        id: 42,
        name: "api".to_string(),
        namespace: Some("prod".to_string()),
        pid: Some(4242),
        running: true,
        status: "running".to_string(),
        desired_state: DesiredState::Running,
        restart_policy: "always".to_string(),
        health_status: "healthy".to_string(),
        restart_count: 2,
        cpu_percent: figure(12.5),
        memory_bytes: 4096,
        last_started_at: Some(1_700_000_000),
        last_metrics_at: Some(1_700_000_050),
        disk_read_total: 0,
        disk_write_total: 0,
        disk_read_rate: None,
        disk_write_rate: None,
        stdout_log: "/tmp/api.stdout.log".to_string(),
        stderr_log: "/tmp/api.stderr.log".to_string(),
        cluster_mode: false,
        cluster_instances: None,
    }
}

fn fixture_finding(process: &str) -> Finding {
    let evidence = Evidence {
        window: EvidenceWindow {
            start_unix: 1_000,
            end_unix: 1_060,
            sample_count: 30,
        },
        observed: r(400.0),
        expected: r(100.0),
        statistic: r(9.0),
        threshold: r(3.0),
        direction: None,
        agreement: None,
        baseline: None,
        trend: None,
        forecast: None,
        samples: vec![SampleRef::new(1_060, r(400.0))],
        extra: OrderedMap::new(),
    };
    let confidence = Confidence {
        score: r(1.0),
        terms: ConfidenceTerms {
            exceedance: r(1.0),
            agreement: None,
            maturity: None,
            fit: None,
        },
    };
    Finding::builder(
        FindingKey::new(
            process.to_string(),
            Detector::LevelDeparture,
            Metric::MemoryBytes,
        ),
        1_060,
        evidence,
        confidence,
    )
    .build()
    .expect("fixture evidence must be valid")
}

fn restart(process: &str) -> Decision {
    Decision {
        process: process.to_string(),
        at_unix: 2_000,
        rule: Some(RuleId::ResourceLeak),
        action: Some(Action::Restart),
        withheld: None,
        findings: vec![fixture_finding(process).key],
    }
}

fn shown(decision: Decision) -> ShownDecision {
    ShownDecision {
        decision,
        observed: "0.41".to_string(),
        required: "0.60".to_string(),
    }
}

fn fixture_analysis(process: &str) -> AnalysisSnapshot {
    AnalysisSnapshot {
        findings: vec![ScoredFinding {
            finding: fixture_finding(process),
            score_text: "1".to_string(),
        }],
        decisions: vec![restart(process)],
        suppressed: SuppressionCounters {
            blocked_globally: 0,
            blocked_by_detector: 2,
            blocked_by_process: 5,
        },
        warming: vec!["warming-proc".to_string()],
    }
}

fn risky(name: &str, id: u64) -> EvaluatedProcess {
    EvaluatedProcess {
        process: name.to_string(),
        id,
        advisories: vec![
            Advisory {
                id: "slow_stop".to_string(),
                severity: WARNING,
            },
            Advisory {
                id: "crash_loop_protection_disabled".to_string(),
                severity: CRITICAL,
            },
        ],
    }
}

fn dismiss(entries: &[(&str, &[&str])]) -> Dismissals {
    let mut dismissals = OrderedMap::new();
    for (process, rules) in entries {
        let mut set = OrderedMap::new();
        for rule in *rules {
            set.insert((*rule).to_string(), ());
        }
        dismissals.insert((*process).to_string(), set);
    }
    dismissals
}

#[test]
fn a_dismissed_advisory_is_listed_as_dismissed_and_not_dropped() {
    let dismissals = dismiss(&[("risky", &["crash_loop_protection_disabled"])]);
    let report = get_advisories(&[risky("risky", 1)], &dismissals, false);
    let entry = &report.processes[0];
    assert_eq!(entry.dismissed, vec![1]);
    assert_eq!(entry.active, vec![0]);
    assert_eq!(entry.highest_severity, Some(WARNING));
    assert_eq!(report.dismissed_total, 1);
    assert_eq!(
        report.total, 1,
        "the active total must exclude the dismissed one"
    );
    assert!(!report.capacity_available);
}

#[test]
fn a_dismissal_leaves_another_process_alone() {
    let dismissals = dismiss(&[(
        "risky",
        &["crash_loop_protection_disabled", "slow_stop"],
    )]);
    let report = get_advisories(
        &[risky("risky", 1), risky("also-risky", 2)],
        &dismissals,
        true,
    );
    let waved = &report.processes[0];
    assert_eq!(waved.process, "risky");
    assert_eq!(waved.highest_severity, None);
    assert!(waved.active.is_empty());
    assert_eq!(waved.dismissed.len(), 2);

    let other = &report.processes[1];
    assert_eq!(other.id, 2);
    assert_eq!(other.highest_severity, Some(CRITICAL));
    assert!(other.dismissed.is_empty());
    assert_eq!(report.total, 2);
    assert_eq!(report.dismissed_total, 2);
    assert!(report.capacity_available);
}

#[test]
fn without_dismissals_every_advisory_is_active() {
    let report: AdvisoriesReport = get_advisories(&[risky("risky", 1)], &dismiss(&[]), true);
    assert_eq!(report.processes[0].highest_severity, Some(CRITICAL));
    assert_eq!(report.processes[0].active, vec![0, 1]);
    assert!(report.processes[0].dismissed.is_empty());
    assert_eq!(report.dismissed_total, 0);
    let quiet = EvaluatedProcess {
        process: "sound".to_string(),
        id: 3,
        advisories: Vec::new(),
    };
    let report = get_advisories(&[quiet], &dismiss(&[]), true);
    assert_eq!(report.total, 0);
    assert_eq!(report.processes[0].highest_severity, None);
}

#[test]
fn findings_endpoint_reports_findings_suppression_and_warming() {
    let analysis = fixture_analysis("api");
    let report = get_findings(&analysis);
    assert_eq!(report.active, 1);
    assert_eq!(report.total, 1);
    assert_eq!(analysis.findings[0].finding.key.process, "api");
    assert!(!analysis.findings[0].finding.evidence.samples.is_empty());
    assert!(report.guidance[0].as_ref().is_some_and(|g| !g.is_empty()));
    assert_eq!(report.suppressed.blocked_by_detector, 2);
    assert_eq!(report.suppressed.blocked_by_process, 5);
    assert_eq!(report.warming[0], "warming-proc");
}

#[test]
fn cleared_findings_are_listed_but_not_counted_as_active() {
    let mut analysis = fixture_analysis("api");
    analysis.findings[0].finding.status = FindingStatus::Cleared;
    let report = get_findings(&analysis);
    assert_eq!(report.active, 0);
    assert_eq!(report.total, 1);
    let report =
        get_process_findings(&[fixture_metrics_process()], "api", &analysis).expect("known");
    assert_eq!(report.active, 0);
    assert_eq!(report.total, 1);
}

#[test]
fn decisions_endpoint_states_that_nothing_acts() {
    let report = get_decisions(&[shown(restart("api"))]);
    assert_eq!(report.decisions.len(), 1);
    let decision = &report.decisions[0];
    assert_eq!(decision.rule, Some("resource_leak"));
    assert_eq!(decision.action, Some("restart"));
    assert!(!report.acting_enabled);
    assert_eq!(decision.at, 2_000);
    assert_eq!(
        decision.findings,
        vec!["api/level_departure/memory_bytes".to_string()]
    );
    assert_eq!(decision.summary, "api: resource_leak would restart");
}

#[test]
fn a_withheld_decision_shows_its_scores() {
    let mut decision = restart("api");
    decision.action = None;
    decision.withheld = Some(Withheld::BelowMinConfidence {
        observed: r(0.41),
        required: r(0.6),
    });
    let report = get_decisions(&[shown(decision)]);
    assert_eq!(
        report.decisions[0].withheld.as_deref(),
        Some("withheld: confidence 0.41 is below the required 0.60")
    );
    assert_eq!(report.decisions[0].action, None);
}

#[test]
fn per_process_findings_refuse_an_unknown_process() {
    let processes = [fixture_metrics_process()];
    let analysis = fixture_analysis("api");
    let known = get_process_findings(&processes, "api", &analysis).expect("known");
    assert_eq!(known.active, 1);

    let refusal = get_process_findings(&processes, "ghost", &analysis).expect_err("unknown");
    assert_eq!(refusal.status, 404, "must refuse an unknown process");
    let refusal = get_process_decisions(&processes, "ghost", &[]).expect_err("unknown");
    assert_eq!(refusal.status, 404, "must refuse an unknown process");
}

#[test]
fn per_process_findings_are_scoped_to_that_process() {
    let mut other = fixture_metrics_process();
    other.id = 43;
    other.name = "worker".to_string();
    let processes = [fixture_metrics_process(), other];
    let analysis = fixture_analysis("api");

    let report = get_process_findings(&processes, "worker", &analysis).expect("known");
    assert_eq!(
        report.active, 0,
        "another process's finding must not appear here"
    );
    assert!(report.findings.is_empty());
    assert!(!report.warming);
    let api = get_process_findings(&processes, "api", &analysis).expect("known");
    assert_eq!(api.findings, vec![0]);
}

#[test]
fn per_process_decisions_keep_their_order() {
    let mut first = restart("api");
    first.at_unix = 1;
    let mut third = restart("api");
    third.at_unix = 3;
    let report = get_process_decisions(
        &[fixture_metrics_process()],
        "api",
        &[shown(first), shown(restart("worker")), shown(third)],
    )
    .expect("known");
    let times: Vec<u64> = report.decisions.iter().map(|row| row.at).collect();
    assert_eq!(times, vec![1, 3]);
}

#[test]
fn typical_values_are_served_beside_current_ones() {
    let mut stopped = fixture_metrics_process();
    stopped.name = "stopped".to_string();
    stopped.pid = None;
    let processes = [fixture_metrics_process(), stopped];
    let samples: Vec<Reading> = [1.0, 2.0, 3.0, 4.0, 5.0].iter().map(|v| r(*v)).collect();
    let available = typical_from_samples(&samples, 600);
    let mut typical = OrderedMap::new();
    typical.insert(
        "api".to_string(),
        TypicalReport {
            cpu: Some(available),
            memory: None,
        },
    );
    let host = Some(HostMetrics {
        identity: HostIdentity {
            host_name: None,
            os_name: None,
            os_version: None,
            kernel_version: None,
            cpu_arch: None,
        },
        uptime_secs: None,
        memory: Some(HostMemory {
            total_bytes: 8,
            used_bytes: 4,
            available_bytes: 4,
            free_bytes: 4,
            used_percent: Some(figure(50.0)),
            effective_used_percent: None,
            effective_total_bytes: Some(6),
            swap: None,
        }),
        cpu: Some(HostCpu {
            global_percent: Some(figure(42.5)),
            per_core: None,
        }),
        load_average: None,
        filesystems: None,
        network: None,
        components: None,
        failures: Vec::new(),
        min_rate_interval_ms: 200,
    });
    let no_history = Typical::Unavailable {
        reason: TypicalUnavailable::NoHistory,
    };

    let report = get_typical(&processes, &typical, &host);
    let api = &report.processes[0];
    assert!(api.running);
    assert_eq!(api.cpu_percent, Some(&figure(12.5)));
    assert_eq!(api.memory_bytes, Some(4096));
    assert_eq!(api.typical_cpu, available);
    assert_eq!(api.typical_memory, no_history);
    let stopped = &report.processes[1];
    assert!(!stopped.running);
    assert_eq!(stopped.cpu_percent, None);
    assert_eq!(stopped.memory_bytes, None);
    assert_eq!(stopped.typical_cpu, no_history);
    assert_eq!(report.host.cpu_percent, Some(&figure(42.5)));
    assert_eq!(report.host.memory_used_percent, Some(&figure(50.0)));
    assert_eq!(report.host.memory_effective_used_percent, None);
    assert_eq!(report.host.memory_effective_total_bytes, Some(6));
    assert_eq!(report.host_typical, no_history);

    let report = get_typical(&[], &typical, &None);
    assert!(report.processes.is_empty());
    assert_eq!(report.host.cpu_percent, None);
}
