//! Metrics in the text exposition format.

use oxmgr::findings::{
    Agreement, BaselineSummary, Confidence, ConfidenceTerms, Detector, Direction, Evidence,
    EvidenceWindow, Finding, FindingKey, FindingStatus, Metric, SampleRef,
};
use oxmgr::http::exposition::{
    escape_prometheus_label_value, render_families, render_family, sanitize_prometheus_figure,
    Family, Sample,
};
use oxmgr::http::host::{
    get_host, get_host_consumers, render_host_prometheus_metrics, HostComponent, HostCore, HostCpu,
    HostFilesystem, HostIdentity, HostInterface, HostLoad, HostMemory, HostMetrics, HostSwap,
};
use oxmgr::http::observation::process_json_for_transport;
use oxmgr::http::render::{
    get_metrics, render_findings_prometheus_metrics, render_prometheus_metrics, AnalysisSnapshot,
    ScoredFinding, PROMETHEUS_CONTENT_TYPE,
};
use oxmgr::ordered_map::OrderedMap;
use oxmgr::process::{DesiredState, ManagedProcess};
use oxmgr::reading::{Figure, Reading};
use oxmgr::rules::{Action, Decision, RuleId, Withheld};
use oxmgr::tuning::SuppressionCounters;

fn r(value: f64) -> Reading {
    Reading { bits: value.to_bits() }
}

fn figure(value: f64) -> Figure {
    Figure {
        reading: r(value),
        text: format!("{value}"),
    }
}

fn fixture_metrics_process() -> ManagedProcess {
    ManagedProcess {
        id: 42,
        name: "api".to_string(),
        namespace: Some("prod".to_string()),
        pid: Some(4242),
        running: true,
        status: "running".to_string(),
        desired_state: DesiredState::Running,
        restart_policy: "always".to_string(),
        health_status: "healthy".to_string(),
        restart_count: 2,
        cpu_percent: figure(12.5),
        memory_bytes: 4096,
        last_started_at: Some(1_700_000_000),
        last_metrics_at: Some(1_700_000_050),
        disk_read_total: 0,
        disk_write_total: 0,
        disk_read_rate: None,
        disk_write_rate: None,
        stdout_log: "/tmp/api.stdout.log".to_string(),
        stderr_log: "/tmp/api.stderr.log".to_string(),
        cluster_mode: false,
        cluster_instances: None,
    }
}

fn fixture_host_metrics() -> HostMetrics {
    HostMetrics {
        identity: HostIdentity {
            host_name: Some("build-01".to_string()),
            os_name: Some("Linux".to_string()),
            os_version: Some("6.1".to_string()),
            kernel_version: Some("6.1.0".to_string()),
            cpu_arch: Some("x86_64".to_string()),
        },
        uptime_secs: Some(3_600),
        memory: Some(HostMemory {
            total_bytes: 8_000_000_000,
            used_bytes: 4_000_000_000,
            available_bytes: 4_000_000_000,
            free_bytes: 4_000_000_000,
            used_percent: Some(figure(50.0)),
            effective_used_percent: None,
            effective_total_bytes: None,
            swap: Some(HostSwap {
                total_bytes: 2_000_000_000,
                used_bytes: 500_000_000,
            }),
        }),
        cpu: Some(HostCpu {
            global_percent: Some(figure(42.5)),
            per_core: None,
        }),
        load_average: Some(HostLoad {
            one: figure(1.5),
            five: figure(2.0),
            fifteen: figure(2.5),
        }),
        filesystems: Some(vec![
            HostFilesystem {
                mount_point: "/".to_string(),
                file_system: "ext4".to_string(),
                total_bytes: 100_000_000,
                available_bytes: 40_000_000,
                used_bytes: 60_000_000,
                used_percent: Some(figure(60.0)),
            },
            HostFilesystem {
                mount_point: "/proc".to_string(),
                file_system: "proc".to_string(),
                total_bytes: 0,
                available_bytes: 0,
                used_bytes: 0,
                used_percent: None,
            },
        ]),
        network: Some(vec![
            HostInterface {
                name: "eth0".to_string(),
                total_received_bytes: 900_000,
                total_transmitted_bytes: 400_000,
                errors_on_received: 1,
                errors_on_transmitted: 2,
                interval_ms: Some(2_000),
                received_rate: figure(1000.0),
                transmitted_rate: figure(500.0),
            },
            HostInterface {
                name: "lo".to_string(),
                total_received_bytes: 500,
                total_transmitted_bytes: 500,
                errors_on_received: 0,
                errors_on_transmitted: 0,
                interval_ms: None,
                received_rate: figure(0.0),
                transmitted_rate: figure(0.0),
            },
        ]),
        components: None,
        failures: Vec::new(),
        min_rate_interval_ms: 200,
    }
}

fn fixture_finding(process: &str) -> Finding {
    let evidence = Evidence {
        window: EvidenceWindow {
            start_unix: 1_000,
            end_unix: 1_060,
            sample_count: 30,
        },
        observed: r(400.0),
        expected: r(100.0),
        statistic: r(9.0),
        threshold: r(3.0),
        direction: Some(Direction::Above),
        agreement: Some(Agreement {
            consecutive_samples: 6,
            required_samples: 3,
        }),
        baseline: Some(BaselineSummary {
            center: r(100.0),
            spread: r(10.0),
            sample_count: 120,
            min_samples: 30,
        }),
        trend: None,
        forecast: None,
        samples: vec![SampleRef::new(1_060, r(400.0))],
        extra: OrderedMap::new(),
    };
    let confidence = Confidence {
        score: r(1.0),
        terms: ConfidenceTerms {
            exceedance: r(1.0),
            agreement: Some(r(1.0)),
            maturity: Some(r(1.0)),
            fit: None,
        },
    };
    Finding::builder(
        FindingKey::new(
            process.to_string(),
            Detector::LevelDeparture,
            Metric::MemoryBytes,
        )
        .with_variant("above".to_string()),
        1_060,
        evidence,
        confidence,
    )
    .summary("memory sits far above its baseline".to_string())
    .build()
    .expect("fixture evidence must be valid")
}

fn fixture_analysis(process: &str) -> AnalysisSnapshot {
    AnalysisSnapshot {
        findings: vec![ScoredFinding {
            finding: fixture_finding(process),
            score_text: "1".to_string(),
        }],
        decisions: vec![Decision {
            process: process.to_string(),
            at_unix: 2_000,
            rule: Some(RuleId::ResourceLeak),
            action: Some(Action::Restart),
            withheld: None,
            findings: vec![fixture_finding(process).key],
        }],
        suppressed: SuppressionCounters {
            blocked_globally: 0,
            blocked_by_detector: 2,
            blocked_by_process: 5,
        },
        warming: vec!["warming-proc".to_string()],
    }
}

#[test]
fn escape_prometheus_label_value_handles_special_characters() {
    assert_eq!(
        escape_prometheus_label_value("prod\\blue\"green\nline"),
        "prod\\\\blue\\\"green\\nline"
    );
}

#[test]
fn render_prometheus_metrics_escapes_labels_and_sanitizes_nan() {
    let mut process = fixture_metrics_process();
    process.name = "api\"svc".to_string();
    process.namespace = Some("prod\\blue\nline".to_string());
    process.cpu_percent = figure(f64::NAN);

    let rendered = render_prometheus_metrics(&[process]);
    assert!(rendered.contains("name=\"api\\\"svc\""));
    assert!(rendered.contains("namespace=\"prod\\\\blue\\nline\""));
    assert!(rendered.contains("oxmgr_process_cpu_percent{id=\"42\",name=\"api\\\"svc\",namespace=\"prod\\\\blue\\nline\"} 0"));
}

#[test]
fn host_metrics_render_counters_and_gauges_with_the_right_types() {
    let rendered = render_host_prometheus_metrics(&fixture_host_metrics());

    assert!(rendered.contains("# TYPE oxmgr_host_network_received_bytes_total counter"));
    assert!(rendered.contains("# TYPE oxmgr_host_network_transmitted_bytes_total counter"));
    assert!(rendered.contains("# TYPE oxmgr_host_network_errors_total counter"));

    assert!(rendered.contains("# TYPE oxmgr_host_memory_bytes gauge"));
    assert!(rendered.contains("# TYPE oxmgr_host_memory_used_percent gauge"));
    assert!(rendered.contains("# TYPE oxmgr_host_cpu_used_percent gauge"));
    assert!(rendered.contains("# TYPE oxmgr_host_load_average gauge"));
    assert!(rendered.contains("# TYPE oxmgr_host_filesystem_bytes gauge"));
    assert!(rendered.contains("# TYPE oxmgr_host_filesystem_used_percent gauge"));

    for line in rendered
        .lines()
        .filter(|l| !l.is_empty() && !l.starts_with('#'))
    {
        let (_, value) = line.rsplit_once(' ').expect("every sample has a value");
        assert!(
            !value.is_empty() && value.parse::<f64>().is_ok(),
            "not a numeric sample: {line}"
        );
    }
}

#[test]
fn host_network_series_are_scoped_to_the_host() {
    let rendered = render_host_prometheus_metrics(&fixture_host_metrics());

    assert!(rendered.contains(
        "oxmgr_host_network_received_bytes_total{interface=\"eth0\",scope=\"host\"} 900000"
    ));
    assert!(rendered.contains("oxmgr_host_network_errors_total{interface=\"eth0\",scope=\"host\",direction=\"received\"} 1"));
    for line in rendered
        .lines()
        .filter(|l| l.starts_with("oxmgr_host_network"))
    {
        assert!(line.contains("scope=\"host\""), "unscoped series: {line}");
    }
}

#[test]
fn unavailable_host_metrics_are_omitted_rather_than_zero_filled() {
    let metrics = HostMetrics {
        identity: fixture_host_metrics().identity,
        uptime_secs: None,
        memory: None,
        cpu: None,
        load_average: None,
        filesystems: None,
        network: None,
        components: None,
        failures: vec!["Components".to_string()],
        min_rate_interval_ms: 200,
    };

    let rendered = render_host_prometheus_metrics(&metrics);

    for absent in [
        "oxmgr_host_memory_bytes",
        "oxmgr_host_memory_used_percent",
        "oxmgr_host_swap_bytes",
        "oxmgr_host_cpu_used_percent",
        "oxmgr_host_load_average",
        "oxmgr_host_filesystem_bytes",
        "oxmgr_host_temperature_celsius",
    ] {
        assert!(
            !rendered.contains(absent),
            "{absent} must be omitted when unavailable, not zero-filled"
        );
    }

    assert!(rendered.contains("oxmgr_host_info{"));
    assert!(rendered.contains("oxmgr_host_subsystem_failed{subsystem=\"Components\"} 1"));
}

#[test]
fn a_host_interface_rate_needs_an_observed_interval() {
    let rendered = render_host_prometheus_metrics(&fixture_host_metrics());

    assert!(rendered.contains(
        "oxmgr_host_network_received_bytes_per_second{interface=\"eth0\",scope=\"host\"} 1000"
    ));
    assert!(
        !rendered.contains("oxmgr_host_network_received_bytes_per_second{interface=\"lo\""),
        "an interface with no observed interval must be omitted"
    );
    assert!(rendered.contains(
        "oxmgr_host_network_received_bytes_total{interface=\"lo\",scope=\"host\"} 500"
    ));
}

#[test]
fn a_zero_capacity_filesystem_reports_bytes_but_no_utilisation() {
    let rendered = render_host_prometheus_metrics(&fixture_host_metrics());

    assert!(rendered.contains(
        "oxmgr_host_filesystem_bytes{mount=\"/proc\",fstype=\"proc\",state=\"total\"} 0"
    ));
    assert!(
        !rendered.contains("oxmgr_host_filesystem_used_percent{mount=\"/proc\""),
        "utilisation of a zero-capacity filesystem must be omitted"
    );
    assert!(
        rendered.contains("oxmgr_host_filesystem_used_percent{mount=\"/\",fstype=\"ext4\"} 60")
    );
}

#[test]
fn network_io_is_reported_as_unsupported_with_a_reason() {
    let process = fixture_metrics_process();

    let fields = process_json_for_transport(&process);
    assert_eq!(fields.network_io_status, "unsupported");
    assert!(
        fields.network_io_reason.contains("per interface"),
        "the reason must say why, not just that it is unsupported: {}",
        fields.network_io_reason
    );
    assert!(fields.network_io_status.parse::<f64>().is_err());
}

#[test]
fn an_unsupported_status_is_distinguishable_from_a_measured_zero() {
    let mut idle = fixture_metrics_process();
    idle.disk_read_rate = Some(figure(0.0));
    idle.disk_write_rate = Some(figure(0.0));

    let fields = process_json_for_transport(&idle);

    assert_eq!(
        fields
            .disk_read_bytes_per_second
            .map(|figure| f64::from_bits(figure.reading.bits)),
        Some(0.0),
        "a measured zero is a number"
    );
    assert!(!fields.network_io_status.is_empty());
}

#[test]
fn a_rate_is_null_when_the_daemon_cannot_measure_it() {
    let mut stopped = fixture_metrics_process();
    stopped.disk_write_total = 8_192;
    stopped.disk_read_rate = None;
    stopped.disk_write_rate = None;

    let fields = process_json_for_transport(&stopped);

    assert!(
        fields.disk_read_bytes_per_second.is_none(),
        "an unavailable rate must be null rather than zero"
    );
    assert!(fields.disk_write_bytes_per_second.is_none());
    assert_eq!(stopped.disk_write_total, 8_192);

    stopped.disk_read_rate = Some(figure(f64::INFINITY));
    assert!(process_json_for_transport(&stopped)
        .disk_read_bytes_per_second
        .is_none());
}

#[test]
fn disk_totals_are_counters_and_rates_are_omitted_when_unavailable() {
    let mut measured = fixture_metrics_process();
    measured.disk_read_total = 1_000;
    measured.disk_write_total = 2_000;
    measured.disk_read_rate = Some(figure(500.0));
    measured.disk_write_rate = Some(figure(1000.0));

    let mut unmeasured = fixture_metrics_process();
    unmeasured.id = 43;
    unmeasured.name = "stopped-svc".to_string();
    unmeasured.disk_read_total = 500;
    unmeasured.disk_write_total = 500;

    let rendered = render_prometheus_metrics(&[measured, unmeasured]);

    assert!(rendered.contains("# TYPE oxmgr_process_disk_read_bytes_total counter"));
    assert!(rendered.contains("# TYPE oxmgr_process_disk_written_bytes_total counter"));
    assert!(rendered.contains("# TYPE oxmgr_process_disk_read_bytes_per_second gauge"));

    assert!(rendered.contains("oxmgr_process_disk_written_bytes_total{id=\"42\""));
    assert!(rendered.contains("oxmgr_process_disk_written_bytes_total{id=\"43\""));

    assert!(rendered.contains("oxmgr_process_disk_written_bytes_per_second{id=\"42\""));
    assert!(
        !rendered.contains("oxmgr_process_disk_written_bytes_per_second{id=\"43\""),
        "a process with no measurement must be omitted, not zero-filled"
    );
}

#[test]
fn findings_metrics_render_valid_prometheus_text() {
    let analysis = fixture_analysis("api");
    let processes = vec![fixture_metrics_process()];
    let rendered = render_findings_prometheus_metrics(&analysis, &processes);

    for series in [
        "oxmgr_finding_active",
        "oxmgr_finding_confidence",
        "oxmgr_finding_occurrence",
        "oxmgr_findings_suppressed_total",
        "oxmgr_process_baseline_warming",
        "oxmgr_remediation_decisions",
    ] {
        assert!(
            rendered.contains(&format!("# HELP {series} ")),
            "{series} has no HELP line"
        );
        assert!(
            rendered.contains(&format!("# TYPE {series} ")),
            "{series} has no TYPE line"
        );
    }

    assert!(
        rendered.contains(r#"oxmgr_finding_active{name="api",namespace="prod",detector="level_departure",metric="memory_bytes",variant="above"} 1"#),
        "active finding series missing or mislabelled:\n{rendered}"
    );
    assert!(rendered.contains(r#"oxmgr_findings_suppressed_total{scope="detector"} 2"#));
    assert!(rendered.contains(r#"oxmgr_findings_suppressed_total{scope="process"} 5"#));
    assert!(
        rendered.contains(
            r#"oxmgr_remediation_decisions{rule="resource_leak",outcome="proposed"} 1"#
        ),
        "decision series missing:\n{rendered}"
    );

    for line in rendered.lines() {
        if line.is_empty() || line.starts_with('#') {
            continue;
        }
        let value = line
            .rsplit_once(' ')
            .map(|(_, value)| value)
            .unwrap_or_else(|| panic!("sample line has no value: {line}"));
        let parsed: f64 = value
            .parse()
            .unwrap_or_else(|_| panic!("unparseable sample value in: {line}"));
        assert!(parsed.is_finite(), "non-finite sample value in: {line}");
    }
}

#[test]
fn a_cleared_finding_leaves_no_active_series() {
    let mut analysis = fixture_analysis("api");
    analysis.findings[0].finding.status = FindingStatus::Cleared;
    analysis.findings[0].finding.cleared_at_unix = Some(2_000);

    let rendered = render_findings_prometheus_metrics(&analysis, &[fixture_metrics_process()]);
    assert!(
        !rendered.contains("oxmgr_finding_active{"),
        "a cleared finding must not emit an active sample:\n{rendered}"
    );
    assert!(rendered.contains("# TYPE oxmgr_finding_active gauge"));
}

#[test]
fn snapshot_api_request_serves_prometheus_metrics() {
    let analysis = AnalysisSnapshot {
        findings: Vec::new(),
        decisions: Vec::new(),
        suppressed: SuppressionCounters::default(),
        warming: Vec::new(),
    };
    let reply = get_metrics(&[fixture_metrics_process()], &None, &analysis);
    assert_eq!(reply.status, 200);
    assert_eq!(
        reply.headers,
        vec![(
            "content-type".to_string(),
            PROMETHEUS_CONTENT_TYPE.to_string()
        )]
    );

    let body = String::from_utf8(reply.body).expect("text");
    assert!(body.contains("# TYPE oxmgr_managed_processes gauge"));
    assert!(body.contains("oxmgr_managed_processes 1"));
    assert!(body.contains("oxmgr_process_up{id=\"42\",name=\"api\",namespace=\"prod\"} 1"));
    assert!(body.contains(
        "oxmgr_process_info{id=\"42\",name=\"api\",namespace=\"prod\",desired_state=\"running\",restart_policy=\"always\",status=\"running\"} 1"
    ));
    assert!(body.contains(
        "oxmgr_process_health_status{id=\"42\",name=\"api\",namespace=\"prod\",health_status=\"healthy\"} 1"
    ));
}

#[test]
fn a_scrape_joins_processes_host_and_findings() {
    let analysis = fixture_analysis("api");
    let processes = [fixture_metrics_process()];
    let host = Some(fixture_host_metrics());
    let reply = get_metrics(&processes, &host, &analysis);
    let body = String::from_utf8(reply.body).expect("text");
    let expected = format!(
        "{}\n{}\n{}",
        render_prometheus_metrics(&processes),
        render_host_prometheus_metrics(host.as_ref().expect("set above")),
        render_findings_prometheus_metrics(&analysis, &processes)
    );
    assert_eq!(body, expected);
}

#[test]
fn withheld_and_unmatched_decisions_are_counted_apart() {
    let mut analysis = fixture_analysis("api");
    analysis.decisions.push(Decision {
        withheld: Some(Withheld::ProcessStopped),
        rule: Some(RuleId::ProcessStopped),
        ..Decision::no_match("api".to_string(), 2_001)
    });
    analysis
        .decisions
        .push(Decision::no_match("api".to_string(), 2_002));
    let rendered = render_findings_prometheus_metrics(&analysis, &[fixture_metrics_process()]);
    assert!(rendered
        .contains(r#"oxmgr_remediation_decisions{rule="process_stopped",outcome="withheld"} 1"#));
    assert!(rendered
        .contains(r#"oxmgr_remediation_decisions{rule="resource_leak",outcome="proposed"} 1"#));
}

#[test]
fn a_warming_process_is_marked() {
    let mut analysis = fixture_analysis("api");
    analysis.warming = vec!["api".to_string()];
    let rendered = render_findings_prometheus_metrics(&analysis, &[fixture_metrics_process()]);
    assert!(
        rendered.contains("oxmgr_process_baseline_warming{id=\"42\",name=\"api\",namespace=\"prod\"} 1"),
        "{rendered}"
    );
    analysis.warming.clear();
    let rendered = render_findings_prometheus_metrics(&analysis, &[fixture_metrics_process()]);
    assert!(
        rendered.contains("oxmgr_process_baseline_warming{id=\"42\",name=\"api\",namespace=\"prod\"} 0"),
        "{rendered}"
    );
}

#[test]
fn cores_components_and_effective_limits_are_rendered_where_reported() {
    let mut host = fixture_host_metrics();
    host.cpu = Some(HostCpu {
        global_percent: None,
        per_core: Some(vec![HostCore {
            name: "cpu0".to_string(),
            usage_percent: figure(7.5),
        }]),
    });
    host.components = Some(vec![
        HostComponent {
            label: "package".to_string(),
            temperature_celsius: Some(figure(51.0)),
        },
        HostComponent {
            label: "silent".to_string(),
            temperature_celsius: None,
        },
    ]);
    let rendered = render_host_prometheus_metrics(&host);
    assert!(rendered.contains("cpu0"), "{rendered}");
    assert!(rendered.contains("7.5"));
    assert!(rendered.contains("oxmgr_host_temperature_celsius"));
    assert!(rendered.contains("51"));
    assert!(!rendered.contains("silent"));
    assert!(!rendered.contains("oxmgr_host_cpu_used_percent "));
}

#[test]
fn host_endpoints_are_unavailable_before_the_first_sample() {
    let reply = get_host(None);
    assert_eq!(reply.status, 503);
    assert_eq!(
        String::from_utf8(reply.body).expect("text"),
        "host metrics not collected yet: the first collection has not completed"
    );
    let reply = get_host(Some("{\"uptime_secs\":1}"));
    assert_eq!(reply.status, 200);
    assert_eq!(
        reply.headers,
        vec![("content-type".to_string(), "application/json".to_string())]
    );
    assert_eq!(reply.body, b"{\"uptime_secs\":1}");
    assert_eq!(get_host_consumers(None).status, 503);
    assert_eq!(get_host_consumers(Some("{}")).status, 200);
}

#[test]
fn a_family_is_declared_before_its_samples() {
    let family = Family {
        name: "oxmgr_up",
        help: "Whether it is up.",
        kind: "gauge",
        samples: vec![
            Sample::bare("1".to_string()),
            Sample::labelled(vec![("name", "a\"b".to_string())], "0".to_string()),
        ],
    };
    assert_eq!(
        render_family(&family),
        "# HELP oxmgr_up Whether it is up.\n# TYPE oxmgr_up gauge\noxmgr_up 1\noxmgr_up{name=\"a\\\"b\"} 0\n"
    );
    let text = render_families(&[
        Family {
            name: "a",
            help: "A.",
            kind: "counter",
            samples: Vec::new(),
        },
        Family {
            name: "b",
            help: "B.",
            kind: "gauge",
            samples: Vec::new(),
        },
    ]);
    assert!(text.starts_with("# HELP a A.\n# TYPE a counter\n"));
    assert!(text.contains("# HELP b B.\n# TYPE b gauge\n"));
}

#[test]
fn figures_that_are_not_numbers_render_as_zero() {
    assert_eq!(sanitize_prometheus_figure(&figure(12.5)), "12.5");
    assert_eq!(sanitize_prometheus_figure(&figure(f64::NAN)), "0");
    assert_eq!(sanitize_prometheus_figure(&figure(f64::INFINITY)), "0");
}
