//! What host-wide sampling adds to a process.

use oxmgr::http::observation::{
    attach_observation_fields, get_process, get_processes, json_rate, AttributedDescendant,
    Descendants, HostObservation, ManagedProcessAttribution, ObservedWorkers,
};
use oxmgr::process::{DesiredState, ManagedProcess};
use oxmgr::reading::{Figure, Reading};

fn figure(value: f64) -> Figure {
    Figure {
        reading: Reading { bits: value.to_bits() },
        text: format!("{value}"),
    }
}

fn fixture_metrics_process() -> ManagedProcess {
    ManagedProcess {
        id: 42,
        name: "api".to_string(),
        namespace: Some("prod".to_string()),
        pid: Some(4242),
        running: true,
        status: "running".to_string(),
        desired_state: DesiredState::Running,
        restart_policy: "always".to_string(),
        health_status: "healthy".to_string(),
        restart_count: 2,
        cpu_percent: figure(12.5),
        memory_bytes: 4096,
        last_started_at: Some(1_700_000_000),
        last_metrics_at: Some(1_700_000_050),
        disk_read_total: 0,
        disk_write_total: 0,
        disk_read_rate: None,
        disk_write_rate: None,
        stdout_log: "/tmp/api.stdout.log".to_string(),
        stderr_log: "/tmp/api.stderr.log".to_string(),
        cluster_mode: false,
        cluster_instances: None,
    }
}

fn fixture_host_consumers(managed_pid: u32) -> HostObservation {
    HostObservation {
        attribution: vec![ManagedProcessAttribution {
            pid: managed_pid,
            name: "api".to_string(),
            descendants: vec![AttributedDescendant {
                pid: managed_pid + 1,
                ppid: Some(managed_pid),
                name: "worker".to_string(),
                cpu_percent: figure(1.5),
                memory_bytes: 2048,
                depth: 1,
                command: None,
            }],
            descendants_cpu_percent: figure(1.5),
            descendants_memory_bytes: 2048,
            truncated: false,
            descendant_count: 1,
        }],
        sampled_at: 1_700_000_000,
    }
}

fn fixture_cluster_process() -> ManagedProcess {
    let mut process = fixture_metrics_process();
    process.name = "web".to_string();
    process.cluster_mode = true;
    process
}

fn reason(descendants: &Descendants<'_>) -> &'static str {
    match descendants {
        Descendants::Unavailable(why) => why.reason(),
        Descendants::Observed { .. } => panic!("nothing was to be observed"),
    }
}

fn observed_workers(process: &ManagedProcess, sample: &HostObservation) -> ObservedWorkers {
    attach_observation_fields(process, Some(sample), true)
        .cluster
        .expect("a cluster")
        .observed
}

#[test]
fn process_api_attaches_descendant_attribution() {
    let processes = [fixture_metrics_process()];
    let sample = fixture_host_consumers(4242);
    let listed = get_processes(&processes, Some(&sample), true);
    assert_eq!(listed.len(), 1);
    let one = get_process(&processes, "api", Some(&sample), true).expect("known");
    for sent in [&listed[0], &one] {
        assert_eq!(sent.place, 0);
        match &sent.observation.descendants {
            Descendants::Observed { entry, observed_at } => {
                assert_eq!(*observed_at, 1_700_000_000);
                assert!(!entry.truncated);
                assert_eq!(entry.descendants.len(), 1);
                assert_eq!(entry.descendants[0].pid, 4243);
                assert_eq!(entry.descendants[0].depth, 1);
                assert_eq!(entry.descendants[0].cpu_percent, figure(1.5));
                assert_eq!(entry.descendants[0].command, None);
                assert_eq!(entry.descendants_cpu_percent, figure(1.5));
                assert_eq!(entry.descendants_memory_bytes, 2048);
            }
            Descendants::Unavailable(why) => panic!("unavailable: {}", why.reason()),
        }
    }
}

#[test]
fn process_api_reports_observed_empty_distinct_from_unavailable() {
    let mut sample = fixture_host_consumers(4242);
    sample.attribution[0].descendants.clear();
    sample.attribution[0].descendants_cpu_percent = figure(0.0);
    sample.attribution[0].descendants_memory_bytes = 0;

    let process = fixture_metrics_process();
    match attach_observation_fields(&process, Some(&sample), true).descendants {
        Descendants::Observed { entry, .. } => {
            assert!(entry.descendants.is_empty(), "observed-and-none, not absent")
        }
        Descendants::Unavailable(why) => panic!("unavailable: {}", why.reason()),
    }
}

#[test]
fn process_api_reports_unavailable_when_sampling_is_disabled_and_withholds_totals() {
    let processes = [fixture_metrics_process()];
    let one = get_process(&processes, "api", None, false).expect("known");
    assert!(
        reason(&one.observation.descendants).contains("OXMGR_HOST_CONSUMERS"),
        "the disabling knob must be named"
    );
    let listed = get_processes(&processes, None, false);
    assert!(matches!(
        listed[0].observation.descendants,
        Descendants::Unavailable(_)
    ));
}

#[test]
fn process_api_reports_unavailable_before_the_first_sample() {
    let processes = [fixture_metrics_process()];
    let one = get_process(&processes, "api", None, true).expect("known");
    assert!(
        !reason(&one.observation.descendants).contains("OXMGR_HOST_CONSUMERS"),
        "enabled-but-pending is a different situation from disabled"
    );
}

#[test]
fn process_api_does_not_carry_attribution_across_a_pid_change_or_a_stop() {
    let mut restarted = fixture_metrics_process();
    restarted.pid = Some(9999);

    let mut stopped = fixture_metrics_process();
    stopped.name = "stopped".to_string();
    stopped.pid = None;
    stopped.running = false;
    stopped.status = "stopped".to_string();

    let processes = [restarted, stopped];
    let sample = fixture_host_consumers(4242);

    let one = get_process(&processes, "api", Some(&sample), true).expect("known");
    assert_eq!(
        reason(&one.observation.descendants),
        "not yet observed by host-wide sampling"
    );

    let two = get_process(&processes, "stopped", Some(&sample), true).expect("known");
    assert_eq!(
        reason(&two.observation.descendants),
        "process is not running"
    );
}

#[test]
fn cluster_api_reports_requested_and_observed_as_separate_figures() {
    let mut cluster = fixture_cluster_process();
    cluster.cluster_instances = Some(4);
    let sample = fixture_host_consumers(4242);

    let shape = attach_observation_fields(&cluster, Some(&sample), true)
        .cluster
        .expect("a cluster");
    assert_eq!(
        shape.requested.count,
        Some(4),
        "requested is the configured number"
    );
    assert!(!shape.requested.derived);
    assert_eq!(
        shape.observed,
        ObservedWorkers::Observed {
            workers: 1,
            observed_at: 1_700_000_000
        }
    );
}

#[test]
fn cluster_api_labels_a_derived_requested_count_and_reports_no_invented_number() {
    let cluster = fixture_cluster_process();
    let sample = fixture_host_consumers(4242);
    let shape = attach_observation_fields(&cluster, Some(&sample), true)
        .cluster
        .expect("a cluster");
    assert_eq!(shape.requested.count, None);
    assert!(shape.requested.derived);
    assert!(matches!(
        shape.observed,
        ObservedWorkers::Observed { workers: 1, .. }
    ));
}

#[test]
fn cluster_api_observed_follows_attribution_availability_exactly() {
    let mut cluster = fixture_cluster_process();
    cluster.cluster_instances = Some(4);

    let disabled = attach_observation_fields(&cluster, None, false)
        .cluster
        .expect("a cluster")
        .observed;
    match disabled {
        ObservedWorkers::Unavailable(why) => {
            assert!(why.reason().contains("OXMGR_HOST_CONSUMERS"))
        }
        ObservedWorkers::Observed { .. } => panic!("nothing was observed"),
    }

    let pending = attach_observation_fields(&cluster, None, true)
        .cluster
        .expect("a cluster")
        .observed;
    match pending {
        ObservedWorkers::Unavailable(why) => {
            assert!(!why.reason().contains("OXMGR_HOST_CONSUMERS"))
        }
        ObservedWorkers::Observed { .. } => panic!("nothing was observed"),
    }

    let mut empty_sample = fixture_host_consumers(4242);
    empty_sample.attribution[0].descendants.clear();
    empty_sample.attribution[0].descendant_count = 0;
    assert!(matches!(
        observed_workers(&cluster, &empty_sample),
        ObservedWorkers::Observed { workers: 0, .. }
    ));
}

#[test]
fn non_cluster_carries_no_cluster_field() {
    let process = fixture_metrics_process();
    let sample = fixture_host_consumers(4242);
    assert!(
        attach_observation_fields(&process, Some(&sample), true)
            .cluster
            .is_none(),
        "non-cluster must not carry a cluster object"
    );
}

#[test]
fn cluster_worker_count_uses_the_untruncated_count() {
    let mut cluster = fixture_cluster_process();
    cluster.cluster_instances = Some(400);

    let mut sample = fixture_host_consumers(4242);
    sample.attribution[0].descendant_count = 350;
    sample.attribution[0].truncated = true;

    assert!(
        matches!(
            observed_workers(&cluster, &sample),
            ObservedWorkers::Observed { workers: 350, .. }
        ),
        "the count must be of the observed set, not of the listed rows"
    );
}

#[test]
fn an_expanded_instance_that_is_also_a_cluster_reports_both_facts() {
    let mut both = fixture_cluster_process();
    both.name = "api-1".to_string();
    both.cluster_instances = Some(2);

    let processes = [both];
    let sample = fixture_host_consumers(4242);
    let sent = get_process(&processes, "api-1", Some(&sample), true).expect("known");
    assert_eq!(
        processes[sent.place].name, "api-1",
        "instance identity stays in the name"
    );
    assert!(processes[sent.place].cluster_mode);
    let shape = sent.observation.cluster.expect("a cluster");
    assert_eq!(shape.requested.count, Some(2));
    assert!(
        matches!(
            shape.observed,
            ObservedWorkers::Observed { workers: 1, .. }
        ),
        "this instance's OWN bootstrap workers, not a fleet-wide figure"
    );
}

#[test]
fn an_unknown_process_is_refused() {
    let refusal = get_process(&[fixture_metrics_process()], "ghost", None, true)
        .expect_err("not in the listing");
    assert_eq!(refusal.status, 404);
    assert!(!refusal.ok);
    assert_eq!(refusal.message, "service not found");
}

#[test]
fn only_finite_rates_are_sent() {
    assert_eq!(json_rate(&Some(figure(1.5))), Some(&figure(1.5)));
    assert_eq!(json_rate(&Some(figure(f64::NAN))), None);
    assert_eq!(json_rate(&None), None);
}
