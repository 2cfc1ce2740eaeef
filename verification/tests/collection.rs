//! What is started to observe the host.

use oxmgr::collection::{
    begin_consumer_sampling, begin_host_collection, host_collection_notices, CollectionIntervals,
    HostMetricsRequest, IntervalAdjustment, Notice, SamplingSettings, SettingAdjustment,
};

fn settings(enabled: bool, include_command_lines: bool) -> SamplingSettings {
    SamplingSettings {
        enabled,
        include_command_lines,
        interval_secs: 30,
        top_n: 10,
    }
}

#[test]
fn sampling_that_is_switched_off_is_not_started() {
    let start = begin_consumer_sampling(&settings(false, true), &[]);
    assert!(!start.enabled);
    assert_eq!(
        start.notices,
        vec![Notice::Info(
            "host-wide consumer sampling disabled by OXMGR_HOST_CONSUMERS".to_string()
        )]
    );
}

#[test]
fn sampling_is_marked_enabled_and_says_what_it_applies() {
    let adjusted = [SettingAdjustment {
        setting: "interval".to_string(),
        reason: "is below the minimum".to_string(),
        applied: "5s".to_string(),
    }];
    let start = begin_consumer_sampling(&settings(true, false), &adjusted);
    assert!(start.enabled);
    assert_eq!(
        start.notices,
        vec![
            Notice::Warning(
                "host consumers: interval is below the minimum — applied 5s".to_string()
            ),
            Notice::Info(
                "host-wide consumer sampling started (every 30s, top 10 by cpu and memory)"
                    .to_string()
            ),
        ]
    );
}

#[test]
fn exposing_command_lines_is_warned_about() {
    let start = begin_consumer_sampling(&settings(true, true), &[]);
    assert_eq!(start.notices.len(), 2);
    assert_eq!(
        start.notices[0],
        Notice::Warning(
            "host consumers: full command lines ENABLED by OXMGR_HOST_CONSUMERS_COMMANDS — \
             unmanaged process arguments may contain credentials"
                .to_string()
        )
    );
}

#[test]
fn host_collection_never_asks_for_temperatures() {
    for per_core_cpu in [false, true] {
        assert_eq!(
            begin_host_collection(true, per_core_cpu),
            Ok(HostMetricsRequest {
                per_core_cpu,
                temperatures: false
            })
        );
        assert_eq!(
            begin_host_collection(false, per_core_cpu),
            Err(Notice::Info(
                "host metrics collection disabled by OXMGR_HOST_METRICS".to_string()
            ))
        );
    }
}

#[test]
fn a_raised_interval_is_reported() {
    let raised = [IntervalAdjustment {
        subsystem: "CpuMemory".to_string(),
        configured_ms: 50,
        applied_ms: 200,
        reason: "below the sampling minimum".to_string(),
    }];
    let intervals = CollectionIntervals {
        cpu_memory_ms: 200,
        io_ms: 5_000,
        components_ms: 30_000,
    };
    assert_eq!(
        host_collection_notices(&raised, &intervals),
        vec![
            Notice::Warning(
                "host metrics: CpuMemory interval of 50ms raised to 200ms: \
                 below the sampling minimum"
                    .to_string()
            ),
            Notice::Info(
                "host metrics collection started (cpu/memory 200ms, \
                 disks/interfaces 5000ms, components 30000ms)"
                    .to_string()
            ),
        ]
    );
}
