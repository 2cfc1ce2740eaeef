//! The daemon loop, its local requests and waiting for it.

use oxmgr::daemon::{
    begin_request, bind_refusal, ensure_daemon_running_step, execute_request,
    execute_snapshot_request, handle_event_client, is_client_disconnect, logs_for, on_failure,
    restart_sleep_deadline, run_foreground_step, BusReception, DaemonEffect, DaemonEvent,
    FailureResponse, IpcCall, IpcOutcome, IpcPayload, IpcReply, IpcRequest, IpcStep, Readiness,
    ReadinessAction, ReadinessEvent, SnapshotAnswer, StreamFailure, SubscriberStep,
    DISABLED_RESTART_SLEEP_SECS, NANOS_PER_SEC, READINESS_PROBES,
};
use oxmgr::errors::OxmgrError;
use oxmgr::process::{get_process, managed_pid_list, DesiredState, ManagedProcess};
use oxmgr::reading::{Figure, Reading};

fn process(id: u64, name: &str) -> ManagedProcess {
    ManagedProcess {
        id,
        name: name.to_string(),
        namespace: None,
        pid: None,
        running: false,
        status: "stopped".to_string(),
        desired_state: DesiredState::Stopped,
        restart_policy: "never".to_string(),
        health_status: "unknown".to_string(),
        restart_count: 0,
        cpu_percent: Figure {
            reading: Reading { bits: 0 },
            text: "0".to_string(),
        },
        memory_bytes: 0,
        last_started_at: None,
        last_metrics_at: None,
        disk_read_total: 0,
        disk_write_total: 0,
        disk_read_rate: None,
        disk_write_rate: None,
        stdout_log: format!("/tmp/{name}.out.log"),
        stderr_log: format!("/tmp/{name}.err.log"),
        cluster_mode: false,
        cluster_instances: None,
    }
}

type Request = IpcRequest<&'static str>;
type Call = IpcCall<&'static str>;

fn reply(step: IpcStep<&'static str>) -> IpcReply {
    match step {
        IpcStep::Reply(reply) => reply,
        IpcStep::Call(call) => panic!("a reply is expected, not {call:?}"),
    }
}

fn target(name: &str) -> String {
    name.to_string()
}

#[test]
fn restart_sleep_deadline_uses_due_instant_when_available() {
    let now = 5 * NANOS_PER_SEC;
    let due = now + 7 * NANOS_PER_SEC;
    assert_eq!(restart_sleep_deadline(Some(due), now), due);
}

#[test]
fn restart_sleep_deadline_uses_far_future_when_no_restart_is_scheduled() {
    let now = 5 * NANOS_PER_SEC;
    let deadline = restart_sleep_deadline(None, now);
    assert_eq!(
        deadline,
        now + DISABLED_RESTART_SLEEP_SECS * NANOS_PER_SEC
    );
}

#[test]
fn snapshot_request_serves_list_status_and_logs_without_manager() {
    let processes = [process(1, "api")];
    assert_eq!(
        execute_snapshot_request(&Request::List, &processes),
        Some(SnapshotAnswer::Listing)
    );
    assert_eq!(
        execute_snapshot_request(
            &Request::Status {
                target: target("api")
            },
            &processes
        ),
        Some(SnapshotAnswer::Process(0))
    );
    match execute_snapshot_request(
        &Request::Logs {
            target: target("api"),
        },
        &processes,
    ) {
        Some(SnapshotAnswer::Logs(logs)) => {
            assert_eq!(logs.stdout, "/tmp/api.out.log");
            assert_eq!(logs.stderr, "/tmp/api.err.log");
        }
        other => panic!("logs should be served from the listing, got {other:?}"),
    }
}

#[test]
fn what_the_listing_cannot_answer_goes_to_the_manager() {
    let processes = [process(1, "api")];
    let pong = execute_snapshot_request(&Request::Ping, &processes).expect("answered");
    assert_eq!(pong.message(), "pong");
    assert_eq!(SnapshotAnswer::Listing.message(), "ok");
    for request in [
        Request::Status {
            target: target("ghost"),
        },
        Request::Logs {
            target: target("ghost"),
        },
        Request::Shutdown,
        Request::Stop {
            target: target("api"),
        },
        Request::Findings { target: None },
    ] {
        assert_eq!(execute_snapshot_request(&request, &processes), None);
    }
}

#[test]
fn a_target_is_a_name_before_it_is_an_id() {
    let processes = [process(7, "api"), process(1, "7"), process(3, "worker")];
    assert_eq!(get_process(&processes, "7"), Some(1));
    assert_eq!(get_process(&processes, "3"), Some(2));
    assert_eq!(get_process(&processes, "+3"), Some(2));
    assert_eq!(get_process(&processes, "8"), None);
    assert_eq!(get_process(&processes, "ghost"), None);
    assert_eq!(
        logs_for(&processes, "3").map(|logs| logs.stdout),
        Some("/tmp/worker.out.log".to_string())
    );
    assert_eq!(logs_for(&processes, "ghost"), None);
}

#[test]
fn processes_with_an_id_of_their_own_are_published() {
    let mut running = process(1, "api");
    running.pid = Some(4242);
    assert_eq!(
        managed_pid_list(&[running, process(2, "worker")]),
        vec![(4242, "api".to_string())]
    );
}

#[test]
fn local_requests_are_answered_in_the_past_tense() {
    assert_eq!(
        reply(begin_request(Request::Ping)).message,
        "pong".to_string()
    );
    for (request, call, label, expected) in [
        (
            Request::Start { spec: "node api.js" },
            Call::Start {
                spec: "node api.js",
            },
            "api (1)",
            "started api (1)",
        ),
        (
            Request::Stop {
                target: target("api"),
            },
            Call::Stop {
                target: target("api"),
            },
            "api",
            "stopped api",
        ),
        (
            Request::Restart {
                target: target("api"),
            },
            Call::Restart {
                target: target("api"),
            },
            "api",
            "restarted api",
        ),
        (
            Request::Reload {
                target: target("all"),
            },
            Call::Reload {
                target: target("all"),
            },
            "all",
            "reloaded all",
        ),
        (
            Request::Delete {
                target: target("api"),
            },
            Call::Delete {
                target: target("api"),
            },
            "api",
            "deleted api",
        ),
    ] {
        let answer = reply(execute_request(
            &call,
            &IpcOutcome::Process {
                label: label.to_string(),
            },
        ));
        assert!(answer.ok);
        assert_eq!(answer.message, expected);
        assert_eq!(answer.payload, IpcPayload::Process);
        assert_eq!(begin_request(request), IpcStep::Call(call));
    }
    for (request, call, expected) in [
        (
            Request::Stop {
                target: target("all"),
            },
            Call::StopAll,
            "stopped 3 process(es)",
        ),
        (
            Request::Restart {
                target: target("all"),
            },
            Call::RestartAll,
            "restarted 3 process(es)",
        ),
        (
            Request::Delete {
                target: target("all"),
            },
            Call::DeleteAll,
            "deleted 3 process(es)",
        ),
    ] {
        let answer = reply(execute_request(&call, &IpcOutcome::Processes { count: 3 }));
        assert_eq!(answer.message, expected);
        assert_eq!(answer.payload, IpcPayload::Processes);
        assert_eq!(begin_request(request), IpcStep::Call(call));
    }
}

#[test]
fn the_other_local_requests_say_what_they_did() {
    assert_eq!(
        begin_request(Request::Shutdown),
        IpcStep::Call(Call::ScheduleShutdown)
    );
    let gone = IpcOutcome::Failed {
        message: "receiver gone".to_string(),
    };
    let answer = reply(execute_request(&Call::ScheduleShutdown, &gone));
    assert!(answer.ok);
    assert_eq!(answer.message, "daemon shutdown scheduled");
    assert_eq!(
        begin_request(Request::Pull {
            target: Some(target("api"))
        }),
        IpcStep::Call(Call::Pull {
            target: Some(target("api"))
        })
    );
    let answer = reply(execute_request(
        &Call::Pull { target: None },
        &IpcOutcome::Report {
            message: "Pull complete".to_string(),
        },
    ));
    assert_eq!(answer.message, "Pull complete");
    assert_eq!(answer.payload, IpcPayload::Nothing);
    let answer = reply(execute_request(&Call::List, &IpcOutcome::Done));
    assert_eq!(answer.payload, IpcPayload::Processes);
    let answer = reply(execute_request(&Call::Status { target: target("api") }, &IpcOutcome::Done));
    assert_eq!(answer.payload, IpcPayload::Process);
    let answer = reply(execute_request(&Call::Logs { target: target("api") }, &IpcOutcome::Done));
    assert_eq!(answer.payload, IpcPayload::Logs);
    let answer = reply(execute_request(&Call::Stop { target: target("api") }, &gone));
    assert!(!answer.ok);
    assert_eq!(answer.message, "receiver gone");
}

#[test]
fn findings_of_an_unknown_process_are_refused() {
    let request = Request::Findings {
        target: Some(target("ghost")),
    };
    assert_eq!(begin_request(request), IpcStep::Call(Call::Resolve {
        target: target("ghost"),
    }));
    let answer = reply(execute_request(
        &Call::Resolve {
            target: target("ghost"),
        },
        &IpcOutcome::Failed {
            message: "process not found: ghost".to_string(),
        },
    ));
    assert!(!answer.ok);
    assert_eq!(answer.message, "process not found: ghost");
    assert_eq!(
        execute_request(
            &Call::Resolve {
                target: target("api")
            },
            &IpcOutcome::Done
        ),
        IpcStep::Call(Call::Findings {
            target: Some(target("api"))
        })
    );
    assert_eq!(
        begin_request(Request::Findings { target: None }),
        IpcStep::Call(Call::Findings { target: None })
    );
    let answer = reply(execute_request(&Call::Findings { target: None }, &IpcOutcome::Done));
    assert_eq!(answer.payload, IpcPayload::Findings);
}

#[test]
fn every_change_is_published_and_the_timer_set_anew() {
    for (event, work) in [
        (DaemonEvent::IpcCommand, DaemonEffect::ExecuteIpc),
        (DaemonEvent::ApiCommand, DaemonEffect::ExecuteApi),
        (DaemonEvent::ProcessExited, DaemonEffect::HandleExit),
        (DaemonEvent::RestartDue, DaemonEffect::RunScheduledRestarts),
        (DaemonEvent::MaintenanceTick, DaemonEffect::RunPeriodicTasks),
    ] {
        assert_eq!(
            run_foreground_step(event),
            vec![work, DaemonEffect::Publish, DaemonEffect::ResetRestartTimer]
        );
    }
    assert_eq!(
        run_foreground_step(DaemonEvent::Connected),
        vec![DaemonEffect::ServeClient]
    );
    assert_eq!(
        run_foreground_step(DaemonEvent::AcceptFailed),
        vec![DaemonEffect::ReportAcceptFailure]
    );
}

#[test]
fn the_way_down_stops_the_processes_last() {
    let down = run_foreground_step(DaemonEvent::ShutdownRequested);
    assert_eq!(down, run_foreground_step(DaemonEvent::Signalled));
    assert_eq!(
        down,
        vec![
            DaemonEffect::CloseListener,
            DaemonEffect::StopApi,
            DaemonEffect::RaiseStopFlag,
            DaemonEffect::AnnounceShutdown,
            DaemonEffect::ShutDownAll,
            DaemonEffect::Publish,
            DaemonEffect::Stop,
        ]
    );
}

#[test]
fn only_a_failed_shutdown_ends_the_loop() {
    assert_eq!(
        on_failure(DaemonEffect::RunPeriodicTasks, "disk full"),
        FailureResponse::Report("periodic manager task failed: disk full".to_string())
    );
    assert_eq!(
        on_failure(DaemonEffect::HandleExit, "x"),
        FailureResponse::Report("failed to process exit event: x".to_string())
    );
    assert_eq!(
        on_failure(DaemonEffect::ShutDownAll, "x"),
        FailureResponse::Abort
    );
    assert_eq!(
        on_failure(DaemonEffect::AnnounceShutdown, "x"),
        FailureResponse::Ignore
    );
}

#[test]
fn a_daemon_that_answers_is_not_spawned() {
    let (_, action) = ensure_daemon_running_step(
        Readiness::Unspawned,
        ReadinessEvent::Probed { available: true },
    );
    assert_eq!(action, ReadinessAction::Ready);
    let (state, action) = ensure_daemon_running_step(
        Readiness::Unspawned,
        ReadinessEvent::Probed { available: false },
    );
    assert_eq!(action, ReadinessAction::Spawn);
    let (state, action) = ensure_daemon_running_step(state, ReadinessEvent::Spawned);
    assert_eq!(action, ReadinessAction::Probe);
    let (_, action) =
        ensure_daemon_running_step(state, ReadinessEvent::Probed { available: true });
    assert_eq!(action, ReadinessAction::Ready);
}

#[test]
fn a_daemon_that_never_answers_is_given_up() {
    let (mut state, mut action) =
        ensure_daemon_running_step(Readiness::Unspawned, ReadinessEvent::Spawned);
    let mut probes: u32 = 0;
    while action == ReadinessAction::Probe {
        probes += 1;
        let (waiting, pause) =
            ensure_daemon_running_step(state, ReadinessEvent::Probed { available: false });
        assert_eq!(pause, ReadinessAction::Pause { millis: 100 });
        (state, action) = ensure_daemon_running_step(waiting, ReadinessEvent::Paused);
    }
    assert_eq!(action, ReadinessAction::GiveUp);
    assert_eq!(probes, READINESS_PROBES);
    assert_eq!(probes, 300);
}

#[test]
fn a_second_daemon_does_not_listen() {
    assert_eq!(bind_refusal(true), Some(OxmgrError::DaemonAlreadyRunning));
    assert_eq!(bind_refusal(false), None);
}

#[test]
fn a_client_that_went_away_is_no_error() {
    for failure in [
        StreamFailure::BrokenPipe,
        StreamFailure::ConnectionReset,
        StreamFailure::UnexpectedEof,
    ] {
        assert!(is_client_disconnect(Some(failure)));
    }
    assert!(!is_client_disconnect(Some(StreamFailure::Other)));
    assert!(!is_client_disconnect(None));
}

#[test]
fn a_subscription_ends_only_with_the_bus() {
    assert_eq!(
        handle_event_client(BusReception::Event { passes: true }),
        SubscriberStep::Send
    );
    assert_eq!(
        handle_event_client(BusReception::Event { passes: false }),
        SubscriberStep::Skip
    );
    assert_eq!(
        handle_event_client(BusReception::Lagged { dropped: 3 }),
        SubscriberStep::WarnLagged { dropped: 3 }
    );
    assert_eq!(
        handle_event_client(BusReception::Closed),
        SubscriberStep::Finish
    );
}
