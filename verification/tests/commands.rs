//! Actions requested over HTTP.

use oxmgr::http::commands::{
    begin_api_request, execute_api_request, handle_action_result, manager_unavailable, post_pull,
    ApiCall, ApiOutcome, ApiStep, HttpCommand,
};
use oxmgr::http::reply::Message;
use oxmgr::http::routes::{create_router, Endpoint, Verb};

fn reply(step: ApiStep) -> Message {
    match step {
        ApiStep::Reply(message) => message,
        ApiStep::Call(call) => panic!("a reply is expected, not {call:?}"),
    }
}

fn named(name: &str) -> String {
    name.to_string()
}

fn refused(message: &str) -> ApiOutcome {
    ApiOutcome::Refused {
        message: message.to_string(),
    }
}

#[test]
fn executor_stops_process_and_reports_count() {
    let command = HttpCommand::Stop {
        target: "all".to_string(),
    };
    assert_eq!(begin_api_request(&command), ApiStep::Call(ApiCall::StopAll));
    let message = reply(execute_api_request(
        &command,
        &ApiCall::StopAll,
        &ApiOutcome::Done { count: 1 },
    ));
    assert_eq!(message.status, 200);
    assert_eq!(message.message, "stop 1 process(es)");
}

#[test]
fn executor_restarts_process() {
    let command = HttpCommand::Restart {
        target: "api".to_string(),
    };
    assert_eq!(begin_api_request(&command), ApiStep::Call(ApiCall::Restart { target: named("api") }));
    let message = reply(execute_api_request(
        &command,
        &ApiCall::Restart { target: named("api") },
        &ApiOutcome::Done { count: 1 },
    ));
    assert_eq!(message.status, 200);
    assert_eq!(message.message, "restart 1 process(es)");
}

#[test]
fn executor_reloads_process() {
    let command = HttpCommand::Reload {
        target: "api".to_string(),
    };
    assert_eq!(begin_api_request(&command), ApiStep::Call(ApiCall::Reload { target: named("api") }));
    let message = reply(execute_api_request(
        &command,
        &ApiCall::Reload { target: named("api") },
        &ApiOutcome::Done { count: 1 },
    ));
    assert_eq!(message.status, 200);
    assert_eq!(message.message, "reload 1 process(es)");
}

#[test]
fn executor_handles_stop_all_for_dashboard() {
    let command = HttpCommand::Stop {
        target: "all".to_string(),
    };
    let message = reply(execute_api_request(
        &command,
        &ApiCall::StopAll,
        &ApiOutcome::Done { count: 2 },
    ));
    assert_eq!(message.status, 200);
    assert_eq!(message.message, "stop 2 process(es)");
}

#[test]
fn an_unknown_process_is_not_found_and_other_failures_are_the_servers() {
    let command = HttpCommand::Stop {
        target: "nope".to_string(),
    };
    assert_eq!(
        begin_api_request(&command),
        ApiStep::Call(ApiCall::Stop {
            target: named("nope")
        })
    );
    let message = reply(execute_api_request(
        &command,
        &ApiCall::Stop { target: named("nope") },
        &refused("process not found: nope"),
    ));
    assert_eq!(message.status, 404);
    assert!(!message.ok);
    assert_eq!(message.message, "process not found: nope");
    let message = reply(handle_action_result(
        "stop",
        &ApiOutcome::Failed {
            message: "no permission".to_string(),
        },
    ));
    assert_eq!(message.status, 500);
    assert_eq!(message.message, "no permission");
}

#[test]
fn execute_api_request_rejects_missing_secret() {
    let command = HttpCommand::Pull {
        target: "api".to_string(),
        secret: None,
    };
    assert_eq!(begin_api_request(&command), ApiStep::Call(ApiCall::Find { target: named("api") }));
    let message = reply(execute_api_request(
        &command,
        &ApiCall::Find { target: named("api") },
        &ApiOutcome::Done { count: 1 },
    ));
    assert_eq!(message.status, 401);
    assert_eq!(message.message, "missing webhook secret");
}

#[test]
fn execute_api_request_rejects_invalid_secret() {
    let command = HttpCommand::Pull {
        target: "api".to_string(),
        secret: Some("wrong".to_string()),
    };
    assert_eq!(
        execute_api_request(&command, &ApiCall::Find { target: named("api") }, &ApiOutcome::Done { count: 1 }),
        ApiStep::Call(ApiCall::VerifySecret {
            target: named("api"),
            secret: named("wrong")
        })
    );
    let message = reply(execute_api_request(
        &command,
        &ApiCall::VerifySecret { target: named("api"), secret: named("wrong") },
        &refused("mismatch"),
    ));
    assert_eq!(message.status, 401);
    assert_eq!(message.message, "invalid webhook secret");
}

#[test]
fn execute_api_request_runs_pull_when_secret_is_valid() {
    let command = HttpCommand::Pull {
        target: "api".to_string(),
        secret: Some("hook-secret".to_string()),
    };
    assert_eq!(
        execute_api_request(
            &command,
            &ApiCall::VerifySecret { target: named("api"), secret: named("hook-secret") },
            &ApiOutcome::Done { count: 1 }
        ),
        ApiStep::Call(ApiCall::Pull { target: named("api") })
    );
    let message = reply(execute_api_request(
        &command,
        &ApiCall::Pull { target: named("api") },
        &ApiOutcome::Report {
            message: "Pull complete: 1 updated".to_string(),
        },
    ));
    assert_eq!(message.status, 200);
    assert!(message.ok);
    assert!(message.message.contains("Pull complete"));
}

#[test]
fn a_pull_of_an_unknown_service_is_not_found() {
    let command = HttpCommand::Pull {
        target: "nope".to_string(),
        secret: None,
    };
    let message = reply(execute_api_request(&command, &ApiCall::Find { target: named("api") }, &refused("unknown")));
    assert_eq!(message.status, 404);
    assert_eq!(message.message, "service not found");
    let command = HttpCommand::Pull {
        target: "api".to_string(),
        secret: Some("s".to_string()),
    };
    let message = reply(execute_api_request(
        &command,
        &ApiCall::Pull { target: named("api") },
        &ApiOutcome::Failed {
            message: "git failed".to_string(),
        },
    ));
    assert_eq!(message.status, 500);
    assert_eq!(message.message, "git failed");
}

#[test]
fn only_stopping_and_restarting_reach_all_processes() {
    assert_eq!(
        begin_api_request(&HttpCommand::Restart {
            target: "all".to_string()
        }),
        ApiStep::Call(ApiCall::RestartAll)
    );
    let message = reply(begin_api_request(&HttpCommand::Reload {
        target: "all".to_string(),
    }));
    assert_eq!(message.status, 400);
    assert_eq!(message.message, "reload all is not supported");
    let message = reply(begin_api_request(&HttpCommand::Dismiss {
        target: "all".to_string(),
        rule: "r".to_string(),
    }));
    assert_eq!(message.status, 400);
    assert_eq!(
        message.message,
        "dismissal is per process: name the process explicitly"
    );
    let message = reply(begin_api_request(&HttpCommand::Restore {
        target: "api".to_string(),
        rule: String::new(),
    }));
    assert_eq!(message.status, 400);
    assert_eq!(message.message, "advisory rule id is required");
}

#[test]
fn dismissals_report_whether_they_changed_anything() {
    let dismiss = HttpCommand::Dismiss {
        target: "api".to_string(),
        rule: "r".to_string(),
    };
    assert_eq!(begin_api_request(&dismiss), ApiStep::Call(ApiCall::Dismiss { target: named("api"), rule: named("r") }));
    let changed = |command: &HttpCommand, call: &ApiCall, changed: bool| {
        reply(execute_api_request(command, call, &ApiOutcome::Changed { changed })).message
    };
    assert_eq!(
        changed(&dismiss, &ApiCall::Dismiss { target: named("api"), rule: named("r") }, true),
        "dismiss r for api"
    );
    assert_eq!(
        changed(&dismiss, &ApiCall::Dismiss { target: named("api"), rule: named("r") }, false),
        "r was already dismissed for api"
    );
    let restore = HttpCommand::Restore {
        target: "api".to_string(),
        rule: "r".to_string(),
    };
    assert_eq!(
        changed(&restore, &ApiCall::Restore { target: named("api"), rule: named("r") }, true),
        "restore r for api"
    );
    assert_eq!(
        changed(&restore, &ApiCall::Restore { target: named("api"), rule: named("r") }, false),
        "r was already restored for api"
    );
    let message = reply(execute_api_request(&restore, &ApiCall::Restore { target: named("api"), rule: named("r") }, &refused("unknown")));
    assert_eq!(message.status, 400);
    assert_eq!(message.message, "unknown");
}

#[test]
fn a_pull_names_its_target() {
    assert_eq!(
        post_pull(String::new(), None).expect_err("no target").status,
        404
    );
    assert_eq!(
        post_pull("api".to_string(), Some("s".to_string())),
        Ok(HttpCommand::Pull {
            target: "api".to_string(),
            secret: Some("s".to_string())
        })
    );
    let reply = manager_unavailable("channel closed");
    assert_eq!(reply.status, 500);
    assert_eq!(
        reply.body,
        b"daemon manager loop is unavailable: channel closed"
    );
}

#[test]
fn routes_are_registered_once() {
    let routes = create_router();
    assert_eq!(routes.len(), 30);
    for (i, a) in routes.iter().enumerate() {
        for b in &routes[i + 1..] {
            assert_ne!(a.pattern, b.pattern);
        }
    }
    for route in &routes {
        let acts = matches!(
            route.endpoint,
            Endpoint::Stop
                | Endpoint::Restart
                | Endpoint::Reload
                | Endpoint::Dismiss
                | Endpoint::Restore
                | Endpoint::Pull
        );
        assert_eq!(route.verb == Verb::Post, acts, "{}", route.pattern);
    }
    assert!(routes
        .iter()
        .any(|route| route.pattern == "/pull/{target}" && route.endpoint == Endpoint::Pull));
}
