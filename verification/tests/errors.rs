//! Error messages.

use oxmgr::errors::OxmgrError;
use std::io;

#[test]
fn domain_error_messages_are_human_readable() {
    let not_found = OxmgrError::ProcessNotFound("api".to_string());
    assert_eq!(not_found.message(), "process not found: api");

    let duplicate = OxmgrError::DuplicateProcessName("worker".to_string());
    assert_eq!(duplicate.message(), "duplicate process name: worker");

    let daemon_running = OxmgrError::DaemonAlreadyRunning;
    assert_eq!(daemon_running.message(), "daemon is already running");
}

#[test]
fn io_error_is_wrapped_with_context() {
    let source = io::Error::new(io::ErrorKind::PermissionDenied, "denied");
    let err = OxmgrError::Io(source.to_string());
    assert!(
        err.message().contains("io error: denied"),
        "unexpected error message: {}",
        err.message()
    );
}

#[test]
fn serde_error_is_wrapped_with_context() {
    let source = serde_json::from_str::<serde_json::Value>("{")
        .expect_err("expected invalid JSON parser error");
    let err = OxmgrError::Serde(source.to_string());
    assert!(
        err.message().contains("serialization error:"),
        "unexpected error message: {}",
        err.message()
    );
}

#[test]
fn the_other_domain_errors_name_what_was_rejected() {
    assert_eq!(
        OxmgrError::InvalidProcessName("a/b".to_string()).message(),
        "invalid process name: a/b"
    );
    assert_eq!(
        OxmgrError::InvalidCommand("".to_string()).message(),
        "invalid command: "
    );
}
