//! Log paging, listing and download.

use axum::http::HeaderValue;
use oxmgr::http::logs::{
    archive_missing, content_disposition, log_download, log_page,
    plan_log_download, plan_log_read, sanitize_filename, stream_log_path, Download, LogQuery,
    serve_log_files, LogListing, LogRefusal, LogRequest, LogStream,
};

fn query(stream: &str) -> LogQuery {
    LogQuery {
        stream: Some(stream.to_string()),
        lines: None,
        before: None,
        index: None,
    }
}

fn refused_status(refusal: LogRefusal) -> u16 {
    match refusal {
        LogRefusal::Text(reply) => reply.status,
        LogRefusal::Message(message) => message.status,
    }
}

#[test]
fn sanitize_filename_strips_header_rejected_bytes() {
    assert_eq!(sanitize_filename("api.out.log"), "api.out.log");
    assert_eq!(
        sanitize_filename("we\"ird\\name\u{7}with\u{1b}escape"),
        "weirdnamewithescape",
        "quotes, backslashes, BEL and ESC are all dropped"
    );
    assert_eq!(
        sanitize_filename("name\u{7f}with DEL"),
        "namewith DEL",
        "DEL and control bytes dropped, space kept"
    );
    assert_eq!(
        sanitize_filename("caf\u{e9} \u{2028}line"),
        "caf line",
        "non-ASCII dropped, space kept"
    );
}

#[test]
fn content_disposition_header_value_always_parses() {
    for name in [
        "api.out.log",
        "we\"ird\\name\u{7}with\u{1b}escape",
        "name\u{7f}with DEL",
        "caf\u{e9} \u{2028}line",
        "",
    ] {
        let disposition = content_disposition(name);
        let value = HeaderValue::try_from(disposition.as_str()).expect(
            "sanitised filename must always form a valid Content-Disposition \
             header (visible ASCII + space + tab only)",
        );
        assert!(
            value
                .to_str()
                .expect("valid header value round-trips to str")
                .starts_with("attachment; filename=\""),
            "disposition keeps its shape"
        );
    }
}

#[test]
fn snapshot_api_logs_unknown_process_returns_404() {
    let refusal = plan_log_read(false, &query("stdout")).expect_err("unknown");
    assert_eq!(refused_status(refusal), 404);
}

#[test]
fn snapshot_api_logs_rejects_unknown_stream() {
    for stream in ["error", "stdrr"] {
        let refusal = plan_log_read(true, &query(stream)).expect_err("unknown stream");
        match refusal {
            LogRefusal::Message(message) => {
                assert_eq!(message.status, 400);
                assert_eq!(
                    message.message,
                    format!("unknown log stream '{stream}', expected stdout or stderr")
                );
            }
            LogRefusal::Text(_) => panic!("a message is expected"),
        }
    }
    let refusal = plan_log_download(true, Some("error"), None).expect_err("unknown stream");
    assert_eq!(refused_status(refusal), 400);
}

#[test]
fn snapshot_api_downloads_active_log_and_archive_as_attachments() {
    for (name, contents) in [
        ("api.out.log", "out a\nout b\n"),
        ("api.out.log.1", "archived\n"),
    ] {
        match log_download(Some(name), Some(contents.as_bytes())) {
            Download::File(reply) => {
                assert_eq!(reply.status, 200);
                assert!(reply.headers.contains(&(
                    "content-disposition".to_string(),
                    format!("attachment; filename=\"{name}\"")
                )));
                assert_eq!(reply.body, contents.as_bytes());
            }
            Download::Refused(message) => panic!("refused: {message:?}"),
        }
    }
}

#[test]
fn snapshot_api_log_download_refuses_traversal_and_missing_archive() {
    for index in [
        "../../../etc/passwd",
        "-1",
        "1;rm",
        "0x1",
        "%2e%2e%2fetc%2fpasswd",
    ] {
        let refusal =
            plan_log_download(true, Some("stdout"), Some(index)).expect_err("malformed index");
        assert_eq!(
            refused_status(refusal),
            400,
            "expected index {index:?} to be refused"
        );
    }

    assert_eq!(
        plan_log_download(true, Some("stdout"), Some("99")),
        Ok((LogStream::Stdout, 99))
    );
    match log_download(Some("api.out.log.99"), None) {
        Download::Refused(message) => {
            assert_eq!(message.status, 404);
            assert_eq!(message.message, "log file not found");
        }
        Download::File(_) => panic!("nothing to serve"),
    }
}

#[test]
fn snapshot_api_logs_rejects_a_malformed_line_offset() {
    for before in ["-1", "abc", "1;drop", "1.5"] {
        let mut query = query("stdout");
        query.before = Some(before.to_string());
        let refusal = plan_log_read(true, &query).expect_err("malformed offset");
        assert_eq!(
            refused_status(refusal),
            400,
            "expected offset {before:?} to be refused"
        );
    }
}

#[test]
fn snapshot_api_logs_without_an_offset_still_returns_the_tail() {
    let mut query = query("stdout");
    query.lines = Some("10".to_string());
    let request = plan_log_read(true, &query).expect("readable");
    assert_eq!(
        request,
        LogRequest {
            stream: LogStream::Stdout,
            lines: 10,
            before: 0,
            index: 0
        }
    );
    let page = log_page(
        &request,
        "/tmp/api.out.log".to_string(),
        Some((vec!["out a".to_string(), "out b".to_string()], true)),
    );
    assert_eq!(page.lines, vec!["out a".to_string(), "out b".to_string()]);
    assert_eq!(page.before, 0);
    assert_eq!(page.bytes, 10);
    assert!(page.reached_start);
}

#[test]
fn snapshot_api_log_files_and_download_reject_unknown_process() {
    let refusal = plan_log_download(false, Some("stdout"), None).expect_err("unknown");
    assert_eq!(refused_status(refusal), 404);
}

#[test]
fn a_query_has_bounded_defaults() {
    let empty = LogQuery {
        stream: None,
        lines: None,
        before: None,
        index: None,
    };
    assert_eq!(
        plan_log_read(true, &empty),
        Ok(LogRequest {
            stream: LogStream::Stdout,
            lines: 200,
            before: 0,
            index: 0
        })
    );
    let wide = LogQuery {
        stream: Some("stderr".to_string()),
        lines: Some("1000000".to_string()),
        before: Some("40".to_string()),
        index: Some("2".to_string()),
    };
    assert_eq!(
        plan_log_read(true, &wide),
        Ok(LogRequest {
            stream: LogStream::Stderr,
            lines: 100_000,
            before: 40,
            index: 2
        })
    );
    let zero = LogQuery {
        lines: Some("0".to_string()),
        ..empty
    };
    assert_eq!(plan_log_read(true, &zero).expect("readable").lines, 200);
}

#[test]
fn a_missing_archive_is_not_an_empty_page() {
    let archive = LogRequest {
        stream: LogStream::Stdout,
        lines: 5,
        before: 0,
        index: 9,
    };
    assert_eq!(
        archive_missing(&archive, false).expect("missing").status,
        404
    );
    assert!(archive_missing(&archive, true).is_none());
    let active = LogRequest {
        index: 0,
        ..archive
    };
    assert!(archive_missing(&active, false).is_none());
    let page = log_page(&active, "/tmp/a.log".to_string(), None);
    assert!(page.lines.is_empty());
    assert_eq!(page.bytes, 0);
    assert!(!page.reached_start);
}

#[test]
fn one_file_for_both_streams_is_listed_once() {
    let listing = |stream: LogStream, base: &str| LogListing {
        stream,
        base: base.to_string(),
        probe_limit: 64,
    };
    assert_eq!(
        serve_log_files("/tmp/a.out", "/tmp/a.err"),
        vec![
            listing(LogStream::Stdout, "/tmp/a.out"),
            listing(LogStream::Stderr, "/tmp/a.err")
        ]
    );
    assert_eq!(
        serve_log_files("/tmp/a.log", "/tmp/a.log"),
        vec![listing(LogStream::Stdout, "/tmp/a.log")]
    );
    assert_eq!(
        stream_log_path("/tmp/a.out", "/tmp/a.err", LogStream::Stderr),
        "/tmp/a.err"
    );
    assert_eq!(
        stream_log_path("/tmp/a.out", "/tmp/a.err", LogStream::Stdout),
        "/tmp/a.out"
    );
    assert_eq!(LogStream::Stderr.as_wire(), "stderr");
}

#[test]
fn bytes_that_are_not_text_are_replaced_in_a_download() {
    match log_download(None, Some(&[b'a', 0xff, b'b'])) {
        Download::File(reply) => {
            assert_eq!(
                String::from_utf8(reply.body).expect("text"),
                "a\u{fffd}b"
            );
            assert!(reply.headers.contains(&(
                "content-disposition".to_string(),
                "attachment; filename=\"logfile.log\"".to_string()
            )));
        }
        Download::Refused(message) => panic!("refused: {message:?}"),
    }
}
