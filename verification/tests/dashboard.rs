//! Assets, validators and compression.

use flate2::read::GzDecoder;
use oxmgr::http::compress::{
    accepts_gzip, content_etag, etag_from_fingerprint, etag_matches, gzip_bytes, hex_text,
    serve_content, serve_not_modified, CompressedAsset,
};
use oxmgr::http::dashboard::{
    after_read, after_stat, dashboard_js_module_order, guess_content_type, is_contained,
    is_escaping, on_disk_etag, plan_asset, serve_dashboard, serve_favicon, serve_log_viewer,
    AssetPlan, EmbeddedAsset, FileStamp, FileStep, CSP_HEADER, HTML_CONTENT_TYPE,
};
use oxmgr::http::reply::Reply;
use std::io::Read;

fn header<'a>(reply: &'a Reply, name: &str) -> Option<&'a str> {
    reply
        .headers
        .iter()
        .find(|(key, _)| key == name)
        .map(|(_, value)| value.as_str())
}

fn gunzip(bytes: &[u8]) -> String {
    let mut text = String::new();
    GzDecoder::new(bytes)
        .read_to_string(&mut text)
        .expect("valid gzip");
    text
}

#[test]
fn announcer_module_is_bundled() {
    assert!(
        dashboard_js_module_order().contains(&"js/core/announce.js"),
        "the announcer must be part of the dashboard bundle"
    );
}

#[test]
fn module_order_endpoints_are_root_and_entry() {
    let order = dashboard_js_module_order();
    assert_eq!(order.first(), Some(&"js/core/const.js"));
    assert_eq!(order.last(), Some(&"dashboard.js"));
    assert!(!order.contains(&"js/header.js"));
    assert!(!order.contains(&"js/footer.js"));
}

#[test]
fn compressed_asset_serves_raw_when_no_accept_encoding() {
    let asset = CompressedAsset::new(b"hello, world".to_vec());
    let reply = asset.serve(None, None, "text/plain");
    assert_eq!(reply.status, 200);
    assert_eq!(header(&reply, "etag"), Some(asset.etag()));
    assert!(
        header(&reply, "content-encoding").is_none(),
        "no gzip without Accept-Encoding"
    );
    assert_eq!(header(&reply, "content-type"), Some("text/plain"));
    assert_eq!(reply.body, b"hello, world");
}

#[test]
fn compressed_asset_gzip_when_accept_encoding_gzip() {
    let content = "repeat me ".repeat(100);
    let asset = CompressedAsset::new(content.clone().into_bytes());
    let reply = asset.serve(Some("gzip"), None, "text/plain");
    assert_eq!(reply.status, 200);
    assert_eq!(header(&reply, "content-encoding"), Some("gzip"));
    assert_ne!(reply.body, content.as_bytes());
    assert_eq!(gunzip(&reply.body), content);
}

#[test]
fn compressed_asset_304_when_etag_matches() {
    let asset = CompressedAsset::new(b"cached content".to_vec());
    let etag = asset.etag().to_string();
    let reply = asset.serve(Some("gzip"), Some(&etag), "text/plain");
    assert_eq!(reply.status, 304);
    assert_eq!(header(&reply, "etag"), Some(etag.as_str()));
    assert!(reply.body.is_empty(), "304 response must have empty body");
}

#[test]
fn compressed_asset_etag_varies_by_content() {
    let a = CompressedAsset::new(b"aaa".to_vec());
    let b = CompressedAsset::new(b"bbb".to_vec());
    assert_ne!(
        a.etag(),
        b.etag(),
        "different content must produce different ETags"
    );
}

#[test]
fn a_validator_is_matched_within_a_list() {
    let etag = content_etag(b"hello");
    assert!(etag_matches(Some(&etag), &etag));
    assert!(etag_matches(
        Some(&format!("\"other\",  {etag} ")),
        &etag
    ));
    assert!(!etag_matches(Some("*"), &etag));
    assert!(!etag_matches(Some("\"other\""), &etag));
    assert!(!etag_matches(None, &etag));
    assert_eq!(etag_from_fingerprint(b"hello"), content_etag(b"hello"));
}

#[test]
fn a_validator_is_the_quoted_digest() {
    // The SHA-256 digest of the empty message.
    assert_eq!(
        content_etag(b""),
        "\"e3b0c44298fc1c149afbf4c8996fb92427ae41e4649b934ca495991b7852b855\""
    );
}

#[test]
fn gzip_is_used_only_where_it_is_accepted() {
    assert!(accepts_gzip(Some("gzip")));
    assert!(accepts_gzip(Some("deflate, gzip")));
    assert!(!accepts_gzip(Some("gzip;q=0.5")));
    assert!(!accepts_gzip(Some("br")));
    assert!(!accepts_gzip(None));
    assert_eq!(gunzip(&gzip_bytes(b"hello")), "hello");
}

#[test]
fn bytes_are_written_in_lower_case_hexadecimal() {
    assert_eq!(hex_text(&[0x00, 0x0f, 0xa0, 0xff]), "000fa0ff");
    assert_eq!(hex_text(&[]), "");
}

#[test]
fn content_and_unchanged_replies_carry_the_validator() {
    let reply = serve_content(b"x".to_vec(), "text/plain", "\"v\"", None);
    assert_eq!(header(&reply, "etag"), Some("\"v\""));
    let unchanged = serve_not_modified("\"v\"");
    assert_eq!(unchanged.status, 304);
    assert_eq!(header(&unchanged, "etag"), Some("\"v\""));
    assert!(unchanged.body.is_empty());
}

#[test]
fn content_types_cover_fonts_and_unknown_extensions() {
    for (name, expected) in [
        ("dashboard.css", "text/css; charset=utf-8"),
        ("dashboard.js", "text/javascript; charset=utf-8"),
        ("favicon.svg", "image/svg+xml; charset=utf-8"),
        ("index.html", "text/html; charset=utf-8"),
        ("a.json", "application/json; charset=utf-8"),
        ("f.woff2", "font/woff2"),
        ("i.png", "image/png"),
        ("i.webp", "image/webp"),
        ("i.ico", "image/x-icon"),
        ("m.mjs", "text/javascript; charset=utf-8"),
        ("m.map", "application/json; charset=utf-8"),
        ("notes.txt", "text/plain; charset=utf-8"),
        ("a.unknownext", "application/octet-stream"),
        ("noextension", "application/octet-stream"),
    ] {
        assert_eq!(guess_content_type(name), expected, "{name}");
    }
}

#[test]
fn only_reading_reaches_an_asset() {
    assert_eq!(
        plan_asset("POST", "/api/processes/x/explode", true),
        AssetPlan::Missing { body: "not found" }
    );
    assert_eq!(
        plan_asset("GET", "/js/core/bus.js", true),
        AssetPlan::FromDir {
            name: "js/core/bus.js".to_string(),
            content_type: "text/javascript; charset=utf-8",
        }
    );
    assert!(matches!(
        plan_asset("HEAD", "/dashboard.css", false),
        AssetPlan::Embedded {
            asset: EmbeddedAsset::Stylesheet,
            ..
        }
    ));
    assert!(matches!(
        plan_asset("GET", "/theme.js", false),
        AssetPlan::Embedded {
            asset: EmbeddedAsset::Theme,
            ..
        }
    ));
    assert!(matches!(
        plan_asset("GET", "/js/core/const.js", false),
        AssetPlan::Embedded {
            asset: EmbeddedAsset::Module(0),
            ..
        }
    ));
    assert_eq!(
        plan_asset("GET", "/brand-new-asset.css", false),
        AssetPlan::Missing {
            body: "asset not found"
        }
    );
}

#[test]
fn paths_that_leave_the_directory_are_recognised() {
    assert!(is_escaping("../secret.css"));
    assert!(is_escaping("js/../../secret.css"));
    assert!(is_escaping("/etc/passwd"));
    assert!(!is_escaping("js/core/bus.js"));
    assert!(!is_escaping("..%2fsecret.css"));
    assert!(is_contained(b"/srv/web", b"/srv/web/js/core/bus.js"));
    assert!(!is_contained(b"/srv/web", b"/srv/web-secret/a.css"));
    assert!(!is_contained(b"/srv/web", b"/srv/secret.css"));
}

#[test]
fn a_file_is_answered_from_its_state_before_it_is_read() {
    let stamp = FileStamp {
        len: 13,
        modified_nanos: 1_700_000_000_000_000_000,
    };
    let etag = on_disk_etag(stamp);
    match after_stat(true, Some(stamp), Some(&etag)) {
        FileStep::Answer(reply) => {
            assert_eq!(reply.status, 304);
            assert_eq!(header(&reply, "etag"), Some(etag.as_str()));
            assert!(reply.body.is_empty());
        }
        FileStep::Read { .. } => panic!("an unchanged file is not read"),
    }
    let edited = FileStamp { len: 14, ..stamp };
    assert_ne!(on_disk_etag(edited), etag);
    match after_stat(true, Some(edited), Some(&etag)) {
        FileStep::Read { etag: Some(fresh) } => {
            let reply = after_read(
                Some(fresh.clone()),
                Ok(b"export const v=2;".to_vec()),
                "text/javascript; charset=utf-8",
                Some("gzip"),
            );
            assert_eq!(reply.status, 200);
            assert_eq!(header(&reply, "etag"), Some(fresh.as_str()));
            assert_eq!(gunzip(&reply.body), "export const v=2;");
        }
        _ => panic!("an edited file is read"),
    }
    match after_stat(false, None, None) {
        FileStep::Answer(reply) => assert_ne!(reply.status, 200),
        FileStep::Read { .. } => panic!("a file outside the directory is never read"),
    }
    let failed = after_read(
        Some(etag),
        Err("permission denied".to_string()),
        "text/css; charset=utf-8",
        None,
    );
    assert_eq!(failed.status, 500);
    assert_eq!(
        String::from_utf8(failed.body).expect("text"),
        "failed to read asset: permission denied"
    );
}

#[test]
fn the_document_carries_a_content_security_policy() {
    let document = CompressedAsset::new(b"<title>OxMgr Dashboard</title>".to_vec());
    let reply = serve_dashboard(&document, None, None);
    assert_eq!(reply.status, 200);
    assert_eq!(header(&reply, "content-type"), Some(HTML_CONTENT_TYPE));
    assert_eq!(header(&reply, "content-security-policy"), Some(CSP_HEADER));
    assert_eq!(reply.body, b"<title>OxMgr Dashboard</title>");
}

#[test]
fn standalone_log_page_requires_a_known_process() {
    let document = CompressedAsset::new(b"<title>OxMgr Dashboard</title>".to_vec());
    let ok = serve_log_viewer("api", true, &document, None, None);
    assert_eq!(ok.status, 200);
    assert!(String::from_utf8(ok.body)
        .expect("text")
        .contains("OxMgr Dashboard"));
    assert_eq!(
        serve_log_viewer("nope", false, &document, None, None).status,
        404
    );
    assert_eq!(
        serve_log_viewer("", true, &document, None, None).status,
        404
    );
}

#[test]
fn the_icon_is_part_of_the_program_unless_a_directory_is_served() {
    let reply = serve_favicon(b"<svg/>", false).expect("embedded");
    assert_eq!(
        header(&reply, "content-type"),
        Some("image/svg+xml; charset=utf-8")
    );
    assert_eq!(reply.body, b"<svg/>");
    assert!(serve_favicon(b"<svg/>", true).is_none());
}
