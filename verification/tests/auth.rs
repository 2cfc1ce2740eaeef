//! Credentials of the dashboard and of webhooks.

use base64::engine::general_purpose::STANDARD;
use base64::Engine as _;
use oxmgr::http::auth::{
    auth_ok, dashboard_auth, extract_api_secret, guard, is_guarded, unauthorized_response,
    verify_password, HeaderField,
};
use oxmgr::http::reply::Reply;

fn header<'a>(reply: &'a Reply, name: &str) -> Option<&'a str> {
    reply
        .headers
        .iter()
        .find(|(key, _)| key == name)
        .map(|(_, value)| value.as_str())
}

fn basic(credentials: &str) -> Vec<(String, String)> {
    vec![(
        "authorization".to_string(),
        format!("Basic {}", STANDARD.encode(credentials)),
    )]
}

#[test]
fn unauthorized_response_has_401_and_www_authenticate() {
    let reply = unauthorized_response();
    assert_eq!(reply.status, 401, "must return 401");
    assert_eq!(
        header(&reply, "www-authenticate"),
        Some("Basic realm=\"oxmgr dashboard\""),
        "challenge string must match expected value"
    );
    assert_eq!(
        header(&reply, "content-type"),
        Some("text/plain; charset=utf-8"),
        "must return plain text"
    );
    assert_eq!(
        reply.body, b"authentication required",
        "body must contain the auth required message"
    );
}

#[test]
fn dashboard_api_requires_basic_auth_when_configured() {
    let creds = Some(("admin".to_string(), "s3cret".to_string()));

    let denied = guard("/", &[], &creds).expect("refused");
    assert_eq!(denied.status, 401);
    assert!(header(&denied, "www-authenticate").is_some_and(|v| v.contains("Basic")));

    assert_eq!(
        guard("/api/processes", &[], &creds)
            .expect("refused")
            .status,
        401
    );
    assert_eq!(
        guard("/api/processes", &basic("admin:wrong"), &creds)
            .expect("refused")
            .status,
        401
    );
    assert!(
        guard("/api/processes", &basic("admin:s3cret"), &creds).is_none(),
        "correct credentials should pass"
    );
    assert!(
        guard("/metrics", &[], &creds).is_none(),
        "metrics should not require basic auth"
    );
    assert!(
        guard("/pull/api", &[], &creds).is_none(),
        "/pull/* should not require basic auth"
    );
}

#[test]
fn dashboard_api_accepts_hashed_passwords() {
    let test_cases = [
        (
            "{SHA256}HsHCa1DV08WNlYMYGvgHZlX+AHVr9yhZQLo2cPmfy6A=",
            "SHA256",
        ),
        (
            "{SHA512}lcia3d5QY1fsXv0O5BrCQe/W+xAJp2gMFQHqgXA0K4y/Dy2Ti1YpVJDxnx/F+ijQmxWE6qCcmmsvd3YjKZzVIQ==",
            "SHA512",
        ),
    ];

    for (hash, algo) in test_cases {
        let creds = Some(("admin".to_string(), hash.to_string()));
        assert!(
            guard("/api/processes", &basic("admin:wrongpass"), &creds).is_some(),
            "{algo}: expected a refusal"
        );
        assert!(
            guard("/api/processes", &basic("admin:s3cret"), &creds).is_none(),
            "{algo}: correct password should pass"
        );
    }
}

#[test]
fn extract_api_secret_prefers_explicit_header_then_bearer() {
    assert_eq!(
        extract_api_secret(
            &HeaderField::Text("header-secret".to_string()),
            &HeaderField::Text("Bearer bearer-secret".to_string())
        )
        .as_deref(),
        Some("header-secret")
    );
}

#[test]
fn extract_api_secret_accepts_bearer_when_custom_header_missing() {
    assert_eq!(
        extract_api_secret(
            &HeaderField::Absent,
            &HeaderField::Text("Bearer token123".to_string())
        )
        .as_deref(),
        Some("token123")
    );
}

#[test]
fn a_secret_header_that_is_not_text_hides_the_bearer() {
    let bearer = HeaderField::Text("Bearer token123".to_string());
    assert_eq!(extract_api_secret(&HeaderField::Opaque, &bearer), None);
    assert_eq!(
        extract_api_secret(&HeaderField::Text("  spaced ".to_string()), &bearer).as_deref(),
        Some("spaced")
    );
    assert_eq!(
        extract_api_secret(
            &HeaderField::Absent,
            &HeaderField::Text("Basic token123".to_string())
        ),
        None
    );
    assert_eq!(
        extract_api_secret(&HeaderField::Absent, &HeaderField::Absent),
        None
    );
}

#[test]
fn passwords_are_plain_or_hashed() {
    assert!(verify_password("s3cret", "s3cret"));
    assert!(!verify_password("s3cret", "other"));
    assert!(verify_password(
        "s3cret",
        "{SHA256}HsHCa1DV08WNlYMYGvgHZlX+AHVr9yhZQLo2cPmfy6A="
    ));
    assert!(!verify_password(
        "HsHCa1DV08WNlYMYGvgHZlX+AHVr9yhZQLo2cPmfy6A=",
        "{SHA256}HsHCa1DV08WNlYMYGvgHZlX+AHVr9yhZQLo2cPmfy6A="
    ));
}

#[test]
fn authorization_is_read_as_basic_credentials() {
    let creds = Some(("admin".to_string(), "a:b".to_string()));
    assert!(auth_ok(&basic("admin:a:b"), &creds));
    assert!(!auth_ok(&basic("root:a:b"), &creds));
    assert!(!auth_ok(&basic("admin"), &creds));
    let lower = vec![(
        "authorization".to_string(),
        format!("basic {}", STANDARD.encode("admin:a:b")),
    )];
    assert!(auth_ok(&lower, &creds));
    let broken = vec![("authorization".to_string(), "Basic ???".to_string())];
    assert!(!auth_ok(&broken, &creds));
    let not_text = vec![(
        "authorization".to_string(),
        format!("Basic {}", STANDARD.encode([0xffu8, 0xfe])),
    )];
    assert!(!auth_ok(&not_text, &creds));
    assert!(auth_ok(&[], &None), "no credentials, no check");
}

#[test]
fn only_the_dashboard_and_its_api_are_guarded() {
    for path in ["/", "/api/processes", "/logs/api"] {
        assert!(is_guarded(path), "{path}");
    }
    for path in ["/metrics", "/pull/api", "/favicon.svg", "/dashboard.css", "/api"] {
        assert!(!is_guarded(path), "{path}");
    }
}

#[test]
fn credentials_need_a_user_and_a_password() {
    let set = |text: &str| Some(text.to_string());
    assert_eq!(
        dashboard_auth(set("admin"), set("s3cret")),
        Some(("admin".to_string(), "s3cret".to_string()))
    );
    assert_eq!(dashboard_auth(set("  "), set("s3cret")), None);
    assert_eq!(dashboard_auth(set("admin"), set("")), None);
    assert_eq!(dashboard_auth(None, set("s3cret")), None);
    assert_eq!(dashboard_auth(set("admin"), None), None);
}
