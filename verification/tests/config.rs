//! Configuration from environment values.

use oxmgr::config::{
    api_port, api_port_for, base_dir, daemon_port, daemon_port_for, env_u64, identity_of,
    join_path, parse_rotate_interval, AppConfig, Environment,
};

fn environment() -> Environment {
    Environment {
        daemon_addr: None,
        api_addr: None,
        log_max_size_mb: None,
        log_max_files: None,
        log_max_days: None,
        log_rotate_interval: None,
    }
}

#[test]
fn daemon_port_is_stable_and_in_expected_range() {
    let first = daemon_port();
    let second = daemon_port();
    assert_eq!(first, second, "daemon port should be deterministic");
    assert!(
        (40000..60000).contains(&first),
        "daemon port should stay in non-privileged range, got {first}"
    );
}

#[test]
fn api_port_is_stable_and_in_expected_range() {
    let first = api_port();
    let second = api_port();
    assert_eq!(first, second, "api port should be deterministic");
    assert!(
        (35000..60000).contains(&first),
        "api port should stay in high range, got {first}"
    );
}

#[test]
fn env_u64_uses_default_for_invalid_values() {
    let parsed = env_u64(Some("not-a-number"), 42);
    assert_eq!(parsed, 42);
}

#[test]
fn env_u64_parses_trimmed_numeric_values() {
    let parsed = env_u64(Some(" 17 "), 42);
    assert_eq!(parsed, 17);
}

#[test]
fn an_unset_number_is_its_default() {
    assert_eq!(env_u64(None, 42), 42);
    assert_eq!(env_u64(Some(""), 42), 42);
    assert_eq!(env_u64(Some("+5"), 42), 5);
    assert_eq!(env_u64(Some("-5"), 42), 42);
    assert_eq!(env_u64(Some("18446744073709551615"), 42), u64::MAX);
    assert_eq!(env_u64(Some("18446744073709551616"), 42), 42);
}

#[test]
fn loading_reads_the_environment() {
    let base = "/tmp/oxmgr-config-load".to_string();
    let environment = Environment {
        daemon_addr: Some(" ".to_string()),
        api_addr: Some(" ".to_string()),
        log_max_size_mb: Some("0".to_string()),
        log_max_files: Some("0".to_string()),
        log_max_days: Some("0".to_string()),
        log_rotate_interval: None,
    };
    let config = AppConfig::load(base.clone(), &environment);
    assert_eq!(config.base_dir, base);
    assert_eq!(config.state_path, "/tmp/oxmgr-config-load/state.json");
    assert_eq!(config.log_dir, "/tmp/oxmgr-config-load/logs");
    assert_eq!(config.log_rotation.max_size_bytes, 1024 * 1024);
    assert_eq!(config.log_rotation.max_files, 1);
    assert_eq!(config.log_rotation.max_age_days, 1);
    assert!(
        config.daemon_addr.starts_with("127.0.0.1:"),
        "expected default daemon address, got {}",
        config.daemon_addr
    );
    assert!(
        config.api_addr.starts_with("127.0.0.1:"),
        "expected default API address, got {}",
        config.api_addr
    );
}

#[test]
fn app_config_load_honors_explicit_addresses() {
    let explicit = Environment {
        daemon_addr: Some("127.0.0.1:40123".to_string()),
        api_addr: Some("127.0.0.1:41123".to_string()),
        ..environment()
    };
    let config = AppConfig::load("/tmp/oxmgr-config-explicit-addrs".to_string(), &explicit);
    assert_eq!(config.daemon_addr, "127.0.0.1:40123");
    assert_eq!(config.api_addr, "127.0.0.1:41123");
    assert_eq!(
        config.default_health_url(),
        "http://127.0.0.1:41123/health"
    );
}

#[test]
fn ports_are_derived_from_the_identity() {
    assert_eq!(identity_of(1000), "uid-1000");
    let port = daemon_port_for("uid-1000");
    // The 32-bit FNV-1a hash of the text, folded into the range.
    let mut hash: u32 = 2_166_136_261;
    for byte in "uid-1000".bytes() {
        hash ^= u32::from(byte);
        hash = hash.wrapping_mul(16_777_619);
    }
    assert_eq!(u32::from(port), 40_000 + hash % 20_000);
    assert_ne!(daemon_port_for("uid-1000"), daemon_port_for("uid-1001"));
    assert_eq!(api_port_for(40_000), 41_000);
    assert_eq!(api_port_for(58_999), 59_999);
    assert_eq!(api_port_for(59_000), 54_000);
    assert_eq!(api_port_for(59_999), 54_999);
}

#[test]
fn rotation_intervals_are_words_or_numbers_with_a_unit() {
    assert_eq!(parse_rotate_interval("hourly"), Some(3_600));
    assert_eq!(parse_rotate_interval(" Daily "), Some(86_400));
    assert_eq!(parse_rotate_interval("weekly"), Some(604_800));
    assert_eq!(parse_rotate_interval("30s"), Some(30));
    assert_eq!(parse_rotate_interval("45"), Some(45));
    assert_eq!(parse_rotate_interval("7 d"), Some(604_800));
    assert_eq!(parse_rotate_interval("3 weeks"), Some(1_814_400));
    assert_eq!(parse_rotate_interval("off"), None);
    assert_eq!(parse_rotate_interval("5 fortnights"), None);
    assert_eq!(parse_rotate_interval("18446744073709551615w"), None);
    assert_eq!(parse_rotate_interval("5m"), Some(300));
    assert_eq!(parse_rotate_interval("2h"), Some(7_200));
    assert_eq!(parse_rotate_interval("never"), None);
    assert_eq!(parse_rotate_interval(""), None);
    assert_eq!(parse_rotate_interval("0"), None);
}

#[test]
fn the_base_directory_prefers_the_home_setting() {
    assert_eq!(
        base_dir(
            Some("/srv/ox".to_string()),
            Some("/home/u/.local/share".to_string()),
            "/tmp".to_string()
        ),
        "/srv/ox"
    );
    assert_eq!(
        base_dir(
            None,
            Some("/home/u/.local/share".to_string()),
            "/tmp".to_string()
        ),
        "/home/u/.local/share/oxmgr"
    );
    assert_eq!(base_dir(None, None, "/tmp".to_string()), "/tmp/oxmgr");
    assert_eq!(join_path("/tmp/", "a"), "/tmp/a");
}
