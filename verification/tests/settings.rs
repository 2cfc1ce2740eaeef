//! The configuration the dashboard is served with.

use oxmgr::http::settings::{
    dashboard_retain_lines, dashboard_tail_lines, refresh_interval, serve_dashboard_config,
    static_web_dir, DashboardConfig, DashboardEnvironment,
};
use oxmgr::severity::{
    DEFAULT_BAND_HYSTERESIS_PERCENT, DEFAULT_CRITICAL_PERCENT, DEFAULT_WARNING_PERCENT,
};

fn unset() -> DashboardEnvironment {
    DashboardEnvironment {
        interval_ms: None,
        label: None,
        label_color: None,
        log_lines: None,
        log_retain: None,
        severity_styling: None,
    }
}

fn styled(value: &str) -> DashboardConfig {
    serve_dashboard_config(&DashboardEnvironment {
        severity_styling: Some(value.to_string()),
        ..unset()
    })
}

#[test]
fn config_endpoint_serves_the_rust_severity_thresholds() {
    let config = serve_dashboard_config(&unset());
    assert_eq!(config.warning_percent, DEFAULT_WARNING_PERCENT);
    assert_eq!(config.critical_percent, DEFAULT_CRITICAL_PERCENT);
    assert_eq!(config.hysteresis_percent, DEFAULT_BAND_HYSTERESIS_PERCENT);
    assert!(
        config.warning_percent < config.critical_percent,
        "warning must sit below critical for the bands to be ordered"
    );
    assert!(config.styling_enabled);
}

#[test]
fn severity_styling_can_be_disabled_without_changing_the_figures() {
    for off in ["0", "off", "false", "no", "disabled", "OFF"] {
        let config = styled(off);
        assert!(!config.styling_enabled, "{off:?} must disable styling");
        assert_eq!(
            config.warning_percent, DEFAULT_WARNING_PERCENT,
            "disabling styling must not withhold the thresholds"
        );
        assert_eq!(config.interval_ms, 2000);
    }

    for on in ["1", "on", "true", "yes", "", "enabled", "ture"] {
        assert!(styled(on).styling_enabled, "{on:?} must leave styling on");
    }
}

#[test]
fn the_interval_is_kept_in_bounds() {
    assert_eq!(refresh_interval(None), 2000);
    assert_eq!(refresh_interval(Some("500")), 500);
    assert_eq!(refresh_interval(Some("50")), 200);
    assert_eq!(refresh_interval(Some("99999")), 10000);
    assert_eq!(refresh_interval(Some(" 500 ")), 2000);
    assert_eq!(refresh_interval(Some("fast")), 2000);
}

#[test]
fn line_counts_are_positive_and_bounded() {
    assert_eq!(dashboard_tail_lines(None), 200);
    assert_eq!(dashboard_tail_lines(Some(" 40 ")), 40);
    assert_eq!(dashboard_tail_lines(Some("0")), 200);
    assert_eq!(dashboard_tail_lines(Some("1000000")), 100_000);
    assert_eq!(dashboard_retain_lines(None), None);
    assert_eq!(dashboard_retain_lines(Some(" 5000 ")), Some(5000));
    assert_eq!(dashboard_retain_lines(Some("0")), None);
    assert_eq!(dashboard_retain_lines(Some("many")), None);
}

#[test]
fn labels_pass_through() {
    let config = serve_dashboard_config(&DashboardEnvironment {
        label: Some("staging".to_string()),
        label_color: Some("#f00".to_string()),
        ..unset()
    });
    assert_eq!(config.label.as_deref(), Some("staging"));
    assert_eq!(config.label_color.as_deref(), Some("#f00"));
    assert_eq!(config.log_tail_warn_above, 500);
    assert_eq!(config.log_tail_lines, 200);
    assert_eq!(config.log_retain_lines, None);
}

#[test]
fn a_web_directory_has_to_be_named_and_to_exist() {
    assert!(static_web_dir(Some("/srv/web"), true));
    assert!(!static_web_dir(Some("/srv/web"), false));
    assert!(!static_web_dir(Some("  "), true));
    assert!(!static_web_dir(None, true));
}
