//! The configuration the dashboard is served with.

use crate::http::compress::optional_view;
use crate::http::logs::{
    bounded_lines, line_count, parse_line_count, tail_lines, LOG_TAIL_WARN_ABOVE,
};
use crate::severity::{
    DEFAULT_BAND_HYSTERESIS_PERCENT, DEFAULT_CRITICAL_PERCENT, DEFAULT_WARNING_PERCENT,
};
use crate::text::{
    ascii_lowered, decimal, parse_unsigned, same_text, to_lower, trim, trimmed, unsigned_number,
};
use vstd::prelude::*;

verus! {

/// The environment values that configure the dashboard. Absent means unset.
#[derive(Debug, Clone)]
pub struct DashboardEnvironment {
    pub interval_ms: Option<String>,
    pub label: Option<String>,
    pub label_color: Option<String>,
    pub log_lines: Option<String>,
    pub log_retain: Option<String>,
    pub severity_styling: Option<String>,
}

/// The configuration the dashboard is served with.
#[derive(Debug, PartialEq, Eq)]
pub struct DashboardConfig {
    pub interval_ms: u64,
    pub label: Option<String>,
    pub label_color: Option<String>,
    pub log_tail_lines: usize,
    pub log_tail_warn_above: usize,
    pub log_retain_lines: Option<usize>,
    pub warning_percent: u32,
    pub critical_percent: u32,
    pub hysteresis_percent: u32,
    pub styling_enabled: bool,
}

/// The refresh interval: what the value says, or two seconds, kept between a fifth of a second and
/// ten seconds.
pub open spec fn interval_of(value: Option<Seq<char>>) -> u64 {
    let asked: u64 = match value {
        Some(text) => match unsigned_number(text) {
            Some(number) => number,
            None => 2000,
        },
        None => 2000,
    };
    if asked < 200 {
        200
    } else if asked > 10000 {
        10000
    } else {
        asked
    }
}

/// Whether severity is styled: unless the value switches it off.
pub open spec fn styling_of(value: Option<Seq<char>>) -> bool {
    match value {
        Some(text) => {
            let word = ascii_lowered(trimmed(text));
            !(word == "0"@ || word == "off"@ || word == "false"@ || word == "no"@ || word
                == "disabled"@)
        },
        None => true,
    }
}

/// What an optional value is once trimmed.
pub open spec fn optional_trimmed(value: Option<Seq<char>>) -> Option<Seq<char>> {
    match value {
        Some(text) => Some(trimmed(text)),
        None => None,
    }
}

/// The refresh interval.
pub fn refresh_interval(value: Option<&str>) -> (interval_ms: u64)
    ensures
        interval_ms == interval_of(optional_view(value)),
        200 <= interval_ms <= 10000,
{
    let asked: u64 = match value {
        Some(text) => match parse_unsigned(text) {
            Some(number) => number,
            None => 2000,
        },
        None => 2000,
    };
    if asked < 200 {
        200
    } else if asked > 10000 {
        10000
    } else {
        asked
    }
}

/// Whether severity is styled.
pub fn severity_styling_enabled(value: Option<&str>) -> (enabled: bool)
    ensures
        enabled == styling_of(optional_view(value)),
{
    match value {
        Some(text) => {
            let word = to_lower(trim(text).as_str());
            let word = word.as_str();
            !(same_text(word, "0") || same_text(word, "off") || same_text(word, "false")
                || same_text(word, "no") || same_text(word, "disabled"))
        },
        None => true,
    }
}

/// How many lines the browser keeps, when that is configured.
pub fn dashboard_retain_lines(value: Option<&str>) -> (lines: Option<usize>)
    ensures
        lines == line_count(optional_trimmed(optional_view(value))),
{
    match value {
        Some(text) => parse_line_count(Some(trim(text).as_str())),
        None => None,
    }
}

/// How many lines a log page holds.
pub fn dashboard_tail_lines(value: Option<&str>) -> (lines: usize)
    ensures
        lines == tail_lines(line_count(optional_trimmed(optional_view(value)))),
{
    bounded_lines(dashboard_retain_lines(value))
}

fn as_slice(value: &Option<String>) -> (slice: Option<&str>)
    ensures
        optional_view(slice) == crate::identity::optional_text(*value),
{
    match value {
        Some(text) => Some(text.as_str()),
        None => None,
    }
}

fn copy_optional(value: &Option<String>) -> (copy: Option<String>)
    ensures
        copy == *value,
{
    match value {
        Some(text) => Some(text.clone()),
        None => None,
    }
}

/// The configuration the dashboard is served with.
pub fn serve_dashboard_config(environment: &DashboardEnvironment) -> (config: DashboardConfig)
    ensures
        config.interval_ms == interval_of(crate::identity::optional_text(environment.interval_ms)),
        config.label == environment.label,
        config.label_color == environment.label_color,
        config.log_tail_lines == tail_lines(
            line_count(
                optional_trimmed(crate::identity::optional_text(environment.log_lines)),
            ),
        ),
        config.log_tail_warn_above == LOG_TAIL_WARN_ABOVE,
        config.log_retain_lines == line_count(
            optional_trimmed(crate::identity::optional_text(environment.log_retain)),
        ),
        config.warning_percent == DEFAULT_WARNING_PERCENT,
        config.critical_percent == DEFAULT_CRITICAL_PERCENT,
        config.hysteresis_percent == DEFAULT_BAND_HYSTERESIS_PERCENT,
        config.styling_enabled == styling_of(
            crate::identity::optional_text(environment.severity_styling),
        ),
{
    DashboardConfig {
        interval_ms: refresh_interval(as_slice(&environment.interval_ms)),
        label: copy_optional(&environment.label),
        label_color: copy_optional(&environment.label_color),
        log_tail_lines: dashboard_tail_lines(as_slice(&environment.log_lines)),
        log_tail_warn_above: LOG_TAIL_WARN_ABOVE,
        log_retain_lines: dashboard_retain_lines(as_slice(&environment.log_retain)),
        warning_percent: DEFAULT_WARNING_PERCENT,
        critical_percent: DEFAULT_CRITICAL_PERCENT,
        hysteresis_percent: DEFAULT_BAND_HYSTERESIS_PERCENT,
        styling_enabled: severity_styling_enabled(as_slice(&environment.severity_styling)),
    }
}

/// Whether a configured web directory is used: it has to be named, and to exist.
pub fn static_web_dir(configured: Option<&str>, is_dir: bool) -> (used: bool)
    ensures
        used == (is_dir && (optional_view(configured) matches Some(name) && trimmed(name).len()
            > 0)),
{
    match configured {
        Some(name) => {
            let inner = trim(name);
            !inner.as_str().is_empty() && is_dir
        },
        None => false,
    }
}

/// The refresh interval is the one configured, moved to the nearest bound where it lies outside a
/// fifth of a second and ten seconds, and two seconds where none is configured.
pub proof fn the_interval_is_kept_within_bounds(number: u64)
    ensures
        interval_of(None) == 2000,
        200 <= number <= 10000 ==> interval_of(Some(decimal(number as nat))) == number,
        number < 200 ==> interval_of(Some(decimal(number as nat))) == 200,
        number > 10000 ==> interval_of(Some(decimal(number as nat))) == 10000,
        forall|text: Seq<char>|
            #![trigger unsigned_number(text)]
            unsigned_number(text) is None ==> interval_of(Some(text)) == 2000,
{
    crate::text::a_decimal_denotes_its_number(number as nat);
}

/// Styling is on unless it is switched off by one of the words for that, whatever their case and
/// the whitespace around them.
pub proof fn styling_is_on_unless_switched_off(text: Seq<char>)
    ensures
        styling_of(None),
        ascii_lowered(trimmed(text)) == "off"@ || ascii_lowered(trimmed(text)) == "0"@
            || ascii_lowered(trimmed(text)) == "false"@ || ascii_lowered(trimmed(text)) == "no"@
            || ascii_lowered(trimmed(text)) == "disabled"@ ==> !styling_of(Some(text)),
        ascii_lowered(trimmed(text)) == "on"@ || ascii_lowered(trimmed(text)) == "1"@
            || ascii_lowered(trimmed(text)) == "true"@ || ascii_lowered(trimmed(text)).len() == 0
            ==> styling_of(Some(text)),
{
    reveal_strlit("off");
    reveal_strlit("0");
    reveal_strlit("false");
    reveal_strlit("no");
    reveal_strlit("disabled");
    reveal_strlit("on");
    reveal_strlit("1");
    reveal_strlit("true");
    assert("on"@[0] == 'o' && "no"@[0] == 'n' && "1"@[0] == '1' && "0"@[0] == '0' && "true"@[0]
        == 't');
    assert("off"@.len() == 3 && "false"@.len() == 5 && "disabled"@.len() == 8 && "on"@.len() == 2
        && "no"@.len() == 2 && "true"@.len() == 4 && "1"@.len() == 1 && "0"@.len() == 1);
}

/// A configured value is read without the whitespace around it, and an absent one stays absent.
pub proof fn only_present_values_are_trimmed(text: Seq<char>)
    ensures
        optional_trimmed(Some(text)) == Some(trimmed(text)),
        optional_trimmed(None) is None,
{
}

/// Each setting of the dashboard comes from the value of its own name; labels are passed on as they
/// are, and the bands of severity are the documented ones.
pub proof fn each_setting_has_its_own_value(
    environment: &DashboardEnvironment,
    config: DashboardConfig,
)
    requires
        call_ensures(serve_dashboard_config, (environment,), config),
    ensures
        config.label == environment.label,
        config.label_color == environment.label_color,
        environment.interval_ms is None ==> config.interval_ms == 2000,
        environment.log_retain is None ==> config.log_retain_lines is None,
        environment.severity_styling is None ==> config.styling_enabled,
        200 <= config.interval_ms <= 10000,
        config.log_tail_lines <= 100_000,
        environment.log_lines == environment.log_retain && config.log_retain_lines is Some
            ==> config.log_tail_lines == (if config.log_retain_lines->0 <= 100_000 {
            config.log_retain_lines->0
        } else {
            100_000
        }),
        config.log_tail_warn_above == 500,
        config.warning_percent == 75 && config.critical_percent == 90 && config.hysteresis_percent
            == 2,
{
}

/// A web directory is used when it is named and is there.
pub proof fn a_web_directory_has_to_be_named_and_there(
    configured: Option<&str>,
    is_dir: bool,
    used: bool,
)
    requires
        call_ensures(static_web_dir, (configured, is_dir), used),
    ensures
        configured is None ==> !used,
        !is_dir ==> !used,
        configured matches Some(name) ==> (is_dir ==> (used <==> trimmed(name@).len() > 0)),
{
}

} // verus!
