//! Application-wide configuration derived from environment values.
//!
//! The environment is read by the caller and handed over as plain values. What they mean, which of
//! them are usable, and what stands in for the others is decided here.

use crate::text::{
    all_digits, ascii_lowered, decimal, digits_value, is_digit, parse_unsigned,
    push_decimal, same_text, text_between, to_lower, trim, trimmed, unsigned_number,
};
use vstd::prelude::*;
use vstd::utf8::encode_utf8;

verus! {

/// The effective user id of the process, from `nix::unistd::Uid::effective` and
/// `nix::unistd::Uid::as_raw`. Nothing is promised of it: it is whatever the system says.
#[verifier::external_body]
fn effective_uid() -> u32 {
    nix::unistd::Uid::effective().as_raw()
}

/// The text that identifies whoever has a user id, in characters.
pub open spec fn identity_text(uid: u32) -> Seq<char> {
    "uid-"@ + decimal(uid as nat)
}

/// The text that identifies whoever runs the daemon, from their user id.
pub fn identity_of(uid: u32) -> (identity: String)
    ensures
        identity@ == identity_text(uid),
{
    let mut identity = "uid-".to_owned();
    push_decimal(&mut identity, uid as u64);
    identity
}

/// The 32-bit FNV-1a hash of some bytes.
pub open spec fn fnv1a(bytes: Seq<u8>) -> u32
    decreases bytes.len(),
{
    if bytes.len() == 0 {
        2166136261
    } else {
        (fnv1a(bytes.drop_last()) ^ (bytes.last() as u32)).wrapping_mul(16777619)
    }
}

/// The daemon port of an identity: its hash, folded into a high, non-privileged range.
pub open spec fn port_of(identity: Seq<char>) -> int {
    40000 + fnv1a(encode_utf8(identity)) as int % 20000
}

/// The daemon port of an identity.
pub fn daemon_port_for(identity: &str) -> (port: u16)
    ensures
        port == port_of(identity@),
        40000 <= port < 60000,
{
    let bytes = identity.as_bytes();
    let mut hash: u32 = 2166136261;
    let mut i: usize = 0;
    assert(bytes@.take(0) =~= Seq::<u8>::empty());
    while i < bytes.len()
        invariant
            i <= bytes.len(),
            hash == fnv1a(bytes@.take(i as int)),
        decreases bytes.len() - i,
    {
        assert(bytes@.take(i + 1).drop_last() =~= bytes@.take(i as int));
        hash = (hash ^ (bytes[i] as u32)).wrapping_mul(16777619);
        i = i + 1;
    }
    assert(bytes@.take(i as int) =~= bytes@);
    40000 + (hash % 20000) as u16
}

/// The daemon port of whoever runs the process: the one of their user id, whatever that is.
pub fn daemon_port() -> (port: u16)
    ensures
        exists|uid: u32| port == port_of(#[trigger] identity_text(uid)),
        40000 <= port < 60000,
{
    let uid: u32 = effective_uid();
    let identity = identity_of(uid);
    assert(identity@ == identity_text(uid));
    daemon_port_for(identity.as_str())
}

/// The API port that goes with a daemon port: a thousand above it, or five thousand below it near
/// the end of the range.
pub open spec fn api_port_of(daemon: u16) -> u16 {
    if daemon >= 59000 {
        (daemon - 5000) as u16
    } else {
        (daemon + 1000) as u16
    }
}

/// The API port that goes with a daemon port. It is another one, and stays in the high range.
pub fn api_port_for(daemon: u16) -> (port: u16)
    ensures
        port == api_port_of(daemon),
        port != daemon,
        40000 <= daemon < 60000 ==> 41000 <= port < 60000,
{
    if daemon >= 59000 {
        daemon - 5000
    } else {
        daemon + 1000
    }
}

/// The API port of whoever runs the process.
pub fn api_port() -> (port: u16)
    ensures
        exists|daemon: u16|
            port == #[trigger] api_port_of(daemon) && exists|uid: u32|
                daemon == port_of(#[trigger] identity_text(uid)),
        41000 <= port < 60000,
{
    api_port_for(daemon_port())
}

/// What an optional string slice denotes, trimmed and read as a number.
pub open spec fn number_or(value: Option<&str>, default: u64) -> u64 {
    match value {
        Some(text) => match unsigned_number(trimmed(text@)) {
            Some(number) => number,
            None => default,
        },
        None => default,
    }
}

/// A numeric environment value, or a default when it is unset or not a number.
pub fn env_u64(value: Option<&str>, default: u64) -> (number: u64)
    ensures
        number == number_or(value, default),
{
    match value {
        Some(text) => match parse_unsigned(trim(text).as_str()) {
            Some(number) => number,
            None => default,
        },
        None => default,
    }
}

/// How many leading characters are ASCII digits.
pub open spec fn leading_digits(s: Seq<char>) -> int
    decreases s.len(),
{
    if s.len() > 0 && is_digit(s[0]) {
        1 + leading_digits(s.drop_first())
    } else {
        0
    }
}

proof fn lemma_leading_digits(s: Seq<char>, n: int)
    requires
        0 <= n <= s.len(),
        forall|i: int| 0 <= i < n ==> is_digit(#[trigger] s[i]),
        n < s.len() ==> !is_digit(s[n]),
    ensures
        leading_digits(s) == n,
    decreases s.len(),
{
    if n > 0 {
        assert forall|i: int| 0 <= i < n - 1 implies is_digit(#[trigger] s.drop_first()[i]) by {
            assert(is_digit(s[i + 1]));
        }
        assert(is_digit(s[0]));
        lemma_leading_digits(s.drop_first(), n - 1);
    }
}

/// The seconds in a unit of time, by any of its names.
pub open spec fn unit_seconds(unit: Seq<char>) -> Option<u64> {
    if unit == ""@ || unit == "s"@ || unit == "sec"@ || unit == "secs"@ || unit == "second"@ || unit
        == "seconds"@ {
        Some(1)
    } else if unit == "m"@ || unit == "min"@ || unit == "mins"@ || unit == "minute"@ || unit
        == "minutes"@ {
        Some(60)
    } else if unit == "h"@ || unit == "hr"@ || unit == "hrs"@ || unit == "hour"@ || unit
        == "hours"@ {
        Some(3_600)
    } else if unit == "d"@ || unit == "day"@ || unit == "days"@ {
        Some(86_400)
    } else if unit == "w"@ || unit == "week"@ || unit == "weeks"@ {
        Some(604_800)
    } else {
        None
    }
}

/// The rotation period a value denotes, in seconds: a named period, or a positive number followed
/// by a unit of time. Anything else, and anything that does not fit, is no period.
pub open spec fn rotate_interval(raw: Seq<char>) -> Option<u64> {
    let value = ascii_lowered(trimmed(raw));
    if value == ""@ || value == "off"@ || value == "none"@ || value == "0"@ {
        None
    } else if value == "hourly"@ {
        Some(3_600)
    } else if value == "daily"@ {
        Some(86_400)
    } else if value == "weekly"@ {
        Some(604_800)
    } else {
        let count = leading_digits(value);
        let amount = digits_value(value.take(count));
        match unit_seconds(trimmed(value.skip(count))) {
            Some(seconds) => if 0 < amount <= u64::MAX && amount * seconds <= u64::MAX {
                Some((amount * seconds) as u64)
            } else {
                None
            },
            None => None,
        }
    }
}

fn seconds_of_unit(unit: &str) -> (seconds: Option<u64>)
    ensures
        seconds == unit_seconds(unit@),
{
    if same_text(unit, "") || same_text(unit, "s") || same_text(unit, "sec") || same_text(
        unit,
        "secs",
    ) || same_text(unit, "second") || same_text(unit, "seconds") {
        Some(1)
    } else if same_text(unit, "m") || same_text(unit, "min") || same_text(unit, "mins")
        || same_text(unit, "minute") || same_text(unit, "minutes") {
        Some(60)
    } else if same_text(unit, "h") || same_text(unit, "hr") || same_text(unit, "hrs") || same_text(
        unit,
        "hour",
    ) || same_text(unit, "hours") {
        Some(3_600)
    } else if same_text(unit, "d") || same_text(unit, "day") || same_text(unit, "days") {
        Some(86_400)
    } else if same_text(unit, "w") || same_text(unit, "week") || same_text(unit, "weeks") {
        Some(604_800)
    } else {
        None
    }
}

/// Reads a time-based rotation period. A value that cannot be interpreted is no period, so that it
/// never silently becomes a rotation schedule.
pub fn parse_rotate_interval(raw: &str) -> (period: Option<u64>)
    ensures
        period == rotate_interval(raw@),
{
    let value = to_lower(trim(raw).as_str());
    let ghost text = ascii_lowered(trimmed(raw@));
    if same_text(value.as_str(), "") || same_text(value.as_str(), "off") || same_text(
        value.as_str(),
        "none",
    ) || same_text(value.as_str(), "0") {
        return None;
    }
    if same_text(value.as_str(), "hourly") {
        return Some(3_600);
    }
    if same_text(value.as_str(), "daily") {
        return Some(86_400);
    }
    if same_text(value.as_str(), "weekly") {
        return Some(604_800);
    }
    let chars = crate::text::chars_of(value.as_str());
    let mut count: usize = 0;
    while count < chars.len() && '0' <= chars[count] && chars[count] <= '9'
        invariant
            count <= chars.len(),
            chars@ == text,
            forall|i: int| 0 <= i < count ==> is_digit(#[trigger] text[i]),
        decreases chars.len() - count,
    {
        count = count + 1;
    }
    let digits = text_between(chars.as_slice(), 0, count);
    let unit = trim(text_between(chars.as_slice(), count, chars.len()).as_str());
    proof {
        lemma_leading_digits(text, count as int);
        assert(digits@ =~= text.take(count as int));
        assert(chars@.subrange(count as int, chars@.len() as int) =~= text.skip(count as int));
        assert(all_digits(digits@));
        if digits@.len() > 0 {
            assert(is_digit(digits@[0]));
        } else {
            assert(digits_value(digits@) == 0);
        }
    }
    let amount: u64 = match parse_unsigned(digits.as_str()) {
        Some(amount) => amount,
        None => {
            return None;
        },
    };
    if amount == 0 {
        return None;
    }
    match seconds_of_unit(unit.as_str()) {
        Some(seconds) => amount.checked_mul(seconds),
        None => None,
    }
}

/// When log files are rotated and how many are kept.
#[derive(Debug, Clone, Copy, PartialEq, Eq)]
pub struct LogRotationPolicy {
    pub max_size_bytes: u64,
    pub max_files: u32,
    pub max_age_days: u64,
    /// Time-based rotation period. `None` leaves size as the only trigger.
    pub max_age_secs: Option<u64>,
}

/// The environment values that configure an installation. Absent means unset.
#[derive(Debug, Clone)]
pub struct Environment {
    pub daemon_addr: Option<String>,
    pub api_addr: Option<String>,
    pub log_max_size_mb: Option<String>,
    pub log_max_files: Option<String>,
    pub log_max_days: Option<String>,
    pub log_rotate_interval: Option<String>,
}

/// Resolved runtime configuration for the local installation.
#[derive(Debug, Clone, PartialEq, Eq)]
pub struct AppConfig {
    pub base_dir: String,
    pub daemon_addr: String,
    pub api_addr: String,
    pub state_path: String,
    pub log_dir: String,
    pub log_rotation: LogRotationPolicy,
    /// Unix socket path for the streaming event bus.
    pub event_socket_path: String,
}

/// A path with a name appended, a separator going between them where there is none yet.
pub open spec fn joined_path(base: Seq<char>, name: Seq<char>) -> Seq<char> {
    if base.len() == 0 || base.last() == '/' {
        base + name
    } else {
        base + "/"@ + name
    }
}

/// Appends a relative name to a directory.
pub fn join_path(base: &str, name: &str) -> (path: String)
    ensures
        path@ == joined_path(base@, name@),
{
    let chars = crate::text::chars_of(base);
    let mut path = base.to_owned();
    if chars.len() > 0 && chars[chars.len() - 1] != '/' {
        path.append("/");
    }
    path.append(name);
    path
}

/// A configured address, unless it is unset or blank.
pub open spec fn usable_address(value: Option<String>) -> bool {
    value matches Some(address) && trimmed(address@).len() > 0
}

/// The loopback address of a port.
pub open spec fn loopback(port: u16) -> Seq<char> {
    "127.0.0.1:"@ + decimal(port as nat)
}

fn address_or_loopback(value: &Option<String>, port: u16) -> (address: String)
    ensures
        address@ == (if usable_address(*value) {
            value->0@
        } else {
            loopback(port)
        }),
{
    if let Some(address) = value {
        let inner = trim(address.as_str());
        if !inner.as_str().is_empty() {
            return address.clone();
        }
    }
    let mut address = "127.0.0.1:".to_owned();
    push_decimal(&mut address, port as u64);
    address
}

/// A number that a setting denotes, at least one.
pub open spec fn positive_setting(value: Option<String>, default: u64) -> u64 {
    let number = match value {
        Some(text) => match unsigned_number(trimmed(text@)) {
            Some(number) => number,
            None => default,
        },
        None => default,
    };
    if number == 0 {
        1
    } else {
        number
    }
}

fn positive_number(value: &Option<String>, default: u64) -> (number: u64)
    ensures
        number == positive_setting(*value, default),
        number >= 1,
{
    let number = match value {
        Some(text) => env_u64(Some(text.as_str()), default),
        None => default,
    };
    if number == 0 {
        1
    } else {
        number
    }
}

impl Environment {
    /// The log rotation policy that the values describe.
    pub open spec fn rotation(self) -> LogRotationPolicy {
        let bytes = positive_setting(self.log_max_size_mb, 20) * 1_048_576;
        let files = positive_setting(self.log_max_files, 5);
        LogRotationPolicy {
            max_size_bytes: if bytes <= u64::MAX {
                bytes as u64
            } else {
                u64::MAX
            },
            max_files: if files <= u32::MAX {
                files as u32
            } else {
                u32::MAX
            },
            max_age_days: positive_setting(self.log_max_days, 14),
            max_age_secs: match self.log_rotate_interval {
                Some(raw) => rotate_interval(raw@),
                None => None,
            },
        }
    }

    /// The log rotation policy that the values describe. No limit is ever zero.
    pub fn log_rotation(&self) -> (policy: LogRotationPolicy)
        ensures
            policy == self.rotation(),
            policy.max_size_bytes >= 1 && policy.max_files >= 1 && policy.max_age_days >= 1,
    {
        let megabytes = positive_number(&self.log_max_size_mb, 20);
        let max_size_bytes: u64 = match megabytes.checked_mul(1_048_576) {
            Some(bytes) => bytes,
            None => u64::MAX,
        };
        let files = positive_number(&self.log_max_files, 5);
        let max_files: u32 = if files <= u32::MAX as u64 {
            files as u32
        } else {
            u32::MAX
        };
        let max_age_secs = match &self.log_rotate_interval {
            Some(raw) => parse_rotate_interval(raw.as_str()),
            None => None,
        };
        LogRotationPolicy {
            max_size_bytes,
            max_files,
            max_age_days: positive_number(&self.log_max_days, 14),
            max_age_secs,
        }
    }
}

/// The directory that holds everything: the configured one, or `oxmgr` under the data directory
/// of the user, or under the directory for temporary files where there is none.
pub fn base_dir(home: Option<String>, data_dir: Option<String>, temp_dir: String) -> (dir: String)
    ensures
        match (home, data_dir) {
            (Some(home), _) => dir@ == home@,
            (None, Some(data)) => dir@ == joined_path(data@, "oxmgr"@),
            (None, None) => dir@ == joined_path(temp_dir@, "oxmgr"@),
        },
{
    match home {
        Some(home) => home,
        None => match data_dir {
            Some(data) => join_path(data.as_str(), "oxmgr"),
            None => join_path(temp_dir.as_str(), "oxmgr"),
        },
    }
}

impl AppConfig {
    /// Whether this is the configuration of an installation, given its daemon port.
    pub open spec fn configures(
        &self,
        base_dir: Seq<char>,
        environment: Environment,
        daemon_port: u16,
    ) -> bool {
        &&& self.base_dir@ == base_dir
        &&& self.daemon_addr@ == (if usable_address(environment.daemon_addr) {
            environment.daemon_addr->0@
        } else {
            loopback(daemon_port)
        })
        &&& self.api_addr@ == (if usable_address(environment.api_addr) {
            environment.api_addr->0@
        } else {
            loopback(api_port_of(daemon_port))
        })
        &&& self.state_path@ == joined_path(base_dir, "state.json"@)
        &&& self.log_dir@ == joined_path(base_dir, "logs"@)
        &&& self.event_socket_path@ == joined_path(base_dir, "events.sock"@)
        &&& self.log_rotation == environment.rotation()
    }

    /// The configuration of an installation, given its daemon port.
    pub fn assemble(base_dir: String, environment: &Environment, daemon_port: u16) -> (config: Self)
        ensures
            config.configures(base_dir@, *environment, daemon_port),
    {
        let api_port = api_port_for(daemon_port);
        let log_rotation = environment.log_rotation();
        let state_path = join_path(base_dir.as_str(), "state.json");
        let log_dir = join_path(base_dir.as_str(), "logs");
        let event_socket_path = join_path(base_dir.as_str(), "events.sock");
        AppConfig {
            base_dir,
            daemon_addr: address_or_loopback(&environment.daemon_addr, daemon_port),
            api_addr: address_or_loopback(&environment.api_addr, api_port),
            state_path,
            log_dir,
            log_rotation,
            event_socket_path,
        }
    }

    /// The configuration of an installation that whoever runs the process owns.
    pub fn load(base_dir: String, environment: &Environment) -> (config: Self)
        ensures
            exists|port: u16|
                #[trigger] config.configures(base_dir@, *environment, port) && exists|uid: u32|
                    port == port_of(#[trigger] identity_text(uid)),
    {
        AppConfig::assemble(base_dir, environment, daemon_port())
    }

    /// The default health check URL, based on the API address.
    pub fn default_health_url(&self) -> (url: String)
        ensures
            url@ == "http://"@ + self.api_addr@ + "/health"@,
    {
        let mut url = "http://".to_owned();
        url.append(self.api_addr.as_str());
        url.append("/health");
        url
    }
}

/// The hash is that of no bytes to begin with, and each byte is mixed in and multiplied through,
/// modulo two to the power of thirty-two.
pub proof fn each_byte_is_hashed_in(bytes: Seq<u8>, byte: u8)
    ensures
        fnv1a(Seq::<u8>::empty()) == 0x811c_9dc5,
        fnv1a(bytes.push(byte)) as int == ((fnv1a(bytes) ^ (byte as u32)) as int * 0x0100_0193)
            % 0x1_0000_0000,
{
    assert(bytes.push(byte).drop_last() =~= bytes);
}

/// The daemon port of an identity lies in a range of twenty thousand, at the remainder of its
/// hash; the API port is a thousand above it wherever that still lies in the range, and otherwise
/// five thousand below it.
pub proof fn ports_stay_in_the_high_range(identity: Seq<char>)
    ensures
        40000 <= port_of(identity) < 60000,
        (fnv1a(encode_utf8(identity)) - (port_of(identity) - 40000)) % 20000 == 0,
        port_of(identity) + 1000 < 60000 ==> api_port_of(port_of(identity) as u16) == port_of(
            identity,
        ) + 1000,
        port_of(identity) + 1000 >= 60000 ==> api_port_of(port_of(identity) as u16) == port_of(
            identity,
        ) - 5000,
        api_port_of(port_of(identity) as u16) != port_of(identity),
{
}

/// Users are told apart by their ids.
pub proof fn identities_tell_users_apart(a: u32, b: u32)
    ensures
        identity_text(a) == identity_text(b) <==> a == b,
        identity_text(a) == "uid-"@ + decimal(a as nat),
{
    if identity_text(a) == identity_text(b) {
        let head = "uid-"@.len() as int;
        assert(identity_text(a).skip(head) =~= decimal(a as nat));
        assert(identity_text(b).skip(head) =~= decimal(b as nat));
        crate::text::decimals_tell_numbers_apart(a as nat, b as nat);
    }
}

/// A numeric setting is the number it is written as, whitespace around it aside; the default
/// stands in only where it is unset or is no number.
pub proof fn a_numeric_setting_is_read_as_written(text: &str, number: u64, default: u64)
    ensures
        trimmed(text@) == decimal(number as nat) ==> number_or(Some(text), default) == number,
        trimmed(text@).len() == 0 ==> number_or(Some(text), default) == default,
        (exists|i: int|
            0 < i < trimmed(text@).len() && !is_digit(#[trigger] trimmed(text@)[i]))
            ==> number_or(Some(text), default) == default,
        number_or(None, default) == default,
{
    crate::text::a_decimal_denotes_its_number(number as nat);
    let s = trimmed(text@);
    if exists|i: int| 0 < i < s.len() && !is_digit(#[trigger] s[i]) {
        let i = choose|i: int| 0 < i < s.len() && !is_digit(#[trigger] s[i]);
        if s[0] == '+' {
            assert(s.drop_first()[i - 1] == s[i]);
        }
    }
}

/// A second is the smallest unit of time; a minute has sixty of them, an hour sixty minutes, a day
/// twenty-four hours and a week seven days, by short and by long name.
pub proof fn units_of_time_are_what_they_are_called()
    ensures
        unit_seconds(""@) == Some(1u64),
        unit_seconds("s"@) == Some(1u64),
        unit_seconds("seconds"@) == Some(1u64),
        unit_seconds("m"@) == Some(60u64),
        unit_seconds("minutes"@) == Some(60u64),
        unit_seconds("h"@) == Some(3600u64),
        unit_seconds("hours"@) == Some(3600u64),
        unit_seconds("d"@) == Some(86400u64),
        unit_seconds("days"@) == Some(86400u64),
        unit_seconds("w"@) == Some(604800u64),
        unit_seconds("weeks"@) == Some(604800u64),
        forall|unit: Seq<char>|
            unit.len() > 0 && unit[0] != 's' && unit[0] != 'm' && unit[0] != 'h' && unit[0] != 'd'
                && unit[0] != 'w' ==> #[trigger] unit_seconds(unit) is None,
{
    lemma_unit_letters();
}

proof fn lemma_unit_letters()
    ensures
        ""@.len() == 0,
        "s"@[0] == 's' && "sec"@[0] == 's' && "secs"@[0] == 's' && "second"@[0] == 's'
            && "seconds"@[0] == 's',
        "m"@[0] == 'm' && "min"@[0] == 'm' && "mins"@[0] == 'm' && "minute"@[0] == 'm'
            && "minutes"@[0] == 'm',
        "h"@[0] == 'h' && "hr"@[0] == 'h' && "hrs"@[0] == 'h' && "hour"@[0] == 'h' && "hours"@[0]
            == 'h',
        "d"@[0] == 'd' && "day"@[0] == 'd' && "days"@[0] == 'd',
        "w"@[0] == 'w' && "week"@[0] == 'w' && "weeks"@[0] == 'w',
        "s"@.len() == 1 && "m"@.len() == 1 && "h"@.len() == 1 && "d"@.len() == 1 && "w"@.len() == 1,
        "seconds"@.len() == 7 && "minutes"@.len() == 7 && "hours"@.len() == 5 && "days"@.len() == 4
            && "weeks"@.len() == 5,
        "sec"@.len() == 3 && "secs"@.len() == 4 && "second"@.len() == 6 && "min"@.len() == 3
            && "mins"@.len() == 4 && "minute"@.len() == 6 && "hr"@.len() == 2 && "hrs"@.len() == 3
            && "hour"@.len() == 4 && "day"@.len() == 3 && "week"@.len() == 4,
{
    reveal_strlit("");
    reveal_strlit("s");
    reveal_strlit("sec");
    reveal_strlit("secs");
    reveal_strlit("second");
    reveal_strlit("seconds");
    reveal_strlit("m");
    reveal_strlit("min");
    reveal_strlit("mins");
    reveal_strlit("minute");
    reveal_strlit("minutes");
    reveal_strlit("h");
    reveal_strlit("hr");
    reveal_strlit("hrs");
    reveal_strlit("hour");
    reveal_strlit("hours");
    reveal_strlit("d");
    reveal_strlit("day");
    reveal_strlit("days");
    reveal_strlit("w");
    reveal_strlit("week");
    reveal_strlit("weeks");
}

/// A period written as an amount and a unit is that many of the unit, where that fits; the case of
/// letters and whitespace around it do not matter. An amount of zero, or a unit that is none, is
/// no period.
pub proof fn a_period_is_an_amount_of_a_unit(raw: Seq<char>, amount: nat, unit: Seq<char>)
    requires
        ascii_lowered(trimmed(raw)) == decimal(amount) + unit,
        unit.len() > 0 ==> !is_digit(unit[0]),
    ensures
        amount == 0 ==> rotate_interval(raw) is None,
        unit_seconds(trimmed(unit)) is None ==> rotate_interval(raw) is None,
        amount > 0 && amount <= u64::MAX && unit_seconds(trimmed(unit)) is Some && amount * (
        unit_seconds(trimmed(unit))->0) <= u64::MAX ==> (rotate_interval(raw) matches Some(period)
            && period == amount * (unit_seconds(trimmed(unit))->0)),
        unit_seconds(trimmed(unit)) is Some && amount * (unit_seconds(trimmed(unit))->0) > u64::MAX
            ==> rotate_interval(raw) is None,
{
    let value = ascii_lowered(trimmed(raw));
    let digits = decimal(amount);
    crate::text::a_decimal_denotes_its_number(amount);
    let n = digits.len() as int;
    assert forall|i: int| 0 <= i < n implies is_digit(#[trigger] value[i]) by {
        assert(value[i] == digits[i]);
    }
    if n < value.len() {
        assert(value[n] == unit[0]);
    }
    lemma_leading_digits(value, n);
    assert(value.take(n) =~= digits);
    assert(value.skip(n) =~= unit);
    assert(is_digit(digits[0]));
    assert(value[0] == digits[0]);
    reveal_strlit("");
    reveal_strlit("off");
    reveal_strlit("none");
    reveal_strlit("0");
    reveal_strlit("hourly");
    reveal_strlit("daily");
    reveal_strlit("weekly");
    assert("off"@[0] == 'o' && "none"@[0] == 'n' && "hourly"@[0] == 'h' && "daily"@[0] == 'd'
        && "weekly"@[0] == 'w');
    if value == "0"@ {
        assert(digits =~= "0"@);
        assert(digits[0] == '0');
    }
    if unit_seconds(trimmed(unit)) is Some {
        let seconds = unit_seconds(trimmed(unit))->0;
        assert(amount * seconds >= amount) by (nonlinear_arith)
            requires
                seconds >= 1,
                amount >= 0,
        ;
    }
}

/// A named period is what its name says, and a value that switches rotation off is no period.
pub proof fn named_periods_are_what_they_say(raw: Seq<char>)
    ensures
        ascii_lowered(trimmed(raw)) == "hourly"@ ==> rotate_interval(raw) == Some(3600u64),
        ascii_lowered(trimmed(raw)) == "daily"@ ==> rotate_interval(raw) == Some(86400u64),
        ascii_lowered(trimmed(raw)) == "weekly"@ ==> rotate_interval(raw) == Some(604800u64),
        ascii_lowered(trimmed(raw)) == "off"@ || ascii_lowered(trimmed(raw)) == "none"@
            || ascii_lowered(trimmed(raw)) == "0"@ || ascii_lowered(trimmed(raw)).len() == 0
            ==> rotate_interval(raw) is None,
{
    reveal_strlit("");
    reveal_strlit("off");
    reveal_strlit("none");
    reveal_strlit("0");
    reveal_strlit("hourly");
    reveal_strlit("daily");
    reveal_strlit("weekly");
    assert("off"@[0] == 'o' && "none"@[0] == 'n' && "hourly"@[0] == 'h' && "daily"@[0] == 'd'
        && "weekly"@[0] == 'w');
    if ascii_lowered(trimmed(raw)).len() == 0 {
        assert(ascii_lowered(trimmed(raw)) =~= ""@);
    }
}

/// A name is appended to a directory behind one separator, and behind none more where the directory
/// ends in one; an empty directory adds nothing.
pub proof fn one_separator_goes_between(base: Seq<char>, name: Seq<char>)
    ensures
        base.len() == 0 ==> joined_path(base, name) == name,
        base.len() > 0 && base.last() == '/' ==> joined_path(base, name) == base + name,
        base.len() > 0 && base.last() != '/' ==> joined_path(base, name) == base + seq!['/'] + name,
        base.len() > 0 && base.last() != '/' ==> joined_path(base.push('/'), name) == joined_path(
            base,
            name,
        ),
{
    reveal_strlit("/");
    assert("/"@ =~= seq!['/']);
    if base.len() == 0 {
        assert(base + name =~= name);
    }
    assert(base.push('/') + name =~= base + seq!['/'] + name);
}

/// A limit of the log files is the one configured, at least one, and the documented default where
/// none is configured or what is configured is no number. Sizes are configured in mebibytes.
pub proof fn log_limits_are_what_was_configured(environment: Environment, number: u64)
    ensures
        environment.log_max_size_mb is None ==> environment.rotation().max_size_bytes == 20
            * 1024 * 1024,
        environment.log_max_files is None ==> environment.rotation().max_files == 5,
        environment.log_max_days is None ==> environment.rotation().max_age_days == 14,
        environment.log_rotate_interval is None ==> environment.rotation().max_age_secs is None,
        environment.log_max_size_mb matches Some(text) ==> (trimmed(text@) == decimal(
            number as nat,
        ) && 1 <= number <= 0xfff_ffff_ffff ==> environment.rotation().max_size_bytes == number
            * 1024 * 1024),
        environment.log_max_files matches Some(text) ==> (trimmed(text@) == decimal(number as nat)
            && 1 <= number <= u32::MAX ==> environment.rotation().max_files == number),
        environment.log_max_days matches Some(text) ==> (trimmed(text@) == decimal(number as nat)
            && 1 <= number ==> environment.rotation().max_age_days == number),
        environment.log_max_files matches Some(text) ==> (trimmed(text@) == decimal(0)
            ==> environment.rotation().max_files == 1),
        environment.log_max_days matches Some(text) ==> (trimmed(text@) == decimal(0)
            ==> environment.rotation().max_age_days == 1),
        environment.log_max_size_mb matches Some(text) ==> (trimmed(text@) == decimal(0)
            ==> environment.rotation().max_size_bytes == 1024 * 1024),
{
    crate::text::a_decimal_denotes_its_number(number as nat);
    crate::text::a_decimal_denotes_its_number(0);
}

/// An installation answers where it was told to, on its own ports where it was not, and there the
/// daemon and the API never share an address. What it keeps lies under its own directory.
pub proof fn an_installation_answers_where_it_was_told(
    config: &AppConfig,
    base_dir: Seq<char>,
    environment: Environment,
    daemon_port: u16,
)
    requires
        config.configures(base_dir, environment, daemon_port),
    ensures
        environment.daemon_addr matches Some(address) ==> (trimmed(address@).len() > 0
            ==> config.daemon_addr@ == address@),
        environment.api_addr matches Some(address) ==> (trimmed(address@).len() > 0
            ==> config.api_addr@ == address@),
        environment.daemon_addr is None || trimmed((environment.daemon_addr->0)@).len() == 0
            ==> config.daemon_addr@ == "127.0.0.1:"@ + decimal(daemon_port as nat),
        environment.daemon_addr is None && environment.api_addr is None ==> config.daemon_addr@
            != config.api_addr@,
        config.base_dir@ == base_dir,
        config.state_path@ == joined_path(base_dir, "state.json"@),
        config.log_dir@ == joined_path(base_dir, "logs"@),
        config.event_socket_path@ == joined_path(base_dir, "events.sock"@),
        config.log_rotation == environment.rotation(),
{
    let head = "127.0.0.1:"@;
    let other = api_port_of(daemon_port);
    crate::text::decimals_tell_numbers_apart(daemon_port as nat, other as nat);
    assert(loopback(daemon_port).skip(head.len() as int) =~= decimal(daemon_port as nat));
    assert(loopback(other).skip(head.len() as int) =~= decimal(other as nat));
}

/// The configured directory is used as it is; otherwise one of the project's own under the data
/// directory of the user, and only without that under the one for temporary files.
pub proof fn the_configured_directory_comes_first(
    home: Option<String>,
    data_dir: Option<String>,
    temp_dir: String,
    dir: String,
)
    requires
        call_ensures(base_dir, (home, data_dir, temp_dir), dir),
    ensures
        home matches Some(home) ==> dir@ == home@,
        home is None ==> (data_dir matches Some(data) ==> dir@ == joined_path(data@, "oxmgr"@)),
        home is None && data_dir is None ==> dir@ == joined_path(temp_dir@, "oxmgr"@),
{
}

} // verus!
