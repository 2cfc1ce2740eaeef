//! Numeric conversions and the one duration format shared by every surface.

use crate::text::{decimal, push_decimal};
use vstd::prelude::*;

verus! {

/// Terminal coordinate: a length clamped to the largest representable cell.
pub fn coord_u16(n: usize) -> (cell: u16)
    ensures
        cell == (if n <= u16::MAX {
            n as int
        } else {
            u16::MAX as int
        }),
{
    if n <= u16::MAX as usize {
        n as u16
    } else {
        u16::MAX
    }
}

/// Whole milliseconds of a duration given as whole seconds and a millisecond remainder,
/// saturating instead of wrapping.
pub fn duration_millis(secs: u64, subsec_millis: u32) -> (millis: u64)
    ensures
        millis == (if secs * 1000 + subsec_millis <= u64::MAX {
            secs * 1000 + subsec_millis
        } else {
            u64::MAX as int
        }),
{
    match secs.checked_mul(1000) {
        Some(whole) => whole.saturating_add(subsec_millis as u64),
        None => u64::MAX,
    }
}

/// The two most significant units of a duration: `2d 5h`, `3h 25m`, `25m 12s`, `12s`.
pub open spec fn compact_duration(total_secs: nat) -> Seq<char> {
    let days = total_secs / 86_400;
    let hours = (total_secs % 86_400) / 3_600;
    let mins = (total_secs % 3_600) / 60;
    let secs = total_secs % 60;
    if days > 0 {
        decimal(days) + "d "@ + decimal(hours) + "h"@
    } else if hours > 0 {
        decimal(hours) + "h "@ + decimal(mins) + "m"@
    } else if mins > 0 {
        decimal(mins) + "m "@ + decimal(secs) + "s"@
    } else {
        decimal(secs) + "s"@
    }
}

fn two_units(major: u64, separator: &str, minor: u64, suffix: &str) -> (text: String)
    ensures
        text@ == decimal(major as nat) + separator@ + decimal(minor as nat) + suffix@,
{
    let mut text = crate::text::decimal_text(major);
    text.append(separator);
    push_decimal(&mut text, minor);
    text.append(suffix);
    text
}

/// Compact duration: the two most significant units of a number of seconds.
pub fn format_duration_compact(total_secs: u64) -> (text: String)
    ensures
        text@ == compact_duration(total_secs as nat),
{
    let days: u64 = total_secs / 86_400;
    let hours: u64 = (total_secs % 86_400) / 3_600;
    let mins: u64 = (total_secs % 3_600) / 60;
    let secs: u64 = total_secs % 60;
    if days > 0 {
        two_units(days, "d ", hours, "h")
    } else if hours > 0 {
        two_units(hours, "h ", mins, "m")
    } else if mins > 0 {
        two_units(mins, "m ", secs, "s")
    } else {
        let mut text = crate::text::decimal_text(secs);
        text.append("s");
        text
    }
}

/// A time of so many days, hours, minutes and seconds is written as its two largest units, from
/// the first that is not zero: what lies below them is dropped, never rounded up.
pub proof fn a_duration_shows_its_two_largest_units(days: nat, hours: nat, mins: nat, secs: nat)
    requires
        hours < 24,
        mins < 60,
        secs < 60,
    ensures
        days > 0 ==> compact_duration(days * 86_400 + hours * 3_600 + mins * 60 + secs) == decimal(
            days,
        ) + "d "@ + decimal(hours) + "h"@,
        hours > 0 ==> compact_duration(hours * 3_600 + mins * 60 + secs) == decimal(hours) + "h "@
            + decimal(mins) + "m"@,
        mins > 0 ==> compact_duration(mins * 60 + secs) == decimal(mins) + "m "@ + decimal(secs)
            + "s"@,
        compact_duration(secs) == decimal(secs) + "s"@,
{
    let total = days * 86_400 + hours * 3_600 + mins * 60 + secs;
    assert(total / 86_400 == days);
    assert((total % 86_400) / 3_600 == hours);
    let part = hours * 3_600 + mins * 60 + secs;
    assert(part / 86_400 == 0);
    assert((part % 86_400) / 3_600 == hours);
    assert((part % 3_600) / 60 == mins);
    let small = mins * 60 + secs;
    assert((small % 86_400) / 3_600 == 0);
    assert((small % 3_600) / 60 == mins);
    assert(small % 60 == secs);
}

} // verus!
