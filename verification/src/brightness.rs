//! Backlight brightness as a percentage.
//!
//! The backlight class exposes the current and the maximum raw level; the
//! calling program reads both numbers and hands them in.

use vstd::prelude::*;
use vstd::string::StringExecFns;

use crate::text;

verus! {

/// A file of the backlight device.
pub fn path_of(name: &str) -> (r: String)
    ensures
        r@ == "/sys/class/backlight/intel_backlight/"@ + name@,
{
    let mut r = String::from_str("/sys/class/backlight/intel_backlight/");
    r.append(name);
    r
}

/// Brightness in percent: the current level over the maximum, scaled to
/// one hundred and rounded half-up.
pub fn get_brightness(current: u64, max: u64) -> (r: u8)
    requires
        max > 0,
        current <= max,
        201 * max <= u64::MAX,
    ensures
        r == (200 * current + max) / (2 * max),
        r <= 100,
{
    proof {
        assert(200 * current + max <= 201 * max) by (nonlinear_arith)
            requires
                current <= max,
        ;
    }
    let num = 200 * current + max;
    let den = 2 * max;
    let q = num / den;
    proof {
        assert(q <= 100) by (nonlinear_arith)
            requires
                q == (200 * current + max) / (2 * max),
                current <= max,
                max > 0,
        ;
    }
    q as u8
}

/// The moon-phase icon for a brightness percentage: the darker the
/// backlight, the darker the moon.
pub fn brightness_icon(percent: u8) -> (r: &'static str)
    requires
        percent <= 100,
    ensures
        percent <= 19 ==> r@ == "🌑"@,
        20 <= percent <= 39 ==> r@ == "🌘"@,
        40 <= percent <= 59 ==> r@ == "🌗"@,
        60 <= percent <= 79 ==> r@ == "🌖"@,
        80 <= percent ==> r@ == "🌕"@,
{
    if percent <= 19 {
        "🌑"
    } else if percent <= 39 {
        "🌘"
    } else if percent <= 59 {
        "🌗"
    } else if percent <= 79 {
        "🌖"
    } else {
        "🌕"
    }
}

} // verus!
