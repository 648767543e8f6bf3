//! Battery charge and wear counters.
//!
//! The power-supply class exposes one small file per counter; the calling
//! program reads them and hands the contents in.

use vstd::prelude::*;
use vstd::string::StringExecFns;

use crate::text;

verus! {

/// Battery energy counters and charging state.
#[derive(Debug, Copy, Clone, PartialEq, Eq, Structural)]
pub struct BatteryInfo {
    pub now: u64,
    pub full: u64,
    pub full_design: u64,
    pub charging: bool,
}

/// The energy counter file of the battery.
pub fn energy_path(name: &str) -> (r: String)
    ensures
        r@ == "/sys/class/power_supply/BAT1/energy_"@ + name@,
{
    let mut r = String::from_str("/sys/class/power_supply/BAT1/energy_");
    r.append(name);
    r
}

/// Combine the three energy counter files' contents and the charger's
/// online flag into one record; nothing when a counter is not a number.
pub fn get_battery_info(now: &str, full: &str, full_design: &str, charging: &str) -> (r: Option<
    BatteryInfo,
>)
    ensures
        r == match (
            text::parse_trimmed_u64_spec(now@),
            text::parse_trimmed_u64_spec(full@),
            text::parse_trimmed_u64_spec(full_design@),
        ) {
            (Some(n), Some(f), Some(d)) => Some(
                BatteryInfo {
                    now: n,
                    full: f,
                    full_design: d,
                    charging: text::trim_spec(charging@) == "1"@,
                },
            ),
            _ => None::<BatteryInfo>,
        },
{
    let now_v = match text::parse_trimmed_u64(now) {
        Some(v) => v,
        None => {
            return None;
        },
    };
    let full_v = match text::parse_trimmed_u64(full) {
        Some(v) => v,
        None => {
            return None;
        },
    };
    let full_design_v = match text::parse_trimmed_u64(full_design) {
        Some(v) => v,
        None => {
            return None;
        },
    };
    let charging_v = text::str_eq(text::trim(charging), "1");
    Some(
        BatteryInfo {
            now: now_v,
            full: full_v,
            full_design: full_design_v,
            charging: charging_v,
        },
    )
}

} // verus!
