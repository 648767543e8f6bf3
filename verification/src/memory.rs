//! RAM and swap usage, parsed out of the kernel's memory-information file.
//!
//! The file holds one `Title:    12345 kB` line per counter.  The calling
//! program reads the file and hands its lines in; scanning stops once both
//! requested counters were seen.

use vstd::prelude::*;
use vstd::string::StrSliceExecFns;

use crate::text;

verus! {

/// A pair of memory counters, in kibibytes.
#[derive(Debug, Copy, Clone, PartialEq, Eq, Structural)]
pub struct MemInfo {
    pub total: u64,
    pub avail: u64,
}

impl Default for MemInfo {
    /// Both counters zero.
    fn default() -> (r: Self)
        ensures
            r.total == 0 && r.avail == 0,
    {
        MemInfo { total: 0, avail: 0 }
    }
}

/// The number in one counter line: the digits between the first `:` and
/// the last `kB`, with surrounding whitespace ignored.  Nothing when the
/// line has no `:`, no `kB` after it, or something other than a number
/// that fits in between.
pub open spec fn extract_number_spec(line: Seq<char>) -> Option<u64> {
    if text::has_first_char(line, ':') && text::has_last_match(line, "kB"@)
        && text::first_char_at(line, ':') + 1 <= text::last_match_at(line, "kB"@) {
        let mid = text::trim_spec(
            line.subrange(text::first_char_at(line, ':') + 1, text::last_match_at(line, "kB"@)),
        );
        if mid.len() > 0 && text::all_digits(mid) && text::digits_val(mid) <= u64::MAX {
            Some(text::digits_val(mid) as u64)
        } else {
            None
        }
    } else {
        None
    }
}

/// Pull the numeric value out of one counter line.
pub fn extract_number(line: &str) -> (r: Option<u64>)
    ensures
        r == extract_number_spec(line@),
{
    let colon = match text::find_char(line, ':') {
        Some(i) => i,
        None => {
            proof {
                assert(!text::has_first_char(line@, ':'));
            }
            return None;
        },
    };
    let kb = match text::rfind_str(line, "kB") {
        Some(i) => i,
        None => {
            proof {
                assert(!text::has_last_match(line@, "kB"@));
            }
            return None;
        },
    };
    proof {
        assert(text::found_first_char(line@, ':', colon as int));
        assert(text::has_first_char(line@, ':'));
        assert(text::first_char_at(line@, ':') == colon as int);
        assert(text::found_last_match(line@, "kB"@, kb as int));
        assert(text::has_last_match(line@, "kB"@));
        assert(text::last_match_at(line@, "kB"@) == kb as int);
    }
    if colon >= kb {
        return None;
    }
    let mid = text::trim(line.substring_char(colon + 1, kb));
    match text::parse_u64(mid) {
        Some(v) => Some(v),
        None => None,
    }
}

/// Scan counter lines for the two requested titles, front to back,
/// stopping once two title hits were consumed; each hit overwrites its
/// counter with the line's number.  Nothing when a hit line's number
/// cannot be read.
pub open spec fn mem_scan(
    lines: Seq<Seq<char>>,
    total_title: Seq<char>,
    avail_title: Seq<char>,
    info: MemInfo,
    count: int,
) -> Option<MemInfo>
    decreases lines.len(),
{
    if count >= 2 || lines.len() == 0 {
        Some(info)
    } else {
        let line = lines[0];
        if total_title.is_prefix_of(line) {
            match extract_number_spec(line) {
                Some(v) => mem_scan(
                    lines.drop_first(),
                    total_title,
                    avail_title,
                    MemInfo { total: v, avail: info.avail },
                    count + 1,
                ),
                None => None,
            }
        } else if avail_title.is_prefix_of(line) {
            match extract_number_spec(line) {
                Some(v) => mem_scan(
                    lines.drop_first(),
                    total_title,
                    avail_title,
                    MemInfo { total: info.total, avail: v },
                    count + 1,
                ),
                None => None,
            }
        } else {
            mem_scan(lines.drop_first(), total_title, avail_title, info, count)
        }
    }
}

/// Scan the memory-information lines for the two titled counters.
pub fn get_mem_usage(lines: &Vec<String>, total_title: &str, avail_title: &str) -> (r: Option<
    MemInfo,
>)
    ensures
        r == mem_scan(
            lines.deep_view(),
            total_title@,
            avail_title@,
            MemInfo { total: 0, avail: 0 },
            0,
        ),
{
    let n = lines.len();
    let mut info = MemInfo { total: 0, avail: 0 };
    let mut count: u64 = 0;
    let mut i: usize = 0;
    proof {
        assert(lines.deep_view().skip(0) =~= lines.deep_view());
    }
    while i < n && count < 2
        invariant
            n == lines.len(),
            i <= n,
            count <= 2,
            mem_scan(lines.deep_view().skip(i as int), total_title@, avail_title@, info, count as int)
                == mem_scan(
                lines.deep_view(),
                total_title@,
                avail_title@,
                MemInfo { total: 0, avail: 0 },
                0,
            ),
        decreases n - i,
    {
        let ghost lv = lines.deep_view();
        proof {
            assert(lv.skip(i as int)[0] == lv[i as int]);
            assert(lv.skip(i as int).drop_first() =~= lv.skip(i + 1));
        }
        let line = lines[i].as_str();
        if text::str_starts_with(line, total_title) {
            match extract_number(line) {
                Some(v) => {
                    info.total = v;
                    count = count + 1;
                },
                None => {
                    return None;
                },
            }
        } else if text::str_starts_with(line, avail_title) {
            match extract_number(line) {
                Some(v) => {
                    info.avail = v;
                    count = count + 1;
                },
                None => {
                    return None;
                },
            }
        }
        i = i + 1;
    }
    Some(info)
}

/// Swap usage: the `SwapTotal` and `SwapFree` counters.
pub fn get_swap_usage(lines: &Vec<String>) -> (r: Option<MemInfo>)
    ensures
        r == mem_scan(
            lines.deep_view(),
            "SwapTotal"@,
            "SwapFree"@,
            MemInfo { total: 0, avail: 0 },
            0,
        ),
{
    get_mem_usage(lines, "SwapTotal", "SwapFree")
}

/// RAM usage: the `MemTotal` and `MemAvailable` counters.
pub fn get_ram_usage(lines: &Vec<String>) -> (r: Option<MemInfo>)
    ensures
        r == mem_scan(
            lines.deep_view(),
            "MemTotal"@,
            "MemAvailable"@,
            MemInfo { total: 0, avail: 0 },
            0,
        ),
{
    get_mem_usage(lines, "MemTotal", "MemAvailable")
}

} // verus!
