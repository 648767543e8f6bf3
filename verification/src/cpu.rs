//! Aggregate CPU time, parsed out of the kernel's statistics file.
//!
//! The `cpu` line holds the accumulated tick counters; the work time is
//! the sum of the user, nice and system fields, the total adds the idle
//! field and three more reads of the sixth field.  The calling program
//! reads the file and hands its lines in.

use vstd::prelude::*;

use crate::text;

verus! {

/// Accumulated CPU time, in kernel ticks.
#[derive(Debug, Copy, Clone, PartialEq, Eq, Structural)]
pub struct CpuUsage {
    pub work: u64,
    pub total: u64,
}

/// What the `cpu` line's tokens yield: work and total time, when the five
/// consulted fields are present, numeric and the sums fit.
pub open spec fn cpu_line_spec(toks: Seq<Seq<char>>) -> Option<CpuUsage> {
    if toks.len() < 6 {
        None
    } else {
        match (
            text::parse_u64_spec(toks[1]),
            text::parse_u64_spec(toks[2]),
            text::parse_u64_spec(toks[3]),
            text::parse_u64_spec(toks[4]),
            text::parse_u64_spec(toks[5]),
        ) {
            (Some(user), Some(nice), Some(system), Some(idle), Some(iowait)) => {
                let work = user + nice + system;
                let total = work + idle + 3 * iowait;
                if total <= u64::MAX {
                    Some(CpuUsage { work: work as u64, total: total as u64 })
                } else {
                    None
                }
            },
            _ => None,
        }
    }
}

/// What the statistics lines yield: the first `cpu` line's counters, both
/// zero when no such line exists, nothing when a line has no tokens at all
/// or the `cpu` line cannot be read.
pub open spec fn cpu_scan(lines: Seq<Seq<char>>) -> Option<CpuUsage>
    decreases lines.len(),
{
    if lines.len() == 0 {
        Some(CpuUsage { work: 0, total: 0 })
    } else {
        let toks = text::tokens_spec(lines[0]);
        if toks.len() == 0 {
            None
        } else if toks[0] == "cpu"@ {
            cpu_line_spec(toks)
        } else {
            cpu_scan(lines.drop_first())
        }
    }
}

/// Read the aggregate counters out of the statistics lines.
pub fn get_cpu_usage(lines: &Vec<String>) -> (r: Option<CpuUsage>)
    ensures
        r == cpu_scan(lines.deep_view()),
{
    let n = lines.len();
    let mut i: usize = 0;
    proof {
        assert(lines.deep_view().skip(0) =~= lines.deep_view());
    }
    while i < n
        invariant
            n == lines.len(),
            i <= n,
            cpu_scan(lines.deep_view().skip(i as int)) == cpu_scan(lines.deep_view()),
        decreases n - i,
    {
        let ghost lv = lines.deep_view();
        proof {
            assert(lv.skip(i as int)[0] == lv[i as int]);
            assert(lv.skip(i as int).drop_first() =~= lv.skip(i + 1));
        }
        let toks = text::split_whitespace(lines[i].as_str());
        if toks.len() == 0 {
            return None;
        }
        if text::str_eq(toks[0].as_str(), "cpu") {
            return cpu_line(&toks);
        }
        i = i + 1;
    }
    Some(CpuUsage { work: 0, total: 0 })
}

fn cpu_line(toks: &Vec<String>) -> (r: Option<CpuUsage>)
    requires
        toks.deep_view().len() > 0,
    ensures
        r == cpu_line_spec(toks.deep_view()),
{
    if toks.len() < 6 {
        return None;
    }
    let user = match text::parse_u64(toks[1].as_str()) {
        Some(v) => v,
        None => {
            return None;
        },
    };
    let nice = match text::parse_u64(toks[2].as_str()) {
        Some(v) => v,
        None => {
            return None;
        },
    };
    let system = match text::parse_u64(toks[3].as_str()) {
        Some(v) => v,
        None => {
            return None;
        },
    };
    let idle = match text::parse_u64(toks[4].as_str()) {
        Some(v) => v,
        None => {
            return None;
        },
    };
    let iowait = match text::parse_u64(toks[5].as_str()) {
        Some(v) => v,
        None => {
            return None;
        },
    };
    if nice > u64::MAX - user {
        return None;
    }
    let s1 = user + nice;
    if system > u64::MAX - s1 {
        return None;
    }
    let work = s1 + system;
    if idle > u64::MAX - work {
        return None;
    }
    let t1 = work + idle;
    if iowait > u64::MAX - t1 {
        return None;
    }
    let t2 = t1 + iowait;
    if iowait > u64::MAX - t2 {
        return None;
    }
    let t3 = t2 + iowait;
    if iowait > u64::MAX - t3 {
        return None;
    }
    let total = t3 + iowait;
    Some(CpuUsage { work, total })
}

} // verus!
