//! Whole-machine disk traffic, parsed out of the kernel's disk statistics.
//!
//! Each statistics line names a device in its third field and counts
//! sectors read and written in its sixth and tenth; sectors are the fixed
//! standard size of 512 bytes.  Only devices listed in the block class
//! directory are counted.  The calling program reads the directory and the
//! file and hands both in.

use vstd::prelude::*;

use crate::text;

verus! {

/// The standard sector size the statistics counters are given in.
pub const SECTOR_SIZE: u64 = 512;

/// Bytes read from and written to all block devices since boot.
#[derive(Debug, Copy, Clone, PartialEq, Eq, Structural)]
pub struct DiskIo {
    pub read: u64,
    pub write: u64,
}

/// Sum the statistics lines of the listed drives, front to back: nothing
/// when a line lacks its device-name field, a counted line lacks a counter
/// or holds something other than a number, or a sum no longer fits.
pub open spec fn disk_scan(lines: Seq<Seq<char>>, drives: Seq<Seq<char>>, acc: DiskIo) -> Option<
    DiskIo,
>
    decreases lines.len(),
{
    if lines.len() == 0 {
        Some(acc)
    } else {
        let toks = text::tokens_spec(lines[0]);
        if toks.len() < 3 {
            None
        } else if drives.contains(toks[2]) {
            if toks.len() < 10 {
                None
            } else {
                match (text::parse_u64_spec(toks[5]), text::parse_u64_spec(toks[9])) {
                    (Some(rs), Some(ws)) => {
                        let nr = acc.read + rs * SECTOR_SIZE;
                        let nw = acc.write + ws * SECTOR_SIZE;
                        if nr <= u64::MAX && nw <= u64::MAX {
                            disk_scan(
                                lines.drop_first(),
                                drives,
                                DiskIo { read: nr as u64, write: nw as u64 },
                            )
                        } else {
                            None
                        }
                    },
                    _ => None,
                }
            }
        } else {
            disk_scan(lines.drop_first(), drives, acc)
        }
    }
}

/// Total disk traffic of the listed drives.
pub fn get_disk_io(drives: &Vec<String>, lines: &Vec<String>) -> (r: Option<DiskIo>)
    ensures
        r == disk_scan(lines.deep_view(), drives.deep_view(), DiskIo { read: 0, write: 0 }),
{
    let n = lines.len();
    let mut acc = DiskIo { read: 0, write: 0 };
    let mut i: usize = 0;
    proof {
        assert(lines.deep_view().skip(0) =~= lines.deep_view());
    }
    while i < n
        invariant
            n == lines.len(),
            i <= n,
            disk_scan(lines.deep_view().skip(i as int), drives.deep_view(), acc) == disk_scan(
                lines.deep_view(),
                drives.deep_view(),
                DiskIo { read: 0, write: 0 },
            ),
        decreases n - i,
    {
        let ghost lv = lines.deep_view();
        proof {
            assert(lv.skip(i as int)[0] == lv[i as int]);
            assert(lv.skip(i as int).drop_first() =~= lv.skip(i + 1));
        }
        let toks = text::split_whitespace(lines[i].as_str());
        if toks.len() < 3 {
            return None;
        }
        if text::contains_str(drives, toks[2].as_str()) {
            if toks.len() < 10 {
                return None;
            }
            let rs = match text::parse_u64(toks[5].as_str()) {
                Some(v) => v,
                None => {
                    return None;
                },
            };
            let ws = match text::parse_u64(toks[9].as_str()) {
                Some(v) => v,
                None => {
                    return None;
                },
            };
            if rs > u64::MAX / SECTOR_SIZE {
                proof {
                    assert(acc.read + rs * SECTOR_SIZE > u64::MAX) by (nonlinear_arith)
                        requires
                            rs > u64::MAX / SECTOR_SIZE,
                            SECTOR_SIZE == 512u64,
                            acc.read >= 0,
                    ;
                }
                return None;
            }
            proof {
                assert(rs * SECTOR_SIZE <= u64::MAX) by (nonlinear_arith)
                    requires
                        rs <= u64::MAX / SECTOR_SIZE,
                        SECTOR_SIZE == 512u64,
                ;
            }
            let rbytes = rs * SECTOR_SIZE;
            if rbytes > u64::MAX - acc.read {
                return None;
            }
            if ws > u64::MAX / SECTOR_SIZE {
                proof {
                    assert(acc.write + ws * SECTOR_SIZE > u64::MAX) by (nonlinear_arith)
                        requires
                            ws > u64::MAX / SECTOR_SIZE,
                            SECTOR_SIZE == 512u64,
                            acc.write >= 0,
                    ;
                }
                return None;
            }
            proof {
                assert(ws * SECTOR_SIZE <= u64::MAX) by (nonlinear_arith)
                    requires
                        ws <= u64::MAX / SECTOR_SIZE,
                        SECTOR_SIZE == 512u64,
                ;
            }
            let wbytes = ws * SECTOR_SIZE;
            if wbytes > u64::MAX - acc.write {
                return None;
            }
            acc.read = acc.read + rbytes;
            acc.write = acc.write + wbytes;
        }
        i = i + 1;
    }
    Some(acc)
}

} // verus!
