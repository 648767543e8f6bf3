//! Default-sink mute state and volume, parsed out of the sound server's
//! sink listing.
//!
//! The calling program runs the listing command and hands its output in.
//! The mute flag follows the first `Mute: ` marker; the volume is the
//! number standing just before the first `%` after that marker.

use vstd::prelude::*;
use vstd::string::StrSliceExecFns;

use crate::text;

verus! {

/// Mute state and volume percentage of the default sink.
#[derive(Debug, Default, Copy, Clone, PartialEq, Eq, Structural)]
pub struct SinkState {
    pub muted: bool,
    pub volume: u8,
}

/// What the sink listing yields: nothing when the `Mute: ` marker is
/// absent, followed by neither `yes` nor `no`, when no `%` follows, when
/// no space stands before the number, or when the number does not fit.
pub open spec fn sink_state_spec(raw: Seq<char>) -> Option<SinkState> {
    if !text::has_first_match(raw, "Mute: "@) {
        None
    } else {
        let s1 = raw.skip(text::first_match_at(raw, "Mute: "@) + 6);
        let muted_opt = if "yes"@.is_prefix_of(s1) {
            Some(true)
        } else if "no"@.is_prefix_of(s1) {
            Some(false)
        } else {
            None
        };
        match muted_opt {
            None => None,
            Some(muted) => {
                if !text::has_first_char(s1, '%') {
                    None
                } else {
                    let s2 = s1.take(text::first_char_at(s1, '%'));
                    if !text::has_last_match(s2, " "@) {
                        None
                    } else {
                        let s3 = s2.skip(text::last_match_at(s2, " "@) + 1);
                        match text::parse_u64_spec(s3) {
                            Some(v) => if v <= 255 {
                                Some(SinkState { muted, volume: v as u8 })
                            } else {
                                None
                            },
                            None => None,
                        }
                    }
                }
            },
        }
    }
}

/// Parse the sink listing.
pub fn get_sink_state(raw: &str) -> (r: Option<SinkState>)
    ensures
        r == sink_state_spec(raw@),
{
    let idx = match text::find_str(raw, "Mute: ") {
        Some(i) => i,
        None => {
            proof {
                assert(!text::has_first_match(raw@, "Mute: "@));
            }
            return None;
        },
    };
    proof {
        reveal_strlit("Mute: ");
        assert(text::found_first_match(raw@, "Mute: "@, idx as int));
        assert(text::has_first_match(raw@, "Mute: "@));
        assert(text::first_match_at(raw@, "Mute: "@) == idx as int);
    }
    let n = raw.unicode_len();
    let s1 = raw.substring_char(idx + 6, n);
    proof {
        assert(s1@ =~= raw@.skip(idx + 6));
    }
    let muted = if text::str_starts_with(s1, "yes") {
        true
    } else if text::str_starts_with(s1, "no") {
        false
    } else {
        return None;
    };
    let pct = match text::find_char(s1, '%') {
        Some(i) => i,
        None => {
            proof {
                assert(!text::has_first_char(s1@, '%'));
            }
            return None;
        },
    };
    proof {
        assert(text::found_first_char(s1@, '%', pct as int));
        assert(text::has_first_char(s1@, '%'));
        assert(text::first_char_at(s1@, '%') == pct as int);
    }
    let s2 = s1.substring_char(0, pct);
    proof {
        assert(s2@ =~= s1@.take(pct as int));
    }
    let sp = match text::rfind_str(s2, " ") {
        Some(i) => i,
        None => {
            proof {
                assert(!text::has_last_match(s2@, " "@));
            }
            return None;
        },
    };
    proof {
        assert(text::found_last_match(s2@, " "@, sp as int));
        assert(text::has_last_match(s2@, " "@));
        assert(text::last_match_at(s2@, " "@) == sp as int);
        reveal_strlit(" ");
    }
    let s3 = s2.substring_char(sp + 1, s2.unicode_len());
    proof {
        assert(s3@ =~= s2@.skip(sp + 1));
    }
    match text::parse_u64(s3) {
        Some(v) => {
            if v <= 255 {
                Some(SinkState { muted, volume: v as u8 })
            } else {
                None
            }
        },
        None => None,
    }
}

/// The speaker icon for a sink: crossed out when muted, else louder with
/// rising volume.
pub fn sink_icon(state: &SinkState) -> (r: &'static str)
    ensures
        state.muted ==> r@ == "🔇"@,
        !state.muted && state.volume <= 35 ==> r@ == "🔈"@,
        !state.muted && 36 <= state.volume <= 70 ==> r@ == "🔉"@,
        !state.muted && 71 <= state.volume ==> r@ == "🔊"@,
{
    if state.muted {
        "🔇"
    } else if state.volume <= 35 {
        "🔈"
    } else if state.volume <= 70 {
        "🔉"
    } else {
        "🔊"
    }
}

} // verus!
