//! Keyboard lock-LED state.
//!
//! The kernel exposes one directory per LED under `/sys/class/leds`, named
//! `input<N>::capslock` / `input<N>::numlock`, each with a `brightness` file
//! holding `0` or `1`.  The calling program lists that directory and reads
//! those files; this module holds the verified parts: picking the device id
//! out of a directory listing and turning the file contents into a
//! [`LedState`].

use vstd::prelude::*;
use vstd::string::StrSliceExecFns;
use vstd::string::StringExecFns;

use crate::text;

verus! {

/// On/off state of the two keyboard lock LEDs, read fresh on every tick.
#[derive(Default, Debug, Copy, Clone, PartialEq, Eq, Structural)]
pub struct LedState {
    pub caps_lock: bool,
    pub num_lock: bool,
}

/// Whether a directory entry names a keyboard LED device:
/// `input<N>::capslock`.
pub open spec fn led_dir_match(s: Seq<char>) -> bool {
    "input"@.is_prefix_of(s) && "::capslock"@.is_suffix_of(s)
}

/// A matching entry is at least as long as the two fixed pieces together:
/// the prefix ends in `t` where any shorter overlap would need a `:`.
proof fn lemma_led_dir_len(s: Seq<char>)
    requires
        led_dir_match(s),
    ensures
        s.len() >= 15,
{
    reveal_strlit("input");
    reveal_strlit("::capslock");
    if s.len() < 15 {
        let k = s.len() - 10;
        assert(s[k] == "::capslock"@[0]);
        assert(s[k] == "input"@[k]);
        assert(false);
    }
}

/// The `<N>` part of a matching directory-entry name.
pub open spec fn led_dir_id(s: Seq<char>) -> Seq<char> {
    s.subrange("input"@.len() as int, s.len() - "::capslock"@.len())
}

/// The device id a matching entry yields: its `<N>` part read as a number,
/// if it is one and fits.
pub open spec fn parse_id_spec(s: Seq<char>) -> Option<u8> {
    let mid = led_dir_id(s);
    if mid.len() > 0 && text::all_digits(mid) && text::digits_val(mid) <= 255 {
        Some(text::digits_val(mid) as u8)
    } else {
        None
    }
}

/// The id the directory listing yields: that of the first matching entry,
/// or nothing when no entry matches.  A first matching entry whose `<N>`
/// part does not parse yields nothing — later entries are not consulted.
pub open spec fn get_input_id_spec(names: Seq<Seq<char>>) -> Option<u8>
    decreases names.len(),
{
    if names.len() == 0 {
        None
    } else if led_dir_match(names[0]) {
        parse_id_spec(names[0])
    } else {
        get_input_id_spec(names.drop_first())
    }
}

/// Pick the keyboard LED device id out of the names listed in the LED
/// class directory.
pub fn get_input_id(names: &Vec<String>) -> (r: Option<u8>)
    ensures
        r == get_input_id_spec(names.deep_view()),
{
    let n = names.len();
    let mut i: usize = 0;
    proof {
        assert(names.deep_view().skip(0) =~= names.deep_view());
    }
    while i < n
        invariant
            n == names.len(),
            i <= n,
            get_input_id_spec(names.deep_view().skip(i as int)) == get_input_id_spec(
                names.deep_view(),
            ),
        decreases n - i,
    {
        let ghost nv = names.deep_view();
        let s = names[i].as_str();
        proof {
            assert(nv.skip(i as int)[0] == nv[i as int]);
            assert(nv.skip(i as int).drop_first() =~= nv.skip(i + 1));
        }
        if text::str_starts_with(s, "input") && text::str_ends_with(s, "::capslock") {
            proof {
                lemma_led_dir_len(s@);
                reveal_strlit("input");
                reveal_strlit("::capslock");
            }
            let mid = s.substring_char(5, s.unicode_len() - 10);
            proof {
                assert(mid@ =~= led_dir_id(s@));
            }
            let parsed = text::parse_u64(mid);
            return match parsed {
                Some(v) if v <= 255 => Some(v as u8),
                _ => None,
            };
        }
        i = i + 1;
    }
    proof {
        assert(names.deep_view().skip(n as int) =~= Seq::<Seq<char>>::empty());
    }
    None
}

/// The brightness file of one LED of one input device.
pub fn led_brightness_path(input_id: u8, led_name: &str) -> (r: String)
    ensures
        r@ == "/sys/class/leds/input"@ + text::dec_spec(input_id as nat) + "::"@ + led_name@
            + "/brightness"@,
{
    let mut r = String::from_str("/sys/class/leds/input");
    r.append(text::u64_to_string(input_id as u64).as_str());
    r.append("::");
    r.append(led_name);
    r.append("/brightness");
    r
}

/// Current state of Num-Lock and Caps-Lock, from the two brightness files'
/// contents.
pub fn get_leds_state(capslock: &str, numlock: &str) -> (state: LedState)
    ensures
        state.caps_lock == (text::trim_spec(capslock@) == "1"@),
        state.num_lock == (text::trim_spec(numlock@) == "1"@),
{
    LedState {
        caps_lock: led_is_on(text::trim(capslock)),
        num_lock: led_is_on(text::trim(numlock)),
    }
}

/// A brightness file reports a lit LED as the single character `1`
/// (after the caller trims surrounding whitespace away).
pub fn led_is_on(content: &str) -> (on: bool)
    ensures
        on == (content@ == "1"@),
{
    proof {
        reveal_strlit("1");
    }
    if content.unicode_len() == 1 {
        let c = content.get_char(0);
        proof {
            if c == '1' {
                assert(content@ =~= "1"@);
            }
        }
        c == '1'
    } else {
        false
    }
}

} // verus!
