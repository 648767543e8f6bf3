//! Status-line rendering and the diff-suppressing loop step.
//!
//! One line is produced per tick: the resolved display name, one space,
//! then a highlighted `[Num]` and/or `[Caps]` marker.  An empty display
//! name hides the whole segment, whatever the LED state.  The polling loop
//! is kept testable as a pure step function threading the "last emitted"
//! string: a line is printed only when it is non-empty and differs from the
//! last one printed, and an empty render never updates the state.

use vstd::prelude::*;
use vstd::string::StrSliceExecFns;
use vstd::string::StringExecFns;

use crate::keyboard_leds::LedState;
use crate::text;

verus! {

/// How long the polling loop sleeps between iterations, in milliseconds.
/// No change notification exists for the input-method peer's current
/// method, so the loop polls at this fixed cadence.
pub const POLL_INTERVAL_MS: u64 = 50;

/// A marker wrapped in the fixed highlight span.
pub open spec fn highlight_spec(s: Seq<char>) -> Seq<char> {
    "<span foreground='#ff9944'>"@ + s + "</span>"@
}

/// Wrap `value` in the fixed highlight span.
pub fn highlight(value: &str) -> (r: String)
    ensures
        r@ == highlight_spec(value@),
{
    let mut r = String::from_str("<span foreground='#ff9944'>");
    r.append(value);
    r.append("</span>");
    r
}

/// The LED half of the line: a highlighted `[Num]` when Num-Lock is
/// active, then a highlighted `[Caps]` when Caps-Lock is, in that fixed
/// order; empty when both are off.
pub open spec fn led_markup_spec(state: LedState) -> Seq<char> {
    (if state.num_lock {
        highlight_spec("[Num]"@)
    } else {
        Seq::<char>::empty()
    }) + (if state.caps_lock {
        highlight_spec("[Caps]"@)
    } else {
        Seq::<char>::empty()
    })
}

/// Render the lock-LED markers.
pub fn leds_state(state: &LedState) -> (r: String)
    ensures
        r@ == led_markup_spec(*state),
{
    let mut r = String::new();
    if state.num_lock {
        r.append(highlight("[Num]").as_str());
    }
    if state.caps_lock {
        r.append(highlight("[Caps]").as_str());
    }
    proof {
        assert(r@ =~= led_markup_spec(*state));
    }
    r
}

/// The full status line: empty when the display name is empty (the segment
/// is hidden entirely), otherwise the name, a space, and the LED markers.
pub open spec fn render_spec(display_name: Seq<char>, state: LedState) -> Seq<char> {
    if display_name.len() == 0 {
        Seq::<char>::empty()
    } else {
        display_name + " "@ + led_markup_spec(state)
    }
}

/// Render the status line for one tick.
pub fn render(display_name: &str, state: &LedState) -> (r: String)
    ensures
        r@ == render_spec(display_name@, *state),
{
    if display_name.unicode_len() == 0 {
        return String::new();
    }
    let mut r = String::from_str(display_name);
    r.append(" ");
    r.append(leds_state(state).as_str());
    r
}

/// The empty display name renders as the empty line whatever the LED
/// state: the keyboard segment is hidden entirely rather than showing
/// dangling lock markers.
pub proof fn lemma_render_empty_name(state: LedState)
    ensures
        render_spec(Seq::<char>::empty(), state) == Seq::<char>::empty(),
{
}

/// The marker order is fixed: with both locks active, `[Num]` stands
/// before `[Caps]`; with both inactive the markup is absent entirely.
pub proof fn lemma_led_marker_order(state: LedState)
    ensures
        state.num_lock && state.caps_lock ==> led_markup_spec(state) == highlight_spec("[Num]"@)
            + highlight_spec("[Caps]"@),
        !state.num_lock && !state.caps_lock ==> led_markup_spec(state) == Seq::<char>::empty(),
{
    if !state.num_lock && !state.caps_lock {
        assert(led_markup_spec(state) =~= Seq::<char>::empty());
    }
}

/// One loop step over the "last emitted" string: the new state and what, if
/// anything, is printed.  A non-empty render differing from the last
/// emitted line is printed and remembered; anything else — a repeat, or any
/// empty render — prints nothing and leaves the state untouched.
pub open spec fn step_spec(last: Seq<char>, now: Seq<char>) -> (Seq<char>, Option<Seq<char>>) {
    if now.len() > 0 && now != last {
        (now, Some(now))
    } else {
        (last, None)
    }
}

/// Advance the diff-suppressing loop by one tick.
pub fn step(last: String, now: String) -> (r: (String, Option<String>))
    ensures
        step_spec(last@, now@) == (r.0@, match r.1 {
            Some(s) => Some(s@),
            None => None,
        }),
{
    if now.as_str().unicode_len() != 0 && !text::str_eq(now.as_str(), last.as_str()) {
        let emitted = now.clone();
        (now, Some(emitted))
    } else {
        (last, None)
    }
}

/// Two consecutive identical non-empty renders print exactly one line: the
/// first tick prints it, the repeat is suppressed.
pub proof fn lemma_diff_suppression(last: Seq<char>, now: Seq<char>)
    requires
        now.len() > 0,
        now != last,
    ensures
        step_spec(last, now).1 == Some(now),
        step_spec(step_spec(last, now).0, now).1 is None,
        step_spec(step_spec(last, now).0, now).0 == now,
{
}

/// An empty render never prints and never updates the "last emitted"
/// string, so a later non-empty render is still compared against the line
/// printed before the gap: a different name is detected as a change and
/// printed, while the unchanged name stays suppressed.
pub proof fn lemma_empty_render_keeps_last(last: Seq<char>, later: Seq<char>)
    ensures
        step_spec(last, Seq::<char>::empty()).1 is None,
        step_spec(last, Seq::<char>::empty()).0 == last,
        later.len() > 0 && later != last ==> step_spec(
            step_spec(last, Seq::<char>::empty()).0,
            later,
        ).1 == Some(later),
        later == last ==> step_spec(step_spec(last, Seq::<char>::empty()).0, later).1 is None,
{
}

} // verus!
