//! Status-bar helpers for a Linux desktop panel.
//!
//! The heart of the crate is the keyboard input-method indicator: a client
//! model for two incompatible input-method-editor control protocols, a
//! resolver that probes one dialect and falls back to the other, a catalog
//! that normalizes both protocols' raw entries into one shape, and a
//! diff-suppressing render step.  The remaining modules hold the pure
//! computations behind the other status probes (CPU, memory, network, disk,
//! battery, brightness, audio sink); reading `/proc`, `/sys` and command
//! output is left to the calling program, which hands the raw text in.

use vstd::prelude::*;

pub mod battery;
pub mod brightness;
pub mod cpu;
pub mod disk;
pub mod fcitx;
pub mod indicator;
pub mod keyboard_leds;
pub mod memory;
pub mod network;
pub mod pulseaudio;
pub mod text;
pub mod wallpaper;

verus! {

} // verus!
