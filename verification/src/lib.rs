//! Display DJ's core: monitor registry and brightness dispatch, preferences,
//! night-mode schedule, audio outputs, wallpaper and slideshow, the readings
//! of the platform tools' replies, and the caches and logs around them.
use vstd::prelude::*;

pub mod json;
pub mod keyboard_backlight;
pub mod stable_sort;
pub mod text;
pub mod config;
pub mod platform;
pub mod display;
pub mod sidecar_cache;
pub mod schedule;
pub mod wallpaper;
pub mod audio_output;
pub mod brightness;
pub mod overlay;
pub mod theme;
pub mod volume;
pub mod linux_tools;
pub mod tiling;
pub mod expose;
pub mod state;
pub mod crash_log;

verus! {
} // verus!
