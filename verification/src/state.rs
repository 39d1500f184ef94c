//! What the front end receives in one poll, and the keep-awake switch.
use vstd::prelude::*;

use crate::display::Monitor;

verus! {

/// All backend state the front end polls for in one call.
pub struct AllState {
    pub monitors: Vec<Monitor>,
    pub is_dark: bool,
    pub volume: u32,
}

/// Assembles the poll answer from the three probes; a failed probe reads as
/// no monitors, light mode and volume 0.
pub fn all_state_from(
    monitors: Result<Vec<Monitor>, String>,
    is_dark: Result<bool, String>,
    volume: Result<u32, String>,
) -> (res: AllState)
    ensures
        res.monitors@ == match monitors {
            Ok(m) => m@,
            Err(_) => Seq::<Monitor>::empty(),
        },
        res.is_dark == match is_dark {
            Ok(b) => b,
            Err(_) => false,
        },
        res.volume == match volume {
            Ok(v) => v,
            Err(_) => 0,
        },
{
    let monitors = match monitors {
        Ok(m) => m,
        Err(_) => Vec::new(),
    };
    let is_dark = match is_dark {
        Ok(b) => b,
        Err(_) => false,
    };
    let volume = match volume {
        Ok(v) => v,
        Err(_) => 0,
    };
    AllState { monitors, is_dark, volume }
}

/// What a keep-awake request does to the sleep-prevention guard.
#[derive(Clone, Copy, Debug, PartialEq, Eq, Structural)]
pub enum KeepAwakeChange {
    /// Take a new guard.
    Acquire,
    /// Drop the held guard.
    Release,
    /// Leave the guard as it is.
    Keep,
}

/// The change a request makes: take a guard when enabling without one, drop
/// it when disabling with one, and nothing otherwise.
pub fn keep_awake_change(enabled: bool, active: bool) -> (res: KeepAwakeChange)
    ensures
        res == if enabled && !active {
            KeepAwakeChange::Acquire
        } else if !enabled && active {
            KeepAwakeChange::Release
        } else {
            KeepAwakeChange::Keep
        },
{
    if enabled && !active {
        KeepAwakeChange::Acquire
    } else if !enabled && active {
        KeepAwakeChange::Release
    } else {
        KeepAwakeChange::Keep
    }
}

} // verus!
