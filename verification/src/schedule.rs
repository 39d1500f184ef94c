//! Night mode schedule: "HH:MM" parsing, the night window test, and the
//! decision of what a schedule tick does.
use vstd::prelude::*;

use crate::config::NightModeSchedule;
use crate::text::{
    chars_of, copy_strings, find_char, find_char_from, lemma_find_char, parse_u32_chars,
    parse_u32_spec, slice_range,
};

verus! {

/// The two sides of a string that contains exactly one ':' (what
/// `split(':')` yields when it yields two parts).
pub open spec fn time_parts(s: Seq<char>) -> Option<(Seq<char>, Seq<char>)> {
    let k = find_char(s, ':');
    if k < s.len() && find_char(s.subrange(k + 1, s.len() as int), ':') == s.len() - (k + 1) {
        Some((s.subrange(0, k), s.subrange(k + 1, s.len() as int)))
    } else {
        None
    }
}

/// Minutes since midnight written by "H:M": both parts decimal numbers,
/// giving `H * 60 + M` (neither part is range-checked).
pub open spec fn time_minutes_spec(s: Seq<char>) -> Option<int> {
    match time_parts(s) {
        Some((h, m)) => match (parse_u32_spec(h), parse_u32_spec(m)) {
            (Some(hv), Some(mv)) => Some(hv * 60 + mv),
            _ => None,
        },
        None => None,
    }
}

/// The hour and minute numbers of "H:M", when both parts parse.
fn time_values(time_str: &str) -> (res: Option<(u32, u32)>)
    ensures
        match res {
            Some((hv, mv)) => time_minutes_spec(time_str@) == Some(hv * 60 + mv),
            None => time_minutes_spec(time_str@) is None,
        },
{
    let cs = chars_of(time_str);
    let n = cs.len();
    proof {
        lemma_find_char(cs@, ':');
        assert(cs@.subrange(0, n as int) =~= cs@);
    }
    let k = find_char_from(cs.as_slice(), 0, ':');
    if k >= n {
        assert(find_char(cs@, ':') >= cs@.len());
        return None;
    }
    let k2 = find_char_from(cs.as_slice(), k + 1, ':');
    if k2 < n {
        proof {
            lemma_find_char(cs@.subrange(k + 1, n as int), ':');
            assert(k == find_char(cs@, ':'));
        }
        return None;
    }
    proof {
        lemma_find_char(cs@.subrange(k + 1, n as int), ':');
        assert(k == find_char(cs@, ':'));
        assert(find_char(cs@.subrange(k + 1, n as int), ':') == n - (k + 1));
        assert(time_parts(cs@) == Some((cs@.subrange(0, k as int), cs@.subrange(k + 1, n as int))));
    }
    let hs = slice_range(cs.as_slice(), 0, k);
    let ms = slice_range(cs.as_slice(), k + 1, n);
    let h = parse_u32_chars(hs.as_slice());
    let m = parse_u32_chars(ms.as_slice());
    match (h, m) {
        (Some(hv), Some(mv)) => Some((hv, mv)),
        _ => None,
    }
}

/// Parses "HH:MM" into minutes since midnight.
pub fn parse_time_minutes(time_str: &str) -> (res: Option<u32>)
    requires
        time_minutes_spec(time_str@) matches Some(v) ==> v <= u32::MAX,
    ensures
        res matches Some(v) ==> time_minutes_spec(time_str@) == Some(v as int),
        res is None ==> time_minutes_spec(time_str@) is None,
{
    match time_values(time_str) {
        Some((hv, mv)) => Some(hv * 60 + mv),
        None => None,
    }
}

/// Whether the minutes "H:M" stands for fit in a `u32` (the condition
/// `parse_time_minutes` needs).
pub fn time_minutes_fit(time_str: &str) -> (res: bool)
    ensures
        res == (time_minutes_spec(time_str@) matches Some(v) ==> v <= u32::MAX),
{
    match time_values(time_str) {
        Some((hv, mv)) => (hv as u64) * 60 + (mv as u64) <= 0xffff_ffffu64,
        None => true,
    }
}

/// Whether `now` falls in the night window `[night_start, day_start)`, which
/// wraps past midnight when night starts after day starts. Equal starts mean
/// it is never night.
pub open spec fn in_night_window(night_start: u32, day_start: u32, now: u32) -> bool {
    if night_start <= day_start {
        night_start <= now && now < day_start
    } else {
        now >= night_start || now < day_start
    }
}

/// Checks whether `now` (minutes since midnight) is in the night window.
pub fn is_night_time(night_start: u32, day_start: u32, now: u32) -> (res: bool)
    ensures
        res == in_night_window(night_start, day_start, now),
{
    if night_start <= day_start {
        now >= night_start && now < day_start
    } else {
        now >= night_start || now < day_start
    }
}

/// For a schedule whose night and day starts differ, every minute of the day
/// is in exactly one of the night window and the day window (the night
/// window with the roles of the two starts exchanged).
pub proof fn lemma_night_and_day_partition(night_start: u32, day_start: u32, now: u32)
    requires
        night_start != day_start,
    ensures
        in_night_window(night_start, day_start, now) != in_night_window(day_start, night_start, now),
{
}

/// The night window starts at the night start and ends just before the day
/// start: at the night start it is night, at the day start it is day (when
/// they differ); a window that does not cross midnight holds exactly the
/// minutes from night start up to day start, and one that crosses it holds
/// exactly the minutes outside day start up to night start.
pub proof fn lemma_night_window_bounds(night_start: u32, day_start: u32, now: u32)
    ensures
        night_start != day_start ==> in_night_window(night_start, day_start, night_start),
        night_start != day_start ==> !in_night_window(night_start, day_start, day_start),
        night_start == day_start ==> !in_night_window(night_start, day_start, now),
        night_start < day_start ==> (in_night_window(night_start, day_start, now) <==> (night_start
            <= now && now < day_start)),
        night_start > day_start ==> (in_night_window(night_start, day_start, now) <==> !(day_start
            <= now && now < night_start)),
{
}

/// The scheduled brightness is kept within the floor and 100: never below
/// the minimum, never above 100, and unchanged when already between them.
pub proof fn lemma_clamp_to_range(b: u32, lo: u32)
    requires
        lo <= 100,
    ensures
        lo <= clamp_to(b, lo) <= 100,
        lo <= b <= 100 ==> clamp_to(b, lo) == b,
        b < lo ==> clamp_to(b, lo) == lo,
        b > 100 ==> clamp_to(b, lo) == 100,
{
}

/// What a schedule tick does.
pub enum NightModeAction {
    /// Nothing: the schedule is off or a start time does not parse.
    Nothing,
    /// Run the configured commands of the current period, in order.
    RunCommands { is_night: bool, commands: Vec<String> },
    /// Default behavior: set every monitor to `brightness` and switch dark mode.
    SetBrightnessAndTheme { is_night: bool, brightness: u32, dark: bool },
}

/// `b` clamped to `[lo, 100]`.
pub open spec fn clamp_to(b: u32, lo: u32) -> u32 {
    if b < lo {
        lo
    } else if b > 100 {
        100
    } else {
        b
    }
}

/// The decision of a schedule tick at `now_minutes`: nothing when the
/// schedule is disabled or a start time does not parse; otherwise the
/// current period's custom commands when there are any, else that period's
/// brightness clamped to `[min_brightness, 100]` with dark mode on at night.
pub fn night_mode_action(schedule: &NightModeSchedule, now_minutes: u32, min_brightness: u32) -> (res: NightModeAction)
    requires
        min_brightness <= 100,
        time_minutes_spec(schedule.night_start@) matches Some(v) ==> v <= u32::MAX,
        time_minutes_spec(schedule.day_start@) matches Some(v) ==> v <= u32::MAX,
    ensures
        !schedule.enabled ==> res is Nothing,
        schedule.enabled && (time_minutes_spec(schedule.night_start@) is None
            || time_minutes_spec(schedule.day_start@) is None) ==> res is Nothing,
        schedule.enabled && time_minutes_spec(schedule.night_start@) is Some
            && time_minutes_spec(schedule.day_start@) is Some ==> {
            let night = time_minutes_spec(schedule.night_start@).unwrap() as u32;
            let day = time_minutes_spec(schedule.day_start@).unwrap() as u32;
            let is_night = in_night_window(night, day, now_minutes);
            let cmds = if is_night {
                schedule.night_commands@
            } else {
                schedule.day_commands@
            };
            let b = if is_night {
                schedule.night_brightness
            } else {
                schedule.day_brightness
            };
            if cmds.len() > 0 {
                res == NightModeAction::RunCommands { is_night, commands: res->commands }
                    && res->commands@ == cmds
            } else {
                res == NightModeAction::SetBrightnessAndTheme {
                    is_night,
                    brightness: clamp_to(b, min_brightness),
                    dark: is_night,
                }
            }
        },
{
    if !schedule.enabled {
        return NightModeAction::Nothing;
    }
    let night = match parse_time_minutes(schedule.night_start.as_str()) {
        Some(v) => v,
        None => {
            return NightModeAction::Nothing;
        },
    };
    let day = match parse_time_minutes(schedule.day_start.as_str()) {
        Some(v) => v,
        None => {
            return NightModeAction::Nothing;
        },
    };
    let is_night = is_night_time(night, day, now_minutes);
    let commands = if is_night {
        &schedule.night_commands
    } else {
        &schedule.day_commands
    };
    if commands.len() > 0 {
        return NightModeAction::RunCommands { is_night, commands: copy_strings(commands) };
    }
    let b = if is_night {
        schedule.night_brightness
    } else {
        schedule.day_brightness
    };
    let brightness = if b < min_brightness {
        min_brightness
    } else if b > 100 {
        100
    } else {
        b
    };
    NightModeAction::SetBrightnessAndTheme { is_night, brightness, dark: is_night }
}

} // verus!
