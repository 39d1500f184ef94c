//! Keyboard backlight levels: the 25% steps the slider and the shortcut
//! reach, and the three-level scale of the vendor firmware interfaces.
use vstd::prelude::*;

use crate::text::{chars_of, decode_utf8_lossy, parse_u32_chars, parse_u32_spec, trim, trim_chars, utf8_lossy};

verus! {

/// The multiple of 25 nearest to `v` (ties cannot occur for integers).
pub open spec fn nearest_step_25(v: int) -> int {
    ((v + 12) / 25) * 25
}

/// The level `snap_to_25` gives: the nearest 25% step of `value` capped at
/// 100.
pub open spec fn snapped_25(value: u32) -> int {
    nearest_step_25(
        if value > 100 {
            100
        } else {
            value as int
        },
    )
}

/// Snap a 0..100 value to the nearest 25% step (0/25/50/75/100); inputs above
/// 100 are clamped to 100 first.
pub fn snap_to_25(value: u32) -> (res: u32)
    ensures
        res == snapped_25(value),
        res % 25 == 0,
        res <= 100,
{
    let clamped = if value > 100 {
        100
    } else {
        value
    };
    (clamped + 12) / 25 * 25
}

/// Snapping is idempotent: a snapped level is its own step, so the slider
/// and the shortcut agree on every reachable level.
pub proof fn lemma_snap_to_25_idempotent(value: u32)
    ensures
        0 <= snapped_25(value) <= 100,
        snapped_25(value) % 25 == 0,
        snapped_25(snapped_25(value) as u32) == snapped_25(value),
{
    let c: int = if value > 100 {
        100
    } else {
        value as int
    };
    let s = ((c + 12) / 25) * 25;
    assert(0 <= s <= 100) by (nonlinear_arith)
        requires
            0 <= c <= 100,
            s == ((c + 12) / 25) * 25,
    ;
    assert(s % 25 == 0) by (nonlinear_arith)
        requires
            s == ((c + 12) / 25) * 25,
    ;
    assert(((s + 12) / 25) * 25 == s) by (nonlinear_arith)
        requires
            s % 25 == 0,
            0 <= s,
    ;
}

/// Snapping picks the nearest 25% step: levels above 100 snap to 100, and
/// any other level moves by at most 12 points to a multiple of 25 in
/// 0..=100, so no other step is closer.
pub proof fn lemma_snap_to_25_nearest(value: u32)
    ensures
        value > 100 ==> snapped_25(value) == 100,
        value <= 100 ==> -12 <= snapped_25(value) - value <= 12,
        value <= 100 ==> forall|m: int|
            0 <= m <= 100 && m % 25 == 0 ==> #[trigger] (m - value) * (m - value) >= (snapped_25(
                value,
            ) - value) * (snapped_25(value) - value),
{
    lemma_snap_to_25_idempotent(value);
    if value <= 100 {
        let v = value as int;
        let s = snapped_25(value);
        assert(s == ((v + 12) / 25) * 25);
        assert(-12 <= s - v <= 12) by (nonlinear_arith)
            requires
                s == ((v + 12) / 25) * 25,
                0 <= v,
        ;
        assert forall|m: int| 0 <= m <= 100 && m % 25 == 0 implies #[trigger] (m - value) * (m
            - value) >= (s - value) * (s - value) by {
            assert((m - v) * (m - v) >= (s - v) * (s - v)) by (nonlinear_arith)
                requires
                    m % 25 == 0,
                    s % 25 == 0,
                    -12 <= s - v <= 12,
            {
                let d = m - s;
                assert(d % 25 == 0);
                if d != 0 {
                    assert(d >= 25 || d <= -25);
                }
            }
        }
    }
}


/// The percentage a vendor level stands for: off, dim and bright are 0, 50
/// and 100; other values are taken as a percentage capped at 100.
pub open spec fn percent_of_vendor_level(raw: u32) -> u32 {
    if raw == 0 {
        0
    } else if raw == 1 {
        50
    } else if raw == 2 {
        100
    } else if raw > 100 {
        100
    } else {
        raw
    }
}

/// Translates a Lenovo or Dell backlight level (0..2) to a percentage.
pub fn percent_from_vendor_level(raw: u32) -> (res: u32)
    ensures
        res == percent_of_vendor_level(raw),
{
    if raw == 0 {
        0
    } else if raw == 1 {
        50
    } else if raw == 2 {
        100
    } else if raw > 100 {
        100
    } else {
        raw
    }
}

/// The vendor level a percentage is written as: 0 is off, below 50 is dim,
/// anything else bright.
pub open spec fn vendor_level_of_percent(pct: u32) -> u32 {
    if pct == 0 {
        0
    } else if pct <= 49 {
        1
    } else {
        2
    }
}

/// Translates a percentage to the Lenovo / Dell three-level scale.
/// The three vendor levels are off, dim and bright: read back, level 0 is
/// 0%, 1 is 50% and 2 is 100%; written, 0% is off, any positive percentage
/// below 50 is dim and 50 or more is bright.
pub proof fn lemma_vendor_levels(pct: u32)
    ensures
        percent_of_vendor_level(0) == 0,
        percent_of_vendor_level(1) == 50,
        percent_of_vendor_level(2) == 100,
        vendor_level_of_percent(percent_of_vendor_level(0)) == 0,
        vendor_level_of_percent(percent_of_vendor_level(2)) == 2,
        pct == 0 <==> vendor_level_of_percent(pct) == 0,
        0 < pct < 50 <==> vendor_level_of_percent(pct) == 1,
        pct >= 50 <==> vendor_level_of_percent(pct) == 2,
{
}

pub fn vendor_level_from_percent(pct: u32) -> (res: u32)
    ensures
        res == vendor_level_of_percent(pct),
{
    if pct == 0 {
        0
    } else if pct <= 49 {
        1
    } else {
        2
    }
}

/// Reads a vendor firmware reply: the trimmed number it prints, as a
/// percentage; none when it prints no number.
pub fn parse_vendor_level(stdout: &[u8]) -> (res: Option<u32>)
    ensures
        match parse_u32_spec(trim(utf8_lossy(stdout@))) {
            Some(raw) => res == Some(percent_of_vendor_level(raw)),
            None => res is None,
        },
{
    let text = decode_utf8_lossy(stdout);
    let cs = chars_of(text.as_str());
    let t = trim_chars(cs.as_slice());
    match parse_u32_chars(t.as_slice()) {
        Some(raw) => Some(percent_from_vendor_level(raw)),
        None => None,
    }
}

} // verus!
