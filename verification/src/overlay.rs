//! Soft-overlay brightness: the window label of a monitor's overlay and what a
//! brightness request does to that window.
use vstd::prelude::*;

verus! {

/// The overlay window label of a monitor: "overlay-" and its id.
pub open spec fn overlay_label_of(monitor_id: Seq<char>) -> Seq<char> {
    "overlay-"@ + monitor_id
}

/// Builds the window label for a monitor's overlay.
pub fn overlay_label(monitor_id: &str) -> (res: String)
    ensures
        res@ == overlay_label_of(monitor_id@),
{
    String::from_str("overlay-").concat(monitor_id)
}

/// What an overlay brightness request does.
#[derive(Debug, PartialEq, Eq)]
pub enum OverlayPlan {
    /// No screen rect is known for the monitor: do nothing and succeed.
    Skip,
    /// The rect is empty: fail with this message.
    Invalid(String),
    /// Hide the existing window (full brightness).
    Hide,
    /// Move and resize the existing window to the rect, show it and send the
    /// new opacity.
    Update { left: i32, top: i32, width: i32, height: i32 },
    /// No window and full brightness: nothing to do.
    Nothing,
    /// Create the window over the rect, make it click-through, show it and
    /// send the opacity.
    Create { left: i32, top: i32, width: i32, height: i32 },
}

/// The message of an empty overlay rect.
pub open spec fn invalid_rect_message(monitor_id: Seq<char>, width: Seq<char>, height: Seq<char>) -> Seq<char> {
    "overlay: invalid monitor_rect for "@ + monitor_id + ": width="@ + width + " height="@ + height
}

/// The plan of a request to show `monitor_id` at `brightness_pct` through its
/// overlay: skip without a rect; fail on a rect without area; at 100% or more
/// hide an existing window (or do nothing without one); below 100% update an
/// existing window or create one.
pub open spec fn overlay_plan_matches(
    p: OverlayPlan,
    monitor_id: Seq<char>,
    rect: Option<(i32, i32, i32, i32)>,
    window_exists: bool,
    brightness_pct: u32,
) -> bool {
    match rect {
        None => p == OverlayPlan::Skip,
        Some((l, t, w, h)) => if w <= 0 || h <= 0 {
            p matches OverlayPlan::Invalid(msg) && msg@ == invalid_rect_message(
                monitor_id,
                crate::text::signed_decimal(w as int),
                crate::text::signed_decimal(h as int),
            )
        } else if window_exists {
            if brightness_pct >= 100 {
                p == OverlayPlan::Hide
            } else {
                p == OverlayPlan::Update { left: l, top: t, width: w, height: h }
            }
        } else if brightness_pct >= 100 {
            p == OverlayPlan::Nothing
        } else {
            p == OverlayPlan::Create { left: l, top: t, width: w, height: h }
        },
    }
}

/// An overlay window is created or shown only below 100% brightness, over
/// the monitor's own rect with positive width and height; at 100% or more
/// an existing window is hidden and no window is created; a monitor without
/// a rect is skipped and one with an empty rect is an error.
pub proof fn lemma_overlay_plan_shape(
    p: OverlayPlan,
    monitor_id: Seq<char>,
    rect: Option<(i32, i32, i32, i32)>,
    window_exists: bool,
    brightness_pct: u32,
)
    requires
        overlay_plan_matches(p, monitor_id, rect, window_exists, brightness_pct),
    ensures
        p matches OverlayPlan::Create { left, top, width, height } ==> brightness_pct < 100
            && !window_exists && rect == Some((left, top, width, height)) && width > 0 && height > 0,
        p matches OverlayPlan::Update { left, top, width, height } ==> brightness_pct < 100
            && window_exists && rect == Some((left, top, width, height)) && width > 0 && height > 0,
        brightness_pct >= 100 ==> !(p is Create) && !(p is Update),
        p is Hide ==> window_exists && brightness_pct >= 100,
        rect is None <==> p is Skip,
        p is Invalid <==> (rect matches Some((l, t, w, h)) && (w <= 0 || h <= 0)),
{
}

/// Decides what an overlay brightness request does.
pub fn plan_overlay(
    monitor_id: &str,
    monitor_rect: Option<(i32, i32, i32, i32)>,
    window_exists: bool,
    brightness_pct: u32,
) -> (res: OverlayPlan)
    ensures
        overlay_plan_matches(res, monitor_id@, monitor_rect, window_exists, brightness_pct),
{
    let (left, top, width, height) = match monitor_rect {
        Some(r) => r,
        None => {
            return OverlayPlan::Skip;
        },
    };
    if width <= 0 || height <= 0 {
        let w = crate::text::i64_to_decimal(width as i64);
        let h = crate::text::i64_to_decimal(height as i64);
        let msg = String::from_str("overlay: invalid monitor_rect for ").concat(monitor_id).concat(
            ": width=",
        ).concat(w.as_str()).concat(" height=").concat(h.as_str());
        return OverlayPlan::Invalid(msg);
    }
    if window_exists {
        if brightness_pct >= 100 {
            OverlayPlan::Hide
        } else {
            OverlayPlan::Update { left, top, width, height }
        }
    } else if brightness_pct >= 100 {
        OverlayPlan::Nothing
    } else {
        OverlayPlan::Create { left, top, width, height }
    }
}

} // verus!
