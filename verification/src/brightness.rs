//! Brightness and contrast dispatch: clamping to the allowed range, the steps
//! each brightness route takes, the plan of an all-monitors change, and the
//! overlay follow-up of a bulk hardware call.
use vstd::prelude::*;

use crate::config::MonitorMetadata;
use crate::display::{
    brightness_mode_for, resolve_brightness_mode, route_of, BrightnessRoute, Monitor,
};
use crate::platform::DisplayInfo;
use crate::text::str_eq;

verus! {

/// `value` clamped to `[min_brightness, 100]`.
pub open spec fn clamped_brightness(value: u32, min_brightness: u32) -> u32 {
    if value < min_brightness {
        min_brightness
    } else if value > 100 {
        100
    } else {
        value
    }
}

/// Brightness sent to the hardware: `value` clamped to `[min_brightness, 100]`.
pub fn clamp_brightness(value: u32, min_brightness: u32) -> (res: u32)
    requires
        min_brightness <= 100,
    ensures
        res == clamped_brightness(value, min_brightness),
        min_brightness <= res <= 100,
{
    if value < min_brightness {
        min_brightness
    } else if value > 100 {
        100
    } else {
        value
    }
}

/// The brightness sent is the requested one whenever it lies between the
/// floor and 100, the floor when the request is below it, and 100 above.
pub proof fn lemma_clamp_brightness_cases(value: u32, min_brightness: u32)
    requires
        min_brightness <= 100,
    ensures
        min_brightness <= clamped_brightness(value, min_brightness) <= 100,
        min_brightness <= value <= 100 ==> clamped_brightness(value, min_brightness) == value,
        value < min_brightness ==> clamped_brightness(value, min_brightness) == min_brightness,
        value > 100 ==> clamped_brightness(value, min_brightness) == 100,
{
}

/// Contrast sent to the hardware: `value` capped at 100.
pub fn clamp_contrast(value: u32) -> (res: u32)
    ensures
        res == if value > 100 {
            100
        } else {
            value
        },
{
    if value > 100 {
        100
    } else {
        value
    }
}

/// The platform mode a hardware brightness call is made with.
#[derive(Debug, PartialEq, Eq, Structural, Clone, Copy)]
pub enum HardwareMode {
    /// DDC/CI only.
    Ddc,
    /// Software gamma only.
    Gamma,
    /// DDC, then gamma when DDC fails.
    Force,
}

impl HardwareMode {
    /// The mode string the platform layer takes.
    pub open spec fn name(self) -> Seq<char> {
        match self {
            HardwareMode::Ddc => "ddc"@,
            HardwareMode::Gamma => "gamma"@,
            HardwareMode::Force => "force"@,
        }
    }

    /// The mode string the platform layer takes.
    pub fn as_str(&self) -> (res: &'static str)
        ensures
            res@ == self.name(),
    {
        proof {
            reveal_strlit("ddc");
            reveal_strlit("gamma");
            reveal_strlit("force");
        }
        match self {
            HardwareMode::Ddc => "ddc",
            HardwareMode::Gamma => "gamma",
            HardwareMode::Force => "force",
        }
    }
}

/// The hardware call a route makes: DDC or gamma only for those routes,
/// force for auto, and none for the overlay route.
pub open spec fn hardware_mode_of(route: BrightnessRoute) -> Option<HardwareMode> {
    match route {
        BrightnessRoute::DdcOnly => Some(HardwareMode::Ddc),
        BrightnessRoute::GammaOnly => Some(HardwareMode::Gamma),
        BrightnessRoute::AutoWithOverlayFallback => Some(HardwareMode::Force),
        BrightnessRoute::OverlayOnly => None,
    }
}

/// The hardware call a route makes.
pub fn hardware_mode_for_route(route: BrightnessRoute) -> (res: Option<HardwareMode>)
    ensures
        res == hardware_mode_of(route),
{
    match route {
        BrightnessRoute::DdcOnly => Some(HardwareMode::Ddc),
        BrightnessRoute::GammaOnly => Some(HardwareMode::Gamma),
        BrightnessRoute::AutoWithOverlayFallback => Some(HardwareMode::Force),
        BrightnessRoute::OverlayOnly => None,
    }
}

/// What becomes of a monitor's overlay window.
#[derive(Debug, PartialEq, Eq, Structural, Clone, Copy)]
pub enum OverlayStep {
    /// Close it, so that it does not dim on top of the hardware.
    Destroy,
    /// Show or update it at the requested brightness.
    Show,
    /// Leave it as it is.
    Leave,
}

/// The overlay step taken before the hardware call: the DDC-only and
/// gamma-only routes close any overlay first.
pub open spec fn overlay_before_of(route: BrightnessRoute) -> OverlayStep {
    match route {
        BrightnessRoute::DdcOnly => OverlayStep::Destroy,
        BrightnessRoute::GammaOnly => OverlayStep::Destroy,
        _ => OverlayStep::Leave,
    }
}

/// The overlay step taken once the hardware call (if any) reported
/// `hardware_ok`: the overlay route always shows the overlay; the auto route
/// closes it when the hardware succeeded and shows it when it failed.
pub open spec fn overlay_after_of(route: BrightnessRoute, hardware_ok: bool) -> OverlayStep {
    match route {
        BrightnessRoute::OverlayOnly => OverlayStep::Show,
        BrightnessRoute::AutoWithOverlayFallback => if hardware_ok {
            OverlayStep::Destroy
        } else {
            OverlayStep::Show
        },
        _ => OverlayStep::Leave,
    }
}

/// The overlay step before the hardware call.
pub fn overlay_before_hardware(route: BrightnessRoute) -> (res: OverlayStep)
    ensures
        res == overlay_before_of(route),
{
    match route {
        BrightnessRoute::DdcOnly => OverlayStep::Destroy,
        BrightnessRoute::GammaOnly => OverlayStep::Destroy,
        _ => OverlayStep::Leave,
    }
}

/// The overlay step after the hardware call.
pub fn overlay_after_hardware(route: BrightnessRoute, hardware_ok: bool) -> (res: OverlayStep)
    ensures
        res == overlay_after_of(route, hardware_ok),
{
    match route {
        BrightnessRoute::OverlayOnly => OverlayStep::Show,
        BrightnessRoute::AutoWithOverlayFallback => if hardware_ok {
            OverlayStep::Destroy
        } else {
            OverlayStep::Show
        },
        _ => OverlayStep::Leave,
    }
}

/// Whether a route reports success whatever the hardware said: the overlay
/// route, and the auto route (whose failure falls back to the overlay).
pub open spec fn route_masks_failure(route: BrightnessRoute) -> bool {
    route == BrightnessRoute::OverlayOnly || route == BrightnessRoute::AutoWithOverlayFallback
}

/// The outcome of a route given the hardware's answer: the hardware result
/// for the DDC-only and gamma-only routes, success otherwise (the overlay
/// stands in for failed hardware).
pub fn route_succeeded(route: BrightnessRoute, hardware_ok: bool) -> (res: bool)
    ensures
        res == (route_masks_failure(route) || hardware_ok),
{
    match route {
        BrightnessRoute::OverlayOnly => true,
        BrightnessRoute::AutoWithOverlayFallback => true,
        _ => hardware_ok,
    }
}

/// How each route treats the monitor's overlay and the hardware: the
/// DDC-only and gamma-only routes close any overlay before their hardware
/// call (of that kind) and leave it closed, and report what the hardware
/// said; the overlay-only route makes no hardware call and shows the
/// overlay; the auto route tries DDC then gamma, closes the overlay when the
/// hardware took the change and shows it when it did not. Only the
/// overlay-only route and a failed auto route leave an overlay dimming the
/// monitor.
pub proof fn lemma_route_overlay_and_hardware(route: BrightnessRoute, hardware_ok: bool)
    ensures
        (route == BrightnessRoute::DdcOnly || route == BrightnessRoute::GammaOnly) ==> {
            &&& overlay_before_of(route) == OverlayStep::Destroy
            &&& overlay_after_of(route, hardware_ok) == OverlayStep::Leave
            &&& (route_masks_failure(route) || hardware_ok) == hardware_ok
        },
        route == BrightnessRoute::DdcOnly ==> hardware_mode_of(route) == Some(HardwareMode::Ddc),
        route == BrightnessRoute::GammaOnly ==> hardware_mode_of(route) == Some(HardwareMode::Gamma),
        route == BrightnessRoute::OverlayOnly ==> {
            &&& hardware_mode_of(route) is None
            &&& overlay_before_of(route) != OverlayStep::Destroy
            &&& overlay_after_of(route, hardware_ok) == OverlayStep::Show
        },
        route == BrightnessRoute::AutoWithOverlayFallback ==> {
            &&& hardware_mode_of(route) == Some(HardwareMode::Force)
            &&& overlay_before_of(route) != OverlayStep::Destroy
            &&& overlay_after_of(route, hardware_ok) == (if hardware_ok {
                OverlayStep::Destroy
            } else {
                OverlayStep::Show
            })
        },
        (overlay_after_of(route, hardware_ok) == OverlayStep::Show) <==> (route
            == BrightnessRoute::OverlayOnly || (route == BrightnessRoute::AutoWithOverlayFallback
            && !hardware_ok)),
        (route == BrightnessRoute::OverlayOnly || route == BrightnessRoute::AutoWithOverlayFallback)
            ==> (route_masks_failure(route) || hardware_ok),
{
}

/// The error of a failed brightness command.
pub open spec fn brightness_failure(monitor_id: Seq<char>) -> Seq<char> {
    "set_brightness failed for monitor "@ + monitor_id
}

/// The error of a failed contrast command.
pub open spec fn contrast_failure(monitor_id: Seq<char>) -> Seq<char> {
    "set_contrast failed for monitor "@ + monitor_id
}

/// The answer of a single-monitor brightness command whose platform call
/// reported `ok`.
pub fn brightness_outcome(monitor_id: &str, ok: bool) -> (res: Result<(), String>)
    ensures
        ok ==> res is Ok,
        !ok ==> (res matches Err(e) && e@ == brightness_failure(monitor_id@)),
{
    if ok {
        Ok(())
    } else {
        Err(String::from_str("set_brightness failed for monitor ").concat(monitor_id))
    }
}

/// The answer of a single-monitor contrast command whose platform call
/// reported `ok`.
pub fn contrast_outcome(monitor_id: &str, ok: bool) -> (res: Result<(), String>)
    ensures
        ok ==> res is Ok,
        !ok ==> (res matches Err(e) && e@ == contrast_failure(monitor_id@)),
{
    if ok {
        Ok(())
    } else {
        Err(String::from_str("set_contrast failed for monitor ").concat(monitor_id))
    }
}

/// How an all-monitors brightness change is carried out.
#[derive(Debug, PartialEq, Eq, Structural, Clone, Copy)]
pub enum AllBrightnessPlan {
    /// One bulk hardware call, then overlay follow-up per monitor.
    BulkWithFollowUp,
    /// One bulk hardware call and nothing more (no monitor is known).
    BulkOnly,
    /// Each monitor goes through its own route.
    PerMonitor,
}

/// Every known monitor, built in or not, is in auto mode.
pub open spec fn all_auto(configs: Seq<MonitorMetadata>, monitors: Seq<Monitor>) -> bool {
    forall|i: int|
        0 <= i < monitors.len() ==> brightness_mode_for(configs, (#[trigger] monitors[i]).id@)
            == "auto"@
}

/// The plan: a bulk call with follow-up when there are monitors and all are
/// in auto mode, a bare bulk call when no monitor is known, and
/// per-monitor dispatch otherwise.
pub open spec fn all_brightness_plan_of(configs: Seq<MonitorMetadata>, monitors: Seq<Monitor>) -> AllBrightnessPlan {
    if monitors.len() == 0 {
        AllBrightnessPlan::BulkOnly
    } else if all_auto(configs, monitors) {
        AllBrightnessPlan::BulkWithFollowUp
    } else {
        AllBrightnessPlan::PerMonitor
    }
}

/// Chooses how to set the brightness of all monitors.
pub fn plan_all_brightness(configs: &[MonitorMetadata], monitors: &[Monitor]) -> (res: AllBrightnessPlan)
    ensures
        res == all_brightness_plan_of(configs@, monitors@),
{
    if monitors.len() == 0 {
        return AllBrightnessPlan::BulkOnly;
    }
    let mut i: usize = 0;
    while i < monitors.len()
        invariant
            i <= monitors@.len(),
            forall|k: int|
                0 <= k < i ==> brightness_mode_for(configs@, (#[trigger] monitors@[k]).id@)
                    == "auto"@,
        decreases monitors.len() - i,
    {
        let mode = resolve_brightness_mode(configs, monitors[i].id.as_str());
        if !str_eq(mode.as_str(), "auto") {
            assert(!all_auto(configs@, monitors@)) by {
                assert(brightness_mode_for(configs@, monitors@[i as int].id@) != "auto"@);
            }
            return AllBrightnessPlan::PerMonitor;
        }
        i = i + 1;
    }
    AllBrightnessPlan::BulkWithFollowUp
}

/// An overlay operation on one monitor.
#[derive(Debug, PartialEq, Eq)]
pub enum OverlayCall {
    /// Close the overlay of this monitor.
    Destroy(String),
    /// Show the overlay of this monitor.
    Show(String),
}

/// The view of an overlay call: whether it shows, and the monitor id.
pub open spec fn overlay_call_view(c: OverlayCall) -> (bool, Seq<char>) {
    match c {
        OverlayCall::Destroy(id) => (false, id@),
        OverlayCall::Show(id) => (true, id@),
    }
}

/// Index of the first monitor with this id.
pub open spec fn first_monitor_with_id(monitors: Seq<Monitor>, id: Seq<char>, i: int) -> bool {
    0 <= i < monitors.len() && monitors[i].id@ == id && forall|j: int|
        0 <= j < i ==> (#[trigger] monitors[j]).id@ != id
}

/// The monitor with this id is known and is not built in (the first with
/// that id decides).
pub open spec fn known_external(monitors: Seq<Monitor>, id: Seq<char>) -> bool {
    exists|i: int| first_monitor_with_id(monitors, id, i) && !monitors[i].is_built_in
}

/// The overlay follow-up of one bulk result.
pub open spec fn follow_up_one(r: (Seq<char>, bool), monitors: Seq<Monitor>) -> Seq<(bool, Seq<char>)> {
    if r.1 {
        seq![(false, r.0)]
    } else if known_external(monitors, r.0) {
        seq![(true, r.0)]
    } else {
        Seq::empty()
    }
}

/// The overlay follow-up of bulk results, in their order: close the overlay
/// of every monitor the hardware set, and show it on every known external
/// monitor the hardware failed.
pub open spec fn follow_up(results: Seq<(Seq<char>, bool)>, monitors: Seq<Monitor>) -> Seq<(bool, Seq<char>)>
    decreases results.len(),
{
    if results.len() == 0 {
        Seq::empty()
    } else {
        follow_up(results.drop_last(), monitors) + follow_up_one(results.last(), monitors)
    }
}

/// Views of per-monitor results.
pub open spec fn result_views(results: Seq<(String, bool)>) -> Seq<(Seq<char>, bool)> {
    results.map_values(|r: (String, bool)| (r.0@, r.1))
}

/// Whether the monitor with this id is known and external.
fn is_known_external(monitors: &[Monitor], id: &str) -> (res: bool)
    ensures
        res == known_external(monitors@, id@),
{
    let mut i: usize = 0;
    while i < monitors.len()
        invariant
            i <= monitors@.len(),
            forall|j: int| 0 <= j < i ==> (#[trigger] monitors@[j]).id@ != id@,
        decreases monitors.len() - i,
    {
        if str_eq(monitors[i].id.as_str(), id) {
            proof {
                assert(first_monitor_with_id(monitors@, id@, i as int));
                assert forall|k: int| first_monitor_with_id(monitors@, id@, k) implies k == i by {
                    if k < i {
                    }
                    if i < k {
                        assert(monitors@[i as int].id@ != id@);
                    }
                }
            }
            return !monitors[i].is_built_in;
        }
        i = i + 1;
    }
    proof {
        assert forall|k: int| !first_monitor_with_id(monitors@, id@, k) by {
            if 0 <= k < monitors@.len() {
                assert(monitors@[k].id@ != id@);
            }
        }
    }
    false
}

/// The overlay calls that follow a bulk hardware call with these results.
pub fn bulk_follow_up(results: &[(String, bool)], monitors: &[Monitor]) -> (res: Vec<OverlayCall>)
    ensures
        res@.map_values(|c: OverlayCall| overlay_call_view(c)) == follow_up(
            result_views(results@),
            monitors@,
        ),
{
    let ghost rv = result_views(results@);
    let mut out: Vec<OverlayCall> = Vec::new();
    let mut i: usize = 0;
    while i < results.len()
        invariant
            rv == result_views(results@),
            i <= results@.len(),
            out@.map_values(|c: OverlayCall| overlay_call_view(c)) == follow_up(
                rv.subrange(0, i as int),
                monitors@,
            ),
        decreases results.len() - i,
    {
        let ghost before = out@.map_values(|c: OverlayCall| overlay_call_view(c));
        proof {
            assert(rv.subrange(0, i + 1).drop_last() =~= rv.subrange(0, i as int));
            assert(rv.subrange(0, i + 1).last() == rv[i as int]);
        }
        let id = &results[i].0;
        if results[i].1 {
            out.push(OverlayCall::Destroy(id.clone()));
            assert(out@.map_values(|c: OverlayCall| overlay_call_view(c)) =~= before + seq![
                (false, rv[i as int].0),
            ]);
        } else if is_known_external(monitors, id.as_str()) {
            out.push(OverlayCall::Show(id.clone()));
            assert(out@.map_values(|c: OverlayCall| overlay_call_view(c)) =~= before + seq![
                (true, rv[i as int].0),
            ]);
        } else {
            assert(before + Seq::<(bool, Seq<char>)>::empty() =~= before);
        }
        i = i + 1;
    }
    assert(rv.subrange(0, i as int) =~= rv);
    out
}

/// The rect of the first cached monitor with this id (none when that monitor
/// has no rect).
pub open spec fn cached_rect_of(monitors: Seq<Monitor>, id: Seq<char>) -> Option<(i32, i32, i32, i32)> {
    if exists|i: int| first_monitor_with_id(monitors, id, i) {
        monitors[choose|i: int| first_monitor_with_id(monitors, id, i)].monitor_rect
    } else {
        None
    }
}

/// The screen rect of a monitor as the cache knows it.
pub fn cached_monitor_rect(monitor_id: &str, cached: &[Monitor]) -> (res: Option<(i32, i32, i32, i32)>)
    ensures
        res == cached_rect_of(cached@, monitor_id@),
{
    let mut i: usize = 0;
    while i < cached.len()
        invariant
            i <= cached@.len(),
            forall|j: int| 0 <= j < i ==> (#[trigger] cached@[j]).id@ != monitor_id@,
        decreases cached.len() - i,
    {
        if str_eq(cached[i].id.as_str(), monitor_id) {
            proof {
                assert(first_monitor_with_id(cached@, monitor_id@, i as int));
                assert forall|k: int| first_monitor_with_id(cached@, monitor_id@, k) implies k
                    == i by {
                    if i < k {
                        assert(cached@[i as int].id@ != monitor_id@);
                    }
                }
            }
            return cached[i].monitor_rect;
        }
        i = i + 1;
    }
    proof {
        assert forall|k: int| !first_monitor_with_id(cached@, monitor_id@, k) by {
            if 0 <= k < cached@.len() {
                assert(cached@[k].id@ != monitor_id@);
            }
        }
    }
    None
}

/// Index of the first display with this id.
pub open spec fn first_display_with_id(displays: Seq<DisplayInfo>, id: Seq<char>, i: int) -> bool {
    0 <= i < displays.len() && displays[i].id@ == id && forall|j: int|
        0 <= j < i ==> (#[trigger] displays[j]).id@ != id
}

/// The rect of the first freshly enumerated display with this id.
pub open spec fn display_rect_of(displays: Seq<DisplayInfo>, id: Seq<char>) -> Option<(i32, i32, i32, i32)> {
    if exists|i: int| first_display_with_id(displays, id, i) {
        displays[choose|i: int| first_display_with_id(displays, id, i)].monitor_rect
    } else {
        None
    }
}

/// The screen rect of a monitor in a fresh enumeration.
pub fn fresh_monitor_rect(monitor_id: &str, displays: &[DisplayInfo]) -> (res: Option<(i32, i32, i32, i32)>)
    ensures
        res == display_rect_of(displays@, monitor_id@),
{
    let mut i: usize = 0;
    while i < displays.len()
        invariant
            i <= displays@.len(),
            forall|j: int| 0 <= j < i ==> (#[trigger] displays@[j]).id@ != monitor_id@,
        decreases displays.len() - i,
    {
        if str_eq(displays[i].id.as_str(), monitor_id) {
            proof {
                assert(first_display_with_id(displays@, monitor_id@, i as int));
                assert forall|k: int| first_display_with_id(displays@, monitor_id@, k) implies k
                    == i by {
                    if i < k {
                        assert(displays@[i as int].id@ != monitor_id@);
                    }
                }
            }
            return displays[i].monitor_rect;
        }
        i = i + 1;
    }
    proof {
        assert forall|k: int| !first_display_with_id(displays@, monitor_id@, k) by {
            if 0 <= k < displays@.len() {
                assert(displays@[k].id@ != monitor_id@);
            }
        }
    }
    None
}

} // verus!
