use display_dj::brightness::{
    brightness_outcome, bulk_follow_up, cached_monitor_rect, clamp_brightness, clamp_contrast,
    contrast_outcome, fresh_monitor_rect, hardware_mode_for_route, overlay_after_hardware,
    overlay_before_hardware, plan_all_brightness, route_succeeded, AllBrightnessPlan,
    HardwareMode, OverlayCall, OverlayStep,
};
use display_dj::config::MonitorMetadata;
use display_dj::display::{BrightnessRoute, Monitor};
use display_dj::overlay::{overlay_label, plan_overlay, OverlayPlan};
use display_dj::platform::DisplayInfo;
use display_dj::state::{all_state_from, keep_awake_change, KeepAwakeChange};

fn monitor(id: &str, built_in: bool, rect: Option<(i32, i32, i32, i32)>) -> Monitor {
    Monitor {
        id: id.into(),
        uid: format!("{}::M", id),
        name: "M".into(),
        original_name: "M".into(),
        brightness: 50,
        contrast: None,
        supports_brightness: true,
        is_built_in: built_in,
        hidden: false,
        monitor_rect: rect,
    }
}

fn meta(api_id: &str, mode: &str) -> MonitorMetadata {
    MonitorMetadata {
        uid: format!("{}::M", api_id),
        api_id: api_id.into(),
        api_name: "M".into(),
        label: String::new(),
        sort_order: 0,
        hidden: false,
        brightness_mode: mode.into(),
    }
}

#[test]
fn test_overlay_label_format() {
    assert_eq!(overlay_label("1"), "overlay-1");
    assert_eq!(overlay_label("builtin"), "overlay-builtin");
}

#[test]
fn overlay_plans() {
    assert_eq!(plan_overlay("1", None, true, 50), OverlayPlan::Skip);
    assert_eq!(
        plan_overlay("1", Some((0, 0, 0, 600)), false, 50),
        OverlayPlan::Invalid("overlay: invalid monitor_rect for 1: width=0 height=600".into())
    );
    assert_eq!(
        plan_overlay("7", Some((0, 0, -10, 600)), true, 100),
        OverlayPlan::Invalid("overlay: invalid monitor_rect for 7: width=-10 height=600".into())
    );
    assert_eq!(plan_overlay("1", Some((0, 0, 1920, 1080)), true, 100), OverlayPlan::Hide);
    assert_eq!(plan_overlay("1", Some((0, 0, 1920, 1080)), false, 200), OverlayPlan::Nothing);
    assert_eq!(
        plan_overlay("1", Some((10, 20, 1920, 1080)), true, 40),
        OverlayPlan::Update { left: 10, top: 20, width: 1920, height: 1080 }
    );
    assert_eq!(
        plan_overlay("1", Some((10, 20, 1920, 1080)), false, 40),
        OverlayPlan::Create { left: 10, top: 20, width: 1920, height: 1080 }
    );
}

#[test]
fn brightness_is_clamped_to_floor_and_ceiling() {
    assert_eq!(clamp_brightness(3, 10), 10);
    assert_eq!(clamp_brightness(50, 10), 50);
    assert_eq!(clamp_brightness(150, 10), 100);
    assert_eq!(clamp_contrast(150), 100);
    assert_eq!(clamp_contrast(42), 42);
}

#[test]
fn routes_choose_hardware_and_overlay_steps() {
    assert_eq!(hardware_mode_for_route(BrightnessRoute::DdcOnly), Some(HardwareMode::Ddc));
    assert_eq!(hardware_mode_for_route(BrightnessRoute::GammaOnly), Some(HardwareMode::Gamma));
    assert_eq!(
        hardware_mode_for_route(BrightnessRoute::AutoWithOverlayFallback),
        Some(HardwareMode::Force)
    );
    assert_eq!(hardware_mode_for_route(BrightnessRoute::OverlayOnly), None);
    assert_eq!(HardwareMode::Force.as_str(), "force");
    assert_eq!(HardwareMode::Ddc.as_str(), "ddc");
    assert_eq!(overlay_before_hardware(BrightnessRoute::DdcOnly), OverlayStep::Destroy);
    assert_eq!(overlay_before_hardware(BrightnessRoute::AutoWithOverlayFallback), OverlayStep::Leave);
    assert_eq!(overlay_after_hardware(BrightnessRoute::AutoWithOverlayFallback, true), OverlayStep::Destroy);
    assert_eq!(overlay_after_hardware(BrightnessRoute::AutoWithOverlayFallback, false), OverlayStep::Show);
    assert_eq!(overlay_after_hardware(BrightnessRoute::OverlayOnly, false), OverlayStep::Show);
    assert_eq!(overlay_after_hardware(BrightnessRoute::GammaOnly, false), OverlayStep::Leave);
    assert!(route_succeeded(BrightnessRoute::AutoWithOverlayFallback, false));
    assert!(!route_succeeded(BrightnessRoute::DdcOnly, false));
}

#[test]
fn command_outcomes() {
    assert!(brightness_outcome("1", true).is_ok());
    assert_eq!(brightness_outcome("1", false).unwrap_err(), "set_brightness failed for monitor 1");
    assert_eq!(contrast_outcome("2", false).unwrap_err(), "set_contrast failed for monitor 2");
}

#[test]
fn all_monitor_plans() {
    let configs = vec![meta("1", "auto"), meta("2", "ddc")];
    assert_eq!(plan_all_brightness(&configs, &[]), AllBrightnessPlan::BulkOnly);
    assert_eq!(
        plan_all_brightness(&configs, &[monitor("1", false, None), monitor("builtin", true, None)]),
        AllBrightnessPlan::BulkWithFollowUp
    );
    assert_eq!(
        plan_all_brightness(&configs, &[monitor("1", false, None), monitor("2", false, None)]),
        AllBrightnessPlan::PerMonitor
    );
    assert_eq!(
        plan_all_brightness(&[meta("2", "gamma")], &[monitor("2", true, None)]),
        AllBrightnessPlan::PerMonitor
    );
}

#[test]
fn bulk_follow_up_closes_and_shows_overlays() {
    let monitors = vec![monitor("1", false, None), monitor("builtin", true, None)];
    let results = vec![
        ("1".to_string(), true),
        ("builtin".to_string(), false),
        ("2".to_string(), false),
    ];
    assert_eq!(bulk_follow_up(&results, &monitors), vec![OverlayCall::Destroy("1".into())]);
    let results = vec![("1".to_string(), false)];
    assert_eq!(bulk_follow_up(&results, &monitors), vec![OverlayCall::Show("1".into())]);
}

#[test]
fn monitor_rects_from_cache_and_fresh_enumeration() {
    let cached = vec![monitor("1", false, None), monitor("2", false, Some((0, 0, 10, 10)))];
    assert_eq!(cached_monitor_rect("2", &cached), Some((0, 0, 10, 10)));
    assert_eq!(cached_monitor_rect("1", &cached), None);
    assert_eq!(cached_monitor_rect("3", &cached), None);
    let displays = vec![DisplayInfo {
        id: "1".into(),
        name: "Dell".into(),
        display_type: "external".into(),
        brightness: None,
        contrast: None,
        ddc_supported: false,
        monitor_rect: Some((1920, 0, 2560, 1440)),
    }];
    assert_eq!(fresh_monitor_rect("1", &displays), Some((1920, 0, 2560, 1440)));
    assert_eq!(fresh_monitor_rect("2", &displays), None);
}

#[test]
fn poll_answer_defaults_failed_probes() {
    let s = all_state_from(Err("x".into()), Err("y".into()), Err("z".into()));
    assert!(s.monitors.is_empty());
    assert!(!s.is_dark);
    assert_eq!(s.volume, 0);
    let s = all_state_from(Ok(vec![monitor("1", false, None)]), Ok(true), Ok(35));
    assert_eq!(s.monitors.len(), 1);
    assert!(s.is_dark);
    assert_eq!(s.volume, 35);
}

#[test]
fn keep_awake_changes() {
    assert_eq!(keep_awake_change(true, false), KeepAwakeChange::Acquire);
    assert_eq!(keep_awake_change(false, true), KeepAwakeChange::Release);
    assert_eq!(keep_awake_change(true, true), KeepAwakeChange::Keep);
    assert_eq!(keep_awake_change(false, false), KeepAwakeChange::Keep);
}

#[test]
fn test_set_overlay_brightness_none_rect_is_noop() {
    assert_eq!(plan_overlay("1", None, false, 50), OverlayPlan::Skip);
}

#[test]
fn test_set_overlay_brightness_invalid_rect_errors() {
    assert!(matches!(plan_overlay("1", Some((0, 0, 0, 600)), false, 50), OverlayPlan::Invalid(_)));
    assert!(matches!(plan_overlay("1", Some((0, 0, 1920, 0)), false, 50), OverlayPlan::Invalid(_)));
    assert!(matches!(plan_overlay("1", Some((0, 0, -10, 600)), false, 50), OverlayPlan::Invalid(_)));
}

#[test]
fn test_set_overlay_brightness_full_brightness_no_window() {
    assert_eq!(plan_overlay("9999", Some((0, 0, 1920, 1080)), false, 100), OverlayPlan::Nothing);
    assert_eq!(plan_overlay("9999", Some((0, 0, 1920, 1080)), false, 200), OverlayPlan::Nothing);
}
