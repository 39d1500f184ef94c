use display_dj::keyboard_backlight::{
    parse_vendor_level, percent_from_vendor_level, snap_to_25, vendor_level_from_percent,
};
use display_dj::platform::{
    list_all, set_all_brightness, set_all_contrast, set_one_brightness, set_one_contrast,
    DisplayControl, Logged,
};
use display_dj::platform::{find_display, matches_display, DisplayInfo, BUILTIN_ID, VCP_BRIGHTNESS, VCP_CONTRAST};
use display_dj::tiling::TilingLayout;

fn make_info(id: &str, name: &str) -> DisplayInfo {
    DisplayInfo {
        id: id.to_string(),
        name: name.to_string(),
        display_type: "external".to_string(),
        brightness: Some(50),
        contrast: Some(50),
        ddc_supported: true,
        monitor_rect: None,
    }
}

#[test]
fn test_vcp_codes() {
    assert_eq!(VCP_BRIGHTNESS, 0x10);
    assert_eq!(VCP_CONTRAST, 0x12);
    assert_eq!(BUILTIN_ID, "builtin");
}

#[test]
fn test_matches_display_by_id() {
    let info = make_info("1", "Dell U2720Q");
    assert!(matches_display(&info, "1"));
    assert!(!matches_display(&info, "2"));
}

#[test]
fn test_matches_display_by_name_case_insensitive() {
    let info = make_info("1", "Dell U2720Q");
    assert!(matches_display(&info, "dell u2720q"));
    assert!(matches_display(&info, "DELL U2720Q"));
    assert!(matches_display(&info, "Dell U2720Q"));
    assert!(!matches_display(&info, "samsung"));
}

#[test]
fn test_matches_display_zero_is_builtin_alias() {
    let builtin = make_info(BUILTIN_ID, "Built-in Display");
    let external = make_info("1", "Dell");
    assert!(matches_display(&builtin, "0"));
    assert!(!matches_display(&external, "0"));
}

#[test]
fn find_display_takes_the_first_match() {
    let displays = vec![make_info("builtin", "Panel"), make_info("1", "Dell"), make_info("2", "dell")];
    assert_eq!(find_display(&displays, "DELL"), Some(1));
    assert_eq!(find_display(&displays, "0"), Some(0));
    assert_eq!(find_display(&displays, "9"), None);
}

#[test]
fn snap_to_25_rounds_to_nearest_step() {
    assert_eq!(snap_to_25(0), 0);
    assert_eq!(snap_to_25(1), 0);
    assert_eq!(snap_to_25(12), 0);
    assert_eq!(snap_to_25(13), 25);
    assert_eq!(snap_to_25(25), 25);
    assert_eq!(snap_to_25(37), 25);
    assert_eq!(snap_to_25(38), 50);
    assert_eq!(snap_to_25(50), 50);
    assert_eq!(snap_to_25(75), 75);
    assert_eq!(snap_to_25(99), 100);
    assert_eq!(snap_to_25(100), 100);
}

#[test]
fn snap_to_25_clamps_above_100() {
    assert_eq!(snap_to_25(150), 100);
    assert_eq!(snap_to_25(u32::MAX), 100);
}

#[test]
fn snap_to_25_is_idempotent() {
    for v in 0..=120u32 {
        let s = snap_to_25(v);
        assert_eq!(snap_to_25(s), s);
    }
}

#[test]
fn vendor_backlight_levels() {
    assert_eq!(percent_from_vendor_level(0), 0);
    assert_eq!(percent_from_vendor_level(1), 50);
    assert_eq!(percent_from_vendor_level(2), 100);
    assert_eq!(percent_from_vendor_level(70), 70);
    assert_eq!(percent_from_vendor_level(300), 100);
    assert_eq!(vendor_level_from_percent(0), 0);
    assert_eq!(vendor_level_from_percent(25), 1);
    assert_eq!(vendor_level_from_percent(49), 1);
    assert_eq!(vendor_level_from_percent(50), 2);
    assert_eq!(vendor_level_from_percent(100), 2);
    assert_eq!(parse_vendor_level(b" 1\r\n"), Some(50));
    assert_eq!(parse_vendor_level(b"none"), None);
}

#[test]
fn test_parse_all_layouts() {
    assert_eq!(TilingLayout::parse("leftHalf"), Some(TilingLayout::LeftHalf));
    assert_eq!(TilingLayout::parse("rightHalf"), Some(TilingLayout::RightHalf));
    assert_eq!(TilingLayout::parse("topHalf"), Some(TilingLayout::TopHalf));
    assert_eq!(TilingLayout::parse("bottomHalf"), Some(TilingLayout::BottomHalf));
    assert_eq!(TilingLayout::parse("leftThird"), Some(TilingLayout::LeftThird));
    assert_eq!(TilingLayout::parse("centerThird"), Some(TilingLayout::CenterThird));
    assert_eq!(TilingLayout::parse("rightThird"), Some(TilingLayout::RightThird));
    assert_eq!(TilingLayout::parse("topThird"), Some(TilingLayout::TopThird));
    assert_eq!(TilingLayout::parse("middleThird"), Some(TilingLayout::MiddleThird));
    assert_eq!(TilingLayout::parse("bottomThird"), Some(TilingLayout::BottomThird));
    assert_eq!(TilingLayout::parse("leftTwoThirds"), Some(TilingLayout::LeftTwoThirds));
    assert_eq!(TilingLayout::parse("rightTwoThirds"), Some(TilingLayout::RightTwoThirds));
    assert_eq!(TilingLayout::parse("topTwoThirds"), Some(TilingLayout::TopTwoThirds));
    assert_eq!(TilingLayout::parse("bottomTwoThirds"), Some(TilingLayout::BottomTwoThirds));
    assert_eq!(TilingLayout::parse("topLeftQuarter"), Some(TilingLayout::TopLeftQuarter));
    assert_eq!(TilingLayout::parse("topRightQuarter"), Some(TilingLayout::TopRightQuarter));
    assert_eq!(TilingLayout::parse("bottomLeftQuarter"), Some(TilingLayout::BottomLeftQuarter));
    assert_eq!(TilingLayout::parse("bottomRightQuarter"), Some(TilingLayout::BottomRightQuarter));
    assert_eq!(TilingLayout::parse("maximize"), Some(TilingLayout::Maximize));
}

#[test]
fn test_parse_invalid() {
    assert_eq!(TilingLayout::parse(""), None);
    assert_eq!(TilingLayout::parse("unknown"), None);
    assert_eq!(TilingLayout::parse("LeftHalf"), None);
    assert_eq!(TilingLayout::parse("left_half"), None);
}

struct FakeCtl {
    brightness: Option<u32>,
    contrast: Option<u32>,
    accepts: bool,
}

impl DisplayControl for FakeCtl {
    fn get_brightness(&mut self) -> Option<u32> {
        self.brightness
    }
    fn get_contrast(&mut self) -> Option<u32> {
        self.contrast
    }
    fn set_brightness(&mut self, value: u16, _mode: &str) -> bool {
        if self.accepts {
            self.brightness = Some(value as u32);
        }
        self.accepts
    }
    fn set_contrast(&mut self, _value: u16) -> bool {
        self.accepts
    }
    fn reset_gamma(&self) {}
}

fn fakes() -> Vec<(DisplayInfo, Logged<FakeCtl>)> {
    vec![
        (make_info("builtin", "Panel"), Logged::new(FakeCtl { brightness: Some(80), contrast: None, accepts: true })),
        (make_info("1", "Dell"), Logged::new(FakeCtl { brightness: None, contrast: Some(30), accepts: false })),
    ]
}

#[test]
fn list_all_rereads_hardware_values() {
    let all = list_all(&mut fakes());
    assert_eq!(all.len(), 2);
    assert_eq!(all[0].id, "builtin");
    assert_eq!(all[0].brightness, Some(80));
    assert_eq!(all[0].contrast, None);
    assert_eq!(all[1].brightness, None);
    assert_eq!(all[1].contrast, Some(30));
}

#[test]
fn set_one_and_all_report_per_display() {
    assert!(set_one_brightness(&mut fakes(), "0", 40, "force"));
    assert!(!set_one_brightness(&mut fakes(), "dell", 40, "force"));
    assert!(!set_one_brightness(&mut fakes(), "nope", 40, "force"));
    assert!(!set_one_contrast(&mut fakes(), "1", 40));
    assert_eq!(
        set_all_brightness(&mut fakes(), 40, "force"),
        vec![("builtin".to_string(), true), ("1".to_string(), false)]
    );
    assert_eq!(
        set_all_contrast(&mut fakes(), 40),
        vec![("builtin".to_string(), true), ("1".to_string(), false)]
    );
}

#[test]
fn test_core_list_all_does_not_panic() {
    let mut none: Vec<(DisplayInfo, Logged<FakeCtl>)> = Vec::new();
    assert!(list_all(&mut none).is_empty());
    let mut one = vec![(make_info("1", "Dell"), Logged::new(FakeCtl { brightness: None, contrast: None, accepts: false }))];
    let _ = list_all(&mut one);
}

#[test]
fn writes_reach_the_matching_control_only() {
    let mut ds = fakes();
    assert!(set_one_brightness(&mut ds, "panel", 55, "ddc"));
    let ctrls: Vec<FakeCtl> = ds.into_iter().map(|(_, c)| c.into_inner()).collect();
    assert_eq!(ctrls[0].brightness, Some(55));
    assert_eq!(ctrls[1].brightness, None);
}
