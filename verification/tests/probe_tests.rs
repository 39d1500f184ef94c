use display_dj::linux_tools::{
    builtin_display_info, ddc_brightness_value, detect_display_server, external_brightness_paths,
    external_display_info, gamma_arg, output_for_display, parse_backlight_max,
    parse_ddcutil_detect, parse_sway_outputs, parse_wlr_randr_outputs, parse_xrandr_outputs,
    DisplayServer,
};
use display_dj::theme::{
    applescript_bool, color_scheme_for, color_scheme_is_dark, gtk_theme_for, plasma_scheme_for,
    reply_is_true, theme_name_is_dark, windows_light_value, windows_theme_is_dark,
};
use display_dj::volume::{
    amixer_mute_word, mute_flag, osascript_volume_info, pactl_volume_info, parse_amixer_volume,
    parse_pactl_mute, parse_pactl_volume, percent_arg, shows_muted, VolumeInfo,
};

#[test]
fn pactl_volume_and_mute() {
    let out = b"Volume: front-left: 32768 /  50% / -18.06 dB,   front-right: 32768 /  50% / -18.06 dB\n";
    assert_eq!(parse_pactl_volume(out), Some(50));
    assert_eq!(parse_pactl_volume(b"100%%/x"), Some(100));
    assert_eq!(parse_pactl_volume(b"Volume: 100%%/x"), None);
    assert_eq!(parse_pactl_volume(b"no percent here"), None);
    assert_eq!(parse_pactl_volume(b"a / x% / 7%"), None);
    assert!(parse_pactl_mute(b"Mute: YES\n"));
    assert!(!parse_pactl_mute(b"Mute: no\n"));
    assert_eq!(
        pactl_volume_info(out, b"Mute: yes"),
        Some(VolumeInfo { volume: 50, muted: true })
    );
    assert_eq!(pactl_volume_info(b"garbage", b"Mute: yes"), None);
}

#[test]
fn amixer_volume_and_mute() {
    let out = b"Simple mixer control 'Master',0\n  Front Left: Playback 49151 [75%] [-12.00dB] [off]\n";
    assert_eq!(parse_amixer_volume(out), Some(VolumeInfo { volume: 75, muted: true }));
    let on = b"  Mono: Playback 10 [9%] [on]\n";
    assert_eq!(parse_amixer_volume(on), Some(VolumeInfo { volume: 9, muted: false }));
    assert_eq!(parse_amixer_volume(b"Mono: [on]"), None);
}

#[test]
fn applescript_volume() {
    assert_eq!(
        osascript_volume_info(b"44\n", b"False\n"),
        Some(VolumeInfo { volume: 44, muted: false })
    );
    assert_eq!(
        osascript_volume_info(b" 7 ", b" true "),
        Some(VolumeInfo { volume: 7, muted: true })
    );
    assert_eq!(osascript_volume_info(b"missing value", b"true"), None);
}

#[test]
fn volume_arguments_and_tray_state() {
    assert_eq!(percent_arg(35), "35%");
    assert_eq!(mute_flag(true), "1");
    assert_eq!(mute_flag(false), "0");
    assert_eq!(amixer_mute_word(true), "mute");
    assert_eq!(amixer_mute_word(false), "unmute");
    assert!(shows_muted(&VolumeInfo { volume: 0, muted: false }));
    assert!(shows_muted(&VolumeInfo { volume: 30, muted: true }));
    assert!(!shows_muted(&VolumeInfo { volume: 30, muted: false }));
}

#[test]
fn theme_replies() {
    assert_eq!(color_scheme_is_dark(b"'prefer-dark'\n"), Some(true));
    assert_eq!(color_scheme_is_dark(b"'prefer-light'\n"), Some(false));
    assert_eq!(color_scheme_is_dark(b"'default'\n"), Some(false));
    assert_eq!(color_scheme_is_dark(b"'something'\n"), None);
    assert!(theme_name_is_dark(b"'Adwaita-Dark'\n"));
    assert!(!theme_name_is_dark(b"'Adwaita'\n"));
    assert_eq!(windows_theme_is_dark(b"    AppsUseLightTheme    REG_DWORD    0x0\r\n"), Some(true));
    assert_eq!(windows_theme_is_dark(b"    AppsUseLightTheme    REG_DWORD    0x1\r\n"), Some(false));
    assert_eq!(windows_theme_is_dark(b"ERROR"), None);
    assert!(reply_is_true(b"TRUE\n"));
    assert!(!reply_is_true(b"false\n"));
}

#[test]
fn theme_values() {
    assert_eq!(gtk_theme_for(true), "Adwaita-dark");
    assert_eq!(gtk_theme_for(false), "Adwaita");
    assert_eq!(color_scheme_for(true), "prefer-dark");
    assert_eq!(plasma_scheme_for(false), "BreezeLight");
    assert_eq!(windows_light_value(true), "0");
    assert_eq!(applescript_bool(false), "false");
}

#[test]
fn display_server_detection() {
    assert_eq!(detect_display_server(&Some("Wayland".into()), false, true), DisplayServer::Wayland);
    assert_eq!(detect_display_server(&Some("x11".into()), true, false), DisplayServer::X11);
    assert_eq!(detect_display_server(&Some("tty".into()), true, true), DisplayServer::Wayland);
    assert_eq!(detect_display_server(&None, false, true), DisplayServer::X11);
    assert_eq!(detect_display_server(&None, false, false), DisplayServer::Unknown);
}

#[test]
fn xrandr_and_wayland_outputs() {
    let xr = b"Monitors: 3\n 0: +*eDP-1 1920/344x1080/193+0+0  eDP-1\n 1: +HDMI-1 2560/597x1440/336+1920+0  HDMI-1\n 2: +DP-2 1920/527x1080/296+4480+0  DP-2\n";
    assert_eq!(parse_xrandr_outputs(xr), vec!["HDMI-1".to_string(), "DP-2".to_string()]);
    let wl = b"eDP-1 \"Sharp\"\n  Enabled: yes\nHDMI-A-1 \"Dell\"\n  Modes:\n\nLVDS-1 x\n";
    assert_eq!(parse_wlr_randr_outputs(wl), vec!["HDMI-A-1".to_string()]);
    let sway = br#"[{"id":3,"name": "eDP-1","make":"x"},{"id":4,"name":"DP-3"},{"name" "x"}]"#;
    assert_eq!(parse_sway_outputs(sway), vec!["DP-3".to_string()]);
    let outputs = vec!["HDMI-1".to_string(), "DP-2".to_string()];
    assert_eq!(output_for_display(&outputs, 1), Some("HDMI-1".to_string()));
    assert_eq!(output_for_display(&outputs, 0), Some("HDMI-1".to_string()));
    assert_eq!(output_for_display(&outputs, 2), Some("DP-2".to_string()));
    assert_eq!(output_for_display(&outputs, 3), None);
}

#[test]
fn ddcutil_detect_listing() {
    let out = b"Display 1\n   I2C bus:  /dev/i2c-4\n   Monitor:             DEL:DELL U2720Q:ABC\n\nInvalid display\n   I2C bus: /dev/i2c-5\n\nDisplay 2\n   Model: \n";
    assert_eq!(
        parse_ddcutil_detect(out),
        vec![(1, "DEL:DELL U2720Q:ABC".to_string()), (2, "External Display 2".to_string())]
    );
    assert_eq!(parse_ddcutil_detect(b"No displays found\n"), Vec::<(u32, String)>::new());
}

#[test]
fn linux_display_info_and_paths() {
    let ext = external_display_info(2, "Dell", Some(40), None);
    assert_eq!(ext.id, "2");
    assert_eq!(ext.display_type, "external");
    assert!(ext.ddc_supported);
    let none = external_display_info(3, "LG", None, Some(5));
    assert!(!none.ddc_supported);
    let b = builtin_display_info("intel_backlight", Some(80));
    assert_eq!(b.id, "builtin");
    assert_eq!(b.name, "Built-in Display (intel_backlight)");
    assert_eq!(b.display_type, "builtin");
    assert_eq!(parse_backlight_max("24000\n"), Some(24000));
    assert_eq!(parse_backlight_max("0"), None);
    assert_eq!(parse_backlight_max("x"), None);
    assert_eq!(external_brightness_paths("auto", true), (true, false));
    assert_eq!(external_brightness_paths("auto", false), (false, true));
    assert_eq!(external_brightness_paths("force", false), (false, true));
    assert_eq!(external_brightness_paths("force", true), (true, true));
    assert_eq!(external_brightness_paths("ddc", true), (true, false));
    assert_eq!(external_brightness_paths("gamma", true), (false, true));
    assert_eq!(external_brightness_paths("other", true), (false, false));
    assert_eq!(ddc_brightness_value(0), 1);
    assert_eq!(ddc_brightness_value(60), 60);
    assert_eq!(gamma_arg(50), "0.50");
    assert_eq!(gamma_arg(7), "0.07");
    assert_eq!(gamma_arg(100), "1.00");
    assert_eq!(gamma_arg(250), "1.00");
}
