use display_dj::config::{
    about_entries, app_version_text, arch_label, autostart_change, debug_log_file_name,
    debug_log_line, debug_log_needs_trim, debug_log_trim_start, migrate_expose_grid_if_needed,
    migrate_monitor_configs, os_label, set_debug_logging, set_expose_enabled, set_tiling_enabled,
    should_migrate_monitor_configs, CommandValue, KeyboardBacklightPreferences, NightModeSchedule,
    OldMonitorConfig, Preferences, WallpaperPreferences, ABSOLUTE_MIN_BRIGHTNESS,
};

#[test]
fn test_default_preferences() {
    let prefs = Preferences::default();
    assert!(!prefs.show_individual_displays);
    assert_eq!(prefs.min_brightness, 10);
    assert_eq!(prefs.key_bindings.len(), 28);
}

#[test]
fn test_effective_min_brightness() {
    let mut prefs = Preferences::default();
    assert_eq!(prefs.effective_min_brightness(), 10);

    prefs.min_brightness = 20;
    assert_eq!(prefs.effective_min_brightness(), 20);

    prefs.min_brightness = 3;
    assert_eq!(prefs.effective_min_brightness(), ABSOLUTE_MIN_BRIGHTNESS);

    prefs.min_brightness = 0;
    assert_eq!(prefs.effective_min_brightness(), ABSOLUTE_MIN_BRIGHTNESS);
}

#[test]
fn test_default_keybindings_keys() {
    let prefs = Preferences::default();
    let keys: Vec<&str> = prefs.key_bindings.iter().map(|kb| kb.key.as_str()).collect();
    assert_eq!(keys[0], "Shift+Escape");
    assert_eq!(keys[1], "Shift+F1");
    assert_eq!(keys[7], "Shift+F11");
    assert_eq!(keys[8], "Shift+F12");
}

#[test]
fn test_shift_f2_includes_keyboard_backlight_zero() {
    let prefs = Preferences::default();
    let f2 = prefs
        .key_bindings
        .iter()
        .find(|kb| kb.key == "Shift+F2")
        .expect("Shift+F2 default binding must exist");
    match &f2.command {
        CommandValue::Multiple(cmds) => {
            assert!(
                cmds.iter().any(|c| c == "command/changeProfile/2"),
                "Shift+F2 must still trigger profile 2 (Focus): {:?}",
                cmds
            );
            assert!(
                cmds.iter().any(|c| c == "command/changeKeyboardBacklight/0"),
                "Shift+F2 must also dim the keyboard backlight to 0: {:?}",
                cmds
            );
        }
        CommandValue::Single(s) => panic!(
            "Shift+F2 must be CommandValue::Multiple now, got Single({:?})",
            s
        ),
    }
}

#[test]
fn test_keyboard_backlight_preferences_default_enabled() {
    let kb = KeyboardBacklightPreferences::default();
    assert!(kb.enabled);
}

#[test]
fn test_default_preferences_has_empty_monitor_configs() {
    let prefs = Preferences::default();
    assert!(prefs.monitor_configs.is_empty());
}

#[test]
fn test_default_profiles() {
    let prefs = Preferences::default();
    assert_eq!(prefs.profiles.len(), 3);
    assert_eq!(prefs.profiles[0].name, "Presentation");
    assert_eq!(prefs.profiles[1].name, "Focus");
    assert_eq!(prefs.profiles[2].name, "Daylight");
}

#[test]
fn test_default_expose_grid_is_3x3() {
    let prefs = Preferences::default();
    assert_eq!(prefs.tiling.expose_columns, 3);
    assert_eq!(prefs.tiling.expose_rows, 3);
    assert_eq!(prefs.tiling.expose_max_windows, 0);
}

#[test]
fn test_migrate_expose_grid_from_old_config() {
    let mut prefs = Preferences::default();
    prefs.tiling.expose_max_windows = 25;
    prefs.tiling.expose_columns = 3;
    prefs.tiling.expose_rows = 3;
    migrate_expose_grid_if_needed(&mut prefs);
    assert_eq!(prefs.tiling.expose_columns, 5);
    assert_eq!(prefs.tiling.expose_rows, 5);
    assert_eq!(prefs.tiling.expose_max_windows, 0);
}

#[test]
fn test_migrate_expose_grid_skips_when_new_fields_set() {
    let mut prefs = Preferences::default();
    prefs.tiling.expose_max_windows = 25;
    prefs.tiling.expose_columns = 2;
    prefs.tiling.expose_rows = 4;
    migrate_expose_grid_if_needed(&mut prefs);
    assert_eq!(prefs.tiling.expose_columns, 2);
    assert_eq!(prefs.tiling.expose_rows, 4);
}

#[test]
fn test_migrate_expose_grid_skips_when_no_old_field() {
    let mut prefs = Preferences::default();
    migrate_expose_grid_if_needed(&mut prefs);
    assert_eq!(prefs.tiling.expose_columns, 3);
    assert_eq!(prefs.tiling.expose_rows, 3);
}

#[test]
fn test_default_preferences_has_empty_layout_presets() {
    let prefs = Preferences::default();
    assert!(prefs.layout_presets.is_empty());
}

#[test]
fn test_night_mode_schedule_default_has_empty_commands() {
    let schedule = NightModeSchedule::default();
    assert!(schedule.night_commands.is_empty());
    assert!(schedule.day_commands.is_empty());
}

#[test]
fn test_wallpaper_preferences_default() {
    let wp = WallpaperPreferences::default();
    assert_eq!(wp.fit, "fill");
    assert!(wp.current_wallpaper_path.is_none());
}

// ---- further cases

#[test]
fn migrate_expose_grid_rounds_non_square_counts() {
    let mut prefs = Preferences::default();
    prefs.tiling.expose_max_windows = 20;
    assert!(migrate_expose_grid_if_needed(&mut prefs));
    assert_eq!(prefs.tiling.expose_columns, 4);
    assert_eq!(prefs.tiling.expose_rows, 4);

    let mut prefs = Preferences::default();
    prefs.tiling.expose_max_windows = 21;
    assert!(migrate_expose_grid_if_needed(&mut prefs));
    assert_eq!(prefs.tiling.expose_columns, 5);

    let mut prefs = Preferences::default();
    prefs.tiling.expose_max_windows = 1;
    assert!(migrate_expose_grid_if_needed(&mut prefs));
    assert_eq!(prefs.tiling.expose_columns, 1);
}

#[test]
fn migrate_expose_grid_reports_no_change_when_skipped() {
    let mut prefs = Preferences::default();
    assert!(!migrate_expose_grid_if_needed(&mut prefs));
}

#[test]
fn tray_toggles_change_one_field() {
    let mut prefs = Preferences::default();
    set_debug_logging(&mut prefs, true);
    assert!(prefs.debug_logging);
    set_tiling_enabled(&mut prefs, false);
    assert!(!prefs.tiling.enabled);
    set_expose_enabled(&mut prefs, false);
    assert!(!prefs.tiling.expose_enabled);
    assert_eq!(prefs.min_brightness, 10);
}

#[test]
fn debug_log_names_differ_for_dev_builds() {
    assert_eq!(debug_log_file_name(true), "debug-dev.log");
    assert_eq!(debug_log_file_name(false), "debug.log");
}

#[test]
fn legacy_registry_migration_drops_disabled_entries() {
    assert!(should_migrate_monitor_configs(true, true));
    assert!(!should_migrate_monitor_configs(true, false));
    assert!(!should_migrate_monitor_configs(false, true));

    let mut prefs = Preferences::default();
    let legacy = vec![
        OldMonitorConfig { id: "1".into(), name: "Left".into(), sort_order: 2, disabled: false },
        OldMonitorConfig { id: "2".into(), name: "Gone".into(), sort_order: 3, disabled: true },
    ];
    migrate_monitor_configs(&mut prefs, legacy);
    assert_eq!(prefs.monitor_configs.len(), 1);
    let m = &prefs.monitor_configs[0];
    assert_eq!(m.uid, "1::unknown");
    assert_eq!(m.api_id, "1");
    assert_eq!(m.api_name, "unknown");
    assert_eq!(m.label, "Left");
    assert_eq!(m.sort_order, 2);
    assert!(!m.hidden);
    assert_eq!(m.brightness_mode, "auto");
}

#[test]
fn debug_log_trim_keeps_whole_lines() {
    assert!(!debug_log_needs_trim(1048576));
    assert!(debug_log_needs_trim(1048577));
    let content = b"abc\ndefghi";
    assert_eq!(debug_log_trim_start(content), 4);
    let no_break = b"abcdefghij";
    assert_eq!(debug_log_trim_start(no_break), 2);
    assert_eq!(debug_log_line("2024-01-01 00:00:00.000", "hi"), "[2024-01-01 00:00:00.000] hi\n");
}

#[test]
fn about_panel_labels() {
    assert_eq!(arch_label("aarch64"), "arm64");
    assert_eq!(arch_label("x86_64"), "x64");
    assert_eq!(arch_label("riscv64"), "riscv64");
    assert_eq!(os_label("macos"), "macOS");
    assert_eq!(os_label("windows"), "Windows");
    assert_eq!(os_label("linux"), "Linux");
    assert_eq!(os_label("freebsd"), "freebsd");
    assert_eq!(app_version_text("5.0.0", "aarch64"), "5.0.0 (arm64)");
    let entries = about_entries("7.1.0", "x86_64", "linux", "2024-05-01");
    assert_eq!(entries.len(), 6);
    assert_eq!(entries[0], ("version".to_string(), "7.1.0".to_string()));
    assert_eq!(entries[2], ("arch".to_string(), "x64".to_string()));
    assert_eq!(entries[3], ("os".to_string(), "Linux".to_string()));
    assert_eq!(entries[5].1, "https://github.com/synle/display-dj");
}

#[test]
fn autostart_synced_only_on_change() {
    assert_eq!(autostart_change(false, true), Some(true));
    assert_eq!(autostart_change(true, false), Some(false));
    assert_eq!(autostart_change(true, true), None);
}

#[test]
fn shift_f1_sets_low_brightness_and_dark_mode() {
    let prefs = Preferences::default();
    let kb = prefs.key_bindings.iter().find(|kb| kb.key == "Shift+F1").unwrap();
    match &kb.command {
        CommandValue::Multiple(cmds) => {
            assert_eq!(cmds, &vec!["command/changeBrightness/10".to_string(), "command/changeDarkMode/dark".to_string()])
        }
        CommandValue::Single(c) => panic!("Shift+F1 must be two commands, got Single({:?})", c),
    }
}
