use display_dj::config::{default_brightness_mode, MonitorMetadata};
use display_dj::display::{
    compose_uid, ensure_metadata_for_monitors, into_monitor, merge_with_configs,
    reconcile_migrated_configs, rename_monitor, resolve_brightness_mode, resolve_monitor,
    route_for_mode, save_monitor_order, set_monitor_visibility, sort_orders_fit,
    split_monitor_uid, BrightnessRoute, Monitor,
};
use display_dj::platform::DisplayInfo;

fn make_monitor(id: &str, name: &str, is_built_in: bool) -> Monitor {
    Monitor {
        id: id.into(),
        uid: format!("{}::{}", id, name),
        name: name.into(),
        original_name: name.into(),
        brightness: 50,
        contrast: None,
        supports_brightness: true,
        is_built_in,
        hidden: false,
        monitor_rect: None,
    }
}

fn make_meta(uid: &str, label: &str, sort_order: i32) -> MonitorMetadata {
    let parts: Vec<&str> = uid.splitn(2, "::").collect();
    MonitorMetadata {
        uid: uid.into(),
        api_id: parts.first().unwrap_or(&"").to_string(),
        api_name: parts.get(1).unwrap_or(&"").to_string(),
        label: label.into(),
        sort_order,
        hidden: false,
        brightness_mode: default_brightness_mode(),
    }
}

#[test]
fn test_merge_with_configs_renames_monitor() {
    let monitors = vec![make_monitor("1", "External Display 1", false)];
    let configs = vec![make_meta("1::External Display 1", "My Dell", 0)];
    let result = merge_with_configs(monitors, &configs);
    assert_eq!(result.len(), 1);
    assert_eq!(result[0].name, "My Dell");
}

#[test]
fn test_merge_with_configs_sorts_by_sort_order() {
    let monitors = vec![
        make_monitor("1", "Monitor A", false),
        make_monitor("2", "Monitor B", false),
        make_monitor("builtin", "Built-in", true),
    ];
    let configs = vec![
        make_meta("2::Monitor B", "Monitor B", 1),
        make_meta("builtin::Built-in", "Built-in", 0),
    ];
    let result = merge_with_configs(monitors, &configs);
    assert_eq!(result.len(), 3);
    assert_eq!(result[0].uid, "builtin::Built-in");
    assert_eq!(result[1].uid, "2::Monitor B");
    assert_eq!(result[2].uid, "1::Monitor A");
}

#[test]
fn test_merge_with_configs_empty_label_keeps_original() {
    let monitors = vec![make_monitor("1", "Original Name", false)];
    let configs = vec![make_meta("1::Original Name", "", 0)];
    let result = merge_with_configs(monitors, &configs);
    assert_eq!(result[0].name, "Original Name");
}

#[test]
fn test_merge_with_configs_no_configs() {
    let monitors = vec![
        make_monitor("builtin", "Built-in", true),
        make_monitor("1", "External", false),
    ];
    let configs: Vec<MonitorMetadata> = Vec::new();
    let result = merge_with_configs(monitors, &configs);
    assert_eq!(result.len(), 2);
}

#[test]
fn test_merge_with_configs_preserves_original_name() {
    let monitors = vec![make_monitor("1", "Dell U2723QE", false)];
    let configs = vec![make_meta("1::Dell U2723QE", "My Custom Label", 0)];
    let result = merge_with_configs(monitors, &configs);
    assert_eq!(result[0].name, "My Custom Label");
    assert_eq!(result[0].original_name, "Dell U2723QE");
}

#[test]
fn test_merge_with_configs_same_sort_order_tiebreaks_by_uid() {
    let monitors = vec![
        make_monitor("2", "Monitor B", false),
        make_monitor("1", "Monitor A", false),
    ];
    let configs = vec![make_meta("2::Monitor B", "", 0), make_meta("1::Monitor A", "", 0)];
    let result = merge_with_configs(monitors, &configs);
    assert_eq!(result[0].uid, "1::Monitor A");
    assert_eq!(result[1].uid, "2::Monitor B");
}

#[test]
fn test_merge_with_configs_unplugged_monitors_not_in_result() {
    let monitors = vec![make_monitor("1", "Dell", false)];
    let configs = vec![
        make_meta("1::Dell", "My Dell", 0),
        make_meta("2::LG", "Office Left", 1),
        make_meta("builtin::Built-in", "MacBook", 2),
    ];
    let result = merge_with_configs(monitors, &configs);
    assert_eq!(result.len(), 1);
    assert_eq!(result[0].name, "My Dell");
}

#[test]
fn test_into_monitor_preserves_original_name() {
    let info = DisplayInfo {
        id: "1".into(),
        name: "Dell U2723QE".into(),
        display_type: "external".into(),
        brightness: Some(70),
        contrast: Some(60),
        ddc_supported: true,
        monitor_rect: None,
    };
    let m = into_monitor(info);
    assert_eq!(m.name, "Dell U2723QE");
    assert_eq!(m.original_name, "Dell U2723QE");
    assert_eq!(m.name, m.original_name);
}

#[test]
fn test_into_monitor_builtin() {
    let info = DisplayInfo {
        id: "builtin".into(),
        name: "Built-in Display".into(),
        display_type: "builtin".into(),
        brightness: Some(80),
        contrast: None,
        ddc_supported: false,
        monitor_rect: None,
    };
    let m = into_monitor(info);
    assert!(m.is_built_in);
    assert_eq!(m.brightness, 80);
    assert_eq!(m.uid, "builtin::Built-in Display");
}

#[test]
fn test_into_monitor_external_ddc() {
    let info = DisplayInfo {
        id: "1".into(),
        name: "Dell U2723QE".into(),
        display_type: "external".into(),
        brightness: Some(50),
        contrast: Some(75),
        ddc_supported: true,
        monitor_rect: None,
    };
    let m = into_monitor(info);
    assert!(!m.is_built_in);
    assert_eq!(m.brightness, 50);
    assert_eq!(m.contrast, Some(75));
    assert_eq!(m.uid, "1::Dell U2723QE");
}

#[test]
fn test_into_monitor_null_brightness() {
    let info = DisplayInfo {
        id: "2".into(),
        name: "Unknown".into(),
        display_type: "external".into(),
        brightness: None,
        contrast: None,
        ddc_supported: false,
        monitor_rect: None,
    };
    let m = into_monitor(info);
    assert_eq!(m.brightness, 50);
    assert_eq!(m.uid, "2::Unknown");
}

#[test]
fn test_reconcile_migrated_configs() {
    let monitors = vec![make_monitor("1", "Dell U2723QE", false)];
    let mut configs = vec![MonitorMetadata {
        uid: "1::unknown".into(),
        api_id: "1".into(),
        api_name: "unknown".into(),
        label: "My Dell".into(),
        sort_order: 0,
        hidden: false,
        brightness_mode: default_brightness_mode(),
    }];
    let changed = reconcile_migrated_configs(&monitors, &mut configs);
    assert!(changed);
    assert_eq!(configs[0].uid, "1::Dell U2723QE");
    assert_eq!(configs[0].api_name, "Dell U2723QE");
    assert_eq!(configs[0].label, "My Dell");
}

#[test]
fn test_ensure_metadata_for_monitors() {
    let monitors = vec![make_monitor("builtin", "Built-in", true), make_monitor("1", "Dell", false)];
    let mut configs: Vec<MonitorMetadata> = Vec::new();
    let changed = ensure_metadata_for_monitors(&monitors, &mut configs);
    assert!(changed);
    assert_eq!(configs.len(), 2);
    assert_eq!(configs[0].uid, "builtin::Built-in");
    assert_eq!(configs[1].uid, "1::Dell");
    assert_eq!(configs[0].label, "");

    let changed2 = ensure_metadata_for_monitors(&monitors, &mut configs);
    assert!(!changed2);
    assert_eq!(configs.len(), 2);
}

#[test]
fn test_ensure_metadata_sort_order_continues_from_existing() {
    let monitors = vec![
        make_monitor("builtin", "Built-in", true),
        make_monitor("3", "New Monitor", false),
    ];
    let mut configs = vec![
        make_meta("builtin::Built-in", "MacBook", 0),
        make_meta("1::Dell", "Left", 5),
        make_meta("2::LG", "Right", 10),
    ];
    let changed = ensure_metadata_for_monitors(&monitors, &mut configs);
    assert!(changed);
    assert_eq!(configs.len(), 4);
    let new = configs.iter().find(|c| c.uid == "3::New Monitor").unwrap();
    assert_eq!(new.sort_order, 12);
}

#[test]
fn test_reconcile_migrated_configs_multiple_monitors() {
    let monitors = vec![
        make_monitor("1", "Dell U2723QE", false),
        make_monitor("2", "LG 27UK850", false),
        make_monitor("builtin", "Built-in Display", true),
    ];
    let mut configs = vec![
        MonitorMetadata {
            uid: "1::unknown".into(),
            api_id: "1".into(),
            api_name: "unknown".into(),
            label: "Left Monitor".into(),
            sort_order: 0,
            hidden: false,
            brightness_mode: default_brightness_mode(),
        },
        MonitorMetadata {
            uid: "2::unknown".into(),
            api_id: "2".into(),
            api_name: "unknown".into(),
            label: "Right Monitor".into(),
            sort_order: 1,
            hidden: false,
            brightness_mode: default_brightness_mode(),
        },
        MonitorMetadata {
            uid: "builtin::Built-in Display".into(),
            api_id: "builtin".into(),
            api_name: "Built-in Display".into(),
            label: "MacBook".into(),
            sort_order: 2,
            hidden: false,
            brightness_mode: default_brightness_mode(),
        },
    ];
    let changed = reconcile_migrated_configs(&monitors, &mut configs);
    assert!(changed);
    assert_eq!(configs[0].uid, "1::Dell U2723QE");
    assert_eq!(configs[0].api_name, "Dell U2723QE");
    assert_eq!(configs[0].label, "Left Monitor");
    assert_eq!(configs[1].uid, "2::LG 27UK850");
    assert_eq!(configs[1].api_name, "LG 27UK850");
    assert_eq!(configs[1].label, "Right Monitor");
    assert_eq!(configs[2].uid, "builtin::Built-in Display");
    assert_eq!(configs[2].label, "MacBook");
}

#[test]
fn test_reconcile_skips_when_uid_already_matches() {
    let monitors = vec![make_monitor("1", "Dell", false)];
    let mut configs = vec![make_meta("1::Dell", "My Dell", 0)];
    let changed = reconcile_migrated_configs(&monitors, &mut configs);
    assert!(!changed);
}

#[test]
fn test_resolve_monitor_by_id() {
    let monitors = vec![
        make_monitor("1", "Dell U2723QE", false),
        make_monitor("builtin", "Built-in Display", true),
    ];
    let result = resolve_monitor(&monitors, "builtin");
    assert!(result.is_some());
    let (idx, m) = result.unwrap();
    assert_eq!(idx, 1);
    assert_eq!(m.id, "builtin");
}

#[test]
fn test_resolve_monitor_by_uid() {
    let monitors = vec![
        make_monitor("1", "Dell U2723QE", false),
        make_monitor("2", "LG 27UK850", false),
    ];
    let result = resolve_monitor(&monitors, "2::LG 27UK850");
    assert!(result.is_some());
    let (idx, m) = result.unwrap();
    assert_eq!(idx, 1);
    assert_eq!(m.name, "LG 27UK850");
}

#[test]
fn test_resolve_monitor_by_name_substring() {
    let monitors = vec![
        make_monitor("1", "Dell U2723QE", false),
        make_monitor("2", "LG 27UK850", false),
    ];
    let result = resolve_monitor(&monitors, "dell");
    assert!(result.is_some());
    let (idx, _) = result.unwrap();
    assert_eq!(idx, 0);
}

#[test]
fn test_resolve_monitor_no_match() {
    let monitors = vec![make_monitor("1", "Dell U2723QE", false)];
    assert!(resolve_monitor(&monitors, "Samsung").is_none());
}

#[test]
fn test_resolve_monitor_id_takes_priority() {
    let monitors = vec![make_monitor("1", "Monitor 1", false), make_monitor("2", "Monitor 2", false)];
    let result = resolve_monitor(&monitors, "1");
    assert!(result.is_some());
    let (idx, _) = result.unwrap();
    assert_eq!(idx, 0);
}

#[test]
fn test_resolve_brightness_mode_by_api_id() {
    let configs = vec![
        MonitorMetadata {
            uid: "1::Dell".into(),
            api_id: "1".into(),
            api_name: "Dell".into(),
            label: "".into(),
            sort_order: 0,
            hidden: false,
            brightness_mode: "overlay".into(),
        },
        MonitorMetadata {
            uid: "2::LG".into(),
            api_id: "2".into(),
            api_name: "LG".into(),
            label: "".into(),
            sort_order: 1,
            hidden: false,
            brightness_mode: "ddc".into(),
        },
    ];
    assert_eq!(resolve_brightness_mode(&configs, "1"), "overlay");
    assert_eq!(resolve_brightness_mode(&configs, "2"), "ddc");
}

#[test]
fn test_resolve_brightness_mode_defaults_to_auto() {
    let configs: Vec<MonitorMetadata> = Vec::new();
    assert_eq!(resolve_brightness_mode(&configs, "1"), "auto");
}

#[test]
fn test_resolve_brightness_mode_unknown_collapses_to_auto() {
    let configs = vec![MonitorMetadata {
        uid: "1::Dell".into(),
        api_id: "1".into(),
        api_name: "Dell".into(),
        label: "".into(),
        sort_order: 0,
        hidden: false,
        brightness_mode: "moonbeam".into(),
    }];
    assert_eq!(resolve_brightness_mode(&configs, "1"), "auto");
}

#[test]
fn test_route_for_mode_all_modes() {
    assert_eq!(route_for_mode("auto"), BrightnessRoute::AutoWithOverlayFallback);
    assert_eq!(route_for_mode("ddc"), BrightnessRoute::DdcOnly);
    assert_eq!(route_for_mode("gamma"), BrightnessRoute::GammaOnly);
    assert_eq!(route_for_mode("overlay"), BrightnessRoute::OverlayOnly);
    assert_eq!(route_for_mode("whatever"), BrightnessRoute::AutoWithOverlayFallback);
    assert_eq!(route_for_mode(""), BrightnessRoute::AutoWithOverlayFallback);
}

// ---- registry edits and uid handling

#[test]
fn rename_creates_entry_from_uid_parts() {
    let mut configs: Vec<MonitorMetadata> = Vec::new();
    rename_monitor(&mut configs, "1::Dell U2723QE".into(), "Desk".into());
    assert_eq!(configs.len(), 1);
    assert_eq!(configs[0].uid, "1::Dell U2723QE");
    assert_eq!(configs[0].api_id, "1");
    assert_eq!(configs[0].api_name, "Dell U2723QE");
    assert_eq!(configs[0].label, "Desk");
    assert_eq!(configs[0].sort_order, 0);
    assert_eq!(configs[0].brightness_mode, "auto");
}

#[test]
fn rename_updates_existing_label_only() {
    let mut configs = vec![make_meta("1::Dell", "Old", 4), make_meta("2::LG", "Other", 1)];
    rename_monitor(&mut configs, "1::Dell".into(), "New".into());
    assert_eq!(configs.len(), 2);
    assert_eq!(configs[0].label, "New");
    assert_eq!(configs[0].sort_order, 4);
    assert_eq!(configs[1].label, "Other");
}

#[test]
fn rename_without_separator_uses_whole_uid_as_id() {
    let mut configs: Vec<MonitorMetadata> = Vec::new();
    rename_monitor(&mut configs, "builtin".into(), "Laptop".into());
    assert_eq!(configs[0].api_id, "builtin");
    assert_eq!(configs[0].api_name, "");
}

#[test]
fn save_order_updates_and_creates() {
    let mut configs = vec![make_meta("1::Dell", "Left", 0)];
    save_monitor_order(&mut configs, vec![("1::Dell".into(), 3), ("2::LG".into(), 1)]);
    assert_eq!(configs.len(), 2);
    assert_eq!(configs[0].sort_order, 3);
    assert_eq!(configs[0].label, "Left");
    assert_eq!(configs[1].uid, "2::LG");
    assert_eq!(configs[1].sort_order, 1);
    assert_eq!(configs[1].label, "");
}

#[test]
fn visibility_toggles_known_monitor_only() {
    let mut configs = vec![make_meta("1::Dell", "Left", 0)];
    set_monitor_visibility(&mut configs, "1::Dell".into(), true);
    assert!(configs[0].hidden);
    set_monitor_visibility(&mut configs, "1::Dell".into(), false);
    assert!(!configs[0].hidden);
    set_monitor_visibility(&mut configs, "9::Nope".into(), true);
    assert_eq!(configs.len(), 1);
}

#[test]
fn uid_compose_and_split() {
    let uid = compose_uid("1", "Dell U2723QE");
    assert_eq!(uid, "1::Dell U2723QE");
    assert_eq!(split_monitor_uid(&uid), ("1".to_string(), "Dell U2723QE".to_string()));
    assert_eq!(split_monitor_uid("a::b::c"), ("a".to_string(), "b::c".to_string()));
    assert_eq!(split_monitor_uid("plain"), ("plain".to_string(), String::new()));
}

#[test]
fn sort_orders_fit_near_the_limit() {
    let monitors = vec![make_monitor("1", "A", false), make_monitor("2", "B", false)];
    assert!(sort_orders_fit(&monitors, &[]));
    let near = vec![make_meta("x::y", "", i32::MAX - 2)];
    assert!(sort_orders_fit(&monitors, &near));
    let full = vec![make_meta("x::y", "", i32::MAX - 1)];
    assert!(!sort_orders_fit(&monitors, &full));
}

#[test]
fn merge_hides_monitors_marked_hidden() {
    let monitors = vec![make_monitor("1", "Dell", false)];
    let mut meta = make_meta("1::Dell", "", 0);
    meta.hidden = true;
    let result = merge_with_configs(monitors, &[meta]);
    assert!(result[0].hidden);
}

#[test]
fn test_rename_monitor_creates_new() {
    let mut configs: Vec<MonitorMetadata> = Vec::new();
    rename_monitor(&mut configs, "1::Dell U2720Q".to_string(), "MyDell".to_string());
    let meta = configs.iter().find(|m| m.uid == "1::Dell U2720Q").unwrap();
    assert_eq!(meta.label, "MyDell");
    assert_eq!(meta.api_id, "1");
    assert_eq!(meta.api_name, "Dell U2720Q");
}

#[test]
fn test_rename_monitor_updates_existing() {
    let mut configs = vec![make_meta("1::Dell", "old", 0)];
    rename_monitor(&mut configs, "1::Dell".to_string(), "new".to_string());
    let meta = configs.iter().find(|m| m.uid == "1::Dell").unwrap();
    assert_eq!(meta.label, "new");
    assert_eq!(configs.len(), 1, "should update, not insert");
}

#[test]
fn test_rename_monitor_no_separator() {
    let mut configs: Vec<MonitorMetadata> = Vec::new();
    rename_monitor(&mut configs, "builtin".to_string(), "Internal".to_string());
    let meta = configs.iter().find(|m| m.uid == "builtin").unwrap();
    assert_eq!(meta.api_id, "builtin");
    assert_eq!(meta.api_name, "");
}

#[test]
fn test_save_monitor_order_creates_new() {
    let mut configs: Vec<MonitorMetadata> = Vec::new();
    save_monitor_order(&mut configs, vec![("1::Dell".to_string(), 5)]);
    let meta = configs.iter().find(|m| m.uid == "1::Dell").unwrap();
    assert_eq!(meta.sort_order, 5);
}

#[test]
fn test_save_monitor_order_updates_existing() {
    let mut configs = vec![make_meta("1::Dell", "Dell", 0)];
    save_monitor_order(&mut configs, vec![("1::Dell".to_string(), 99)]);
    let meta = configs.iter().find(|m| m.uid == "1::Dell").unwrap();
    assert_eq!(meta.sort_order, 99);
    assert_eq!(configs.len(), 1);
}

#[test]
fn test_set_monitor_visibility_toggles() {
    let mut configs = vec![make_meta("1::Dell", "Dell", 0)];
    set_monitor_visibility(&mut configs, "1::Dell".to_string(), true);
    assert!(configs.iter().find(|m| m.uid == "1::Dell").unwrap().hidden);
}

#[test]
fn test_set_monitor_visibility_unknown_uid() {
    let mut configs: Vec<MonitorMetadata> = Vec::new();
    set_monitor_visibility(&mut configs, "nonexistent::foo".to_string(), true);
    assert!(configs.is_empty());
}

#[test]
fn sort_orders_fit_counts_only_new_monitors() {
    let known = vec![make_meta("1::A", "", i32::MAX - 1)];
    let new_first = vec![make_monitor("2", "B", false), make_monitor("1", "A", false)];
    assert!(sort_orders_fit(&new_first, &known));
    let new_second = vec![make_monitor("1", "A", false), make_monitor("2", "B", false)];
    assert!(!sort_orders_fit(&new_second, &known));
    let all_known = vec![make_monitor("1", "A", false)];
    assert!(sort_orders_fit(&all_known, &known));
    assert!(!sort_orders_fit(&all_known, &[make_meta("1::A", "", i32::MAX)]));
}
