use display_dj::audio_output::{
    apply_preferences, ensure_device_exists, get_audio_output_state, check_output_uid_selectable, check_selectable, check_status, four_cc,
    is_unsupported_output_uid, parse_default_sink_info, parse_sink_input_ids, resolve_device,
    should_list_output, sinks_to_devices, sort_audio_output_state, trimmed_device_id, AudioOutputDevice,
    AudioOutputDeviceState, AudioOutputState,
};

fn device(id: &str, name: &str) -> AudioOutputDevice {
    AudioOutputDevice {
        id: id.into(),
        name: name.into(),
        original_name: name.into(),
        state: AudioOutputDeviceState::Enabled,
        is_built_in: false,
    }
}

/// Reads the (name, description) pairs out of pactl's sink JSON.
fn sink_records(bytes: &[u8]) -> Vec<(String, Option<String>)> {
    let value: serde_json::Value = serde_json::from_slice(bytes).unwrap();
    value
        .as_array()
        .unwrap()
        .iter()
        .map(|sink| {
            (
                sink["name"].as_str().unwrap().to_string(),
                sink["description"].as_str().map(|d| d.to_string()),
            )
        })
        .collect()
}

#[test]
fn parses_sink_json() {
    let devices = sinks_to_devices(sink_records(
        br#"[
            {"name":"alsa_output.usb","description":"USB Speakers","extra":true},
            {"name":"bluez_output.headset","description":null}
        ]"#,
    ));
    assert_eq!(
        devices,
        vec![device("alsa_output.usb", "USB Speakers"), device("bluez_output.headset", "bluez_output.headset")]
    );
}

#[test]
fn sinks_with_blank_names_or_descriptions() {
    let devices = sinks_to_devices(vec![
        ("  ".to_string(), Some("Ghost".to_string())),
        ("hdmi".to_string(), Some("   ".to_string())),
    ]);
    assert_eq!(devices, vec![device("hdmi", "hdmi")]);
}

#[test]
fn parses_default_sink_from_info() {
    assert_eq!(
        parse_default_sink_info(b"Server Name: PulseAudio\nDefault Sink: desk\n"),
        Some("desk".into())
    );
}

#[test]
fn parses_sink_input_ids() {
    assert_eq!(parse_sink_input_ids(b"42\t1\t2\nbad line\n9\t1\t2\n"), vec!["42", "9"]);
}

#[test]
fn four_cc_matches_core_audio_constants() {
    assert_eq!(four_cc(*b"dev#"), 0x6465_7623);
    assert_eq!(four_cc(*b"dOut"), 0x644f_7574);
}

#[test]
fn excludes_outputs_that_cannot_become_default() {
    assert!(should_list_output(true, true, true));
    assert!(!should_list_output(true, true, false));
    assert!(!should_list_output(true, false, true));
    assert!(!should_list_output(false, true, true));
}

#[test]
fn identifies_unsupported_output_device_uids() {
    assert!(is_unsupported_output_uid("MSLoopbackDriverDevice_UID"));
    assert!(is_unsupported_output_uid("zoom.us.zoomaudiodevice.001"));
    assert!(!is_unsupported_output_uid("BuiltInSpeakerDevice"));
    assert!(check_output_uid_selectable("MSLoopbackDriverDevice_UID")
        .unwrap_err()
        .contains("unsupported audio output device"));
}

#[test]
fn sorts_by_state_built_in_selected_name_and_stable_id() {
    let mut built_in = device("built-in", "MacBook Pro Speakers");
    built_in.is_built_in = true;
    let mut disabled = device("teams", "Microsoft Teams Audio");
    disabled.state = AudioOutputDeviceState::Disabled;
    let mut hidden = device("zoom", "ZoomAudioDevice");
    hidden.state = AudioOutputDeviceState::Hidden;
    let state = sort_audio_output_state(AudioOutputState {
        devices: vec![hidden, disabled, device("dock", "TYPEC"), built_in],
        selected_device_id: Some("dock".into()),
    });

    assert_eq!(
        state.devices.iter().map(|item| item.id.as_str()).collect::<Vec<_>>(),
        vec!["built-in", "dock", "teams", "zoom"]
    );
}

#[test]
fn resolves_duplicate_names_by_exact_id() {
    let devices = vec![device("left", "Speakers"), device("right", "Speakers")];

    assert_eq!(resolve_device(&devices, "right").unwrap().id, "right");
    assert!(resolve_device(&devices, "RIGHT").is_err());
}

#[test]
fn applies_non_empty_output_preferences() {
    let state = apply_preferences(
        AudioOutputState {
            devices: vec![device("speaker", "MacBook Pro Speakers")],
            selected_device_id: Some("speaker".into()),
        },
        &[("speaker".into(), "Desk".into(), AudioOutputDeviceState::Disabled)],
    );

    assert_eq!(state.devices[0].name, "Desk");
    assert_eq!(state.devices[0].original_name, "MacBook Pro Speakers");
    assert_eq!(state.devices[0].state, AudioOutputDeviceState::Disabled);
}

#[test]
fn ignores_empty_labels() {
    let state = apply_preferences(
        AudioOutputState {
            devices: vec![device("speaker", "MacBook Pro Speakers")],
            selected_device_id: Some("speaker".into()),
        },
        &[("speaker".into(), "  ".into(), AudioOutputDeviceState::Hidden)],
    );

    assert_eq!(state.devices[0].name, "MacBook Pro Speakers");
    assert_eq!(state.devices[0].state, AudioOutputDeviceState::Hidden);
}

// ---- further cases

#[test]
fn sort_uses_lowercase_names_then_ids() {
    let state = sort_audio_output_state(AudioOutputState {
        devices: vec![device("b", "beta"), device("a2", "Alpha"), device("a1", "alpha")],
        selected_device_id: None,
    });
    assert_eq!(
        state.devices.iter().map(|d| d.id.as_str()).collect::<Vec<_>>(),
        vec!["a1", "a2", "b"]
    );
}

#[test]
fn missing_device_error_names_the_id() {
    let devices = vec![device("left", "Speakers")];
    assert_eq!(
        resolve_device(&devices, "nope").unwrap_err(),
        "audio output device not found: nope"
    );
}

#[test]
fn device_ids_are_trimmed_and_must_not_be_blank() {
    assert_eq!(trimmed_device_id("  desk \n"), Ok("desk".to_string()));
    assert_eq!(
        trimmed_device_id("   "),
        Err("audio output device id cannot be empty".to_string())
    );
}

#[test]
fn only_enabled_devices_can_be_selected() {
    let mut off = device("off", "Off");
    off.state = AudioOutputDeviceState::Disabled;
    let state = AudioOutputState { devices: vec![device("on", "On"), off], selected_device_id: None };
    assert!(check_selectable(&state, "on").is_ok());
    assert_eq!(
        check_selectable(&state, "off").unwrap_err(),
        "audio output device is not enabled: off"
    );
    assert_eq!(
        check_selectable(&state, "x").unwrap_err(),
        "audio output device not found: x"
    );
}

#[test]
fn default_sink_skips_blank_values_and_missing_lines() {
    assert_eq!(parse_default_sink_info(b"Default Sink:   \nDefault Sink: b\n"), Some("b".into()));
    assert_eq!(parse_default_sink_info(b"Server Name: x\n"), None);
    assert_eq!(parse_default_sink_info(b"Default Sink: \xff desk\r\n"), Some("\u{fffd} desk".into()));
}

#[test]
fn sink_input_ids_need_numbers() {
    assert_eq!(parse_sink_input_ids(b"  7 x\n+8 y\n-1 z\n\n99999999999 q\n"), vec!["7", "+8"]);
}

#[test]
fn core_audio_status_errors() {
    assert!(check_status(0, "read").is_ok());
    assert_eq!(check_status(-50, "read").unwrap_err(), "read failed with OSStatus -50");
}

#[test]
fn default_device_state_is_enabled() {
    assert_eq!(AudioOutputDeviceState::default(), AudioOutputDeviceState::Enabled);
}

#[test]
fn enumeration_is_sorted_and_errors_pass_through() {
    let state = get_audio_output_state(Ok(AudioOutputState {
        devices: vec![device("b", "B"), device("a", "A")],
        selected_device_id: None,
    }))
    .unwrap();
    assert_eq!(state.devices[0].id, "a");
    assert_eq!(get_audio_output_state(Err("pactl is unavailable".into())).unwrap_err(), "pactl is unavailable");

    let current = || {
        Ok(AudioOutputState { devices: vec![device("desk", "Desk")], selected_device_id: None })
    };
    assert!(ensure_device_exists(" desk ", current()).is_ok());
    assert_eq!(
        ensure_device_exists("  ", current()).unwrap_err(),
        "audio output device id cannot be empty"
    );
    assert_eq!(
        ensure_device_exists("tv", current()).unwrap_err(),
        "audio output device not found: tv"
    );
    assert_eq!(ensure_device_exists("tv", Err("boom".into())).unwrap_err(), "boom");
}

#[test]
fn listing_order_does_not_change_the_sorted_state() {
    let mut a = device("b", "Beta");
    a.is_built_in = true;
    let b = device("a", "alpha");
    let c = device("c", "Alpha");
    let s1 = AudioOutputState { devices: vec![a.clone(), b.clone(), c.clone()], selected_device_id: Some("c".into()) };
    let s2 = AudioOutputState { devices: vec![c, a, b], selected_device_id: Some("c".into()) };
    assert_eq!(sort_audio_output_state(s1).devices, sort_audio_output_state(s2).devices);
}
