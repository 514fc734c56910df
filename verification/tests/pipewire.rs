use pwsw::pipewire::{
    poll_step, PollAction, profile_switch_delay_ms, profile_switch_max_retries, retained_device_locks, ActivationStep,
    ActiveSink, MetadataValue, PipeWire, PipeWireError, PwInfo, PwMetadataEntry, PwObject,
    PwParams, PwProfile, PwProps, MAX_DEVICE_LOCKS,
};

fn props() -> PwProps {
    PwProps::default()
}

fn node(id: u32, name: &str, desc: Option<&str>, nick: Option<&str>, class: &str) -> PwObject {
    PwObject {
        id,
        obj_type: "PipeWire:Interface:Node".to_string(),
        info: Some(PwInfo {
            props: Some(PwProps {
                node_name: Some(name.to_string()),
                node_description: desc.map(String::from),
                node_nick: nick.map(String::from),
                media_class: Some(class.to_string()),
                ..props()
            }),
            params: None,
        }),
        props: None,
        metadata: None,
    }
}

fn minimal_sink() -> Vec<PwObject> {
    vec![node(42, "alsa_output.test.stereo", Some("Test Speakers"), None, "Audio/Sink")]
}

fn metadata_object(value: Option<MetadataValue>) -> PwObject {
    PwObject {
        id: 0,
        obj_type: "PipeWire:Interface:Metadata".to_string(),
        info: None,
        props: Some(PwProps { metadata_name: Some("default".to_string()), ..props() }),
        metadata: Some(vec![PwMetadataEntry { key: "default.audio.sink".to_string(), value }]),
    }
}

fn multiple_sinks() -> Vec<PwObject> {
    vec![
        node(1, "alsa_output.hdmi", Some("HDMI Output"), None, "Audio/Sink"),
        node(2, "alsa_output.speakers", Some("Speakers"), None, "Audio/Sink"),
        node(3, "alsa_input.mic", Some("Microphone"), None, "Audio/Source"),
    ]
}

fn profile(index: u32, name: &str, desc: Option<&str>, available: Option<&str>) -> PwProfile {
    PwProfile {
        index: Some(index),
        name: Some(name.to_string()),
        description: desc.map(String::from),
        available: available.map(String::from),
    }
}

fn device(id: u32, device_name: &str, current: Vec<PwProfile>, profiles: Vec<PwProfile>) -> PwObject {
    PwObject {
        id,
        obj_type: "PipeWire:Interface:Device".to_string(),
        info: Some(PwInfo {
            props: Some(PwProps { device_name: Some(device_name.to_string()), ..props() }),
            params: Some(PwParams { enum_profile: Some(profiles), profile: Some(current) }),
        }),
        props: None,
        metadata: None,
    }
}

#[test]
fn test_metadata_get_name_object_format() {
    let objects = vec![metadata_object(Some(MetadataValue::Object {
        name: Some("alsa_output.test.stereo".to_string()),
    }))];
    let metadata = &objects[0].metadata.as_ref().unwrap()[0];
    assert_eq!(metadata.get_name(), Some("alsa_output.test.stereo".to_string()));
}

#[test]
fn test_metadata_get_name_string_format() {
    let objects = vec![metadata_object(Some(MetadataValue::Text(
        "alsa_output.test.stereo".to_string(),
    )))];
    let metadata = &objects[0].metadata.as_ref().unwrap()[0];
    assert_eq!(metadata.get_name(), Some("alsa_output.test.stereo".to_string()));
}

#[test]
fn test_metadata_get_name_null_returns_none() {
    let entry = PwMetadataEntry { key: "test".to_string(), value: None };
    assert_eq!(entry.get_name(), None);
    let other = PwMetadataEntry { key: "test".to_string(), value: Some(MetadataValue::Other) };
    assert_eq!(other.get_name(), None);
    let nameless = PwMetadataEntry {
        key: "test".to_string(),
        value: Some(MetadataValue::Object { name: None }),
    };
    assert_eq!(nameless.get_name(), None);
}

#[test]
fn test_get_props_from_info() {
    let objects = minimal_sink();
    let p = objects[0].get_props();
    assert!(p.is_some());
    assert_eq!(p.unwrap().node_name.as_deref(), Some("alsa_output.test.stereo"));
}

#[test]
fn test_get_props_from_toplevel() {
    let objects = vec![PwObject {
        id: 0,
        obj_type: "PipeWire:Interface:Metadata".to_string(),
        info: None,
        props: Some(PwProps { metadata_name: Some("default".to_string()), ..props() }),
        metadata: None,
    }];
    let p = objects[0].get_props();
    assert!(p.is_some());
    assert_eq!(p.unwrap().metadata_name.as_deref(), Some("default"));
}

#[test]
fn test_get_active_sinks_filters_audio_sink() {
    let objects = minimal_sink();
    let sinks = PipeWire::get_active_sinks(&objects);
    assert_eq!(sinks.len(), 1);
    assert_eq!(sinks[0].name, "alsa_output.test.stereo");
    assert_eq!(sinks[0].description, "Test Speakers");
}

#[test]
fn test_get_active_sinks_ignores_sources() {
    let objects = multiple_sinks();
    let sinks = PipeWire::get_active_sinks(&objects);
    assert_eq!(sinks.len(), 2);
    assert!(sinks.iter().all(|s| !s.name.contains("mic")));
}

#[test]
fn test_get_active_sinks_uses_description_fallback() {
    let objects = vec![node(1, "test_sink", None, Some("Test Nick"), "Audio/Sink")];
    let sinks = PipeWire::get_active_sinks(&objects);
    assert_eq!(sinks.len(), 1);
    assert_eq!(sinks[0].description, "Test Nick");
}

#[test]
fn test_get_active_sinks_falls_back_to_name_and_marks_default() {
    let mut objects = vec![node(1, "bare_sink", None, None, "Audio/Sink")];
    objects.push(metadata_object(Some(MetadataValue::Text("bare_sink".to_string()))));
    let sinks = PipeWire::get_active_sinks(&objects);
    assert_eq!(sinks.len(), 1);
    assert_eq!(sinks[0].description, "bare_sink");
    assert!(sinks[0].is_default);
}

#[test]
fn test_get_default_sink_found() {
    let objects = vec![metadata_object(Some(MetadataValue::Object {
        name: Some("alsa_output.test.stereo".to_string()),
    }))];
    let default_sink = PipeWire::get_default_sink_name_from_objects(&objects);
    assert_eq!(default_sink, Some("alsa_output.test.stereo".to_string()));
}

#[test]
fn test_get_default_sink_missing() {
    let objects = vec![PwObject {
        id: 0,
        obj_type: "PipeWire:Interface:Metadata".to_string(),
        info: None,
        props: Some(PwProps { metadata_name: Some("default".to_string()), ..props() }),
        metadata: Some(vec![]),
    }];
    let default_sink = PipeWire::get_default_sink_name_from_objects(&objects);
    assert_eq!(default_sink, None);
    match PipeWire::get_default_sink_name(&objects) {
        Err(e) => assert_eq!(e.message(), "No default sink found in PipeWire metadata"),
        Ok(_) => panic!("no default sink expected"),
    }
}

#[test]
fn test_device_locks_cleanup_on_limit() {
    let entries: Vec<(u32, bool)> = (0..MAX_DEVICE_LOCKS as u32).map(|i| (i, false)).collect();
    assert_eq!(entries.len(), MAX_DEVICE_LOCKS);
    let kept = retained_device_locks(&entries);
    assert!(kept.len() < entries.len(), "Cleanup should have removed entries");
}

#[test]
fn test_device_locks_preserves_active_locks() {
    let entries: Vec<(u32, bool)> = (0..MAX_DEVICE_LOCKS as u32).map(|i| (i, i < 10)).collect();
    let kept = retained_device_locks(&entries);
    assert_eq!(kept.len(), 10);
    for i in 0..10u32 {
        assert!(kept.contains(&i));
    }
}

#[test]
fn test_device_locks_below_limit_kept() {
    let entries: Vec<(u32, bool)> = vec![(1, false), (2, true), (3, false)];
    assert_eq!(retained_device_locks(&entries), vec![1, 2, 3]);
}

#[test]
fn test_get_profile_sinks_excludes_active() {
    let objects = vec![device(
        100,
        "alsa_card.test",
        vec![profile(1, "analog-stereo", None, None)],
        vec![
            profile(0, "off", Some("Off"), None),
            profile(1, "analog-stereo", Some("Analog Stereo"), Some("yes")),
            profile(2, "iec958-stereo", Some("Digital Stereo"), Some("yes")),
        ],
    )];
    let active_sinks = vec![ActiveSink {
        name: "alsa_output.test.analog-stereo".to_string(),
        description: "Active Sink".to_string(),
        is_default: false,
    }];
    let profile_sinks = PipeWire::get_profile_sinks(&objects, &active_sinks);
    assert_eq!(profile_sinks.len(), 1);
    assert!(profile_sinks[0].predicted_name.contains("iec958-stereo"));
}

#[test]
fn test_get_profile_sinks_predicts_node_name() {
    let objects = vec![device(
        100,
        "alsa_card.pci-0000_00_1f.3",
        vec![profile(0, "off", None, None)],
        vec![
            profile(0, "off", Some("Off"), None),
            profile(1, "output:analog-stereo", Some("Analog Stereo"), Some("yes")),
        ],
    )];
    let profile_sinks = PipeWire::get_profile_sinks(&objects, &[]);
    assert_eq!(profile_sinks.len(), 1);
    assert_eq!(profile_sinks[0].predicted_name, "alsa_output.pci-0000_00_1f.3.analog-stereo");
}

#[test]
fn test_get_profile_sinks_replaces_input_part_and_skips_unavailable() {
    let objects = vec![device(
        5,
        "alsa_card.usb-1",
        vec![],
        vec![
            profile(1, "output:analog-stereo+input:mono-fallback", None, None),
            profile(2, "output:hdmi-stereo", Some("HDMI"), Some("no")),
            profile(3, "input:analog-stereo", Some("Mic"), None),
            profile(4, "pro-audio-surround-51", Some("Surround"), None),
        ],
    )];
    let sinks = PipeWire::get_profile_sinks(&objects, &[]);
    assert_eq!(sinks.len(), 3);
    assert_eq!(sinks[0].predicted_name, "alsa_output.usb-1.analog-stereo-mono-fallback");
    assert_eq!(sinks[0].description, "output:analog-stereo+input:mono-fallback");
    assert_eq!(sinks[0].device_id, 5);
    assert_eq!(sinks[0].profile_index, 1);
    // A name ending in "-stereo" counts as an output, whatever its prefix.
    assert_eq!(sinks[1].predicted_name, "alsa_output.usb-1.input:analog-stereo");
    assert_eq!(sinks[2].predicted_name, "alsa_output.usb-1.pro-audio-surround-51");
}

#[test]
fn test_get_profile_sinks_ignores_non_alsa_devices() {
    let objects = vec![device(
        6,
        "bluez_card.00_11",
        vec![],
        vec![profile(1, "a2dp-stereo", Some("A2DP"), None)],
    )];
    assert!(PipeWire::get_profile_sinks(&objects, &[]).is_empty());
}

#[test]
fn test_profile_switch_env_vars() {
    assert_eq!(profile_switch_delay_ms(None), 150);
    assert_eq!(profile_switch_max_retries(None), 5);
    assert_eq!(profile_switch_delay_ms(Some("300")), 300);
    assert_eq!(profile_switch_max_retries(Some("10")), 10);
    assert_eq!(profile_switch_delay_ms(Some("invalid")), 150);
    assert_eq!(profile_switch_max_retries(Some("not_a_number")), 5);
    assert_eq!(profile_switch_delay_ms(Some("")), 150);
    assert_eq!(profile_switch_max_retries(Some("")), 5);
    assert_eq!(profile_switch_max_retries(Some("4294967296")), 5);
    assert_eq!(profile_switch_delay_ms(Some("+20")), 20);
}

#[test]
fn test_plan_activation_for_active_and_profile_sinks() {
    let mut objects = multiple_sinks();
    objects.push(device(
        77,
        "alsa_card.pci-1",
        vec![profile(1, "output:analog-stereo", None, None)],
        vec![
            profile(1, "output:analog-stereo", None, None),
            profile(2, "output:iec958-stereo", Some("Digital"), None),
        ],
    ));
    assert!(matches!(
        PipeWire::plan_activation(&objects, "alsa_output.speakers"),
        Ok(ActivationStep::SetDefault)
    ));
    match PipeWire::plan_activation(&objects, "alsa_output.pci-1.iec958-stereo") {
        Ok(ActivationStep::SwitchProfile { device_id, profile_index, device_name, profile_name }) => {
            assert_eq!(device_id, 77);
            assert_eq!(profile_index, 2);
            assert_eq!(device_name, "alsa_card.pci-1");
            assert_eq!(profile_name, "output:iec958-stereo");
        }
        _ => panic!("expected a profile switch"),
    }
    match PipeWire::plan_activation(&objects, "nowhere") {
        Err(e) => assert_eq!(
            e.message(),
            "Sink 'nowhere' not found (not active and no profile switch available)"
        ),
        Ok(_) => panic!("expected an error"),
    }
    assert!(PipeWire::is_sink_active(&objects, "alsa_output.hdmi"));
    assert!(!PipeWire::is_sink_active(&objects, "alsa_input.mic"));
    let found = PipeWire::find_profile_sink(&objects, "alsa_output.pci-1.iec958-stereo").unwrap();
    assert_eq!(found.description, "Digital");
}

#[test]
fn test_command_arguments() {
    let args = PipeWire::set_default_sink_args("alsa_output.x\"y").ok().unwrap();
    assert_eq!(
        args,
        vec![
            "0".to_string(),
            "default.audio.sink".to_string(),
            "{\"name\":\"alsa_output.x\\\"y\"}".to_string(),
            "Spa:String:JSON".to_string()
        ]
    );
    let args2 = PipeWire::set_device_profile_args(45, 3);
    assert_eq!(
        args2,
        vec!["s".to_string(), "45".to_string(), "Profile".to_string(), "{\"index\":3}".to_string()]
    );
}

#[test]
fn test_pipewire_error_messages() {
    let e = PipeWire::sink_did_not_appear("out", 5, 150);
    let m = e.message();
    assert!(m.starts_with("Profile switched successfully but sink 'out' did not appear after 5 attempts.\n\nThis may indicate:\n"));
    assert!(m.contains("current: 150ms)"));
    assert!(m.contains("(set PROFILE_SWITCH_MAX_RETRIES env var, current: 5)"));
    assert!(m.ends_with("You can check available sinks with: pwsw list-sinks"));
    match PipeWire::check_missing_tools(vec!["pw-dump".to_string(), "pw-cli".to_string()]) {
        Err(PipeWireError::MissingTools { missing }) => {
            let msg = PipeWireError::MissingTools { missing }.message();
            assert!(msg.starts_with("Missing required PipeWire tools: pw-dump, pw-cli\n\nPlease install"));
        }
        _ => panic!("expected missing tools"),
    }
    assert!(PipeWire::check_missing_tools(vec![]).is_ok());
}

#[test]
fn test_sink_name_json_escapes() {
    let args = PipeWire::set_default_sink_args("a\\b\tc\u{1}d\u{1f}é").ok().unwrap();
    assert_eq!(args[2], "{\"name\":\"a\\\\b\\tc\\u0001d\\u001fé\"}");
    assert_eq!(args[2], format!("{{\"name\":{}}}", serde_json::to_string("a\\b\tc\u{1}d\u{1f}é").unwrap()));
}

#[test]
fn test_profile_switch_polling() {
    assert_eq!(poll_step(1, 5, true), PollAction::SetDefault);
    assert_eq!(poll_step(5, 5, true), PollAction::SetDefault);
    assert_eq!(poll_step(1, 5, false), PollAction::Wait);
    assert_eq!(poll_step(4, 5, false), PollAction::Wait);
    assert_eq!(poll_step(5, 5, false), PollAction::GiveUp);
    // Never seeing the sink, polling stops after exactly the allowed attempts.
    let mut polls = 0;
    for attempt in 1..=5u32 {
        polls += 1;
        if poll_step(attempt, 5, false) != PollAction::Wait {
            break;
        }
    }
    assert_eq!(polls, 5);
}
