use pwsw::commands::{
    can_cycle, configured_suffix, cycle_sink, format_uptime, get_sink_status, list_sinks_json,
    matched_marks, resolve_target, rule_matches_outcome, set_sink_smart, shutdown_outcome,
    sink_status_label, windows_header, windows_outcome, CommandError, Direction, SinkChoice,
};
use pwsw::config::{Config, Settings, SinkConfig};
use pwsw::ipc::{Response, TrackedInfo, WindowInfo};
use pwsw::pipewire::{ActiveSink, ProfileSink};

fn make_sink(name: &str, desc: &str, default: bool) -> SinkConfig {
    SinkConfig { name: name.to_string(), desc: desc.to_string(), icon: None, default }
}

fn make_config(sinks: Vec<SinkConfig>) -> Config {
    Config {
        settings: Settings {
            default_on_startup: true,
            set_smart_toggle: true,
            notify_manual: true,
            notify_rules: true,
            match_by_index: false,
            log_level: "info".to_string(),
        },
        sinks,
        rules: vec![],
    }
}

fn three() -> Config {
    make_config(vec![
        make_sink("a", "A", false),
        make_sink("b", "B", true),
        make_sink("c", "C", false),
    ])
}

fn active(name: &str, default: bool) -> ActiveSink {
    ActiveSink { name: name.to_string(), description: format!("{name} desc"), is_default: default }
}

fn profile_sink(name: &str) -> ProfileSink {
    ProfileSink {
        predicted_name: name.to_string(),
        description: "Digital".to_string(),
        device_id: 3,
        device_name: "alsa_card.x".to_string(),
        profile_index: 2,
        profile_name: "output:iec958-stereo".to_string(),
    }
}

#[test]
fn test_format_uptime_units() {
    assert_eq!(format_uptime(0), "0s");
    assert_eq!(format_uptime(59), "59s");
    assert_eq!(format_uptime(60), "1m");
    assert_eq!(format_uptime(3599), "59m");
    assert_eq!(format_uptime(3600), "1h");
    assert_eq!(format_uptime(3660), "1h 1m");
    assert_eq!(format_uptime(7325), "2h 2m");
    assert_eq!(format_uptime(90000), "25h");
}

#[test]
fn test_get_sink_status() {
    let act = vec![active("x", true)];
    let prof = vec![profile_sink("y")];
    assert_eq!(get_sink_status("x", &act, &prof), "active");
    assert_eq!(get_sink_status("y", &act, &prof), "requires_profile_switch");
    assert_eq!(get_sink_status("z", &act, &prof), "not_found");
    assert_eq!(sink_status_label("active"), "active");
    assert_eq!(sink_status_label("requires_profile_switch"), "profile switch");
    assert_eq!(sink_status_label("not_found"), "not found");
}

#[test]
fn test_cycle_wraps_both_ways() {
    let c = three();
    assert!(can_cycle(&c));
    assert_eq!(cycle_sink(&c, "c", Direction::Next), SinkChoice::Activate { index: 0 });
    assert_eq!(cycle_sink(&c, "a", Direction::Prev), SinkChoice::Activate { index: 2 });
    assert_eq!(cycle_sink(&c, "a", Direction::Next), SinkChoice::Activate { index: 1 });
    // Unknown current sink: start from the default.
    assert_eq!(cycle_sink(&c, "zzz", Direction::Next), SinkChoice::Activate { index: 2 });
    assert!(!can_cycle(&make_config(vec![make_sink("a", "A", true)])));
}

#[test]
fn test_cycle_next_then_prev_returns() {
    let c = three();
    for start in ["a", "b", "c"] {
        let next = match cycle_sink(&c, start, Direction::Next) {
            SinkChoice::Activate { index } | SinkChoice::AlreadyOn { index } => index,
        };
        let back = match cycle_sink(&c, &c.sinks[next].name, Direction::Prev) {
            SinkChoice::Activate { index } | SinkChoice::AlreadyOn { index } => index,
        };
        assert_eq!(c.sinks[back].name, start);
    }
}

#[test]
fn test_smart_toggle() {
    let c = three();
    let t = resolve_target(&c, "A").ok().unwrap();
    assert_eq!(t, 0);
    // Asking for the current non-default sink toggles back to the default.
    assert_eq!(set_sink_smart(&c, t, "a").ok().unwrap(), SinkChoice::Activate { index: 1 });
    // Asking for another sink switches to it.
    assert_eq!(set_sink_smart(&c, t, "c").ok().unwrap(), SinkChoice::Activate { index: 0 });
    // Asking for the default sink while on it stays.
    assert_eq!(set_sink_smart(&c, 1, "b").ok().unwrap(), SinkChoice::AlreadyOn { index: 1 });
    let mut plain = three();
    plain.settings.set_smart_toggle = false;
    assert_eq!(set_sink_smart(&plain, 0, "a").ok().unwrap(), SinkChoice::Activate { index: 0 });
}

#[test]
fn test_smart_errors() {
    let c = three();
    match resolve_target(&c, "nope") {
        Err(e) => assert_eq!(e.message(), "Unknown sink 'nope'. Available: 1. 'A', 2. 'B', 3. 'C'"),
        Ok(_) => panic!("expected an error"),
    }
    let no_default = make_config(vec![make_sink("a", "A", false)]);
    match set_sink_smart(&no_default, 0, "x") {
        Err(e) => {
            assert!(matches!(e, CommandError::NoDefaultSink));
            assert_eq!(e.message(), "No default sink configured");
        }
        Ok(_) => panic!("expected an error"),
    }
}

#[test]
fn test_list_sinks_json_contents() {
    let mut c = three();
    c.sinks[2].icon = Some("icon-c".to_string());
    let act = vec![active("a", false), active("x", true)];
    let prof = vec![profile_sink("c")];
    let j = list_sinks_json(Some(&c), &act, &prof);
    assert_eq!(j.active_sinks.len(), 2);
    assert!(j.active_sinks[0].configured);
    assert!(!j.active_sinks[1].configured);
    assert_eq!(j.profile_sinks[0].predicted_name, "c");
    assert_eq!(j.profile_sinks[0].profile_index, 2);
    assert_eq!(j.configured_sinks.len(), 3);
    assert_eq!(j.configured_sinks[0].index, 1);
    assert_eq!(j.configured_sinks[0].status, "active");
    assert_eq!(j.configured_sinks[1].status, "not_found");
    assert!(j.configured_sinks[1].is_default_config);
    assert_eq!(j.configured_sinks[2].status, "requires_profile_switch");
    assert_eq!(j.configured_sinks[2].icon.as_deref(), Some("icon-c"));
    assert_eq!(j.current_default.as_deref(), Some("x"));
    let none = list_sinks_json(None, &act, &[]);
    assert!(none.configured_sinks.is_empty());
    assert!(!none.active_sinks[0].configured);
}

#[test]
fn test_configured_suffix() {
    let c = three();
    assert_eq!(configured_suffix(Some(&c), "b"), " [B]");
    assert_eq!(configured_suffix(Some(&c), "q"), "");
    assert_eq!(configured_suffix(None, "b"), "");
}

fn info(app: &str, with_sink: bool) -> WindowInfo {
    WindowInfo {
        id: Some(1),
        app_id: app.to_string(),
        title: "t".to_string(),
        matched_on: None,
        tracking: if with_sink {
            Some(TrackedInfo { sink_name: "s".to_string(), sink_desc: "S".to_string() })
        } else {
            None
        },
    }
}

#[test]
fn test_reading_daemon_answers() {
    assert_eq!(shutdown_outcome(Response::Success { message: "bye".to_string() }).ok().unwrap(), "bye");
    assert_eq!(
        shutdown_outcome(Response::Error { message: "no".to_string() }).err().unwrap(),
        "Error: no"
    );
    assert_eq!(
        windows_outcome(Response::Success { message: "x".to_string() }).err().unwrap(),
        "Unexpected response from daemon"
    );
    let ws = windows_outcome(Response::Windows { windows: vec![info("a", true), info("b", false)] })
        .ok()
        .unwrap();
    assert_eq!(windows_header(&ws), "All Windows (2 open, 1 tracked):");
    let (p, m) = rule_matches_outcome(Response::RuleMatches { pattern: "x".to_string(), matches: vec![] })
        .ok()
        .unwrap();
    assert_eq!(p, "x");
    assert!(m.is_empty());
}

#[test]
fn test_matched_marks() {
    assert_eq!(matched_marks(&Some("both".to_string())), (true, true));
    assert_eq!(matched_marks(&Some("app_id".to_string())), (true, false));
    assert_eq!(matched_marks(&Some("title".to_string())), (false, true));
    assert_eq!(matched_marks(&None), (false, false));
}

