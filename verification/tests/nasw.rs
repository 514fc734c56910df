use pwsw::commands::{CommandError, Direction, SinkChoice};
use pwsw::config::{ConfigError, SinkConfig, SinkConfigFile};
use pwsw::nasw::{
    get_app_icon, get_notification_sink_icon, get_sink_icon, get_sink_icon_auto, nasw_error_message,
    sink_info, switch_audio_message, NaswConfig, NaswConfigFile, NaswRule, NaswRuleFile, NaswSettings,
    NaswSettingsFile, NaswState,
};
use pwsw::compositor::NiriEvent;

fn sink(name: &str, desc: &str, icon: Option<&str>, default: bool) -> SinkConfig {
    SinkConfig { name: name.to_string(), desc: desc.to_string(), icon: icon.map(String::from), default }
}

fn settings() -> NaswSettings {
    NaswSettings {
        reset_on_startup: true,
        smart_toggle: true,
        notify_daemon: true,
        notify_switch: true,
        notify_set: true,
        status_bar_icons: false,
        log_level: "info".to_string(),
    }
}

fn rule(app_id: &str, title: Option<&str>, sink_ref: &str, desc: Option<&str>, notify: bool) -> NaswRule {
    NaswRule {
        app_id_pattern: app_id.to_string(),
        title_pattern: title.map(String::from),
        sink_ref: sink_ref.to_string(),
        desc: desc.map(String::from),
        notify,
    }
}

fn config() -> NaswConfig {
    NaswConfig {
        settings: settings(),
        sinks: vec![
            sink("optical", "Optical Out", None, true),
            sink("phones", "Headphones", None, false),
            sink("hdmi_out", "TV", None, false),
        ],
        rules: vec![
            rule("^steam$", Some("^Steam Big Picture Mode$"), "TV", Some("Steam Big Picture"), true),
            rule("^mpv$", None, "2", None, false),
        ],
    }
}

fn file_sink(name: &str, desc: &str, default: bool) -> SinkConfigFile {
    SinkConfigFile { name: name.to_string(), desc: desc.to_string(), icon: None, default }
}

fn file_rule(app_id: &str, sink: &str) -> NaswRuleFile {
    NaswRuleFile { app_id: app_id.to_string(), title: None, sink: sink.to_string(), desc: None, notify: false }
}

fn opened(id: u64, app_id: &str, title: &str) -> NiriEvent {
    NiriEvent::WindowOpenedOrChanged { id, app_id: app_id.to_string(), title: title.to_string() }
}

#[test]
fn test_nasw_auto_icons() {
    assert_eq!(get_sink_icon_auto(&sink("x", "HDMI Output", None, false)), "video-display");
    assert_eq!(get_sink_icon_auto(&sink("x", "Living Room TV", None, false)), "video-display");
    assert_eq!(get_sink_icon_auto(&sink("alsa.hdmi-stereo", "Out", None, false)), "video-display");
    assert_eq!(get_sink_icon_auto(&sink("x", "USB Headset", None, false)), "audio-headphones");
    assert_eq!(get_sink_icon_auto(&sink("bluez_output.aa", "Buds", None, false)), "audio-headphones");
    assert_eq!(get_sink_icon_auto(&sink("x", "Optical Out", None, false)), "audio-speakers");
}

#[test]
fn test_nasw_custom_and_notification_icons() {
    let custom = sink("x", "HDMI Output", Some("my-icon"), false);
    assert_eq!(get_sink_icon(&custom), "my-icon");
    assert_eq!(get_notification_sink_icon(&custom, false), "my-icon");
    assert_eq!(get_notification_sink_icon(&custom, true), "video-display");
    let plain = sink("x", "Speakers", None, false);
    assert_eq!(get_sink_icon(&plain), "audio-speakers");
}

#[test]
fn test_nasw_app_icons() {
    assert_eq!(get_app_icon("org.mozilla.firefox"), "firefox");
    assert_eq!(get_app_icon("org.mozilla.Thunderbird"), "thunderbird");
    assert_eq!(get_app_icon("org.gnome.Nautilus"), "nautilus");
    assert_eq!(get_app_icon("org.telegram.desktop"), "telegram");
    assert_eq!(get_app_icon("steam"), "steam");
}

#[test]
fn test_nasw_switch_message() {
    assert_eq!(switch_audio_message("TV", Some("Steam Big Picture")), "TV → Steam Big Picture");
    assert_eq!(switch_audio_message("TV", None), "TV");
}

#[test]
fn test_nasw_config_ready_and_valid() {
    let c = config();
    assert!(c.is_ready());
    assert!(c.validate().is_ok());
    let mut bad = config();
    bad.rules.push(rule("x", None, "Nowhere", None, false));
    assert!(!bad.is_ready());
    match bad.validate() {
        Err(e) => assert_eq!(
            nasw_error_message(&e),
            "Rule 3 references unknown sink 'Nowhere'. Available: [1. 'Optical Out', 2. 'Headphones', 3. 'TV']"
        ),
        Ok(()) => panic!("unknown sink accepted"),
    }
}

#[test]
fn test_nasw_from_config_file() {
    let file = NaswConfigFile {
        settings: NaswSettingsFile::default(),
        sinks: vec![file_sink("a", "A", true), file_sink("b", "B", false)],
        rules: vec![file_rule("^mpv$", "B")],
    };
    let c = NaswConfig::from_config_file(file).expect("valid file");
    assert_eq!(c.sinks.len(), 2);
    assert_eq!(c.rules[0].sink_ref, "B");
    assert!(c.settings.smart_toggle);
    assert_eq!(c.settings.log_level, "info");
}

#[test]
fn test_nasw_from_config_file_errors() {
    let no_sinks = NaswConfigFile { settings: NaswSettingsFile::default(), sinks: vec![], rules: vec![] };
    let e = NaswConfig::from_config_file(no_sinks).unwrap_err();
    assert!(matches!(e, ConfigError::NoSinks));
    assert_eq!(nasw_error_message(&e), "No sinks defined. Add at least one [[sinks]] section to config.");

    let bad_regex = NaswConfigFile {
        settings: NaswSettingsFile::default(),
        sinks: vec![file_sink("a", "A", true)],
        rules: vec![file_rule("(unclosed", "A")],
    };
    let e = NaswConfig::from_config_file(bad_regex).unwrap_err();
    assert_eq!(nasw_error_message(&e), "Invalid regex in rule 1 app_id: '(unclosed'");

    let two_defaults = NaswConfigFile {
        settings: NaswSettingsFile::default(),
        sinks: vec![file_sink("a", "A", true), file_sink("b", "B", true)],
        rules: vec![],
    };
    let e = NaswConfig::from_config_file(two_defaults).unwrap_err();
    assert_eq!(nasw_error_message(&e), "2 default sinks found. Only one allowed.");

    let mut level = NaswSettingsFile::default();
    level.log_level = "loud".to_string();
    let bad_level = NaswConfigFile { settings: level, sinks: vec![file_sink("a", "A", true)], rules: vec![] };
    let e = NaswConfig::from_config_file(bad_level).unwrap_err();
    assert_eq!(nasw_error_message(&e), "Invalid log_level 'loud'. Must be: error, warn, info, debug, or trace");
}

#[test]
fn test_nasw_resolve_sink() {
    let c = config();
    assert_eq!(c.resolve_sink("1").unwrap().name, "optical");
    assert_eq!(c.resolve_sink("Headphones").unwrap().name, "phones");
    assert_eq!(c.resolve_sink("hdmi_out").unwrap().desc, "TV");
    assert!(c.resolve_sink("4").is_none());
    assert!(c.resolve_sink("0").is_none());
    assert_eq!(c.get_default_sink().name, "optical");
    match c.resolve_target("Speakers") {
        Err(e @ CommandError::UnknownSink { .. }) => assert_eq!(
            e.message(),
            "Unknown sink 'Speakers'. Available: 1. 'Optical Out', 2. 'Headphones', 3. 'TV'"
        ),
        _ => panic!("unknown sink resolved"),
    }
}

#[test]
fn test_nasw_window_open_and_close() {
    let mut state = NaswState::new(config(), Some("optical".to_string()));
    // A window that matches no rule does nothing.
    assert!(state.process_event(opened(7, "firefox", "Home")).is_none());
    // A matching window switches to its sink.
    let action = state.process_event(opened(1, "steam", "Steam Big Picture Mode")).expect("switch");
    assert_eq!(action.target, "hdmi_out");
    assert_eq!(action.desc, "TV");
    assert_eq!(action.reason, "Steam Big Picture");
    assert_eq!(action.icon.as_deref(), Some("steam"));
    assert!(action.notify);
    // Handling the event leaves the current sink to the caller.
    assert_eq!(state.current_sink_name, "optical");
    state.update_sink(action.target.clone());
    assert_eq!(state.current_sink_name, "hdmi_out");
    // The same window changing its title while still matching keeps it tracked.
    assert!(state.process_event(opened(1, "steam", "Steam Big Picture Mode")).is_none());
    // Closing it returns to the default sink.
    let back = state.process_event(NiriEvent::WindowClosed { id: 1 }).expect("return");
    assert_eq!(back.target, "optical");
    assert_eq!(back.desc, "Optical Out");
    assert_eq!(back.reason, "Steam Big Picture closed");
    assert_eq!(back.icon.as_deref(), Some("audio-speakers"));
    assert!(back.notify);
    state.update_sink(back.target.clone());
    assert_eq!(state.determine_target_sink(), "optical");
}

#[test]
fn test_nasw_window_stops_matching() {
    let mut state = NaswState::new(config(), Some("optical".to_string()));
    let action = state.process_event(opened(3, "mpv", "film.mkv")).expect("switch");
    assert_eq!(action.target, "phones");
    assert_eq!(action.reason, "film.mkv");
    assert!(!action.notify);
    state.update_sink(action.target.clone());
    // The app id changes so that no rule matches: the window ends.
    let back = state.process_event(opened(3, "other", "film.mkv")).expect("return");
    assert_eq!(back.target, "optical");
    assert_eq!(back.reason, "film.mkv ended");
}

#[test]
fn test_nasw_most_recent_window_wins() {
    let mut state = NaswState::new(config(), Some("optical".to_string()));
    let a = state.process_event(opened(1, "mpv", "a")).unwrap();
    state.update_sink(a.target.clone());
    let b = state.process_event(opened(2, "steam", "Steam Big Picture Mode")).unwrap();
    assert_eq!(b.target, "hdmi_out");
    state.update_sink(b.target.clone());
    assert_eq!(state.determine_target_sink(), "hdmi_out");
    // Closing the newer window returns to the older one's sink; no notification,
    // since it is not the default sink.
    let back = state.process_event(NiriEvent::WindowClosed { id: 2 }).unwrap();
    assert_eq!(back.target, "phones");
    assert!(!back.notify);
    state.update_sink(back.target.clone());
    // Closing an untracked window does nothing.
    assert!(state.process_event(NiriEvent::WindowClosed { id: 99 }).is_none());
    assert!(state.process_event(NiriEvent::Other).is_none());
}

#[test]
fn test_nasw_no_switch_when_already_current() {
    let mut state = NaswState::new(config(), Some("phones".to_string()));
    assert!(state.should_switch_sink("optical"));
    assert!(!state.should_switch_sink("phones"));
    assert!(state.process_event(opened(4, "mpv", "x")).is_none());
    assert_eq!(state.determine_target_sink(), "phones");
}

#[test]
fn test_nasw_startup_switch() {
    let state = NaswState::new(config(), Some("phones".to_string()));
    assert_eq!(state.startup_switch(), Some(0));
    let state = NaswState::new(config(), None);
    assert_eq!(state.current_sink_name, "optical");
    assert_eq!(state.startup_switch(), None);
    let mut c = config();
    c.settings.reset_on_startup = false;
    let state = NaswState::new(c, Some("phones".to_string()));
    assert_eq!(state.startup_switch(), None);
}

#[test]
fn test_nasw_set_sink_smart() {
    let c = config();
    assert_eq!(c.set_sink_smart(1, "optical"), SinkChoice::Activate { index: 1 });
    assert_eq!(c.set_sink_smart(1, "phones"), SinkChoice::Activate { index: 0 });
    assert_eq!(c.set_sink_smart(0, "optical"), SinkChoice::AlreadyOn { index: 0 });
    let mut plain = config();
    plain.settings.smart_toggle = false;
    assert_eq!(plain.set_sink_smart(1, "phones"), SinkChoice::Activate { index: 1 });
}

#[test]
fn test_nasw_cycle_sink() {
    let c = config();
    assert_eq!(c.cycle_sink("optical", Direction::Next), SinkChoice::Activate { index: 1 });
    assert_eq!(c.cycle_sink("hdmi_out", Direction::Next), SinkChoice::Activate { index: 0 });
    assert_eq!(c.cycle_sink("optical", Direction::Prev), SinkChoice::Activate { index: 2 });
    assert_eq!(c.cycle_sink("unknown", Direction::Next), SinkChoice::Activate { index: 1 });
}

#[test]
fn test_nasw_current_sink() {
    let c = config();
    assert_eq!(c.current_sink("phones"), Ok(1));
    assert_eq!(
        c.current_sink("other"),
        Err("Current sink 'other' not in config. Run 'nasw --list-sinks' to see available sinks.".to_string())
    );
    let info = sink_info(&c.sinks[2]);
    assert_eq!(info.text.as_deref(), Some("TV"));
    assert_eq!(info.icon, "video-display");
}

#[test]
fn test_nasw_notify_setting() {
    let c = config();
    assert!(c.should_notify_switch(true));
    assert!(!c.should_notify_switch(false));
    let mut quiet = config();
    quiet.settings.notify_switch = false;
    assert!(!quiet.should_notify_switch(true));
}
