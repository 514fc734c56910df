use std::sync::Arc;

use pwsw::compositor::WindowEvent;
use pwsw::config::{Config, Rule, Settings, SinkConfig};
use pwsw::daemon_manager::DaemonManager;
use pwsw::state::{State, StateError};

fn make_config(sinks: Vec<SinkConfig>, rules: Vec<Rule>) -> Config {
    Config {
        settings: Settings {
            default_on_startup: true,
            set_smart_toggle: true,
            notify_manual: true,
            notify_rules: true,
            match_by_index: false,
            log_level: "info".to_string(),
        },
        sinks,
        rules,
    }
}

fn make_sink(name: &str, desc: &str, default: bool) -> SinkConfig {
    SinkConfig {
        name: name.to_string(),
        desc: desc.to_string(),
        icon: None,
        default,
    }
}

fn make_rule(app_id: &str, title: Option<&str>, sink_ref: &str) -> Rule {
    Rule {
        app_id_pattern: app_id.to_string(),
        title_pattern: title.map(String::from),
        sink_ref: sink_ref.to_string(),
        desc: None,
        notify: None,
    }
}

fn new_state(config: Config, current: &str) -> State {
    State::from_parts(Arc::new(config), current.to_string(), DaemonManager::Direct)
}

fn check_match(rule_app_id: &str, rule_title: Option<&str>, app_id: &str, title: &str) -> bool {
    let config = make_config(
        vec![make_sink("sink1", "Sink 1", true)],
        vec![make_rule(rule_app_id, rule_title, "sink1")],
    );
    let state = new_state(config, "sink1");
    state.find_matching_rule(app_id, title).is_some()
}

#[test]
fn test_find_matching_rule_matches_app_id_only() {
    assert!(check_match("firefox", None, "firefox", "Any Title"));
}

#[test]
fn test_find_matching_rule_matches_app_id_and_title() {
    assert!(check_match("steam", Some("Big Picture"), "steam", "Steam Big Picture Mode"));
}

#[test]
fn test_find_matching_rule_no_match_wrong_app_id() {
    assert!(!check_match("firefox", None, "chrome", "Any Title"));
}

#[test]
fn test_find_matching_rule_no_match_wrong_title() {
    assert!(!check_match("steam", Some("Big Picture"), "steam", "Steam Library"));
}

#[test]
fn test_find_matching_rule_regex_partial_match() {
    assert!(check_match("firefox", None, "org.mozilla.firefox", "Title"));
}

#[test]
fn test_find_matching_rule_regex_anchored() {
    assert!(!check_match("^steam$", None, "steamapp", "Title"));
    assert!(check_match("^steam$", None, "steam", "Title"));
}

#[test]
fn test_find_matching_rule_returns_first_match() {
    let config = make_config(
        vec![make_sink("sink1", "Sink 1", true)],
        vec![make_rule("firefox", None, "sink1"), make_rule("fire.*", None, "sink1")],
    );
    let state = new_state(config, "sink1");
    let result = state.find_matching_rule("firefox", "Title");
    assert!(result.is_some());
    let (idx, _) = result.unwrap();
    assert_eq!(idx, 0);
}

#[test]
fn test_should_switch_sink_different_returns_true() {
    let config = make_config(vec![make_sink("sink1", "Sink 1", true)], vec![]);
    let state = new_state(config, "sink1");
    assert!(state.should_switch_sink("sink2"));
}

#[test]
fn test_should_switch_sink_same_returns_false() {
    let config = make_config(vec![make_sink("sink1", "Sink 1", true)], vec![]);
    let state = new_state(config, "sink1");
    assert!(!state.should_switch_sink("sink1"));
}

#[test]
fn test_determine_target_sink_empty_returns_default() {
    let config = make_config(
        vec![
            make_sink("default_sink", "Default", true),
            make_sink("other_sink", "Other", false),
        ],
        vec![],
    );
    let state = new_state(config, "default_sink");
    assert_eq!(state.determine_target_sink(), "default_sink");
}

#[test]
fn test_determine_target_sink_single_window() {
    let config = make_config(
        vec![
            make_sink("default_sink", "Default", true),
            make_sink("firefox_sink", "Firefox", false),
        ],
        vec![make_rule("firefox", None, "firefox_sink")],
    );
    let mut state = new_state(config, "default_sink");
    state.track_window(
        1,
        "firefox_sink".to_string(),
        "Firefox".to_string(),
        0,
        "firefox".to_string(),
        "Browser".to_string(),
    );
    assert_eq!(state.determine_target_sink(), "firefox_sink");
}

#[test]
fn test_determine_target_sink_priority_time() {
    let config = make_config(
        vec![
            make_sink("default_sink", "Default", true),
            make_sink("sink1", "S1", false),
            make_sink("sink2", "S2", false),
        ],
        vec![make_rule("app1", None, "sink1"), make_rule("app2", None, "sink2")],
    );
    let mut state = new_state(config, "default_sink");
    state.track_window(1, "sink1".to_string(), "App 1".to_string(), 0, "app1".to_string(), "T1".to_string());
    state.track_window(2, "sink2".to_string(), "App 2".to_string(), 1, "app2".to_string(), "T2".to_string());
    assert_eq!(state.determine_target_sink(), "sink2");
}

#[test]
fn test_determine_target_sink_priority_index() {
    let mut config = make_config(
        vec![
            make_sink("default_sink", "Default", true),
            make_sink("sink1", "S1", false),
            make_sink("sink2", "S2", false),
        ],
        vec![make_rule("app1", None, "sink1"), make_rule("app2", None, "sink2")],
    );
    config.settings.match_by_index = true;
    let mut state = new_state(config, "default_sink");
    state.track_window(2, "sink2".to_string(), "App 2".to_string(), 1, "app2".to_string(), "T2".to_string());
    state.track_window(1, "sink1".to_string(), "App 1".to_string(), 0, "app1".to_string(), "T1".to_string());
    assert_eq!(state.determine_target_sink(), "sink1");
}

#[test]
fn test_determine_target_sink_priority_index_tiebreaker() {
    let mut config = make_config(
        vec![make_sink("default_sink", "Default", true), make_sink("sink1", "S1", false)],
        vec![make_rule("app", None, "sink1")],
    );
    config.settings.match_by_index = true;
    let mut state = new_state(config, "default_sink");
    state.track_window(1, "sink1".to_string(), "App A".to_string(), 0, "app".to_string(), "T1".to_string());
    state.track_window(2, "sink1".to_string(), "App B".to_string(), 0, "app".to_string(), "T2".to_string());
    assert_eq!(state.determine_target_sink(), "sink1");
    assert_eq!(state.get_most_recent_window().unwrap().trigger_desc, "App B");
}

#[test]
fn test_all_windows_tracking() {
    let config = make_config(
        vec![make_sink("default_sink", "Default", true)],
        vec![make_rule(".*", None, "default_sink")],
    );
    let mut state = new_state(config, "default_sink");
    state.record_window(1, "firefox".to_string(), "Browser".to_string());
    assert_eq!(state.open_window_count(), 1);
    assert!(state.is_window_open(1));

    let close_result = state.process_event(WindowEvent::Closed { id: 1 });
    assert!(close_result.is_ok());

    assert_eq!(state.open_window_count(), 0);
    assert!(!state.is_window_open(1));
}

#[test]
fn test_all_windows_cleanup_multiple_windows() {
    let config = make_config(
        vec![make_sink("default_sink", "Default", true)],
        vec![make_rule(".*", None, "default_sink")],
    );
    let mut state = new_state(config, "default_sink");
    state.record_window(1, "firefox".to_string(), "Browser".to_string());
    state.record_window(2, "chrome".to_string(), "Browser".to_string());
    state.record_window(3, "mpv".to_string(), "Video".to_string());
    assert_eq!(state.open_window_count(), 3);

    let close_result = state.process_event(WindowEvent::Closed { id: 2 });
    assert!(close_result.is_ok());

    assert_eq!(state.open_window_count(), 2);
    assert!(state.is_window_open(1));
    assert!(!state.is_window_open(2));
    assert!(state.is_window_open(3));
}

#[test]
fn test_rule_metadata_update() {
    let config = make_config(
        vec![
            make_sink("speakers", "Speakers", true),
            make_sink("headphones", "Headphones", false),
        ],
        vec![
            make_rule("kitty", Some("Music"), "speakers"),
            make_rule("kitty", None, "headphones"),
        ],
    );
    let mut state = new_state(config, "speakers");
    state.track_window(
        1,
        "headphones".to_string(),
        "Kitty".to_string(),
        1,
        "kitty".to_string(),
        "Shell".to_string(),
    );
    {
        let window = state.tracked_window(1).unwrap();
        assert_eq!(window.sink_name, "headphones");
        assert_eq!(window.rule_index, 1);
    }
    state.current_sink_name = "speakers".to_string();

    let action = state
        .process_event(WindowEvent::Changed {
            id: 1,
            app_id: "kitty".to_string(),
            title: "Music".to_string(),
        })
        .ok()
        .unwrap();
    assert!(action.is_none());

    let window = state.tracked_window(1).unwrap();
    assert_eq!(window.sink_name, "speakers", "Sink name should update in metadata");
    assert_eq!(window.rule_index, 0, "Rule index should update in metadata");
    assert_eq!(window.title, "Music");
}

fn two_sink_config() -> Config {
    make_config(
        vec![make_sink("speakers", "Speakers", true), make_sink("hdmi", "HDMI TV", false)],
        vec![Rule {
            app_id_pattern: "^steam$".to_string(),
            title_pattern: None,
            sink_ref: "HDMI TV".to_string(),
            desc: Some("Steam".to_string()),
            notify: Some(true),
        }],
    )
}

#[test]
fn test_open_matching_window_switches_and_close_returns() {
    let mut state = new_state(two_sink_config(), "speakers");
    let action = state
        .process_event(WindowEvent::Opened {
            id: 7,
            app_id: "steam".to_string(),
            title: "Library".to_string(),
        })
        .ok()
        .unwrap()
        .unwrap();
    assert_eq!(action.target, "hdmi");
    assert_eq!(action.desc, "HDMI TV");
    assert_eq!(action.reason, "Steam");
    assert_eq!(action.icon.as_deref(), Some("steam"));
    assert!(action.notify);
    state.update_sink(action.target.clone());
    assert!(state.is_window_tracked(7));

    let back = state
        .process_event(WindowEvent::Closed { id: 7 })
        .ok()
        .unwrap()
        .unwrap();
    assert_eq!(back.target, "speakers");
    assert_eq!(back.desc, "Speakers");
    assert_eq!(back.reason, "Steam closed");
    assert_eq!(back.icon.as_deref(), Some("audio-speakers"));
    assert!(back.notify);
    assert!(!state.is_window_tracked(7));
}

#[test]
fn test_window_that_stops_matching_ends() {
    let mut state = new_state(two_sink_config(), "speakers");
    let a = state
        .process_event(WindowEvent::Opened { id: 3, app_id: "steam".to_string(), title: "x".to_string() })
        .ok()
        .unwrap()
        .unwrap();
    state.update_sink(a.target);
    let back = state
        .process_event(WindowEvent::Changed { id: 3, app_id: "steamwebhelper".to_string(), title: "x".to_string() })
        .ok()
        .unwrap()
        .unwrap();
    assert_eq!(back.target, "speakers");
    assert_eq!(back.reason, "Steam ended");
    assert!(state.is_window_open(3));
    assert!(!state.is_window_tracked(3));
}

#[test]
fn test_non_matching_window_is_only_recorded() {
    let mut state = new_state(two_sink_config(), "speakers");
    let r = state
        .process_event(WindowEvent::Opened { id: 4, app_id: "kitty".to_string(), title: "sh".to_string() })
        .ok()
        .unwrap();
    assert!(r.is_none());
    assert!(state.is_window_open(4));
    assert!(!state.is_window_tracked(4));
    assert_eq!(state.get_all_windows(), vec![(4, "kitty".to_string(), "sh".to_string())]);
}

#[test]
fn test_unknown_rule_sink_is_reported() {
    let config = make_config(
        vec![make_sink("speakers", "Speakers", true)],
        vec![make_rule("app", None, "missing")],
    );
    let mut state = new_state(config, "speakers");
    let r = state.process_event(WindowEvent::Opened { id: 1, app_id: "app".to_string(), title: "t".to_string() });
    match r {
        Err(StateError::UnknownRuleSink { sink_ref }) => assert_eq!(sink_ref, "missing"),
        _ => panic!("expected an unknown sink reference"),
    }
    let e = StateError::UnknownRuleSink { sink_ref: "missing".to_string() };
    assert_eq!(
        e.message(),
        "BUG: Rule references non-existent sink 'missing' (should have been caught in config validation)"
    );
}

#[test]
fn test_tracked_listings_and_reevaluation_events() {
    let mut state = new_state(two_sink_config(), "speakers");
    state.process_event(WindowEvent::Opened { id: 9, app_id: "steam".to_string(), title: "Big".to_string() }).ok().unwrap();
    state.process_event(WindowEvent::Opened { id: 10, app_id: "kitty".to_string(), title: "sh".to_string() }).ok().unwrap();
    assert_eq!(state.get_tracked_windows(), vec![("steam".to_string(), "Big".to_string())]);
    let with_sinks = state.get_tracked_windows_with_sinks();
    assert_eq!(
        with_sinks,
        vec![(9, "steam".to_string(), "Big".to_string(), "hdmi".to_string(), "HDMI TV".to_string())]
    );
    let mut ids: Vec<u64> = state
        .reevaluation_events()
        .into_iter()
        .map(|e| match e {
            WindowEvent::Changed { id, .. } => id,
            _ => panic!("re-evaluation gives changes only"),
        })
        .collect();
    ids.sort();
    assert_eq!(ids, vec![9, 10]);
}

#[test]
fn test_untrack_restores_previous_target() {
    let mut state = new_state(two_sink_config(), "speakers");
    let before = state.determine_target_sink();
    state.track_window(5, "hdmi".to_string(), "X".to_string(), 0, "a".to_string(), "b".to_string());
    assert_eq!(state.determine_target_sink(), "hdmi");
    let w = state.untrack_window(5).unwrap();
    assert_eq!(w.trigger_desc, "X");
    assert_eq!(state.determine_target_sink(), before);
    assert!(state.untrack_window(5).is_none());
}

#[test]
fn test_new_state_uses_queried_default_or_configured_default() {
    let s1 = State::new(Arc::new(two_sink_config()), DaemonManager::Systemd, Some("hdmi".to_string()));
    assert_eq!(s1.current_sink_name, "hdmi");
    let s2 = State::new(Arc::new(two_sink_config()), DaemonManager::Direct, None);
    assert_eq!(s2.current_sink_name, "speakers");
    assert_eq!(s2.manager(), DaemonManager::Direct);
}

fn index_mode_config() -> Config {
    let mut config = make_config(
        vec![
            make_sink("optical", "Optical Out", true),
            make_sink("phones", "Headphones", false),
            make_sink("speakers", "Speakers", false),
        ],
        vec![make_rule("^mpv$", None, "Headphones"), make_rule("^firefox$", None, "Speakers")],
    );
    config.settings.match_by_index = true;
    config
}

fn open(state: &mut State, id: u64, app_id: &str) {
    let event = WindowEvent::Opened { id, app_id: app_id.to_string(), title: "w".to_string() };
    if let Ok(Some(action)) = state.process_event(event) {
        state.update_sink(action.target.clone());
    }
}

#[test]
fn test_index_priority_first_rule_wins_either_order() {
    // Opening Firefox then MPV goes to the headphones.
    let mut state = new_state(index_mode_config(), "optical");
    open(&mut state, 1, "firefox");
    assert_eq!(state.current_sink(), "speakers");
    open(&mut state, 2, "mpv");
    assert_eq!(state.current_sink(), "phones");
    assert_eq!(state.determine_target_sink(), "phones");

    // Opening MPV then Firefox stays on the headphones.
    let mut state = new_state(index_mode_config(), "optical");
    open(&mut state, 2, "mpv");
    open(&mut state, 1, "firefox");
    assert_eq!(state.current_sink(), "phones");
    assert_eq!(state.determine_target_sink(), "phones");
}
