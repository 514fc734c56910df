use std::sync::Arc;

use pwsw::compositor::WindowEvent;
use pwsw::config::{Config, Rule, Settings, SinkConfig};
use pwsw::daemon::{
    backup_log_name, context_from_state, needs_rotation, get_log_file_path, get_pid_file_path, handle_ipc_request, parse_pid,
    set_sink_response, startup_switch, IpcContext, IpcReply,
};
use pwsw::daemon_manager::DaemonManager;
use pwsw::ipc::{Request, Response};
use pwsw::state::State;

fn make_sink(name: &str, desc: &str, default: bool) -> SinkConfig {
    SinkConfig { name: name.to_string(), desc: desc.to_string(), icon: None, default }
}

fn config() -> Config {
    Config {
        settings: Settings {
            default_on_startup: true,
            set_smart_toggle: true,
            notify_manual: true,
            notify_rules: true,
            match_by_index: false,
            log_level: "info".to_string(),
        },
        sinks: vec![make_sink("spk", "Speakers", true), make_sink("hdmi", "HDMI", false)],
        rules: vec![Rule {
            app_id_pattern: "^mpv$".to_string(),
            title_pattern: None,
            sink_ref: "2".to_string(),
            desc: Some("Video".to_string()),
            notify: None,
        }],
    }
}

fn context() -> IpcContext {
    IpcContext {
        version: "0.3.1".to_string(),
        uptime_secs: 3600,
        current_sink_name: "hdmi".to_string(),
        active_window: Some("Video: hdmi".to_string()),
        daemon_manager: DaemonManager::Direct,
        tracked_with_sinks: vec![(
            5,
            "mpv".to_string(),
            "movie".to_string(),
            "hdmi".to_string(),
            "HDMI".to_string(),
        )],
        all_windows: vec![
            (5, "mpv".to_string(), "movie".to_string()),
            (6, "firefox".to_string(), "mpv docs".to_string()),
            (7, "kitty".to_string(), "shell".to_string()),
        ],
        config: Arc::new(config()),
    }
}

#[test]
fn test_pid_and_log_paths() {
    assert_eq!(get_pid_file_path(Some("/run/user/1"), Some("bob")), "/run/user/1/pwsw.pid");
    assert_eq!(get_pid_file_path(None, Some("bob")), "/tmp/pwsw-bob.pid");
    assert_eq!(get_pid_file_path(None, None), "/tmp/pwsw-unknown.pid");
    assert_eq!(get_log_file_path("/home/bob/.local/share"), "/home/bob/.local/share/pwsw/daemon.log");
}

#[test]
fn test_parse_pid() {
    assert_eq!(parse_pid("1234\n"), Some(1234));
    assert_eq!(parse_pid("  42 "), Some(42));
    assert_eq!(parse_pid("abc"), None);
    assert_eq!(parse_pid(""), None);
    assert_eq!(parse_pid("99999999999"), None);
}

#[test]
fn test_status_answer() {
    match handle_ipc_request(&context(), Request::Status) {
        IpcReply::Respond(Response::Status { version, uptime_secs, current_sink, active_window, tracked_windows }) => {
            assert_eq!(version, "0.3.1");
            assert_eq!(uptime_secs, 3600);
            assert_eq!(current_sink, "HDMI");
            assert_eq!(active_window.as_deref(), Some("Video: hdmi"));
            assert_eq!(tracked_windows, 1);
        }
        _ => panic!("expected a status"),
    }
}

#[test]
fn test_list_windows_answer() {
    match handle_ipc_request(&context(), Request::ListWindows) {
        IpcReply::Respond(Response::Windows { windows }) => {
            assert_eq!(windows.len(), 3);
            assert_eq!(windows[0].id, Some(5));
            assert_eq!(windows[0].tracking.as_ref().unwrap().sink_desc, "HDMI");
            assert!(windows[1].tracking.is_none());
            assert!(windows[2].matched_on.is_none());
        }
        _ => panic!("expected windows"),
    }
}

#[test]
fn test_test_rule_answer() {
    match handle_ipc_request(&context(), Request::TestRule { pattern: "mpv".to_string() }) {
        IpcReply::Respond(Response::RuleMatches { pattern, matches }) => {
            assert_eq!(pattern, "mpv");
            assert_eq!(matches.len(), 2);
            assert_eq!(matches[0].matched_on.as_deref(), Some("app_id"));
            assert_eq!(matches[1].app_id, "firefox");
            assert_eq!(matches[1].matched_on.as_deref(), Some("title"));
        }
        _ => panic!("expected matches"),
    }
    match handle_ipc_request(&context(), Request::TestRule { pattern: "m".to_string() }) {
        IpcReply::Respond(Response::RuleMatches { matches, .. }) => {
            assert_eq!(matches[0].matched_on.as_deref(), Some("both"));
        }
        _ => panic!("expected matches"),
    }
    match handle_ipc_request(&context(), Request::TestRule { pattern: "(".to_string() }) {
        IpcReply::Respond(Response::Error { message }) => {
            assert!(message.starts_with("Invalid regex pattern: "));
        }
        _ => panic!("expected an error"),
    }
}

#[test]
fn test_set_sink_answer() {
    match handle_ipc_request(&context(), Request::SetSink { sink: "Speakers".to_string() }) {
        IpcReply::Activate { name, desc } => {
            assert_eq!(name, "spk");
            assert_eq!(desc, "Speakers");
        }
        _ => panic!("expected an activation"),
    }
    match handle_ipc_request(&context(), Request::SetSink { sink: "9".to_string() }) {
        IpcReply::Respond(Response::Error { message }) => {
            assert_eq!(message, "Unknown sink '9'. Available: [1. 'Speakers', 2. 'HDMI']");
        }
        _ => panic!("expected an error"),
    }
    match set_sink_response("HDMI", Ok(())) {
        Response::Success { message } => assert_eq!(message, "Switched to sink: HDMI"),
        _ => panic!("expected success"),
    }
    match set_sink_response("HDMI", Err("boom".to_string())) {
        Response::Error { message } => assert_eq!(message, "Failed to activate sink 'HDMI': boom"),
        _ => panic!("expected an error"),
    }
}

#[test]
fn test_manager_and_shutdown_answers() {
    assert!(matches!(
        handle_ipc_request(&context(), Request::GetManagerInfo),
        IpcReply::Respond(Response::ManagerInfo { daemon_manager: DaemonManager::Direct })
    ));
    match handle_ipc_request(&context(), Request::Shutdown) {
        IpcReply::Shutdown(Response::Success { message }) => assert_eq!(message, "Daemon shutting down..."),
        _ => panic!("expected shutdown"),
    }
}

#[test]
fn test_context_from_state_and_startup_switch() {
    let mut state = State::from_parts(Arc::new(config()), "hdmi".to_string(), DaemonManager::Systemd);
    match startup_switch(&state) {
        Ok(Some(i)) => assert_eq!(i, 0),
        _ => panic!("expected a switch to the default"),
    }
    state.process_event(WindowEvent::Opened { id: 11, app_id: "mpv".to_string(), title: "m".to_string() }).ok().unwrap();
    let ctx = context_from_state(&state, "1.0".to_string(), 5);
    assert_eq!(ctx.active_window.as_deref(), Some("Video: hdmi"));
    assert_eq!(ctx.tracked_with_sinks.len(), 1);
    assert_eq!(ctx.all_windows.len(), 1);
    assert_eq!(ctx.daemon_manager, DaemonManager::Systemd);
    state.update_sink("spk".to_string());
    assert!(matches!(startup_switch(&state), Ok(None)));
}

#[test]
fn test_log_rotation_rule() {
    assert_eq!(backup_log_name("daemon.log"), "daemon.log.old");
    assert!(!needs_rotation(1_000_000, 1_000_000));
    assert!(needs_rotation(1_000_001, 1_000_000));
    assert!(!needs_rotation(999_999, 1_000_000));
}
