use pwsw::compositor::{
    check_subscribe_reply, ipc_frame, is_window_event, niri_window_event, parse_ipc_header,
    sway_window_event, HandleEvent, NiriEvent, PlasmaEvent, PlasmaState, SwayContainer, SwayIpcError,
    WindowEvent, WindowProperties, WlrToplevelState, IPC_EVENT_WINDOW, IPC_SUBSCRIBE,
};

#[test]
fn test_toplevel_opens_on_first_done_then_changes() {
    let mut s = WlrToplevelState::new();
    s.toplevel(7);
    assert!(s.handle_event(7, HandleEvent::AppId("firefox".to_string())).is_none());
    assert!(s.handle_event(7, HandleEvent::Title("Home".to_string())).is_none());
    match s.handle_event(7, HandleEvent::Done) {
        Some(WindowEvent::Opened { id, app_id, title }) => {
            assert_eq!(id, 7);
            assert_eq!(app_id, "firefox");
            assert_eq!(title, "Home");
        }
        _ => panic!("expected an opening"),
    }
    s.handle_event(7, HandleEvent::Title("News".to_string()));
    match s.handle_event(7, HandleEvent::Done) {
        Some(WindowEvent::Changed { title, .. }) => assert_eq!(title, "News"),
        _ => panic!("expected a change"),
    }
    assert!(s.handle_event(7, HandleEvent::Other).is_none());
    match s.handle_event(7, HandleEvent::Closed) {
        Some(WindowEvent::Closed { id }) => assert_eq!(id, 7),
        _ => panic!("expected a closing"),
    }
    assert!(s.handle_event(7, HandleEvent::Done).is_none());
}

#[test]
fn test_toplevel_closed_before_done_is_silent() {
    let mut s = WlrToplevelState::new();
    s.toplevel(3);
    s.handle_event(3, HandleEvent::AppId("x".to_string()));
    assert!(s.handle_event(3, HandleEvent::Closed).is_none());
    assert!(s.handle_event(99, HandleEvent::Done).is_none());
}

fn container(app_id: Option<&str>, name: Option<&str>, props: Option<WindowProperties>) -> SwayContainer {
    SwayContainer { id: 12, name: name.map(String::from), app_id: app_id.map(String::from), window_properties: props }
}

#[test]
fn test_sway_container_fallbacks() {
    let native = container(Some("foot"), Some("shell"), None);
    assert_eq!(native.get_app_id(), "foot");
    assert_eq!(native.get_title(), "shell");
    let x11 = container(
        None,
        None,
        Some(WindowProperties { class: Some("Steam".to_string()), instance: Some("steam".to_string()), title: Some("Library".to_string()) }),
    );
    assert_eq!(x11.get_app_id(), "Steam");
    assert_eq!(x11.get_title(), "Library");
    let inst = container(None, None, Some(WindowProperties { class: None, instance: Some("inst".to_string()), title: None }));
    assert_eq!(inst.get_app_id(), "inst");
    assert_eq!(inst.get_title(), "");
    let bare = container(None, None, None);
    assert_eq!(bare.get_app_id(), "");
    assert_eq!(bare.get_title(), "");
}

#[test]
fn test_sway_events() {
    let c = container(Some("mpv"), Some("video"), None);
    assert!(matches!(sway_window_event("new", &c), Some(WindowEvent::Opened { id: 12, .. })));
    assert!(matches!(sway_window_event("close", &c), Some(WindowEvent::Closed { id: 12 })));
    assert!(matches!(sway_window_event("title", &c), Some(WindowEvent::Changed { .. })));
    assert!(sway_window_event("focus", &c).is_none());
}

#[test]
fn test_plasma_window_lifecycle() {
    let mut s = PlasmaState::new();
    s.window(3);
    // Before the initial state, property changes are silent.
    assert!(s.handle_event(3, PlasmaEvent::AppIdChanged("kate".to_string())).is_none());
    assert!(s.handle_event(3, PlasmaEvent::TitleChanged("Untitled".to_string())).is_none());
    match s.handle_event(3, PlasmaEvent::InitialState) {
        Some(WindowEvent::Opened { id, app_id, title }) => {
            assert_eq!(id, 3);
            assert_eq!(app_id, "kate");
            assert_eq!(title, "Untitled");
        }
        _ => panic!("expected an opening"),
    }
    match s.handle_event(3, PlasmaEvent::TitleChanged("notes.txt".to_string())) {
        Some(WindowEvent::Changed { id, app_id, title }) => {
            assert_eq!(id, 3);
            assert_eq!(app_id, "kate");
            assert_eq!(title, "notes.txt");
        }
        _ => panic!("expected a change"),
    }
    assert!(s.handle_event(3, PlasmaEvent::Other).is_none());
    assert!(matches!(s.handle_event(3, PlasmaEvent::Unmapped), Some(WindowEvent::Closed { id: 3 })));
    // The window is forgotten: further reports change nothing.
    assert!(s.handle_event(3, PlasmaEvent::Unmapped).is_none());
    assert!(s.handle_event(9, PlasmaEvent::InitialState).is_none());
}

#[test]
fn test_niri_events() {
    let opened = NiriEvent::WindowOpenedOrChanged { id: 5, app_id: "mpv".to_string(), title: "film".to_string() };
    match niri_window_event(opened) {
        Some(WindowEvent::Opened { id, app_id, title }) => {
            assert_eq!(id, 5);
            assert_eq!(app_id, "mpv");
            assert_eq!(title, "film");
        }
        _ => panic!("expected an opening"),
    }
    assert!(matches!(niri_window_event(NiriEvent::WindowClosed { id: 5 }), Some(WindowEvent::Closed { id: 5 })));
    assert!(niri_window_event(NiriEvent::Other).is_none());
}

#[test]
fn test_sway_ipc_frame() {
    let payload = b"[\"window\"]";
    let le = ipc_frame(IPC_SUBSCRIBE, payload, true);
    assert_eq!(&le[0..6], b"i3-ipc");
    assert_eq!(&le[6..10], &(payload.len() as u32).to_le_bytes());
    assert_eq!(&le[10..14], &2u32.to_le_bytes());
    assert_eq!(&le[14..], payload);
    let be = ipc_frame(IPC_EVENT_WINDOW, b"", false);
    assert_eq!(be, b"i3-ipc\x00\x00\x00\x00\x80\x00\x00\x03".to_vec());
}

#[test]
fn test_sway_ipc_header() {
    let frame = ipc_frame(IPC_EVENT_WINDOW, b"{}", true);
    let mut header = [0u8; 14];
    header.copy_from_slice(&frame[0..14]);
    match parse_ipc_header(&header, true) {
        Ok((len, t)) => {
            assert_eq!(len, 2);
            assert_eq!(t, IPC_EVENT_WINDOW);
            assert!(is_window_event(t));
        }
        Err(_) => panic!("valid header refused"),
    }
    header[0] = b'x';
    assert!(matches!(parse_ipc_header(&header, true), Err(SwayIpcError::InvalidMagic)));
    assert!(!is_window_event(IPC_SUBSCRIBE));
}

#[test]
fn test_sway_subscribe_reply() {
    assert!(check_subscribe_reply(IPC_SUBSCRIBE, true).is_ok());
    assert!(matches!(check_subscribe_reply(IPC_SUBSCRIBE, false), Err(SwayIpcError::SubscribeFailed)));
    assert!(matches!(
        check_subscribe_reply(0, true),
        Err(SwayIpcError::UnexpectedResponse { msg_type: 0 })
    ));
}
