use pwsw::ipc::{
    get_socket_path, join_path, length_prefix, may_clean_socket, message_length, socket_is_stale,
    ConnectOutcome, IpcError, MAX_MESSAGE_SIZE,
};

#[test]
fn test_socket_path_prefers_runtime_dir() {
    assert_eq!(get_socket_path(Some("/run/user/1000"), Some("alice")).ok().unwrap(), "/run/user/1000/pwsw.sock");
    assert_eq!(get_socket_path(Some("/run/user/1000/"), None).ok().unwrap(), "/run/user/1000/pwsw.sock");
    assert_eq!(get_socket_path(None, Some("alice")).ok().unwrap(), "/tmp/pwsw-alice.sock");
}

#[test]
fn test_socket_path_needs_runtime_dir_or_user() {
    match get_socket_path(None, None) {
        Err(e) => {
            assert!(matches!(e, IpcError::NoSocketPath));
            assert!(e.message().starts_with("Cannot determine IPC socket path"));
        }
        Ok(_) => panic!("expected an error"),
    }
}

#[test]
fn test_join_path_like_pathbuf() {
    assert_eq!(join_path("", "a"), "a");
    assert_eq!(join_path("/tmp", "a"), "/tmp/a");
    assert_eq!(join_path("/tmp/", "a"), "/tmp/a");
}

#[test]
fn test_length_prefix_roundtrip() {
    for len in [0usize, 1, 255, 256, 65535, 65536, 123456, MAX_MESSAGE_SIZE] {
        let header = length_prefix(len).ok().unwrap();
        assert_eq!(header, (len as u32).to_be_bytes());
        assert_eq!(message_length(header).ok().unwrap(), len);
    }
}

#[test]
fn test_message_too_large() {
    match length_prefix(MAX_MESSAGE_SIZE + 1) {
        Err(e) => assert_eq!(e.message(), "Message too large: 1048577 bytes (max: 1048576)"),
        Ok(_) => panic!("expected an error"),
    }
    match message_length([0, 0x10, 0, 1]) {
        Err(IpcError::MessageTooLarge { len }) => assert_eq!(len, 1048577),
        _ => panic!("expected an error"),
    }
    assert_eq!(message_length([0, 0x10, 0, 0]).ok().unwrap(), 1048576);
}

#[test]
fn test_stale_socket_decisions() {
    assert!(may_clean_socket(true, 1000, 1000));
    assert!(!may_clean_socket(false, 1000, 1000));
    assert!(!may_clean_socket(true, 0, 1000));
    assert!(!socket_is_stale(ConnectOutcome::Connected));
    assert!(socket_is_stale(ConnectOutcome::Failed));
    assert!(socket_is_stale(ConnectOutcome::TimedOut));
}
