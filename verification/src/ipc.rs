//! The messages between the command-line client and the daemon, the socket's
//! location, and the framing of messages on the socket: a four-byte big-endian
//! length, then that many bytes of JSON.
//!
//! Turning messages into JSON and back, and the socket itself, are the
//! application's business.

use vstd::prelude::*;

use crate::config::opt_str;
use crate::daemon_manager::DaemonManager;
use crate::text::{append, decimal, format_decimal, own, seq_ends_with, str_ends_with};

verus! {

// ============================================================================
// Messages
// ============================================================================

/// Requests sent from the client to the daemon.
#[derive(Clone, Debug)]
pub enum Request {
    /// Query daemon status.
    Status,
    /// Get the list of open windows.
    ListWindows,
    /// Test a rule pattern against the open windows.
    TestRule { pattern: String },
    /// Switch to a specific sink.
    SetSink { sink: String },
    /// Get daemon manager information (systemd or direct).
    GetManagerInfo,
    /// Shut the daemon down.
    Shutdown,
}

/// Information about a tracked window (one that matched a rule).
#[derive(Clone, Debug)]
pub struct TrackedInfo {
    pub sink_name: String,
    pub sink_desc: String,
}

/// Window information in responses.
#[derive(Clone, Debug)]
pub struct WindowInfo {
    pub id: Option<u64>,
    pub app_id: String,
    pub title: String,
    /// For rule tests: which fields matched (`app_id`, `title`, or `both`).
    pub matched_on: Option<String>,
    /// For window listings: the sink of a tracked window.
    pub tracking: Option<TrackedInfo>,
}

/// Responses sent from the daemon to the client.
#[derive(Clone, Debug)]
pub enum Response {
    /// Status information.
    Status {
        version: String,
        uptime_secs: u64,
        current_sink: String,
        active_window: Option<String>,
        tracked_windows: usize,
    },
    /// Generic success (`Ok` on the wire).
    Success { message: String },
    /// Error.
    Error { message: String },
    /// The open windows.
    Windows { windows: Vec<WindowInfo> },
    /// Rule test results.
    RuleMatches { pattern: String, matches: Vec<WindowInfo> },
    /// Daemon manager information.
    ManagerInfo { daemon_manager: DaemonManager },
}

/// Tracking information, as values.
pub struct TrackedView {
    pub sink_name: Seq<char>,
    pub sink_desc: Seq<char>,
}

/// Window information, as values.
pub struct WindowInfoView {
    pub id: Option<u64>,
    pub app_id: Seq<char>,
    pub title: Seq<char>,
    pub matched_on: Option<Seq<char>>,
    pub tracking: Option<TrackedView>,
}

impl View for WindowInfo {
    type V = WindowInfoView;

    open spec fn view(&self) -> WindowInfoView {
        WindowInfoView {
            id: self.id,
            app_id: self.app_id@,
            title: self.title@,
            matched_on: opt_str(self.matched_on),
            tracking: match self.tracking {
                Some(t) => Some(TrackedView { sink_name: t.sink_name@, sink_desc: t.sink_desc@ }),
                None => None,
            },
        }
    }
}

/// The values of a list of windows.
pub open spec fn infos_view(v: Seq<WindowInfo>) -> Seq<WindowInfoView> {
    v.map_values(|w: WindowInfo| w@)
}

/// A response, as values.
pub enum ResponseView {
    Status {
        version: Seq<char>,
        uptime_secs: u64,
        current_sink: Seq<char>,
        active_window: Option<Seq<char>>,
        tracked_windows: usize,
    },
    Success { message: Seq<char> },
    Error { message: Seq<char> },
    Windows { windows: Seq<WindowInfoView> },
    RuleMatches { pattern: Seq<char>, matches: Seq<WindowInfoView> },
    ManagerInfo { daemon_manager: DaemonManager },
}

impl View for Response {
    type V = ResponseView;

    open spec fn view(&self) -> ResponseView {
        match self {
            Response::Status { version, uptime_secs, current_sink, active_window, tracked_windows } => {
                ResponseView::Status {
                    version: version@,
                    uptime_secs: *uptime_secs,
                    current_sink: current_sink@,
                    active_window: opt_str(*active_window),
                    tracked_windows: *tracked_windows,
                }
            },
            Response::Success { message } => ResponseView::Success { message: message@ },
            Response::Error { message } => ResponseView::Error { message: message@ },
            Response::Windows { windows } => ResponseView::Windows { windows: infos_view(windows@) },
            Response::RuleMatches { pattern, matches } => ResponseView::RuleMatches {
                pattern: pattern@,
                matches: infos_view(matches@),
            },
            Response::ManagerInfo { daemon_manager } => ResponseView::ManagerInfo {
                daemon_manager: *daemon_manager,
            },
        }
    }
}

// ============================================================================
// Errors
// ============================================================================

/// A failure of the IPC logic.
#[derive(Debug)]
pub enum IpcError {
    /// A message is larger than the protocol allows.
    MessageTooLarge { len: u64 },
    /// Neither `XDG_RUNTIME_DIR` nor `USER` is set.
    NoSocketPath,
}

/// The text of an IPC error.
pub open spec fn ipc_error_text(e: IpcError) -> Seq<char> {
    match e {
        IpcError::MessageTooLarge { len } => "Message too large: "@ + decimal(len as nat)
            + " bytes (max: 1048576)"@,
        IpcError::NoSocketPath => "Cannot determine IPC socket path: Both `XDG_RUNTIME_DIR` and `USER` environment variables are unset.\n\nThis is unusual - please ensure your environment is set up correctly.\nYou can manually set `XDG_RUNTIME_DIR` to a user-specific directory like `/run/user/$UID`"@,
    }
}

impl IpcError {
    /// The human-readable text of this error.
    pub fn message(&self) -> (s: String)
        ensures
            s@ == ipc_error_text(*self),
    {
        match self {
            IpcError::MessageTooLarge { len } => {
                let s = own("Message too large: ");
                let s = append(s, format_decimal(*len).as_str());
                append(s, " bytes (max: 1048576)")
            },
            IpcError::NoSocketPath => own(
                "Cannot determine IPC socket path: Both `XDG_RUNTIME_DIR` and `USER` environment variables are unset.\n\nThis is unusual - please ensure your environment is set up correctly.\nYou can manually set `XDG_RUNTIME_DIR` to a user-specific directory like `/run/user/$UID`",
            ),
        }
    }
}

// ============================================================================
// Paths
// ============================================================================

/// `dir` joined with the relative path `name`, as `PathBuf::join` does: a
/// separator goes between them unless `dir` is empty or already ends with one.
pub open spec fn joined_path(dir: Seq<char>, name: Seq<char>) -> Seq<char> {
    if dir.len() == 0 || seq_ends_with(dir, "/"@) {
        dir + name
    } else {
        dir + "/"@ + name
    }
}

/// Joins a directory and a relative file name.
pub fn join_path(dir: &str, name: &str) -> (r: String)
    ensures
        r@ == joined_path(dir@, name@),
{
    if dir.unicode_len() == 0 || str_ends_with(dir, "/") {
        append(own(dir), name)
    } else {
        append(append(own(dir), "/"), name)
    }
}

/// The socket path: `$XDG_RUNTIME_DIR/pwsw.sock`, else `/tmp/pwsw-$USER.sock`.
pub open spec fn socket_path_for(runtime_dir: Option<Seq<char>>, user: Option<Seq<char>>) -> Option<
    Seq<char>,
> {
    match runtime_dir {
        Some(dir) => Some(joined_path(dir, "pwsw.sock"@)),
        None => match user {
            Some(u) => Some("/tmp/pwsw-"@ + u + ".sock"@),
            None => None,
        },
    }
}

/// Get the IPC socket path from the values of `XDG_RUNTIME_DIR` and `USER`.
pub fn get_socket_path(runtime_dir: Option<&str>, user: Option<&str>) -> (r: Result<
    String,
    IpcError,
>)
    ensures
        match socket_path_for(
            match runtime_dir {
                Some(d) => Some(d@),
                None => None,
            },
            match user {
                Some(u) => Some(u@),
                None => None,
            },
        ) {
            Some(p) => r matches Ok(s) && s@ == p,
            None => r matches Err(IpcError::NoSocketPath),
        },
{
    match runtime_dir {
        Some(dir) => Ok(join_path(dir, "pwsw.sock")),
        None => match user {
            Some(u) => Ok(append(append(own("/tmp/pwsw-"), u), ".sock")),
            None => Err(IpcError::NoSocketPath),
        },
    }
}

// ============================================================================
// Stale sockets
// ============================================================================

/// What a connection attempt to an existing socket gave.
#[derive(Debug)]
pub enum ConnectOutcome {
    Connected,
    Failed,
    TimedOut,
}

/// Whether an existing socket file may be probed and removed: only a socket
/// owned by the current user.
pub fn may_clean_socket(is_socket: bool, owner_uid: u32, current_uid: u32) -> (r: bool)
    ensures
        r == (is_socket && owner_uid == current_uid),
{
    is_socket && owner_uid == current_uid
}

/// Whether a socket is stale: nobody accepted the connection in time.
pub fn socket_is_stale(outcome: ConnectOutcome) -> (r: bool)
    ensures
        r == !(outcome is Connected),
{
    match outcome {
        ConnectOutcome::Connected => false,
        ConnectOutcome::Failed => true,
        ConnectOutcome::TimedOut => true,
    }
}

// ============================================================================
// Framing
// ============================================================================

/// Largest message payload, in bytes.
pub const MAX_MESSAGE_SIZE: usize = 1048576;

/// The four big-endian bytes of `n` (below 2^32).
pub open spec fn be_bytes(n: nat) -> Seq<u8> {
    seq![
        (n / 16777216 % 256) as u8,
        (n / 65536 % 256) as u8,
        (n / 256 % 256) as u8,
        (n % 256) as u8,
    ]
}

/// The number that four big-endian bytes stand for.
pub open spec fn be_value(b: Seq<u8>) -> nat {
    (b[0] as nat) * 16777216 + (b[1] as nat) * 65536 + (b[2] as nat) * 256 + (b[3] as nat)
}

/// The length prefix of a message with a payload of `len` bytes.
pub fn length_prefix(len: usize) -> (r: Result<[u8; 4], IpcError>)
    ensures
        len <= MAX_MESSAGE_SIZE ==> (r matches Ok(b) && b@ == be_bytes(len as nat)),
        len > MAX_MESSAGE_SIZE ==> (r matches Err(IpcError::MessageTooLarge { len: l }) && l == len),
{
    if len > MAX_MESSAGE_SIZE {
        return Err(IpcError::MessageTooLarge { len: len as u64 });
    }
    let n: u32 = len as u32;
    let b0: u8 = (n / 16777216 % 256) as u8;
    let b1: u8 = (n / 65536 % 256) as u8;
    let b2: u8 = (n / 256 % 256) as u8;
    let b3: u8 = (n % 256) as u8;
    let b: [u8; 4] = [b0, b1, b2, b3];
    assert(b@ =~= be_bytes(len as nat));
    Ok(b)
}

/// The payload length that a length prefix announces, when the protocol allows
/// it.
pub fn message_length(header: [u8; 4]) -> (r: Result<usize, IpcError>)
    ensures
        be_value(header@) <= MAX_MESSAGE_SIZE ==> (r matches Ok(n) && n == be_value(header@)),
        be_value(header@) > MAX_MESSAGE_SIZE ==> (r matches Err(IpcError::MessageTooLarge { len })
            && len == be_value(header@)),
{
    let n: u64 = (header[0] as u64) * 16777216 + (header[1] as u64) * 65536 + (header[2] as u64)
        * 256 + (header[3] as u64);
    if n > MAX_MESSAGE_SIZE as u64 {
        return Err(IpcError::MessageTooLarge { len: n });
    }
    Ok(n as usize)
}

/// Reading back the length prefix of a payload that the protocol allows gives
/// the payload's length.
pub proof fn lemma_length_prefix_roundtrip(len: nat)
    requires
        len <= MAX_MESSAGE_SIZE,
    ensures
        be_value(be_bytes(len)) == len,
{
    let b = be_bytes(len);
    assert(b[0] as nat == len / 16777216 % 256);
    assert(b[1] as nat == len / 65536 % 256);
    assert(b[2] as nat == len / 256 % 256);
    assert(b[3] as nat == len % 256);
    assert(len / 16777216 % 256 * 16777216 + len / 65536 % 256 * 65536 + len / 256 % 256 * 256
        + len % 256 == len) by (nonlinear_arith)
        requires
            len <= 1048576,
    ;
}

} // verus!
