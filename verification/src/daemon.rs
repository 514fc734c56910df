//! The daemon's own decisions: where its files live, and how it answers each
//! request from a client, from a snapshot of its state.
//!
//! The event loop, the sockets, signals and the activation of sinks are the
//! application's business.

use vstd::prelude::*;

use std::sync::Arc;

use crate::config::{
    desc_for, first_default, numbered_list, opt_str, resolve_index, sink_descs, Config, ConfigView,
};
use crate::daemon_manager::DaemonManager;
use crate::ipc::{
    infos_view, joined_path, join_path, Request, Response, ResponseView, TrackedInfo, TrackedView,
    WindowInfo, WindowInfoView,
};
use crate::pattern::{check_pattern, matches_text, pattern_matches, regex_new};
use crate::state::{enumerates, entries_of, tracked_entry, triples_of, winner, State, StateView};
use crate::text::{
    append, chars_of, decimal, own, parse_unsigned, parse_unsigned_chars, str_eq, trim, trimmed,
};

verus! {

// ============================================================================
// Files
// ============================================================================

/// The PID file: `$XDG_RUNTIME_DIR/pwsw.pid`, else `/tmp/pwsw-$USER.pid` (with
/// `unknown` for an unset `USER`).
pub open spec fn pid_file_path(runtime_dir: Option<Seq<char>>, user: Option<Seq<char>>) -> Seq<char> {
    match runtime_dir {
        Some(dir) => joined_path(dir, "pwsw.pid"@),
        None => "/tmp/pwsw-"@ + match user {
            Some(u) => u,
            None => "unknown"@,
        } + ".pid"@,
    }
}

/// Get the daemon PID file path from the values of `XDG_RUNTIME_DIR` and `USER`.
pub fn get_pid_file_path(runtime_dir: Option<&str>, user: Option<&str>) -> (r: String)
    ensures
        r@ == pid_file_path(
            match runtime_dir {
                Some(d) => Some(d@),
                None => None,
            },
            match user {
                Some(u) => Some(u@),
                None => None,
            },
        ),
{
    match runtime_dir {
        Some(dir) => join_path(dir, "pwsw.pid"),
        None => {
            let s = own("/tmp/pwsw-");
            let s = match user {
                Some(u) => append(s, u),
                None => append(s, "unknown"),
            };
            append(s, ".pid")
        },
    }
}

/// Get the daemon log file path under the local data directory:
/// `<data dir>/pwsw/daemon.log`.
pub fn get_log_file_path(data_dir: &str) -> (r: String)
    ensures
        r@ == joined_path(joined_path(data_dir@, "pwsw"@), "daemon.log"@),
{
    let dir = join_path(data_dir, "pwsw");
    join_path(dir.as_str(), "daemon.log")
}

/// The name of the log file's backup: `<filename>.old`.
pub fn backup_log_name(filename: &str) -> (r: String)
    ensures
        r@ == filename@ + ".old"@,
{
    append(own(filename), ".old")
}

/// The log file moves to its backup before a write once it exceeds the size
/// limit.
pub fn needs_rotation(current_size: u64, max_size_bytes: u64) -> (r: bool)
    ensures
        r == (current_size > max_size_bytes),
{
    current_size > max_size_bytes
}

/// The process id that a PID file holds: its contents without surrounding white
/// space, read as a decimal `u32`.
pub fn parse_pid(contents: &str) -> (r: Option<u32>)
    ensures
        match parse_unsigned(trimmed(contents@), u32::MAX as nat) {
            Some(n) => r == Some(n as u32),
            None => r is None,
        },
{
    let t = trim(contents);
    match parse_unsigned_chars(&chars_of(t.as_str()), u32::MAX as u64) {
        Some(n) => Some(n as u32),
        None => None,
    }
}

// ============================================================================
// Answering requests
// ============================================================================

/// What the daemon knows when it answers a request.
#[derive(Debug)]
pub struct IpcContext {
    pub version: String,
    pub uptime_secs: u64,
    pub current_sink_name: String,
    /// `"<trigger>: <sink>"` of the most recently tracked window.
    pub active_window: Option<String>,
    pub daemon_manager: DaemonManager,
    /// `(id, app_id, title, sink_name, sink_desc)` of each tracked window.
    pub tracked_with_sinks: Vec<(u64, String, String, String, String)>,
    /// `(id, app_id, title)` of each open window.
    pub all_windows: Vec<(u64, String, String)>,
    pub config: Arc<Config>,
}

/// The context, as values.
pub struct ContextView {
    pub version: Seq<char>,
    pub uptime_secs: u64,
    pub current_sink_name: Seq<char>,
    pub active_window: Option<Seq<char>>,
    pub daemon_manager: DaemonManager,
    pub rule_windows: Seq<(u64, Seq<char>, Seq<char>, Seq<char>, Seq<char>)>,
    pub all: Seq<(u64, Seq<char>, Seq<char>)>,
    pub config: ConfigView,
}

impl View for IpcContext {
    type V = ContextView;

    open spec fn view(&self) -> ContextView {
        ContextView {
            version: self.version@,
            uptime_secs: self.uptime_secs,
            current_sink_name: self.current_sink_name@,
            active_window: opt_str(self.active_window),
            daemon_manager: self.daemon_manager,
            rule_windows: entries_of(self.tracked_with_sinks@),
            all: triples_of(self.all_windows@),
            config: self.config@,
        }
    }
}

/// A request, as values.
pub enum RequestView {
    Status,
    ListWindows,
    TestRule { pattern: Seq<char> },
    SetSink { sink: Seq<char> },
    GetManagerInfo,
    Shutdown,
}

impl View for Request {
    type V = RequestView;

    open spec fn view(&self) -> RequestView {
        match self {
            Request::Status => RequestView::Status,
            Request::ListWindows => RequestView::ListWindows,
            Request::TestRule { pattern } => RequestView::TestRule { pattern: pattern@ },
            Request::SetSink { sink } => RequestView::SetSink { sink: sink@ },
            Request::GetManagerInfo => RequestView::GetManagerInfo,
            Request::Shutdown => RequestView::Shutdown,
        }
    }
}

/// How the daemon answers a request.
#[derive(Debug)]
pub enum IpcReply {
    /// Send this response.
    Respond(Response),
    /// Activate the sink `name`, then answer as [`set_sink_response`] says.
    Activate { name: String, desc: String },
    /// Send this response, then shut down.
    Shutdown(Response),
}

/// A reply, as values.
pub enum ReplyView {
    Respond(ResponseView),
    Activate { name: Seq<char>, desc: Seq<char> },
    Shutdown(ResponseView),
}

impl View for IpcReply {
    type V = ReplyView;

    open spec fn view(&self) -> ReplyView {
        match self {
            IpcReply::Respond(r) => ReplyView::Respond(r@),
            IpcReply::Activate { name, desc } => ReplyView::Activate { name: name@, desc: desc@ },
            IpcReply::Shutdown(r) => ReplyView::Shutdown(r@),
        }
    }
}

/// The sink of tracked window `id`: from the last tracked entry with that id.
pub open spec fn tracked_info(
    rule_windows: Seq<(u64, Seq<char>, Seq<char>, Seq<char>, Seq<char>)>,
    id: u64,
) -> Option<TrackedView>
    decreases rule_windows.len(),
{
    if rule_windows.len() == 0 {
        None
    } else if rule_windows.last().0 == id {
        Some(TrackedView { sink_name: rule_windows.last().3, sink_desc: rule_windows.last().4 })
    } else {
        tracked_info(rule_windows.drop_last(), id)
    }
}

/// Each open window with its tracking status.
pub open spec fn window_listing(c: ContextView) -> Seq<WindowInfoView> {
    c.all.map_values(
        |w: (u64, Seq<char>, Seq<char>)|
            WindowInfoView {
                id: Some(w.0),
                app_id: w.1,
                title: w.2,
                matched_on: None,
                tracking: tracked_info(c.rule_windows, w.0),
            },
    )
}

/// Which fields of a window a pattern matched, if any.
pub open spec fn matched_on(pattern: Seq<char>, app_id: Seq<char>, title: Seq<char>) -> Option<
    Seq<char>,
> {
    let a = pattern_matches(pattern, app_id);
    let t = pattern_matches(pattern, title);
    if a && t {
        Some("both"@)
    } else if a {
        Some("app_id"@)
    } else if t {
        Some("title"@)
    } else {
        None
    }
}

/// The open windows that a pattern matches, in order.
pub open spec fn rule_matches_in(all: Seq<(u64, Seq<char>, Seq<char>)>, pattern: Seq<char>) -> Seq<
    WindowInfoView,
>
    decreases all.len(),
{
    if all.len() == 0 {
        Seq::empty()
    } else {
        let rest = rule_matches_in(all.drop_last(), pattern);
        let w = all.last();
        match matched_on(pattern, w.1, w.2) {
            Some(m) => rest.push(
                WindowInfoView { id: Some(w.0), app_id: w.1, title: w.2, matched_on: Some(m), tracking: None },
            ),
            None => rest,
        }
    }
}

/// The answer to a request.
pub open spec fn reply_to(c: ContextView, r: RequestView) -> ReplyView {
    match r {
        RequestView::Status => ReplyView::Respond(
            ResponseView::Status {
                version: c.version,
                uptime_secs: c.uptime_secs,
                current_sink: desc_for(c.config, c.current_sink_name),
                active_window: c.active_window,
                tracked_windows: c.rule_windows.len() as usize,
            },
        ),
        RequestView::ListWindows => ReplyView::Respond(
            ResponseView::Windows { windows: window_listing(c) },
        ),
        RequestView::TestRule { pattern } => match regex_new(pattern) {
            Err(m) => ReplyView::Respond(
                ResponseView::Error { message: "Invalid regex pattern: "@ + m },
            ),
            Ok(_) => ReplyView::Respond(
                ResponseView::RuleMatches { pattern, matches: rule_matches_in(c.all, pattern) },
            ),
        },
        RequestView::SetSink { sink } => match resolve_index(c.config.sinks, sink) {
            Some(i) => ReplyView::Activate {
                name: c.config.sinks[i].name,
                desc: c.config.sinks[i].desc,
            },
            None => ReplyView::Respond(
                ResponseView::Error {
                    message: "Unknown sink '"@ + sink + "'. Available: ["@ + numbered_list(
                        sink_descs(c.config.sinks),
                        c.config.sinks.len(),
                    ) + "]"@,
                },
            ),
        },
        RequestView::GetManagerInfo => ReplyView::Respond(
            ResponseView::ManagerInfo { daemon_manager: c.daemon_manager },
        ),
        RequestView::Shutdown => ReplyView::Shutdown(
            ResponseView::Success { message: "Daemon shutting down..."@ },
        ),
    }
}

/// The answer after activating a sink on request: success, or the failure's text.
pub open spec fn set_sink_answer(desc: Seq<char>, outcome: Result<(), Seq<char>>) -> ResponseView {
    match outcome {
        Ok(_) => ResponseView::Success { message: "Switched to sink: "@ + desc },
        Err(e) => ResponseView::Error { message: "Failed to activate sink '"@ + desc + "': "@ + e },
    }
}

/// The answer after activating a sink on request.
pub fn set_sink_response(desc: &str, outcome: Result<(), String>) -> (r: Response)
    ensures
        r@ == set_sink_answer(
            desc@,
            match outcome {
                Ok(_) => Ok(()),
                Err(e) => Err(e@),
            },
        ),
{
    match outcome {
        Ok(()) => Response::Success { message: append(own("Switched to sink: "), desc) },
        Err(e) => {
            let s = own("Failed to activate sink '");
            let s = append(s, desc);
            let s = append(s, "': ");
            Response::Error { message: append(s, e.as_str()) }
        },
    }
}

/// Answer a request from the daemon's state at the time of the request.
pub fn handle_ipc_request(ctx: &IpcContext, request: Request) -> (r: IpcReply)
    ensures
        r@ == reply_to(ctx@, request@),
{
    match request {
        Request::Status => {
            let current_sink = ctx.config.desc_or_name(ctx.current_sink_name.as_str());
            let active_window = match &ctx.active_window {
                Some(a) => Some(a.clone()),
                None => None,
            };
            IpcReply::Respond(
                Response::Status {
                    version: ctx.version.clone(),
                    uptime_secs: ctx.uptime_secs,
                    current_sink,
                    active_window,
                    tracked_windows: ctx.tracked_with_sinks.len(),
                },
            )
        },
        Request::ListWindows => IpcReply::Respond(Response::Windows { windows: list_windows(ctx) }),
        Request::TestRule { pattern } => match check_pattern(pattern.as_str()) {
            Err(e) => IpcReply::Respond(
                Response::Error { message: append(own("Invalid regex pattern: "), e.as_str()) },
            ),
            Ok(()) => {
                let matches = test_rule_matches(ctx, pattern.as_str());
                IpcReply::Respond(Response::RuleMatches { pattern, matches })
            },
        },
        Request::SetSink { sink } => match ctx.config.resolve_sink(sink.as_str()) {
            Some(target) => IpcReply::Activate {
                name: target.name.clone(),
                desc: target.desc.clone(),
            },
            None => {
                let s = own("Unknown sink '");
                let s = append(s, sink.as_str());
                let s = append(s, "'. Available: [");
                let s = append(s, ctx.config.available_sinks().as_str());
                IpcReply::Respond(Response::Error { message: append(s, "]") })
            },
        },
        Request::GetManagerInfo => IpcReply::Respond(
            Response::ManagerInfo { daemon_manager: ctx.daemon_manager },
        ),
        Request::Shutdown => IpcReply::Shutdown(
            Response::Success { message: own("Daemon shutting down...") },
        ),
    }
}

/// The sink of tracked window `id`, from the last tracked entry with that id.
fn find_tracked(ctx: &IpcContext, id: u64) -> (r: Option<TrackedInfo>)
    ensures
        match tracked_info(ctx@.rule_windows, id) {
            Some(t) => r matches Some(x) && x.sink_name@ == t.sink_name && x.sink_desc@
                == t.sink_desc,
            None => r is None,
        },
{
    let ghost tr = ctx@.rule_windows;
    let mut k: usize = ctx.tracked_with_sinks.len();
    assert(tr.take(k as int) =~= tr);
    while k > 0
        invariant
            k <= ctx.tracked_with_sinks@.len(),
            tr == entries_of(ctx.tracked_with_sinks@),
            tracked_info(tr, id) == tracked_info(tr.take(k as int), id),
        decreases k,
    {
        assert(tr.take(k as int).drop_last() =~= tr.take(k - 1));
        let e = &ctx.tracked_with_sinks[k - 1];
        assert(tr.take(k as int).last() == tr[k - 1]);
        if e.0 == id {
            return Some(TrackedInfo { sink_name: e.3.clone(), sink_desc: e.4.clone() });
        }
        k = k - 1;
    }
    None
}

/// Every open window with its tracking status.
fn list_windows(ctx: &IpcContext) -> (r: Vec<WindowInfo>)
    ensures
        infos_view(r@) == window_listing(ctx@),
{
    let ghost c = ctx@;
    let mut out: Vec<WindowInfo> = Vec::new();
    let mut i: usize = 0;
    while i < ctx.all_windows.len()
        invariant
            c == ctx@,
            i <= ctx.all_windows@.len(),
            infos_view(out@) == window_listing(c).take(i as int),
        decreases ctx.all_windows@.len() - i,
    {
        let w = &ctx.all_windows[i];
        let tracking = find_tracked(ctx, w.0);
        let info = WindowInfo {
            id: Some(w.0),
            app_id: w.1.clone(),
            title: w.2.clone(),
            matched_on: None,
            tracking,
        };
        let ghost before = out@;
        out.push(info);
        assert(infos_view(out@) =~= infos_view(before).push(out@.last()@));
        assert(window_listing(c).take(i + 1) =~= window_listing(c).take(i as int).push(
            window_listing(c)[i as int],
        ));
        i = i + 1;
    }
    assert(window_listing(c).take(ctx.all_windows@.len() as int) =~= window_listing(c));
    out
}

/// The open windows that a valid pattern matches.
fn test_rule_matches(ctx: &IpcContext, pattern: &str) -> (r: Vec<WindowInfo>)
    ensures
        infos_view(r@) == rule_matches_in(ctx@.all, pattern@),
{
    let ghost all = ctx@.all;
    let mut out: Vec<WindowInfo> = Vec::new();
    let mut i: usize = 0;
    while i < ctx.all_windows.len()
        invariant
            all == triples_of(ctx.all_windows@),
            i <= ctx.all_windows@.len(),
            infos_view(out@) == rule_matches_in(all.take(i as int), pattern@),
        decreases ctx.all_windows@.len() - i,
    {
        let w = &ctx.all_windows[i];
        assert(all.take(i + 1).drop_last() =~= all.take(i as int));
        assert(all.take(i + 1).last() == all[i as int]);
        let app_match = matches_text(pattern, w.1.as_str());
        let title_match = matches_text(pattern, w.2.as_str());
        if app_match || title_match {
            let m = if app_match && title_match {
                own("both")
            } else if app_match {
                own("app_id")
            } else {
                own("title")
            };
            let ghost before = out@;
            out.push(
                WindowInfo {
                    id: Some(w.0),
                    app_id: w.1.clone(),
                    title: w.2.clone(),
                    matched_on: Some(m),
                    tracking: None,
                },
            );
            assert(infos_view(out@) =~= infos_view(before).push(out@.last()@));
        }
        i = i + 1;
    }
    assert(all.take(ctx.all_windows@.len() as int) =~= all);
    out
}

/// The `"<trigger>: <sink>"` label of the most recently tracked window.
pub open spec fn active_window_label(s: StateView) -> Option<Seq<char>> {
    match winner(s.active, false) {
        Some(id) => Some(s.active[id].trigger_desc + ": "@ + s.active[id].sink_name),
        None => None,
    }
}

/// A snapshot of the daemon's state for answering one request.
pub fn context_from_state(state: &State, version: String, uptime_secs: u64) -> (c: IpcContext)
    ensures
        c@.version == version@,
        c@.uptime_secs == uptime_secs,
        c@.current_sink_name == state@.current_sink,
        c@.active_window == active_window_label(state@),
        c@.daemon_manager == state@.manager,
        c@.config == state@.config,
        exists|ids: Seq<u64>|
            enumerates(state@.active.dom(), ids) && c@.rule_windows == ids.map_values(
                |id: u64| tracked_entry(state@, id),
            ),
        exists|ids: Seq<u64>|
            enumerates(state@.all.dom(), ids) && c@.all == ids.map_values(
                |id: u64| (id, state@.all[id].0, state@.all[id].1),
            ),
{
    let active_window = match state.get_most_recent_window() {
        Some(w) => {
            let s = append(w.trigger_desc.clone(), ": ");
            Some(append(s, w.sink_name.as_str()))
        },
        None => None,
    };
    IpcContext {
        version,
        uptime_secs,
        current_sink_name: state.current_sink().clone(),
        active_window,
        daemon_manager: state.manager(),
        tracked_with_sinks: state.get_tracked_windows_with_sinks(),
        all_windows: state.get_all_windows(),
        config: state.shared_config(),
    }
}

// ============================================================================
// Startup
// ============================================================================

/// A failure of the daemon's own logic.
#[derive(Debug)]
pub enum DaemonError {
    /// No sink is marked default.
    NoDefaultSink,
}

impl DaemonError {
    /// The human-readable text of this error.
    pub fn message(&self) -> (s: String)
        ensures
            s@ == "No default sink configured"@,
    {
        own("No default sink configured")
    }
}

/// The sink to activate when the daemon starts: with `default_on_startup`, the
/// default sink, unless it is already the current one.
pub fn startup_switch(state: &State) -> (r: Result<Option<usize>, DaemonError>)
    ensures
        !state@.config.settings.default_on_startup ==> r matches Ok(None),
        state@.config.settings.default_on_startup ==> match first_default(state@.config.sinks, 0) {
            None => r matches Err(DaemonError::NoDefaultSink),
            Some(d) => if state@.config.sinks[d].name == state@.current_sink {
                r matches Ok(None)
            } else {
                r matches Ok(Some(i)) && i == d
            },
        },
{
    let config = state.config_ref();
    if !config.settings.default_on_startup {
        return Ok(None);
    }
    match config.default_sink_index() {
        None => Err(DaemonError::NoDefaultSink),
        Some(d) => {
            proof {
                crate::config::lemma_first_default_bounds(config@.sinks, 0);
                assert(config@.sinks[d as int] == config.sinks@[d as int]@);
            }
            if str_eq(config.sinks[d].name.as_str(), state.current_sink().as_str()) {
                Ok(None)
            } else {
                Ok(Some(d))
            }
        },
    }
}


/// A set-sink request resolves its reference exactly as the configuration does
/// (one-based position, else description or node name): a reference that names
/// sink `i` activates sink `i`, with its node name and description, and any
/// other reference is answered with an error and activates nothing.
pub proof fn lemma_set_sink_resolves(c: ContextView, sink: Seq<char>)
    ensures
        resolve_index(c.config.sinks, sink) matches Some(i) ==> reply_to(
            c,
            RequestView::SetSink { sink },
        ) == (ReplyView::Activate { name: c.config.sinks[i].name, desc: c.config.sinks[i].desc }),
        resolve_index(c.config.sinks, sink) is None ==> reply_to(c, RequestView::SetSink { sink })
            matches ReplyView::Respond(ResponseView::Error { .. }),
{
}


/// A set-sink request by position: the decimal numeral of `k`, for a `k`
/// between one and the number of sinks, activates the `k`-th sink.
pub proof fn lemma_set_sink_by_position(c: ContextView, k: nat)
    requires
        1 <= k <= c.config.sinks.len(),
        k <= usize::MAX,
    ensures
        reply_to(c, RequestView::SetSink { sink: decimal(k) }) == (ReplyView::Activate {
            name: c.config.sinks[k - 1].name,
            desc: c.config.sinks[k - 1].desc,
        }),
{
    crate::config::lemma_resolve_by_position(c.config.sinks, k);
    lemma_set_sink_resolves(c, decimal(k));
}

} // verus!
