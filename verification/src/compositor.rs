//! Window events from a Wayland compositor, and the bookkeeping that turns the
//! compositor's per-window protocol messages into those events.

use vstd::prelude::*;

use std::collections::HashMap;

verus! {

/// Window event from a compositor.
#[derive(Clone, Debug)]
pub enum WindowEvent {
    /// A new window was opened.
    Opened { id: u64, app_id: String, title: String },
    /// An existing window's properties changed.
    Changed { id: u64, app_id: String, title: String },
    /// A window was closed.
    Closed { id: u64 },
}

/// A window event, as values.
pub enum WindowEventView {
    Opened { id: u64, app_id: Seq<char>, title: Seq<char> },
    Changed { id: u64, app_id: Seq<char>, title: Seq<char> },
    Closed { id: u64 },
}

impl View for WindowEvent {
    type V = WindowEventView;

    open spec fn view(&self) -> WindowEventView {
        match self {
            WindowEvent::Opened { id, app_id, title } => WindowEventView::Opened {
                id: *id,
                app_id: app_id@,
                title: title@,
            },
            WindowEvent::Changed { id, app_id, title } => WindowEventView::Changed {
                id: *id,
                app_id: app_id@,
                title: title@,
            },
            WindowEvent::Closed { id } => WindowEventView::Closed { id: *id },
        }
    }
}

broadcast use vstd::std_specs::hash::group_hash_axioms;

/// The value of an optional window event.
pub open spec fn opt_event(e: Option<WindowEvent>) -> Option<WindowEventView> {
    match e {
        Some(x) => Some(x@),
        None => None,
    }
}

// ============================================================================
// wlr-foreign-toplevel-management
// ============================================================================

/// A toplevel window being tracked.
struct ToplevelWindow {
    /// Window id (the handle's protocol id).
    id: u64,
    app_id: String,
    title: String,
    /// Whether the first `done` event has arrived (and `Opened` was sent).
    done_received: bool,
}

/// A toplevel window, as values.
pub struct ToplevelView {
    pub id: u64,
    pub app_id: Seq<char>,
    pub title: Seq<char>,
    pub done_received: bool,
}

impl View for ToplevelWindow {
    type V = ToplevelView;

    closed spec fn view(&self) -> ToplevelView {
        ToplevelView {
            id: self.id,
            app_id: self.app_id@,
            title: self.title@,
            done_received: self.done_received,
        }
    }
}

/// What a toplevel handle reports.
#[derive(Debug)]
pub enum HandleEvent {
    /// The window's title.
    Title(String),
    /// The window's application id.
    AppId(String),
    /// All properties have been sent.
    Done,
    /// The window was closed.
    Closed,
    /// Anything else (state, outputs).
    Other,
}

/// A handle report, as values.
pub enum HandleEventView {
    Title(Seq<char>),
    AppId(Seq<char>),
    Done,
    Closed,
    Other,
}

impl View for HandleEvent {
    type V = HandleEventView;

    open spec fn view(&self) -> HandleEventView {
        match self {
            HandleEvent::Title(t) => HandleEventView::Title(t@),
            HandleEvent::AppId(a) => HandleEventView::AppId(a@),
            HandleEvent::Done => HandleEventView::Done,
            HandleEvent::Closed => HandleEventView::Closed,
            HandleEvent::Other => HandleEventView::Other,
        }
    }
}

/// The toplevel windows known through the wlr-foreign-toplevel-management
/// protocol, by handle. The ext-foreign-toplevel-list protocol reports windows
/// in the same way (a `toplevel` announcement, then `title`, `app_id`, `done`
/// and `closed` on the handle), and is tracked with the same state.
pub struct WlrToplevelState {
    toplevels: HashMap<u32, ToplevelWindow>,
}

impl View for WlrToplevelState {
    type V = Map<u32, ToplevelView>;

    closed spec fn view(&self) -> Map<u32, ToplevelView> {
        self.toplevels@.map_values(|w: ToplevelWindow| w@)
    }
}

/// A freshly announced toplevel: no properties yet, no `done` yet.
pub open spec fn fresh_toplevel(handle: u32) -> ToplevelView {
    ToplevelView { id: handle as u64, app_id: Seq::empty(), title: Seq::empty(), done_received: false }
}

/// What a report on `handle` does to the known toplevels, and the window event
/// it gives: the first `done` opens the window, later ones change it, and a
/// close is reported only for a window that was opened. Reports on unknown
/// handles change nothing.
pub open spec fn handle_step(s: Map<u32, ToplevelView>, handle: u32, e: HandleEventView) -> (
    Map<u32, ToplevelView>,
    Option<WindowEventView>,
) {
    if !s.contains_key(handle) {
        (s, None)
    } else {
        let w = s[handle];
        match e {
            HandleEventView::Title(t) => (s.insert(handle, ToplevelView { title: t, ..w }), None),
            HandleEventView::AppId(a) => (s.insert(handle, ToplevelView { app_id: a, ..w }), None),
            HandleEventView::Done => if w.done_received {
                (s, Some(WindowEventView::Changed { id: w.id, app_id: w.app_id, title: w.title }))
            } else {
                (
                    s.insert(handle, ToplevelView { done_received: true, ..w }),
                    Some(WindowEventView::Opened { id: w.id, app_id: w.app_id, title: w.title }),
                )
            },
            HandleEventView::Closed => (
                s.remove(handle),
                if w.done_received {
                    Some(WindowEventView::Closed { id: w.id })
                } else {
                    None
                },
            ),
            HandleEventView::Other => (s, None),
        }
    }
}

impl WlrToplevelState {
    /// No toplevels known yet.
    pub fn new() -> (s: WlrToplevelState)
        ensures
            s@ == Map::<u32, ToplevelView>::empty(),
    {
        let s = WlrToplevelState { toplevels: HashMap::new() };
        assert(s@ =~= Map::<u32, ToplevelView>::empty());
        s
    }

    /// The manager announced a new toplevel handle.
    pub fn toplevel(&mut self, handle: u32)
        ensures
            final(self)@ == old(self)@.insert(handle, fresh_toplevel(handle)),
    {
        let w = ToplevelWindow {
            id: handle as u64,
            app_id: String::new(),
            title: String::new(),
            done_received: false,
        };
        let ghost gw = w;
        self.toplevels.insert(handle, w);
        assert(gw@ == fresh_toplevel(handle));
        assert(self@ =~= old(self)@.insert(handle, fresh_toplevel(handle)));
    }

    /// A report on a toplevel handle: update the window, and give the window event
    /// to send, if any.
    pub fn handle_event(&mut self, handle: u32, event: HandleEvent) -> (r: Option<WindowEvent>)
        ensures
            final(self)@ == handle_step(old(self)@, handle, event@).0,
            opt_event(r) == handle_step(old(self)@, handle, event@).1,
    {
        let w = match self.toplevels.remove(&handle) {
            Some(w) => w,
            None => {
                return None;
            },
        };
        let ghost s0 = old(self)@;
        assert(self@ =~= s0.remove(handle));
        match event {
            HandleEvent::Title(t) => {
                let ghost nw = ToplevelView { title: t@, ..w@ };
                self.toplevels.insert(
                    handle,
                    ToplevelWindow { id: w.id, app_id: w.app_id, title: t, done_received: w.done_received },
                );
                assert(self@ =~= s0.insert(handle, nw));
                None
            },
            HandleEvent::AppId(a) => {
                let ghost nw = ToplevelView { app_id: a@, ..w@ };
                self.toplevels.insert(
                    handle,
                    ToplevelWindow { id: w.id, app_id: a, title: w.title, done_received: w.done_received },
                );
                assert(self@ =~= s0.insert(handle, nw));
                None
            },
            HandleEvent::Done => {
                let ev = if w.done_received {
                    WindowEvent::Changed { id: w.id, app_id: w.app_id.clone(), title: w.title.clone() }
                } else {
                    WindowEvent::Opened { id: w.id, app_id: w.app_id.clone(), title: w.title.clone() }
                };
                let ghost nw = ToplevelView { done_received: true, ..w@ };
                let ghost was_done = w.done_received;
                let ghost ow = w@;
                self.toplevels.insert(
                    handle,
                    ToplevelWindow { id: w.id, app_id: w.app_id, title: w.title, done_received: true },
                );
                proof {
                    if was_done {
                        assert(ow == nw);
                        assert(self@ =~= s0);
                    } else {
                        assert(self@ =~= s0.insert(handle, nw));
                    }
                }
                Some(ev)
            },
            HandleEvent::Closed => {
                if w.done_received {
                    Some(WindowEvent::Closed { id: w.id })
                } else {
                    None
                }
            },
            HandleEvent::Other => {
                let ghost ow = w@;
                self.toplevels.insert(handle, w);
                assert(self@ =~= s0);
                None
            },
        }
    }
}

/// Windows are reported in protocol order: a window is changed or closed only
/// after it was opened, opened only once while it lives, and every report keeps
/// the other windows as they were.
pub proof fn lemma_events_follow_opening(s: Map<u32, ToplevelView>, handle: u32, e: HandleEventView)
    ensures
        ({
            let (s2, out) = handle_step(s, handle, e);
            &&& out matches Some(WindowEventView::Opened { .. }) ==> s.contains_key(handle)
                && !s[handle].done_received && s2[handle].done_received
            &&& out matches Some(WindowEventView::Changed { .. }) ==> s.contains_key(handle)
                && s[handle].done_received
            &&& out matches Some(WindowEventView::Closed { .. }) ==> s.contains_key(handle)
                && s[handle].done_received && !s2.contains_key(handle)
            &&& forall|k: u32| k != handle ==> (s2.contains_key(k) == s.contains_key(k)) && (
            #[trigger] s.contains_key(k) ==> s2[k] == s[k])
            &&& s2.contains_key(handle) && s.contains_key(handle) && s[handle].done_received
                ==> s2[handle].done_received
        }),
{
}


// ============================================================================
// KDE Plasma window management
// ============================================================================

/// A Plasma window being tracked.
struct PlasmaWindow {
    /// Window id (the id the window manager announced).
    id: u64,
    app_id: String,
    title: String,
    /// Whether the initial state has arrived (and `Opened` was sent).
    ready: bool,
}

/// A Plasma window, as values.
pub struct PlasmaWindowView {
    pub id: u64,
    pub app_id: Seq<char>,
    pub title: Seq<char>,
    pub ready: bool,
}

impl View for PlasmaWindow {
    type V = PlasmaWindowView;

    closed spec fn view(&self) -> PlasmaWindowView {
        PlasmaWindowView { id: self.id, app_id: self.app_id@, title: self.title@, ready: self.ready }
    }
}

/// What a Plasma window reports.
#[derive(Debug)]
pub enum PlasmaEvent {
    /// The window's title changed.
    TitleChanged(String),
    /// The window's application id changed.
    AppIdChanged(String),
    /// All initial properties have been sent.
    InitialState,
    /// The window was unmapped (closed).
    Unmapped,
    /// Anything else.
    Other,
}

/// A Plasma window report, as values.
pub enum PlasmaEventView {
    TitleChanged(Seq<char>),
    AppIdChanged(Seq<char>),
    InitialState,
    Unmapped,
    Other,
}

impl View for PlasmaEvent {
    type V = PlasmaEventView;

    open spec fn view(&self) -> PlasmaEventView {
        match self {
            PlasmaEvent::TitleChanged(t) => PlasmaEventView::TitleChanged(t@),
            PlasmaEvent::AppIdChanged(a) => PlasmaEventView::AppIdChanged(a@),
            PlasmaEvent::InitialState => PlasmaEventView::InitialState,
            PlasmaEvent::Unmapped => PlasmaEventView::Unmapped,
            PlasmaEvent::Other => PlasmaEventView::Other,
        }
    }
}

/// The windows known through the KDE Plasma window management protocol.
pub struct PlasmaState {
    windows: HashMap<u32, PlasmaWindow>,
}

impl View for PlasmaState {
    type V = Map<u32, PlasmaWindowView>;

    closed spec fn view(&self) -> Map<u32, PlasmaWindowView> {
        self.windows@.map_values(|w: PlasmaWindow| w@)
    }
}

/// A freshly announced Plasma window.
pub open spec fn fresh_plasma_window(window_id: u32) -> PlasmaWindowView {
    PlasmaWindowView { id: window_id as u64, app_id: Seq::empty(), title: Seq::empty(), ready: false }
}

/// What a report on `handle` does to the known Plasma windows, and the window
/// event it gives: the initial state opens the window, property changes of a
/// window whose initial state has arrived change it, and unmapping closes it.
/// Reports on unknown handles change nothing.
pub open spec fn plasma_step(s: Map<u32, PlasmaWindowView>, handle: u32, e: PlasmaEventView) -> (
    Map<u32, PlasmaWindowView>,
    Option<WindowEventView>,
) {
    if !s.contains_key(handle) {
        (s, None)
    } else {
        let w = s[handle];
        match e {
            PlasmaEventView::TitleChanged(t) => (
                s.insert(handle, PlasmaWindowView { title: t, ..w }),
                if w.ready {
                    Some(WindowEventView::Changed { id: w.id, app_id: w.app_id, title: t })
                } else {
                    None
                },
            ),
            PlasmaEventView::AppIdChanged(a) => (
                s.insert(handle, PlasmaWindowView { app_id: a, ..w }),
                if w.ready {
                    Some(WindowEventView::Changed { id: w.id, app_id: a, title: w.title })
                } else {
                    None
                },
            ),
            PlasmaEventView::InitialState => (
                s.insert(handle, PlasmaWindowView { ready: true, ..w }),
                Some(WindowEventView::Opened { id: w.id, app_id: w.app_id, title: w.title }),
            ),
            PlasmaEventView::Unmapped => (s.remove(handle), Some(WindowEventView::Closed { id: w.id })),
            PlasmaEventView::Other => (s, None),
        }
    }
}

impl PlasmaState {
    /// No windows known yet.
    pub fn new() -> (s: PlasmaState)
        ensures
            s@ == Map::<u32, PlasmaWindowView>::empty(),
    {
        let s = PlasmaState { windows: HashMap::new() };
        assert(s@ =~= Map::<u32, PlasmaWindowView>::empty());
        s
    }

    /// The window manager announced a new window.
    pub fn window(&mut self, window_id: u32)
        ensures
            final(self)@ == old(self)@.insert(window_id, fresh_plasma_window(window_id)),
    {
        let w = PlasmaWindow { id: window_id as u64, app_id: String::new(), title: String::new(), ready: false };
        let ghost gw = w;
        self.windows.insert(window_id, w);
        assert(gw@ == fresh_plasma_window(window_id));
        assert(self@ =~= old(self)@.insert(window_id, fresh_plasma_window(window_id)));
    }

    /// A report on a window: update it, and give the window event to send, if any.
    pub fn handle_event(&mut self, handle: u32, event: PlasmaEvent) -> (r: Option<WindowEvent>)
        ensures
            final(self)@ == plasma_step(old(self)@, handle, event@).0,
            opt_event(r) == plasma_step(old(self)@, handle, event@).1,
    {
        let w = match self.windows.remove(&handle) {
            Some(w) => w,
            None => {
                return None;
            },
        };
        let ghost s0 = old(self)@;
        assert(self@ =~= s0.remove(handle));
        match event {
            PlasmaEvent::TitleChanged(t) => {
                let ghost nw = PlasmaWindowView { title: t@, ..w@ };
                let ev = if w.ready {
                    Some(WindowEvent::Changed { id: w.id, app_id: w.app_id.clone(), title: t.clone() })
                } else {
                    None
                };
                self.windows.insert(
                    handle,
                    PlasmaWindow { id: w.id, app_id: w.app_id, title: t, ready: w.ready },
                );
                assert(self@ =~= s0.insert(handle, nw));
                ev
            },
            PlasmaEvent::AppIdChanged(a) => {
                let ghost nw = PlasmaWindowView { app_id: a@, ..w@ };
                let ev = if w.ready {
                    Some(WindowEvent::Changed { id: w.id, app_id: a.clone(), title: w.title.clone() })
                } else {
                    None
                };
                self.windows.insert(
                    handle,
                    PlasmaWindow { id: w.id, app_id: a, title: w.title, ready: w.ready },
                );
                assert(self@ =~= s0.insert(handle, nw));
                ev
            },
            PlasmaEvent::InitialState => {
                let ev = WindowEvent::Opened { id: w.id, app_id: w.app_id.clone(), title: w.title.clone() };
                let ghost nw = PlasmaWindowView { ready: true, ..w@ };
                self.windows.insert(
                    handle,
                    PlasmaWindow { id: w.id, app_id: w.app_id, title: w.title, ready: true },
                );
                assert(self@ =~= s0.insert(handle, nw));
                Some(ev)
            },
            PlasmaEvent::Unmapped => Some(WindowEvent::Closed { id: w.id }),
            PlasmaEvent::Other => {
                let ghost ow = w@;
                self.windows.insert(handle, w);
                assert(self@ =~= s0);
                None
            },
        }
    }
}

/// Plasma windows are reported in order: a window is changed only after its
/// initial state arrived, opened once its initial state arrives, closed only if
/// it was known (and then forgotten), and every report keeps the other windows
/// as they were.
pub proof fn lemma_plasma_events_in_order(s: Map<u32, PlasmaWindowView>, handle: u32, e: PlasmaEventView)
    ensures
        ({
            let (s2, out) = plasma_step(s, handle, e);
            &&& out matches Some(WindowEventView::Opened { .. }) ==> s.contains_key(handle)
                && s2[handle].ready
            &&& out matches Some(WindowEventView::Changed { .. }) ==> s.contains_key(handle)
                && s[handle].ready
            &&& out matches Some(WindowEventView::Closed { .. }) ==> s.contains_key(handle)
                && !s2.contains_key(handle)
            &&& forall|k: u32| k != handle ==> (s2.contains_key(k) == s.contains_key(k)) && (
            #[trigger] s.contains_key(k) ==> s2[k] == s[k])
        }),
{
}

// ============================================================================
// Niri (event stream)
// ============================================================================

/// An event of Niri's event stream, as far as window tracking reads it.
pub enum NiriEvent {
    WindowOpenedOrChanged { id: u64, app_id: String, title: String },
    WindowClosed { id: u64 },
    Other,
}

/// A Niri event, as values.
pub enum NiriEventView {
    WindowOpenedOrChanged { id: u64, app_id: Seq<char>, title: Seq<char> },
    WindowClosed { id: u64 },
    Other,
}

impl View for NiriEvent {
    type V = NiriEventView;

    open spec fn view(&self) -> NiriEventView {
        match self {
            NiriEvent::WindowOpenedOrChanged { id, app_id, title } => {
                NiriEventView::WindowOpenedOrChanged { id: *id, app_id: app_id@, title: title@ }
            },
            NiriEvent::WindowClosed { id } => NiriEventView::WindowClosed { id: *id },
            NiriEvent::Other => NiriEventView::Other,
        }
    }
}

/// The window event that a Niri event gives: Niri reports opening and changing
/// alike, and both are passed on as an opening (the daemon's state tells them
/// apart); other events give none.
pub open spec fn niri_event(e: NiriEventView) -> Option<WindowEventView> {
    match e {
        NiriEventView::WindowOpenedOrChanged { id, app_id, title } => Some(
            WindowEventView::Opened { id, app_id, title },
        ),
        NiriEventView::WindowClosed { id } => Some(WindowEventView::Closed { id }),
        NiriEventView::Other => None,
    }
}

/// Turn a Niri event into a window event, if it gives one.
pub fn niri_window_event(event: NiriEvent) -> (r: Option<WindowEvent>)
    ensures
        opt_event(r) == niri_event(event@),
{
    match event {
        NiriEvent::WindowOpenedOrChanged { id, app_id, title } => Some(WindowEvent::Opened { id, app_id, title }),
        NiriEvent::WindowClosed { id } => Some(WindowEvent::Closed { id }),
        NiriEvent::Other => None,
    }
}

// ============================================================================
// Sway (i3-ipc window events)
// ============================================================================

/// X11 window properties (XWayland windows only).
#[derive(Debug)]
pub struct WindowProperties {
    pub class: Option<String>,
    pub instance: Option<String>,
    pub title: Option<String>,
}

/// Container (window) properties in a Sway window event.
#[derive(Debug)]
pub struct SwayContainer {
    pub id: i64,
    pub name: Option<String>,
    pub app_id: Option<String>,
    pub window_properties: Option<WindowProperties>,
}

/// The characters of an optional string, or nothing.
pub open spec fn or_empty(o: Option<Seq<char>>) -> Seq<char> {
    match o {
        Some(s) => s,
        None => Seq::empty(),
    }
}

/// The effective application id of a container: its native `app_id`, else the
/// X11 class, else the X11 instance, else empty.
pub open spec fn sway_app_id(c: SwayContainer) -> Seq<char> {
    match c.app_id {
        Some(a) => a@,
        None => match c.window_properties {
            Some(p) => match p.class {
                Some(cl) => cl@,
                None => or_empty(crate::config::opt_str(p.instance)),
            },
            None => Seq::empty(),
        },
    }
}

/// The title of a container: its name, else the X11 title, else empty.
pub open spec fn sway_title(c: SwayContainer) -> Seq<char> {
    match c.name {
        Some(n) => n@,
        None => match c.window_properties {
            Some(p) => or_empty(crate::config::opt_str(p.title)),
            None => Seq::empty(),
        },
    }
}

impl SwayContainer {
    /// The effective `app_id` (native Wayland) or class (XWayland).
    pub fn get_app_id(&self) -> (r: String)
        ensures
            r@ == sway_app_id(*self),
    {
        if let Some(app_id) = &self.app_id {
            return app_id.clone();
        }
        if let Some(props) = &self.window_properties {
            if let Some(class) = &props.class {
                return class.clone();
            }
            if let Some(instance) = &props.instance {
                return instance.clone();
            }
        }
        String::new()
    }

    /// The window title.
    pub fn get_title(&self) -> (r: String)
        ensures
            r@ == sway_title(*self),
    {
        if let Some(name) = &self.name {
            return name.clone();
        }
        if let Some(props) = &self.window_properties {
            if let Some(title) = &props.title {
                return title.clone();
            }
        }
        String::new()
    }
}

/// The window event that a Sway window event gives: `new` opens, `close` closes,
/// `title` changes; other changes (focus among them) give none.
pub open spec fn sway_event(change: Seq<char>, c: SwayContainer) -> Option<WindowEventView> {
    let id = c.id as u64;
    if change == "new"@ {
        Some(WindowEventView::Opened { id, app_id: sway_app_id(c), title: sway_title(c) })
    } else if change == "close"@ {
        Some(WindowEventView::Closed { id })
    } else if change == "title"@ {
        Some(WindowEventView::Changed { id, app_id: sway_app_id(c), title: sway_title(c) })
    } else {
        None
    }
}

/// Turn a Sway window event into a window event, if it gives one.
pub fn sway_window_event(change: &str, container: &SwayContainer) -> (r: Option<WindowEvent>)
    ensures
        opt_event(r) == sway_event(change@, *container),
{
    let id = container.id as u64;
    if crate::text::str_eq(change, "new") {
        Some(WindowEvent::Opened { id, app_id: container.get_app_id(), title: container.get_title() })
    } else if crate::text::str_eq(change, "close") {
        Some(WindowEvent::Closed { id })
    } else if crate::text::str_eq(change, "title") {
        Some(WindowEvent::Changed { id, app_id: container.get_app_id(), title: container.get_title() })
    } else {
        None
    }
}


// ============================================================================
// Sway i3-ipc framing
// ============================================================================

/// The i3-ipc message type that subscribes to events.
pub const IPC_SUBSCRIBE: u32 = 2;

/// The i3-ipc event type of window events (high bit set).
pub const IPC_EVENT_WINDOW: u32 = 0x80000003;

/// The magic bytes that open every i3-ipc message: `i3-ipc`.
pub open spec fn ipc_magic() -> Seq<u8> {
    seq![105u8, 51u8, 45u8, 105u8, 112u8, 99u8]
}

/// The four bytes of a 32-bit number in the machine's byte order.
pub open spec fn u32_bytes(n: nat, little_endian: bool) -> Seq<u8> {
    if little_endian {
        seq![(n % 256) as u8, (n / 256 % 256) as u8, (n / 65536 % 256) as u8, (n / 16777216 % 256) as u8]
    } else {
        seq![(n / 16777216 % 256) as u8, (n / 65536 % 256) as u8, (n / 256 % 256) as u8, (n % 256) as u8]
    }
}

/// The number that four bytes in the machine's byte order stand for.
pub open spec fn u32_value(b: Seq<u8>, little_endian: bool) -> nat {
    if little_endian {
        (b[3] as nat) * 16777216 + (b[2] as nat) * 65536 + (b[1] as nat) * 256 + (b[0] as nat)
    } else {
        (b[0] as nat) * 16777216 + (b[1] as nat) * 65536 + (b[2] as nat) * 256 + (b[3] as nat)
    }
}

/// An i3-ipc message: magic, payload length, message type, payload.
pub open spec fn ipc_message(msg_type: u32, payload: Seq<u8>, little_endian: bool) -> Seq<u8> {
    ipc_magic() + u32_bytes(payload.len(), little_endian) + u32_bytes(msg_type as nat, little_endian)
        + payload
}

fn push_u32(out: &mut Vec<u8>, n: u32, little_endian: bool)
    ensures
        final(out)@ == old(out)@ + u32_bytes(n as nat, little_endian),
{
    let b0: u8 = (n % 256) as u8;
    let b1: u8 = (n / 256 % 256) as u8;
    let b2: u8 = (n / 65536 % 256) as u8;
    let b3: u8 = (n / 16777216 % 256) as u8;
    if little_endian {
        out.push(b0);
        out.push(b1);
        out.push(b2);
        out.push(b3);
    } else {
        out.push(b3);
        out.push(b2);
        out.push(b1);
        out.push(b0);
    }
    assert(final(out)@ =~= old(out)@ + u32_bytes(n as nat, little_endian));
}

/// Frame an i3-ipc message of type `msg_type` around `payload`, numbers in the
/// machine's byte order.
pub fn ipc_frame(msg_type: u32, payload: &[u8], little_endian: bool) -> (r: Vec<u8>)
    requires
        payload@.len() <= u32::MAX,
    ensures
        r@ == ipc_message(msg_type, payload@, little_endian),
{
    let mut out: Vec<u8> = Vec::new();
    out.push(105u8);
    out.push(51u8);
    out.push(45u8);
    out.push(105u8);
    out.push(112u8);
    out.push(99u8);
    assert(out@ =~= ipc_magic());
    push_u32(&mut out, payload.len() as u32, little_endian);
    push_u32(&mut out, msg_type, little_endian);
    let ghost head = out@;
    let mut i: usize = 0;
    while i < payload.len()
        invariant
            i <= payload@.len(),
            out@ == head + payload@.take(i as int),
        decreases payload@.len() - i,
    {
        out.push(payload[i]);
        assert(payload@.take(i + 1) =~= payload@.take(i as int).push(payload@[i as int]));
        i = i + 1;
    }
    assert(payload@.take(payload@.len() as int) =~= payload@);
    out
}

/// A malformed i3-ipc exchange.
#[derive(Debug)]
pub enum SwayIpcError {
    /// A message header does not open with the magic bytes.
    InvalidMagic,
    /// The reply to a subscription has another message type.
    UnexpectedResponse { msg_type: u32 },
    /// Sway refused the subscription.
    SubscribeFailed,
}

/// Read an i3-ipc message header: the payload length and the message type, or
/// an error when the magic bytes are wrong.
pub fn parse_ipc_header(header: &[u8; 14], little_endian: bool) -> (r: Result<(u32, u32), SwayIpcError>)
    ensures
        header@.take(6) == ipc_magic() ==> (r matches Ok((len, t)) && len == u32_value(
            header@.subrange(6, 10),
            little_endian,
        ) && t == u32_value(header@.subrange(10, 14), little_endian)),
        header@.take(6) != ipc_magic() ==> r matches Err(SwayIpcError::InvalidMagic),
{
    if !(header[0] == 105u8 && header[1] == 51u8 && header[2] == 45u8 && header[3] == 105u8
        && header[4] == 112u8 && header[5] == 99u8) {
        proof {
            if header@.take(6) == ipc_magic() {
                assert(header@.take(6)[0] == header@[0]);
                assert(header@.take(6)[5] == header@[5]);
            }
        }
        return Err(SwayIpcError::InvalidMagic);
    }
    assert(header@.take(6) =~= ipc_magic());
    let len = read_u32(header[6], header[7], header[8], header[9], little_endian);
    let t = read_u32(header[10], header[11], header[12], header[13], little_endian);
    assert(header@.subrange(6, 10) =~= seq![header@[6], header@[7], header@[8], header@[9]]);
    assert(header@.subrange(10, 14) =~= seq![header@[10], header@[11], header@[12], header@[13]]);
    Ok((len, t))
}

fn read_u32(b0: u8, b1: u8, b2: u8, b3: u8, little_endian: bool) -> (n: u32)
    ensures
        n == u32_value(seq![b0, b1, b2, b3], little_endian),
{
    if little_endian {
        (b3 as u32) * 16777216 + (b2 as u32) * 65536 + (b1 as u32) * 256 + (b0 as u32)
    } else {
        (b0 as u32) * 16777216 + (b1 as u32) * 65536 + (b2 as u32) * 256 + (b3 as u32)
    }
}

/// Check Sway's reply to the window-event subscription: its type must be that
/// of a subscription and it must report success.
pub fn check_subscribe_reply(msg_type: u32, success: bool) -> (r: Result<(), SwayIpcError>)
    ensures
        msg_type != IPC_SUBSCRIBE ==> (r matches Err(SwayIpcError::UnexpectedResponse { msg_type: t })
            && t == msg_type),
        msg_type == IPC_SUBSCRIBE && !success ==> r matches Err(SwayIpcError::SubscribeFailed),
        msg_type == IPC_SUBSCRIBE && success ==> r is Ok,
{
    if msg_type != IPC_SUBSCRIBE {
        Err(SwayIpcError::UnexpectedResponse { msg_type })
    } else if !success {
        Err(SwayIpcError::SubscribeFailed)
    } else {
        Ok(())
    }
}

/// Whether an i3-ipc message carries a window event.
pub fn is_window_event(msg_type: u32) -> (r: bool)
    ensures
        r == (msg_type == IPC_EVENT_WINDOW),
{
    msg_type == IPC_EVENT_WINDOW
}

/// Reading back the header of a framed message gives the payload's length and
/// the message type.
pub proof fn lemma_ipc_frame_roundtrip(msg_type: u32, payload: Seq<u8>, little_endian: bool)
    requires
        payload.len() <= u32::MAX,
    ensures
        ({
            let m = ipc_message(msg_type, payload, little_endian);
            &&& m.take(6) == ipc_magic()
            &&& u32_value(m.subrange(6, 10), little_endian) == payload.len()
            &&& u32_value(m.subrange(10, 14), little_endian) == msg_type
            &&& m.subrange(14, m.len() as int) == payload
        }),
{
    let m = ipc_message(msg_type, payload, little_endian);
    assert(m.take(6) =~= ipc_magic());
    assert(m.subrange(6, 10) =~= u32_bytes(payload.len(), little_endian));
    assert(m.subrange(10, 14) =~= u32_bytes(msg_type as nat, little_endian));
    assert(m.subrange(14, m.len() as int) =~= payload);
    lemma_u32_roundtrip(payload.len(), little_endian);
    lemma_u32_roundtrip(msg_type as nat, little_endian);
}

proof fn lemma_u32_roundtrip(n: nat, little_endian: bool)
    requires
        n <= u32::MAX,
    ensures
        u32_value(u32_bytes(n, little_endian), little_endian) == n,
{
    let b = u32_bytes(n, little_endian);
    assert(n / 16777216 % 256 * 16777216 + n / 65536 % 256 * 65536 + n / 256 % 256 * 256 + n % 256
        == n) by (nonlinear_arith)
        requires
            n <= 4294967295,
    ;
}

} // verus!
