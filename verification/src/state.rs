//! Daemon state: which windows matched rules, which sink is current, and the
//! decisions taken on each window event.
//!
//! Activating a sink and sending a notification are done by the caller: the
//! state answers each event with the switch to perform, if any, and learns the
//! outcome through [`State::update_sink`].

use vstd::prelude::*;

use std::collections::HashMap;
use std::sync::Arc;

use crate::compositor::{WindowEvent, WindowEventView};
use crate::config::{
    desc_for, first_default, first_named, opt_str, resolve_index, sinks_view, Config,
    ConfigView, Rule, RuleView, SinkView,
};
use crate::daemon_manager::DaemonManager;
use crate::notification::{app_icon, get_app_icon, get_sink_icon, sink_icon};
use crate::pattern::{matches_text, pattern_matches};
use crate::text::{append, own, str_eq};

verus! {

broadcast use vstd::std_specs::hash::group_hash_axioms;

// ============================================================================
// Types and views
// ============================================================================

/// Tracked window that matched a rule.
#[derive(Debug)]
pub struct ActiveWindow {
    pub sink_name: String,
    /// Description of what triggered this (e.g. "Steam Big Picture").
    pub trigger_desc: String,
    /// When the window was first tracked, on the state's own clock: windows
    /// tracked later have larger values.
    pub opened_at: u64,
    pub rule_index: usize,
    pub app_id: String,
    pub title: String,
}

/// A tracked window, as values.
pub struct WindowView {
    pub sink_name: Seq<char>,
    pub trigger_desc: Seq<char>,
    pub opened_at: u64,
    pub rule_index: usize,
    pub app_id: Seq<char>,
    pub title: Seq<char>,
}

impl View for ActiveWindow {
    type V = WindowView;

    open spec fn view(&self) -> WindowView {
        WindowView {
            sink_name: self.sink_name@,
            trigger_desc: self.trigger_desc@,
            opened_at: self.opened_at,
            rule_index: self.rule_index,
            app_id: self.app_id@,
            title: self.title@,
        }
    }
}

/// Main application state for daemon mode.
pub struct State {
    pub config: Arc<Config>,
    pub current_sink_name: String,
    pub daemon_manager: DaemonManager,
    /// Windows that matched rules; entries are removed when the window closes.
    active_windows: HashMap<u64, ActiveWindow>,
    /// Every open window: `(app_id, title)`.
    all_windows: HashMap<u64, (String, String)>,
    /// The clock value the next tracked window receives.
    next_order: u64,
}

/// The state, as values.
#[verifier::ext_equal]
pub struct StateView {
    pub config: ConfigView,
    pub manager: DaemonManager,
    pub current_sink: Seq<char>,
    pub active: Map<u64, WindowView>,
    pub all: Map<u64, (Seq<char>, Seq<char>)>,
    pub next_order: u64,
}

/// The values of the tracked windows.
pub open spec fn windows_view(m: Map<u64, ActiveWindow>) -> Map<u64, WindowView> {
    m.map_values(|w: ActiveWindow| w@)
}

/// The values of the open windows.
pub open spec fn pairs_view(m: Map<u64, (String, String)>) -> Map<u64, (Seq<char>, Seq<char>)> {
    m.map_values(|p: (String, String)| (p.0@, p.1@))
}

impl View for State {
    type V = StateView;

    closed spec fn view(&self) -> StateView {
        StateView {
            config: self.config@,
            manager: self.daemon_manager,
            current_sink: self.current_sink_name@,
            active: windows_view(self.active_windows@),
            all: pairs_view(self.all_windows@),
            next_order: self.next_order,
        }
    }
}

// ============================================================================
// Which window wins
// ============================================================================

/// Window `a` takes priority over window `b`. By time, the later-tracked window
/// wins; by index, the lower rule index wins and time breaks ties. Windows tracked
/// at the same clock value (possible only once the clock has saturated) are
/// ordered by id.
pub open spec fn beats(by_index: bool, a: u64, wa: WindowView, b: u64, wb: WindowView) -> bool {
    let later = wa.opened_at > wb.opened_at || (wa.opened_at == wb.opened_at && a > b);
    if by_index {
        wa.rule_index < wb.rule_index || (wa.rule_index == wb.rule_index && later)
    } else {
        later
    }
}

/// `id` takes priority over every other tracked window.
pub open spec fn is_winner(m: Map<u64, WindowView>, by_index: bool, id: u64) -> bool {
    m.contains_key(id) && forall|o: u64|
        #[trigger] m.contains_key(o) && o != id ==> beats(by_index, id, m[id], o, m[o])
}

/// The tracked window that takes priority, if any window is tracked.
pub open spec fn winner(m: Map<u64, WindowView>, by_index: bool) -> Option<u64> {
    if exists|id: u64| is_winner(m, by_index, id) {
        Some(choose|id: u64| is_winner(m, by_index, id))
    } else {
        None
    }
}

/// At most one window takes priority.
pub proof fn lemma_winner_unique(m: Map<u64, WindowView>, by_index: bool, a: u64, b: u64)
    requires
        is_winner(m, by_index, a),
        is_winner(m, by_index, b),
    ensures
        a == b,
{
    if a != b {
        assert(m.contains_key(b) && b != a);
        assert(m.contains_key(a) && a != b);
        assert(beats(by_index, a, m[a], b, m[b]));
        assert(beats(by_index, b, m[b], a, m[a]));
    }
}

/// For two distinct windows, one of them takes priority over the other.
pub proof fn lemma_beats_total(by_index: bool, a: u64, wa: WindowView, b: u64, wb: WindowView)
    requires
        a != b,
    ensures
        beats(by_index, a, wa, b, wb) || beats(by_index, b, wb, a, wa),
{
}

/// Priority is transitive.
pub proof fn lemma_beats_transitive(
    by_index: bool,
    a: u64,
    wa: WindowView,
    b: u64,
    wb: WindowView,
    c: u64,
    wc: WindowView,
)
    requires
        beats(by_index, a, wa, b, wb),
        beats(by_index, b, wb, c, wc),
    ensures
        beats(by_index, a, wa, c, wc),
{
}

/// Whenever a window is tracked, one tracked window takes priority.
pub proof fn lemma_winner_exists(m: Map<u64, WindowView>, by_index: bool)
    requires
        m.dom().finite(),
        m.dom().len() > 0,
    ensures
        winner(m, by_index) matches Some(w) && is_winner(m, by_index, w),
    decreases m.dom().len(),
{
    let k = m.dom().choose();
    let rest = m.remove(k);
    assert(rest.dom() =~= m.dom().remove(k));
    if rest.dom().len() == 0 {
        assert forall|o: u64| #[trigger] m.contains_key(o) && o != k implies beats(
            by_index,
            k,
            m[k],
            o,
            m[o],
        ) by {
            assert(rest.dom().contains(o));
        }
        assert(is_winner(m, by_index, k));
    } else {
        lemma_winner_exists(rest, by_index);
        let w = winner(rest, by_index)->0;
        if beats(by_index, k, m[k], w, m[w]) {
            assert forall|o: u64| #[trigger] m.contains_key(o) && o != k implies beats(
                by_index,
                k,
                m[k],
                o,
                m[o],
            ) by {
                if o != w {
                    assert(rest.contains_key(o));
                    lemma_beats_transitive(by_index, k, m[k], w, m[w], o, m[o]);
                }
            }
            assert(is_winner(m, by_index, k));
        } else {
            lemma_beats_total(by_index, k, m[k], w, m[w]);
            assert forall|o: u64| #[trigger] m.contains_key(o) && o != w implies beats(
                by_index,
                w,
                m[w],
                o,
                m[o],
            ) by {
                if o != k {
                    assert(rest.contains_key(o));
                }
            }
            assert(is_winner(m, by_index, w));
        }
    }
}

/// The name of the configured default sink.
pub open spec fn default_sink_name(c: ConfigView) -> Seq<char> {
    c.sinks[first_default(c.sinks, 0)->0].name
}

/// The configuration has a default sink.
pub open spec fn has_default(c: ConfigView) -> bool {
    first_default(c.sinks, 0) is Some
}

/// The sink that should be current: that of the winning tracked window, or the
/// default sink when no window is tracked.
pub open spec fn target_of(s: StateView) -> Seq<char> {
    match winner(s.active, s.config.settings.match_by_index) {
        Some(id) => s.active[id].sink_name,
        None => default_sink_name(s.config),
    }
}

fn beats_exec(by_index: bool, a: u64, wa: &ActiveWindow, b: u64, wb: &ActiveWindow) -> (r: bool)
    ensures
        r == beats(by_index, a, wa@, b, wb@),
{
    let later = wa.opened_at > wb.opened_at || (wa.opened_at == wb.opened_at && a > b);
    if by_index {
        wa.rule_index < wb.rule_index || (wa.rule_index == wb.rule_index && later)
    } else {
        later
    }
}

proof fn lemma_default_bounds(c: ConfigView)
    requires
        has_default(c),
    ensures
        0 <= first_default(c.sinks, 0)->0 < c.sinks.len(),
{
    crate::config::lemma_first_default_bounds(c.sinks, 0);
}

impl State {
    /// The id of the winning tracked window under the given priority mode.
    fn winner_id(&self, by_index: bool) -> (r: Option<u64>)
        ensures
            r == winner(self@.active, by_index),
    {
        let ghost m = self@.active;
        let mut best: Option<u64> = None;
        for (k, w) in it: self.active_windows.iter()
            invariant
                m == windows_view(self.active_windows@),
                it.seq().len() == self.active_windows@.len(),
                forall|i: int|
                    0 <= i < it.seq().len() ==> self.active_windows@.contains_key(*it.seq()[i].0)
                        && self.active_windows@[*it.seq()[i].0] == *it.seq()[i].1,
                forall|k: u64|
                    self.active_windows@.contains_key(k) ==> it.seq().contains(
                        (&k, &self.active_windows@[k]),
                    ),
                best is None <==> it.index() == 0,
                best matches Some(b) ==> m.contains_key(b) && forall|i: int|
                    0 <= i < it.index() ==> *it.seq()[i].0 == b || beats(
                        by_index,
                        b,
                        m[b],
                        *it.seq()[i].0,
                        m[*it.seq()[i].0],
                    ),
                it.index() == it.seq().len() ==> (best matches Some(b) ==> is_winner(m, by_index, b)),
                it.index() == it.seq().len() ==> (best is None ==> self.active_windows@.len() == 0),
        {
            match best {
                None => {
                    best = Some(*k);
                },
                Some(b) => {
                    let wb = self.active_windows.get(&b).unwrap();
                    if beats_exec(by_index, *k, w, b, wb) {
                        best = Some(*k);
                    }
                },
            }
        }
        proof {
            match best {
                Some(b) => {
                    if exists|id: u64| is_winner(m, by_index, id) {
                        let c = choose|id: u64| is_winner(m, by_index, id);
                        lemma_winner_unique(m, by_index, b, c);
                    }
                },
                None => {
                    assert(m.dom() =~= self.active_windows@.dom());
                    assert(m.dom().len() == 0);
                    if exists|id: u64| is_winner(m, by_index, id) {
                        let c = choose|id: u64| is_winner(m, by_index, id);
                        assert(m.dom().contains(c));
                    }
                },
            }
        }
        best
    }

    /// Determine the target sink from the tracked windows.
    ///
    /// Priority depends on `match_by_index`: `false` lets the most recently
    /// tracked window win; `true` lets the lowest rule index win, with the most
    /// recent window as tiebreaker. With no tracked window, the default sink.
    pub fn determine_target_sink(&self) -> (r: String)
        requires
            has_default(self@.config),
        ensures
            r@ == target_of(self@),
    {
        let by_index = self.config.settings.match_by_index;
        match self.winner_id(by_index) {
            Some(id) => {
                let w = self.active_windows.get(&id).unwrap();
                w.sink_name.clone()
            },
            None => {
                let i = self.config.default_sink_index().unwrap();
                proof {
                    lemma_default_bounds(self@.config);
                }
                self.config.sinks[i].name.clone()
            },
        }
    }
}

// ============================================================================
// Rule matching
// ============================================================================

/// A rule matches a window when its `app_id` pattern matches the application id
/// and its title pattern, if any, matches the title.
pub open spec fn rule_matches(r: RuleView, app_id: Seq<char>, title: Seq<char>) -> bool {
    pattern_matches(r.app_id_pattern, app_id) && match r.title_pattern {
        Some(t) => pattern_matches(t, title),
        None => true,
    }
}

/// The first rule, from `from` on, that matches the window.
pub open spec fn first_matching(
    rules: Seq<RuleView>,
    app_id: Seq<char>,
    title: Seq<char>,
    from: int,
) -> Option<int>
    decreases rules.len() - from,
{
    if from < 0 || from >= rules.len() {
        None
    } else if rule_matches(rules[from], app_id, title) {
        Some(from)
    } else {
        first_matching(rules, app_id, title, from + 1)
    }
}

pub proof fn lemma_first_matching_bounds(
    rules: Seq<RuleView>,
    app_id: Seq<char>,
    title: Seq<char>,
    from: int,
)
    ensures
        first_matching(rules, app_id, title, from) matches Some(i) ==> from <= i < rules.len()
            && rule_matches(rules[i], app_id, title) && forall|j: int|
            from <= j < i ==> !rule_matches(#[trigger] rules[j], app_id, title),
    decreases rules.len() - from,
{
    if 0 <= from < rules.len() && !rule_matches(rules[from], app_id, title) {
        lemma_first_matching_bounds(rules, app_id, title, from + 1);
    }
}

// ============================================================================
// Actions
// ============================================================================

/// A sink switch that the caller is to perform: activate `target`, and when
/// `notify` is set, show a notification naming `desc` and `reason` with `icon`.
#[derive(Debug)]
pub struct SwitchAction {
    pub target: String,
    pub desc: String,
    pub reason: String,
    pub icon: Option<String>,
    pub notify: bool,
}

/// A switch action, as values.
pub struct ActionView {
    pub target: Seq<char>,
    pub desc: Seq<char>,
    pub reason: Seq<char>,
    pub icon: Option<Seq<char>>,
    pub notify: bool,
}

impl View for SwitchAction {
    type V = ActionView;

    open spec fn view(&self) -> ActionView {
        ActionView {
            target: self.target@,
            desc: self.desc@,
            reason: self.reason@,
            icon: opt_str(self.icon),
            notify: self.notify,
        }
    }
}

/// An event that the state cannot handle.
#[derive(Debug)]
pub enum StateError {
    /// A matching rule names a sink that reference resolution does not find
    /// (configuration validation rules this out).
    UnknownRuleSink { sink_ref: String },
}

impl StateError {
    /// The human-readable text of this error.
    pub fn message(&self) -> (s: String)
        ensures
            match self {
                StateError::UnknownRuleSink { sink_ref } => s@ == "BUG: Rule references non-existent sink '"@
                    + sink_ref@ + "' (should have been caught in config validation)"@,
            },
    {
        match self {
            StateError::UnknownRuleSink { sink_ref } => {
                let s = own("BUG: Rule references non-existent sink '");
                let s = append(s, sink_ref.as_str());
                append(s, "' (should have been caught in config validation)")
            },
        }
    }
}

/// The switch back to `target` after a tracked window ended or closed: the icon is
/// that of the target sink, and a notification is due only when the target is the
/// default sink and rule notifications are on.
pub open spec fn return_action(c: ConfigView, target: Seq<char>, context: Seq<char>) -> ActionView {
    ActionView {
        target,
        desc: desc_for(c, target),
        reason: context,
        icon: match first_named(c.sinks, target, 0) {
            Some(i) => Some(sink_icon(c.sinks[i])),
            None => None,
        },
        notify: c.settings.notify_rules && default_sink_name(c) == target,
    }
}

/// The clock value after one more tracked window.
pub open spec fn bump(n: u64) -> u64 {
    if n < u64::MAX {
        (n + 1) as u64
    } else {
        n
    }
}

/// The option of an action, as values.
pub open spec fn opt_action(a: Option<SwitchAction>) -> Option<ActionView> {
    match a {
        Some(x) => Some(x@),
        None => None,
    }
}

/// What an opened or changed window does to the state: the new state, and the
/// switch to perform or the sink reference that could not be resolved.
pub open spec fn open_step(s: StateView, id: u64, app_id: Seq<char>, title: Seq<char>) -> (
    StateView,
    Result<Option<ActionView>, Seq<char>>,
) {
    let c = s.config;
    let s1 = StateView { all: s.all.insert(id, (app_id, title)), ..s };
    match first_matching(c.rules, app_id, title, 0) {
        Some(ri) => {
            let rule = c.rules[ri];
            match resolve_index(c.sinks, rule.sink_ref) {
                None => (s1, Err(rule.sink_ref)),
                Some(si) => {
                    let sink = c.sinks[si];
                    let trigger = match rule.desc {
                        Some(d) => d,
                        None => title,
                    };
                    let notify = match rule.notify {
                        Some(n) => n,
                        None => c.settings.notify_rules,
                    };
                    if s.active.contains_key(id) {
                        let w = s.active[id];
                        let changed = w.rule_index != ri || w.sink_name != sink.name;
                        let w2 = if changed {
                            WindowView {
                                sink_name: sink.name,
                                rule_index: ri as usize,
                                trigger_desc: trigger,
                                app_id,
                                title,
                                ..w
                            }
                        } else {
                            WindowView { app_id, title, ..w }
                        };
                        let s2 = StateView { active: s.active.insert(id, w2), ..s1 };
                        let t = target_of(s2);
                        if changed && t != s2.current_sink {
                            (
                                s2,
                                Ok(
                                    Some(
                                        ActionView {
                                            target: t,
                                            desc: desc_for(c, t),
                                            reason: trigger,
                                            icon: Some(app_icon(app_id)),
                                            notify,
                                        },
                                    ),
                                ),
                            )
                        } else {
                            (s2, Ok(None))
                        }
                    } else {
                        let w = WindowView {
                            sink_name: sink.name,
                            trigger_desc: trigger,
                            opened_at: s.next_order,
                            rule_index: ri as usize,
                            app_id,
                            title,
                        };
                        let s2 = StateView {
                            active: s.active.insert(id, w),
                            next_order: bump(s.next_order),
                            ..s1
                        };
                        if c.settings.match_by_index {
                            let t = target_of(s2);
                            if t != s2.current_sink {
                                (
                                    s2,
                                    Ok(
                                        Some(
                                            ActionView {
                                                target: t,
                                                desc: desc_for(c, t),
                                                reason: trigger,
                                                icon: Some(app_icon(app_id)),
                                                notify,
                                            },
                                        ),
                                    ),
                                )
                            } else {
                                (s2, Ok(None))
                            }
                        } else if sink.name != s2.current_sink {
                            (
                                s2,
                                Ok(
                                    Some(
                                        ActionView {
                                            target: sink.name,
                                            desc: sink.desc,
                                            reason: trigger,
                                            icon: Some(app_icon(app_id)),
                                            notify,
                                        },
                                    ),
                                ),
                            )
                        } else {
                            (s2, Ok(None))
                        }
                    }
                },
            }
        },
        None => {
            if s.active.contains_key(id) {
                let old = s.active[id];
                let s2 = StateView { active: s.active.remove(id), ..s1 };
                let t = target_of(s2);
                if t != s2.current_sink {
                    (s2, Ok(Some(return_action(c, t, old.trigger_desc + " ended"@))))
                } else {
                    (s2, Ok(None))
                }
            } else {
                (s1, Ok(None))
            }
        },
    }
}

/// What a closed window does to the state.
pub open spec fn close_step(s: StateView, id: u64) -> (
    StateView,
    Result<Option<ActionView>, Seq<char>>,
) {
    let s1 = StateView { all: s.all.remove(id), ..s };
    if s.active.contains_key(id) {
        let old = s.active[id];
        let s2 = StateView { active: s.active.remove(id), ..s1 };
        let t = target_of(s2);
        if t != s2.current_sink {
            (s2, Ok(Some(return_action(s.config, t, old.trigger_desc + " closed"@))))
        } else {
            (s2, Ok(None))
        }
    } else {
        (s1, Ok(None))
    }
}

/// What a window event does to the state.
pub open spec fn event_step(s: StateView, e: WindowEventView) -> (
    StateView,
    Result<Option<ActionView>, Seq<char>>,
) {
    match e {
        WindowEventView::Opened { id, app_id, title } => open_step(s, id, app_id, title),
        WindowEventView::Changed { id, app_id, title } => open_step(s, id, app_id, title),
        WindowEventView::Closed { id } => close_step(s, id),
    }
}

/// The result of handling an event, as values.
pub open spec fn step_result(r: Result<Option<SwitchAction>, StateError>) -> Result<
    Option<ActionView>,
    Seq<char>,
> {
    match r {
        Ok(a) => Ok(opt_action(a)),
        Err(StateError::UnknownRuleSink { sink_ref }) => Err(sink_ref@),
    }
}

// ============================================================================
// State operations
// ============================================================================

/// Every tracked window received a clock value below the state's clock, unless
/// the clock has saturated.
pub open spec fn clock_ahead(s: StateView) -> bool {
    forall|id: u64| #[trigger]
        s.active.contains_key(id) ==> (s.active[id].opened_at < s.next_order || s.next_order
            == u64::MAX)
}

/// `Arc::clone`: another pointer to the same configuration.
#[verifier::external_body]
pub(crate) fn share_config(config: &Arc<Config>) -> (r: Arc<Config>)
    ensures
        r == *config,
{
    Arc::clone(config)
}

impl State {
    /// Another handle on the state's configuration.
    pub fn shared_config(&self) -> (r: Arc<Config>)
        ensures
            r@ == self@.config,
    {
        share_config(&self.config)
    }

    /// The name of the current default sink, as the state knows it.
    pub fn current_sink(&self) -> (r: &String)
        ensures
            r@ == self@.current_sink,
    {
        &self.current_sink_name
    }

    /// How the daemon is managed.
    pub fn manager(&self) -> (r: DaemonManager)
        ensures
            r == self@.manager,
    {
        self.daemon_manager
    }

    /// The configuration in use.
    pub fn config_ref(&self) -> (r: &Config)
        ensures
            r@ == self@.config,
    {
        &self.config
    }
}

impl State {
    /// Create a state whose current sink is `current_sink_name`, with no windows.
    pub fn from_parts(
        config: Arc<Config>,
        current_sink_name: String,
        daemon_manager: DaemonManager,
    ) -> (s: State)
        ensures
            s@.config == config@,
            s@.current_sink == current_sink_name@,
            s@.active == Map::<u64, WindowView>::empty(),
            s@.all == Map::<u64, (Seq<char>, Seq<char>)>::empty(),
            s@.next_order == 0,
            s@.manager == daemon_manager,
            s.wf(),
    {
        let s = State {
            config,
            current_sink_name,
            daemon_manager,
            active_windows: HashMap::new(),
            all_windows: HashMap::new(),
            next_order: 0,
        };
        assert(s@.active =~= Map::<u64, WindowView>::empty());
        assert(s@.all =~= Map::<u64, (Seq<char>, Seq<char>)>::empty());
        s
    }

    /// Create the daemon state. The current sink is the default sink that PipeWire
    /// reported (`queried_default`), or the configured default sink when the query
    /// failed.
    pub fn new(
        config: Arc<Config>,
        daemon_manager: DaemonManager,
        queried_default: Option<String>,
    ) -> (s: State)
        requires
            queried_default is Some || has_default(config@),
        ensures
            s@.config == config@,
            s@.current_sink == match queried_default {
                Some(n) => n@,
                None => default_sink_name(config@),
            },
            s@.active == Map::<u64, WindowView>::empty(),
            s@.all == Map::<u64, (Seq<char>, Seq<char>)>::empty(),
            s@.manager == daemon_manager,
            s.wf(),
    {
        let current = match queried_default {
            Some(n) => n,
            None => {
                let i = config.default_sink_index().unwrap();
                proof {
                    lemma_default_bounds(config@);
                }
                config.sinks[i].name.clone()
            },
        };
        State::from_parts(config, current, daemon_manager)
    }

    /// Every tracked window received a clock value below the clock (until the
    /// clock saturates).
    pub closed spec fn wf(&self) -> bool {
        clock_ahead(self@)
    }

    /// Reload configuration.
    pub fn reload_config(&mut self, new_config: Arc<Config>)
        ensures
            final(self)@ == (StateView { config: new_config@, ..old(self)@ }),
            old(self).wf() ==> final(self).wf(),
    {
        self.config = new_config;
    }

    /// Find the first rule that matches the given `app_id` and title, with its index.
    pub fn find_matching_rule(&self, app_id: &str, title: &str) -> (r: Option<(usize, &Rule)>)
        ensures
            match first_matching(self@.config.rules, app_id@, title@, 0) {
                Some(i) => r matches Some(p) && p.0 == i && p.1@ == self@.config.rules[i],
                None => r is None,
            },
    {
        let ghost rules = self@.config.rules;
        let mut i: usize = 0;
        while i < self.config.rules.len()
            invariant
                rules == self@.config.rules,
                rules == crate::config::rules_view(self.config.rules@),
                i <= self.config.rules@.len(),
                first_matching(rules, app_id@, title@, 0) == first_matching(rules, app_id@, title@, i as int),
            decreases self.config.rules@.len() - i,
        {
            let rule = &self.config.rules[i];
            assert(rules[i as int] == rule@);
            let app_ok = matches_text(rule.app_id_pattern.as_str(), app_id);
            let title_ok = match &rule.title_pattern {
                Some(t) => matches_text(t.as_str(), title),
                None => true,
            };
            if app_ok && title_ok {
                return Some((i, rule));
            }
            i = i + 1;
        }
        None
    }

    /// Check if switching to a new sink is needed.
    pub fn should_switch_sink(&self, new_sink_name: &str) -> (r: bool)
        ensures
            r == (self@.current_sink != new_sink_name@),
    {
        !str_eq(self.current_sink_name.as_str(), new_sink_name)
    }

    /// Update the current sink name in state.
    pub fn update_sink(&mut self, new_sink_name: String)
        ensures
            final(self)@ == (StateView { current_sink: new_sink_name@, ..old(self)@ }),
            old(self).wf() ==> final(self).wf(),
    {
        self.current_sink_name = new_sink_name;
    }

    /// Check if a window is currently tracked.
    pub fn is_window_tracked(&self, id: u64) -> (r: bool)
        ensures
            r == self@.active.contains_key(id),
    {
        self.active_windows.contains_key(&id)
    }

    /// Track a new window; it receives the next clock value.
    pub fn track_window(
        &mut self,
        id: u64,
        sink_name: String,
        trigger_desc: String,
        rule_index: usize,
        app_id: String,
        title: String,
    )
        ensures
            final(self)@ == (StateView {
                active: old(self)@.active.insert(
                    id,
                    WindowView {
                        sink_name: sink_name@,
                        trigger_desc: trigger_desc@,
                        opened_at: old(self)@.next_order,
                        rule_index,
                        app_id: app_id@,
                        title: title@,
                    },
                ),
                next_order: bump(old(self)@.next_order),
                ..old(self)@
            }),
            old(self).wf() ==> final(self).wf(),
    {
        let window = ActiveWindow {
            sink_name,
            trigger_desc,
            opened_at: self.next_order,
            rule_index,
            app_id,
            title,
        };
        let ghost w = window;
        self.active_windows.insert(id, window);
        if self.next_order < u64::MAX {
            self.next_order = self.next_order + 1;
        }
        assert(self@.active =~= old(self)@.active.insert(id, w@));
    }

    /// Untrack a window, returning it if it was tracked.
    pub fn untrack_window(&mut self, id: u64) -> (r: Option<ActiveWindow>)
        ensures
            final(self)@ == (StateView { active: old(self)@.active.remove(id), ..old(self)@ }),
            match r {
                Some(w) => old(self)@.active.contains_key(id) && w@ == old(self)@.active[id],
                None => !old(self)@.active.contains_key(id),
            },
            old(self).wf() ==> final(self).wf(),
    {
        let r = self.active_windows.remove(&id);
        assert(self@.active =~= old(self)@.active.remove(id));
        r
    }

    /// Record an open window (for the `test-rule` and `list-windows` commands).
    pub fn record_window(&mut self, id: u64, app_id: String, title: String)
        ensures
            final(self)@ == (StateView {
                all: old(self)@.all.insert(id, (app_id@, title@)),
                ..old(self)@
            }),
            old(self).wf() ==> final(self).wf(),
    {
        let ghost a = app_id@;
        let ghost t = title@;
        self.all_windows.insert(id, (app_id, title));
        assert(self@.all =~= old(self)@.all.insert(id, (a, t)));
    }

    /// Forget an open window.
    fn forget_window(&mut self, id: u64)
        ensures
            final(self)@ == (StateView { all: old(self)@.all.remove(id), ..old(self)@ }),
            old(self).wf() ==> final(self).wf(),
    {
        self.all_windows.remove(&id);
        assert(self@.all =~= old(self)@.all.remove(id));
    }

    /// Whether a window is currently open.
    pub fn is_window_open(&self, id: u64) -> (r: bool)
        ensures
            r == self@.all.contains_key(id),
    {
        self.all_windows.contains_key(&id)
    }

    /// Number of open windows.
    pub fn open_window_count(&self) -> (r: usize)
        ensures
            r == self@.all.len(),
    {
        proof {
            assert(self@.all.dom() =~= self.all_windows@.dom());
        }
        self.all_windows.len()
    }

    /// The tracked window with the given id.
    pub fn tracked_window(&self, id: u64) -> (r: Option<&ActiveWindow>)
        ensures
            match r {
                Some(w) => self@.active.contains_key(id) && w@ == self@.active[id],
                None => !self@.active.contains_key(id),
            },
    {
        self.active_windows.get(&id)
    }
}


// ============================================================================
// Events
// ============================================================================

impl State {
    /// The switch back to `target` after a tracked window ended or closed.
    fn return_switch(&self, target: String, context: String) -> (a: SwitchAction)
        requires
            has_default(self@.config),
        ensures
            a@ == return_action(self@.config, target@, context@),
    {
        let (desc, icon) = match self.config.sink_named(target.as_str()) {
            Some(i) => {
                assert(self@.config.sinks[i as int] == self.config.sinks@[i as int]@);
                (self.config.sinks[i].desc.clone(), Some(get_sink_icon(&self.config.sinks[i])))
            },
            None => (own(target.as_str()), None),
        };
        let d = self.config.default_sink_index().unwrap();
        proof {
            lemma_default_bounds(self@.config);
            assert(self@.config.sinks[d as int] == self.config.sinks@[d as int]@);
        }
        let is_default = str_eq(self.config.sinks[d].name.as_str(), target.as_str());
        let notify = self.config.settings.notify_rules && is_default;
        SwitchAction { target, desc, reason: context, icon, notify }
    }

    /// An opened or changed window.
    fn handle_window_open_or_change(&mut self, id: u64, app_id: String, title: String) -> (r: Result<
        Option<SwitchAction>,
        StateError,
    >)
        requires
            has_default(old(self)@.config),
        ensures
            final(self)@ == open_step(old(self)@, id, app_id@, title@).0,
            step_result(r) == open_step(old(self)@, id, app_id@, title@).1,
            old(self).wf() ==> final(self).wf(),
    {
        let ghost s0 = self@;
        self.record_window(id, app_id.clone(), title.clone());
        let ghost s1 = self@;
        let ghost c = s0.config;
        let matched = match self.find_matching_rule(app_id.as_str(), title.as_str()) {
            Some((ri, rule)) => {
                proof {
                    lemma_first_matching_bounds(c.rules, app_id@, title@, 0);
                }
                match self.config.resolve_sink(rule.sink_ref.as_str()) {
                    None => {
                        return Err(StateError::UnknownRuleSink { sink_ref: rule.sink_ref.clone() });
                    },
                    Some(sink) => {
                        let trigger = match &rule.desc {
                            Some(d) => d.clone(),
                            None => title.clone(),
                        };
                        let notify = match rule.notify {
                            Some(n) => n,
                            None => self.config.settings.notify_rules,
                        };
                        Some((ri, sink.name.clone(), sink.desc.clone(), trigger, notify))
                    },
                }
            },
            None => None,
        };
        match matched {
            Some((ri, sink_name, sink_desc, trigger, notify)) => {
                if self.active_windows.contains_key(&id) {
                    let old_w = self.active_windows.remove(&id).unwrap();
                    let changed = old_w.rule_index != ri || !str_eq(
                        old_w.sink_name.as_str(),
                        sink_name.as_str(),
                    );
                    let w2 = if changed {
                        ActiveWindow {
                            sink_name,
                            trigger_desc: trigger.clone(),
                            opened_at: old_w.opened_at,
                            rule_index: ri,
                            app_id: app_id.clone(),
                            title,
                        }
                    } else {
                        ActiveWindow {
                            sink_name: old_w.sink_name,
                            trigger_desc: old_w.trigger_desc,
                            opened_at: old_w.opened_at,
                            rule_index: old_w.rule_index,
                            app_id: app_id.clone(),
                            title,
                        }
                    };
                    let ghost gw = w2;
                    self.active_windows.insert(id, w2);
                    assert(self@.active =~= s1.active.insert(id, gw@));
                    if changed {
                        let t = self.determine_target_sink();
                        if self.should_switch_sink(t.as_str()) {
                            let desc = self.config.desc_or_name(t.as_str());
                            let icon = get_app_icon(app_id.as_str());
                            return Ok(
                                Some(
                                    SwitchAction {
                                        target: t,
                                        desc,
                                        reason: trigger,
                                        icon: Some(icon),
                                        notify,
                                    },
                                ),
                            );
                        }
                    }
                    Ok(None)
                } else {
                    self.track_window(
                        id,
                        sink_name.clone(),
                        trigger.clone(),
                        ri,
                        app_id.clone(),
                        title,
                    );
                    if self.config.settings.match_by_index {
                        // By rule index, a new window decides only if its rule
                        // comes first among the tracked windows.
                        let t = self.determine_target_sink();
                        if self.should_switch_sink(t.as_str()) {
                            let desc = self.config.desc_or_name(t.as_str());
                            let icon = get_app_icon(app_id.as_str());
                            return Ok(
                                Some(
                                    SwitchAction {
                                        target: t,
                                        desc,
                                        reason: trigger,
                                        icon: Some(icon),
                                        notify,
                                    },
                                ),
                            );
                        }
                        Ok(None)
                    } else if self.should_switch_sink(sink_name.as_str()) {
                        let icon = get_app_icon(app_id.as_str());
                        Ok(
                            Some(
                                SwitchAction {
                                    target: sink_name,
                                    desc: sink_desc,
                                    reason: trigger,
                                    icon: Some(icon),
                                    notify,
                                },
                            ),
                        )
                    } else {
                        Ok(None)
                    }
                }
            },
            None => {
                match self.untrack_window(id) {
                    Some(old_w) => {
                        let t = self.determine_target_sink();
                        if self.should_switch_sink(t.as_str()) {
                            let context = append(old_w.trigger_desc, " ended");
                            Ok(Some(self.return_switch(t, context)))
                        } else {
                            Ok(None)
                        }
                    },
                    None => Ok(None),
                }
            },
        }
    }

    /// A closed window.
    fn handle_window_close(&mut self, id: u64) -> (r: Result<Option<SwitchAction>, StateError>)
        requires
            has_default(old(self)@.config),
        ensures
            final(self)@ == close_step(old(self)@, id).0,
            step_result(r) == close_step(old(self)@, id).1,
            old(self).wf() ==> final(self).wf(),
    {
        self.forget_window(id);
        match self.untrack_window(id) {
            Some(old_w) => {
                let t = self.determine_target_sink();
                if self.should_switch_sink(t.as_str()) {
                    let context = append(old_w.trigger_desc, " closed");
                    Ok(Some(self.return_switch(t, context)))
                } else {
                    Ok(None)
                }
            },
            None => Ok(None),
        }
    }

    /// Process a window event from the compositor: update the tracked windows and
    /// answer with the sink switch to perform, if any. After a switch succeeds the
    /// caller records it with [`State::update_sink`].
    pub fn process_event(&mut self, event: WindowEvent) -> (r: Result<
        Option<SwitchAction>,
        StateError,
    >)
        requires
            has_default(old(self)@.config),
        ensures
            final(self)@ == event_step(old(self)@, event@).0,
            step_result(r) == event_step(old(self)@, event@).1,
            old(self).wf() ==> final(self).wf(),
    {
        match event {
            WindowEvent::Opened { id, app_id, title } => self.handle_window_open_or_change(id, app_id, title),
            WindowEvent::Changed { id, app_id, title } => self.handle_window_open_or_change(id, app_id, title),
            WindowEvent::Closed { id } => self.handle_window_close(id),
        }
    }
}


// ============================================================================
// Listings
// ============================================================================

/// `ids` lists each element of `dom` exactly once.
pub open spec fn enumerates(dom: Set<u64>, ids: Seq<u64>) -> bool {
    ids.no_duplicates() && ids.to_set() == dom
}

/// The keys of a map, each once, in the map's iteration order.
fn keys_of<V>(m: &HashMap<u64, V>) -> (ids: Vec<u64>)
    ensures
        enumerates(m@.dom(), ids@),
{
    let mut ids: Vec<u64> = Vec::new();
    for k in it: m.keys()
        invariant
            it.seq().unref().to_set() == m@.dom(),
            it.seq().unref().no_duplicates(),
            ids@ == it.seq().unref().take(it.index() as int),
            it.index() == it.seq().len() ==> ids@ == it.seq().unref(),
    {
        ids.push(*k);
    }
    ids
}

/// The `(app_id, title)` of a list of windows, as values.
pub open spec fn pairs_of(v: Seq<(String, String)>) -> Seq<(Seq<char>, Seq<char>)> {
    v.map_values(|p: (String, String)| (p.0@, p.1@))
}

/// The `(id, app_id, title)` of a list of windows, as values.
pub open spec fn triples_of(v: Seq<(u64, String, String)>) -> Seq<(u64, Seq<char>, Seq<char>)> {
    v.map_values(|p: (u64, String, String)| (p.0, p.1@, p.2@))
}

/// The `(id, app_id, title, sink name, sink description)` of a list of windows,
/// as values.
pub open spec fn entries_of(v: Seq<(u64, String, String, String, String)>) -> Seq<
    (u64, Seq<char>, Seq<char>, Seq<char>, Seq<char>),
> {
    v.map_values(|p: (u64, String, String, String, String)| (p.0, p.1@, p.2@, p.3@, p.4@))
}

/// The last sink, among the first `upto`, with node name `name`.
pub open spec fn last_named(sinks: Seq<SinkView>, name: Seq<char>, upto: int) -> Option<int>
    decreases upto,
{
    if upto <= 0 || upto > sinks.len() {
        None
    } else if sinks[upto - 1].name == name {
        Some(upto - 1)
    } else {
        last_named(sinks, name, upto - 1)
    }
}

/// The description listed for sink `name`: that of the last configured sink with
/// that node name, or the name itself.
pub open spec fn listed_desc(c: ConfigView, name: Seq<char>) -> Seq<char> {
    match last_named(c.sinks, name, c.sinks.len() as int) {
        Some(i) => c.sinks[i].desc,
        None => name,
    }
}

/// One entry of the `list-windows` answer for tracked window `id`.
pub open spec fn tracked_entry(s: StateView, id: u64) -> (
    u64,
    Seq<char>,
    Seq<char>,
    Seq<char>,
    Seq<char>,
) {
    let w = s.active[id];
    (id, w.app_id, w.title, w.sink_name, listed_desc(s.config, w.sink_name))
}

/// The event that re-evaluates open window `id` against the rules.
pub open spec fn reevaluation_event(s: StateView, id: u64) -> WindowEventView {
    WindowEventView::Changed { id, app_id: s.all[id].0, title: s.all[id].1 }
}

impl State {
    /// The description listed for sink `name` in window listings.
    fn listed_desc_of(&self, name: &str) -> (r: String)
        ensures
            r@ == listed_desc(self@.config, name@),
    {
        let ghost sinks = self@.config.sinks;
        let mut found: Option<usize> = None;
        let mut i: usize = 0;
        while i < self.config.sinks.len()
            invariant
                i <= self.config.sinks@.len(),
                sinks == sinks_view(self.config.sinks@),
                match found {
                    Some(j) => last_named(sinks, name@, i as int) == Some(j as int) && j < i,
                    None => last_named(sinks, name@, i as int) is None,
                },
            decreases self.config.sinks@.len() - i,
        {
            assert(sinks[i as int] == self.config.sinks@[i as int]@);
            if str_eq(self.config.sinks[i].name.as_str(), name) {
                found = Some(i);
            }
            i = i + 1;
        }
        match found {
            Some(j) => {
                assert(sinks[j as int] == self.config.sinks@[j as int]@);
                self.config.sinks[j].desc.clone()
            },
            None => own(name),
        }
    }

    /// Get the most recently tracked window (for status reporting).
    pub fn get_most_recent_window(&self) -> (r: Option<&ActiveWindow>)
        ensures
            match winner(self@.active, false) {
                Some(id) => r matches Some(w) && w@ == self@.active[id],
                None => r is None,
            },
            r is None <==> self@.active.dom().len() == 0,
    {
        proof {
            assert(self@.active.dom() =~= self.active_windows@.dom());
            if self@.active.dom().len() > 0 {
                lemma_winner_exists(self@.active, false);
            }
        }
        match self.winner_id(false) {
            Some(id) => self.active_windows.get(&id),
            None => None,
        }
    }

    /// Get the `(app_id, title)` of each tracked window, in no particular order.
    pub fn get_tracked_windows(&self) -> (r: Vec<(String, String)>)
        ensures
            exists|ids: Seq<u64>|
                enumerates(self@.active.dom(), ids) && pairs_of(r@) == ids.map_values(
                    |id: u64| (self@.active[id].app_id, self@.active[id].title),
                ),
    {
        let ids = keys_of(&self.active_windows);
        let ghost m = self@.active;
        let mut out: Vec<(String, String)> = Vec::new();
        let mut i: usize = 0;
        while i < ids.len()
            invariant
                i <= ids@.len(),
                m == windows_view(self.active_windows@),
                enumerates(self.active_windows@.dom(), ids@),
                pairs_of(out@) == ids@.take(i as int).map_values(
                    |id: u64| (m[id].app_id, m[id].title),
                ),
            decreases ids@.len() - i,
        {
            let id = ids[i];
            assert(ids@.to_set().contains(id));
            let w = self.active_windows.get(&id).unwrap();
            let ghost before = out@;
            out.push((w.app_id.clone(), w.title.clone()));
            assert(ids@.take(i + 1) =~= ids@.take(i as int).push(id));
            assert(pairs_of(out@) =~= pairs_of(before).push((m[id].app_id, m[id].title)));
            assert(ids@.take(i + 1).map_values(|id: u64| (m[id].app_id, m[id].title))
                =~= ids@.take(i as int).map_values(|id: u64| (m[id].app_id, m[id].title)).push(
                (m[id].app_id, m[id].title),
            ));
            i = i + 1;
        }
        proof {
            assert(ids@.take(ids@.len() as int) =~= ids@);
            assert(m.dom() =~= self.active_windows@.dom());
        }
        out
    }

    /// Get the tracked windows with their sinks (for the `list-windows` command):
    /// `(id, app_id, title, sink_name, sink_desc)`, in no particular order.
    pub fn get_tracked_windows_with_sinks(&self) -> (r: Vec<(u64, String, String, String, String)>)
        ensures
            exists|ids: Seq<u64>|
                enumerates(self@.active.dom(), ids) && entries_of(r@) == ids.map_values(
                    |id: u64| tracked_entry(self@, id),
                ),
    {
        let ids = keys_of(&self.active_windows);
        let ghost s = self@;
        let mut out: Vec<(u64, String, String, String, String)> = Vec::new();
        let mut i: usize = 0;
        while i < ids.len()
            invariant
                i <= ids@.len(),
                s == self@,
                s.active == windows_view(self.active_windows@),
                enumerates(self.active_windows@.dom(), ids@),
                entries_of(out@) == ids@.take(i as int).map_values(|id: u64| tracked_entry(s, id)),
            decreases ids@.len() - i,
        {
            let id = ids[i];
            assert(ids@.to_set().contains(id));
            let w = self.active_windows.get(&id).unwrap();
            let desc = self.listed_desc_of(w.sink_name.as_str());
            let ghost before = out@;
            out.push((id, w.app_id.clone(), w.title.clone(), w.sink_name.clone(), desc));
            assert(ids@.take(i + 1) =~= ids@.take(i as int).push(id));
            assert(entries_of(out@) =~= entries_of(before).push(tracked_entry(s, id)));
            assert(ids@.take(i + 1).map_values(|id: u64| tracked_entry(s, id)) =~= ids@.take(
                i as int,
            ).map_values(|id: u64| tracked_entry(s, id)).push(tracked_entry(s, id)));
            i = i + 1;
        }
        proof {
            assert(ids@.take(ids@.len() as int) =~= ids@);
            assert(s.active.dom() =~= self.active_windows@.dom());
        }
        out
    }

    /// Get every open window (for the `test-rule` command): `(id, app_id, title)`,
    /// in no particular order.
    pub fn get_all_windows(&self) -> (r: Vec<(u64, String, String)>)
        ensures
            exists|ids: Seq<u64>|
                enumerates(self@.all.dom(), ids) && triples_of(r@) == ids.map_values(
                    |id: u64| (id, self@.all[id].0, self@.all[id].1),
                ),
    {
        let ids = keys_of(&self.all_windows);
        let ghost m = self@.all;
        let mut out: Vec<(u64, String, String)> = Vec::new();
        let mut i: usize = 0;
        while i < ids.len()
            invariant
                i <= ids@.len(),
                m == pairs_view(self.all_windows@),
                enumerates(self.all_windows@.dom(), ids@),
                triples_of(out@) == ids@.take(i as int).map_values(
                    |id: u64| (id, m[id].0, m[id].1),
                ),
            decreases ids@.len() - i,
        {
            let id = ids[i];
            assert(ids@.to_set().contains(id));
            let p = self.all_windows.get(&id).unwrap();
            let ghost before = out@;
            out.push((id, p.0.clone(), p.1.clone()));
            assert(ids@.take(i + 1) =~= ids@.take(i as int).push(id));
            assert(triples_of(out@) =~= triples_of(before).push((id, m[id].0, m[id].1)));
            assert(ids@.take(i + 1).map_values(|id: u64| (id, m[id].0, m[id].1)) =~= ids@.take(
                i as int,
            ).map_values(|id: u64| (id, m[id].0, m[id].1)).push((id, m[id].0, m[id].1)));
            i = i + 1;
        }
        proof {
            assert(ids@.take(ids@.len() as int) =~= ids@);
            assert(m.dom() =~= self.all_windows@.dom());
        }
        out
    }

    /// The events that re-evaluate every open window against the current rules,
    /// one `Changed` event per open window, in no particular order. Handing each
    /// to [`State::process_event`] in turn re-evaluates all windows after a
    /// configuration reload.
    pub fn reevaluation_events(&self) -> (r: Vec<WindowEvent>)
        ensures
            exists|ids: Seq<u64>|
                enumerates(self@.all.dom(), ids) && r@.map_values(|e: WindowEvent| e@)
                    == ids.map_values(|id: u64| reevaluation_event(self@, id)),
    {
        let ids = keys_of(&self.all_windows);
        let ghost s = self@;
        let mut out: Vec<WindowEvent> = Vec::new();
        let mut i: usize = 0;
        while i < ids.len()
            invariant
                i <= ids@.len(),
                s == self@,
                s.all == pairs_view(self.all_windows@),
                enumerates(self.all_windows@.dom(), ids@),
                out@.map_values(|e: WindowEvent| e@) == ids@.take(i as int).map_values(
                    |id: u64| reevaluation_event(s, id),
                ),
            decreases ids@.len() - i,
        {
            let id = ids[i];
            assert(ids@.to_set().contains(id));
            let p = self.all_windows.get(&id).unwrap();
            let ghost before = out@;
            out.push(WindowEvent::Changed { id, app_id: p.0.clone(), title: p.1.clone() });
            assert(ids@.take(i + 1) =~= ids@.take(i as int).push(id));
            assert(out@.map_values(|e: WindowEvent| e@) =~= before.map_values(
                |e: WindowEvent| e@,
            ).push(reevaluation_event(s, id)));
            assert(ids@.take(i + 1).map_values(|id: u64| reevaluation_event(s, id)) =~= ids@.take(
                i as int,
            ).map_values(|id: u64| reevaluation_event(s, id)).push(reevaluation_event(s, id)));
            i = i + 1;
        }
        proof {
            assert(ids@.take(ids@.len() as int) =~= ids@);
            assert(s.all.dom() =~= self.all_windows@.dom());
        }
        out
    }
}

// ============================================================================
// Laws
// ============================================================================

/// The winning window, when there is one, is the window that `winner` names.
proof fn lemma_winner_is(m: Map<u64, WindowView>, by_index: bool, id: u64)
    requires
        is_winner(m, by_index, id),
    ensures
        winner(m, by_index) == Some(id),
{
    let c = choose|c: u64| is_winner(m, by_index, c);
    lemma_winner_unique(m, by_index, id, c);
}

/// With no tracked window, the target is the configured default sink.
pub proof fn lemma_no_windows_default(s: StateView)
    requires
        s.active == Map::<u64, WindowView>::empty(),
    ensures
        target_of(s) == default_sink_name(s.config),
{
    let by_index = s.config.settings.match_by_index;
    assert(!exists|id: u64| is_winner(s.active, by_index, id));
}

/// By rule index, a tracked window whose rule comes before the rules of all other
/// tracked windows decides the target, whenever it was tracked.
pub proof fn lemma_lowest_rule_wins(s: StateView, id: u64)
    requires
        s.config.settings.match_by_index,
        s.active.contains_key(id),
        forall|o: u64|
            #[trigger] s.active.contains_key(o) && o != id ==> s.active[id].rule_index
                < s.active[o].rule_index,
    ensures
        target_of(s) == s.active[id].sink_name,
{
    assert(is_winner(s.active, true, id));
    lemma_winner_is(s.active, true, id);
}

/// By time, a newly opened window that a rule matches becomes the target: the
/// state tracks it with the newest clock value, and the switch to its sink is
/// due exactly when that sink is not the current one.
pub proof fn lemma_new_window_wins(s: StateView, id: u64, app_id: Seq<char>, title: Seq<char>)
    requires
        clock_ahead(s),
        s.next_order < u64::MAX,
        !s.config.settings.match_by_index,
        !s.active.contains_key(id),
        first_matching(s.config.rules, app_id, title, 0) matches Some(ri) && resolve_index(
            s.config.sinks,
            s.config.rules[ri].sink_ref,
        ) is Some,
    ensures
        ({
            let ri = first_matching(s.config.rules, app_id, title, 0)->0;
            let name = s.config.sinks[resolve_index(s.config.sinks, s.config.rules[ri].sink_ref)->0].name;
            let (s2, r) = open_step(s, id, app_id, title);
            &&& target_of(s2) == name
            &&& clock_ahead(s2)
            &&& r matches Ok(a) && (a is Some <==> name != s.current_sink)
        }),
{
    let (s2, r) = open_step(s, id, app_id, title);
    assert forall|o: u64| #[trigger] s2.active.contains_key(o) && o != id implies beats(
        false,
        id,
        s2.active[id],
        o,
        s2.active[o],
    ) by {
        assert(s.active.contains_key(o));
    }
    assert(is_winner(s2.active, false, id));
    lemma_winner_is(s2.active, false, id);
}

/// Opening a window and closing it again leaves the tracked and open windows, and
/// so the target sink, as they were.
pub proof fn lemma_open_close_restores(s: StateView, id: u64, app_id: Seq<char>, title: Seq<char>)
    requires
        !s.active.contains_key(id),
        !s.all.contains_key(id),
        open_step(s, id, app_id, title).1 is Ok,
    ensures
        ({
            let s2 = close_step(open_step(s, id, app_id, title).0, id).0;
            &&& s2.active == s.active
            &&& s2.all == s.all
            &&& s2.config == s.config
            &&& s2.current_sink == s.current_sink
            &&& target_of(s2) == target_of(s)
        }),
{
    let s1 = open_step(s, id, app_id, title).0;
    let s2 = close_step(s1, id).0;
    assert(s2.all =~= s.all);
    assert(s2.active =~= s.active);
}


proof fn lemma_open_switch_target(s: StateView, id: u64, app_id: Seq<char>, title: Seq<char>)
    requires
        clock_ahead(s),
        s.next_order < u64::MAX,
    ensures
        open_step(s, id, app_id, title).1 matches Ok(Some(a)) ==> a.target == target_of(
            open_step(s, id, app_id, title).0,
        ),
{
    let s2 = open_step(s, id, app_id, title).0;
    if !s.config.settings.match_by_index && !s.active.contains_key(id) {
        if let Some(ri) = first_matching(s.config.rules, app_id, title, 0) {
            if resolve_index(s.config.sinks, s.config.rules[ri].sink_ref) is Some {
                assert forall|o: u64| #[trigger] s2.active.contains_key(o) && o != id implies beats(
                    false,
                    id,
                    s2.active[id],
                    o,
                    s2.active[o],
                ) by {
                    assert(s.active.contains_key(o));
                }
                assert(is_winner(s2.active, false, id));
                lemma_winner_is(s2.active, false, id);
            }
        }
    }
}

/// The daemon only ever switches to the target: whenever handling a window event
/// asks for a switch, the sink it names is the target of the new state (the sink
/// of the window that takes priority, else the default sink), in either priority
/// mode.
pub proof fn lemma_switch_goes_to_target(s: StateView, e: WindowEventView)
    requires
        clock_ahead(s),
        s.next_order < u64::MAX,
    ensures
        event_step(s, e).1 matches Ok(Some(a)) ==> a.target == target_of(event_step(s, e).0),
{
    match e {
        WindowEventView::Opened { id, app_id, title } => lemma_open_switch_target(s, id, app_id, title),
        WindowEventView::Changed { id, app_id, title } => lemma_open_switch_target(s, id, app_id, title),
        WindowEventView::Closed { .. } => {},
    }
}


/// Handling a window event changes neither the configuration nor the recorded
/// current sink: the sink changes only when the caller records a performed
/// switch with `update_sink`.
pub proof fn lemma_event_keeps_sink_and_config(s: StateView, e: WindowEventView)
    ensures
        event_step(s, e).0.current_sink == s.current_sink,
        event_step(s, e).0.config == s.config,
        event_step(s, e).0.manager == s.manager,
{
}


/// A change of a tracked window is re-evaluated: when the window now matches
/// another rule or maps to another sink, the window takes the new rule and sink,
/// and if the target of the new state differs from the current sink the event
/// switches to that target. When neither rule nor sink changes, the window keeps
/// its sink and the event switches nothing.
pub proof fn lemma_changed_window_reevaluated(s: StateView, id: u64, app_id: Seq<char>, title: Seq<char>)
    requires
        s.config.rules.len() <= usize::MAX,
        s.active.contains_key(id),
        first_matching(s.config.rules, app_id, title, 0) matches Some(ri) && resolve_index(
            s.config.sinks,
            s.config.rules[ri].sink_ref,
        ) is Some,
    ensures
        ({
            let ri = first_matching(s.config.rules, app_id, title, 0)->0;
            let sink = s.config.sinks[resolve_index(s.config.sinks, s.config.rules[ri].sink_ref)->0];
            let old_w = s.active[id];
            let changed = old_w.rule_index != ri || old_w.sink_name != sink.name;
            let (s2, r) = event_step(s, WindowEventView::Changed { id, app_id, title });
            &&& s2.active.contains_key(id)
            &&& s2.active[id].sink_name == sink.name
            &&& s2.active[id].rule_index == ri
            &&& s2.active[id].opened_at == old_w.opened_at
            &&& (changed && target_of(s2) != s.current_sink) ==> (r matches Ok(Some(a))
                && a.target == target_of(s2))
            &&& (changed && target_of(s2) == s.current_sink) ==> r == Ok::<
                Option<ActionView>,
                Seq<char>,
            >(None)
            &&& !changed ==> r == Ok::<Option<ActionView>, Seq<char>>(None)
        }),
{
    lemma_first_matching_bounds(s.config.rules, app_id, title, 0);
}

} // verus!
