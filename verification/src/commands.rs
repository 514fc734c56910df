//! The decisions of the command-line commands: which sink a manual switch or a
//! cycle goes to, the status of configured sinks, the sink listing, and how the
//! daemon's answers are read.
//!
//! Querying PipeWire, activating sinks, talking to the daemon and printing are
//! the application's business.

use vstd::prelude::*;

use crate::config::{
    default_in, first_default, first_named, named_in, numbered_list, resolve_index, sink_descs,
    sinks_view, Config, ConfigView, SinkConfig, SinkView,
};
use crate::ipc::{infos_view, Response, ResponseView, WindowInfo, WindowInfoView};
use crate::pipewire::{
    active_view, contains_sink_named, has_active_named, profile_view, ActiveSink, ActiveSinkJson,
    ActiveSinkJsonView, ActiveSinkView, ConfiguredSinkJson, ConfiguredSinkJsonView, ListSinksJson,
    ListSinksJsonView, ProfileSink, ProfileSinkJson, ProfileSinkJsonView, ProfileSinkView,
};
use crate::text::{append, decimal, format_decimal, own, str_eq};

verus! {

// ============================================================================
// Sink status
// ============================================================================

/// Some profile sink has predicted name `name`.
pub open spec fn has_profile_named(profile: Seq<ProfileSinkView>, name: Seq<char>) -> bool {
    exists|i: int| 0 <= i < profile.len() && #[trigger] profile[i].predicted_name == name
}

/// The status of a sink: active, reachable by a profile switch, or not found.
pub open spec fn sink_status(
    name: Seq<char>,
    active: Seq<ActiveSinkView>,
    profile: Seq<ProfileSinkView>,
) -> Seq<char> {
    if has_active_named(active, name) {
        "active"@
    } else if has_profile_named(profile, name) {
        "requires_profile_switch"@
    } else {
        "not_found"@
    }
}

fn contains_profile_named(profile: &[ProfileSink], name: &str) -> (r: bool)
    ensures
        r == has_profile_named(profile_view(profile@), name@),
{
    let ghost pv = profile_view(profile@);
    let mut i: usize = 0;
    while i < profile.len()
        invariant
            i <= profile@.len(),
            pv == profile_view(profile@),
            forall|j: int| 0 <= j < i ==> pv[j].predicted_name != name@,
        decreases profile@.len() - i,
    {
        assert(pv[i as int] == profile@[i as int]@);
        if str_eq(profile[i].predicted_name.as_str(), name) {
            assert(pv[i as int].predicted_name == name@);
            return true;
        }
        i = i + 1;
    }
    false
}

/// Determine a sink's status (`active`, `requires_profile_switch` or `not_found`).
pub fn get_sink_status(sink_name: &str, active: &[ActiveSink], profile: &[ProfileSink]) -> (r:
    &'static str)
    ensures
        r@ == sink_status(sink_name@, active_view(active@), profile_view(profile@)),
{
    if contains_sink_named(active, sink_name) {
        "active"
    } else if contains_profile_named(profile, sink_name) {
        "requires_profile_switch"
    } else {
        "not_found"
    }
}

/// The label of a status in the human-readable listing.
pub open spec fn status_label(status: Seq<char>) -> Seq<char> {
    if status == "active"@ {
        "active"@
    } else if status == "requires_profile_switch"@ {
        "profile switch"@
    } else {
        "not found"@
    }
}

/// The label of a status in the human-readable listing.
pub fn sink_status_label(status: &str) -> (r: &'static str)
    ensures
        r@ == status_label(status@),
{
    if str_eq(status, "active") {
        "active"
    } else if str_eq(status, "requires_profile_switch") {
        "profile switch"
    } else {
        "not found"
    }
}

// ============================================================================
// Listing sinks
// ============================================================================

/// The name of the first active sink marked default.
pub open spec fn first_default_active(active: Seq<ActiveSinkView>, from: int) -> Option<Seq<char>>
    decreases active.len() - from,
{
    if from < 0 || from >= active.len() {
        None
    } else if active[from].is_default {
        Some(active[from].name)
    } else {
        first_default_active(active, from + 1)
    }
}

/// Some configured sink has node name `name`.
pub open spec fn is_configured(sinks: Option<Seq<SinkView>>, name: Seq<char>) -> bool {
    match sinks {
        Some(ss) => first_named(ss, name, 0) is Some,
        None => false,
    }
}

/// The sink listing for `list-sinks --json`.
pub open spec fn sinks_listing(
    config: Option<Seq<SinkView>>,
    active: Seq<ActiveSinkView>,
    profile: Seq<ProfileSinkView>,
) -> ListSinksJsonView {
    ListSinksJsonView {
        active_sinks: active.map_values(
            |s: ActiveSinkView|
                ActiveSinkJsonView {
                    name: s.name,
                    description: s.description,
                    is_default: s.is_default,
                    configured: is_configured(config, s.name),
                },
        ),
        profile_sinks: profile.map_values(
            |s: ProfileSinkView|
                ProfileSinkJsonView {
                    predicted_name: s.predicted_name,
                    description: s.description,
                    device_name: s.device_name,
                    profile_name: s.profile_name,
                    profile_index: s.profile_index,
                },
        ),
        configured_sinks: match config {
            Some(ss) => Seq::new(
                ss.len(),
                |i: int|
                    ConfiguredSinkJsonView {
                        index: (i + 1) as usize,
                        name: ss[i].name,
                        desc: ss[i].desc,
                        icon: ss[i].icon,
                        is_default_config: ss[i].default,
                        status: sink_status(ss[i].name, active, profile),
                    },
            ),
            None => Seq::empty(),
        },
        current_default: first_default_active(active, 0),
    }
}

fn configured(sinks: Option<&Vec<SinkConfig>>, name: &str) -> (r: bool)
    ensures
        r == is_configured(
            match sinks {
                Some(ss) => Some(sinks_view(ss@)),
                None => None,
            },
            name@,
        ),
{
    match sinks {
        Some(ss) => named_in(ss, name).is_some(),
        None => false,
    }
}

/// The name of the first active sink marked default.
fn default_active_name(active: &[ActiveSink]) -> (r: Option<String>)
    ensures
        match first_default_active(active_view(active@), 0) {
            Some(n) => r matches Some(s) && s@ == n,
            None => r is None,
        },
{
    let ghost av = active_view(active@);
    let mut m: usize = 0;
    while m < active.len()
        invariant
            m <= active@.len(),
            av == active_view(active@),
            first_default_active(av, 0) == first_default_active(av, m as int),
        decreases active@.len() - m,
    {
        assert(av[m as int] == active@[m as int]@);
        if active[m].is_default {
            return Some(active[m].name.clone());
        }
        m = m + 1;
    }
    None
}

/// Build the sink listing for `list-sinks --json`.
pub fn list_sinks_json(config: Option<&Config>, active: &[ActiveSink], profile: &[ProfileSink]) -> (r:
    ListSinksJson)
    ensures
        r@ == sinks_listing(
            match config {
                Some(c) => Some(c@.sinks),
                None => None,
            },
            active_view(active@),
            profile_view(profile@),
        ),
{
    let sinks = match config {
        Some(c) => Some(&c.sinks),
        None => None,
    };
    listing_json(sinks, active, profile)
}

/// Build the sink listing for `list-sinks --json` from the configured sinks, if
/// any.
#[verifier::loop_isolation(false)]
pub fn listing_json(config: Option<&Vec<SinkConfig>>, active: &[ActiveSink], profile: &[ProfileSink]) -> (r:
    ListSinksJson)
    ensures
        r@ == sinks_listing(
            match config {
                Some(c) => Some(sinks_view(c@)),
                None => None,
            },
            active_view(active@),
            profile_view(profile@),
        ),
{
    let ghost cv = match config {
        Some(c) => Some(sinks_view(c@)),
        None => None,
    };
    let ghost av = active_view(active@);
    let ghost pv = profile_view(profile@);
    let ghost want = sinks_listing(cv, av, pv);
    let mut actives: Vec<ActiveSinkJson> = Vec::new();
    let mut i: usize = 0;
    while i < active.len()
        invariant
            i <= active@.len(),
            av == active_view(active@),
            want == sinks_listing(cv, av, pv),
            cv == match config {
                Some(c) => Some(sinks_view(c@)),
                None => None,
            },
            actives@.map_values(|s: ActiveSinkJson| s@) == want.active_sinks.take(i as int),
        decreases active@.len() - i,
    {
        let s = &active[i];
        assert(av[i as int] == s@);
        let entry = ActiveSinkJson {
            name: s.name.clone(),
            description: s.description.clone(),
            is_default: s.is_default,
            configured: configured(config, s.name.as_str()),
        };
        let ghost before = actives@;
        actives.push(entry);
        assert(actives@.map_values(|s: ActiveSinkJson| s@) =~= before.map_values(
            |s: ActiveSinkJson| s@,
        ).push(actives@.last()@));
        assert(want.active_sinks.take(i + 1) =~= want.active_sinks.take(i as int).push(
            want.active_sinks[i as int],
        ));
        i = i + 1;
    }
    assert(want.active_sinks.take(active@.len() as int) =~= want.active_sinks);
    let mut profiles: Vec<ProfileSinkJson> = Vec::new();
    let mut k: usize = 0;
    while k < profile.len()
        invariant
            k <= profile@.len(),
            pv == profile_view(profile@),
            want == sinks_listing(cv, av, pv),
            profiles@.map_values(|s: ProfileSinkJson| s@) == want.profile_sinks.take(k as int),
        decreases profile@.len() - k,
    {
        let s = &profile[k];
        assert(pv[k as int] == s@);
        let entry = ProfileSinkJson {
            predicted_name: s.predicted_name.clone(),
            description: s.description.clone(),
            device_name: s.device_name.clone(),
            profile_name: s.profile_name.clone(),
            profile_index: s.profile_index,
        };
        let ghost before = profiles@;
        profiles.push(entry);
        assert(profiles@.map_values(|s: ProfileSinkJson| s@) =~= before.map_values(
            |s: ProfileSinkJson| s@,
        ).push(profiles@.last()@));
        assert(want.profile_sinks.take(k + 1) =~= want.profile_sinks.take(k as int).push(
            want.profile_sinks[k as int],
        ));
        k = k + 1;
    }
    assert(want.profile_sinks.take(profile@.len() as int) =~= want.profile_sinks);
    let mut configured_sinks: Vec<ConfiguredSinkJson> = Vec::new();
    match config {
        Some(c) => {
            let ghost sinks = sinks_view(c@);
            let mut j: usize = 0;
            while j < c.len()
                invariant
                    j <= c@.len(),
                    sinks == sinks_view(c@),
                    cv == Some(sinks),
                    want == sinks_listing(cv, av, pv),
                    av == active_view(active@),
                    pv == profile_view(profile@),
                    configured_sinks@.map_values(|s: ConfiguredSinkJson| s@)
                        == want.configured_sinks.take(j as int),
                decreases c@.len() - j,
            {
                let s = &c[j];
                assert(sinks[j as int] == s@);
                let status = get_sink_status(s.name.as_str(), active, profile);
                let icon = match &s.icon {
                    Some(x) => Some(x.clone()),
                    None => None,
                };
                let entry = ConfiguredSinkJson {
                    index: j + 1,
                    name: s.name.clone(),
                    desc: s.desc.clone(),
                    icon,
                    is_default_config: s.default,
                    status: own(status),
                };
                let ghost before = configured_sinks@;
                configured_sinks.push(entry);
                assert(configured_sinks@.map_values(|s: ConfiguredSinkJson| s@) =~= before.map_values(
                    |s: ConfiguredSinkJson| s@,
                ).push(configured_sinks@.last()@));
                assert(want.configured_sinks.take(j + 1) =~= want.configured_sinks.take(
                    j as int,
                ).push(want.configured_sinks[j as int]));
                j = j + 1;
            }
            assert(want.configured_sinks.take(c@.len() as int) =~= want.configured_sinks);
        },
        None => {
            assert(configured_sinks@.map_values(|s: ConfiguredSinkJson| s@)
                =~= want.configured_sinks);
        },
    }
    let current_default = default_active_name(active);
    let r = ListSinksJson { active_sinks: actives, profile_sinks: profiles, configured_sinks, current_default };
    assert(r@ =~= want);
    r
}

/// The marker after a listed sink name: ` [<desc>]` of the first configured sink
/// with that node name, if any.
pub open spec fn configured_marker(sinks: Option<Seq<SinkView>>, name: Seq<char>) -> Seq<char> {
    match sinks {
        Some(ss) => match first_named(ss, name, 0) {
            Some(i) => " ["@ + ss[i].desc + "]"@,
            None => Seq::empty(),
        },
        None => Seq::empty(),
    }
}

/// The marker after a listed sink name in the human-readable listing.
pub fn configured_suffix(config: Option<&Config>, name: &str) -> (r: String)
    ensures
        r@ == configured_marker(
            match config {
                Some(c) => Some(c@.sinks),
                None => None,
            },
            name@,
        ),
{
    let sinks = match config {
        Some(c) => Some(&c.sinks),
        None => None,
    };
    marker_for(sinks, name)
}

/// The marker after a listed sink name, from the configured sinks, if any.
pub fn marker_for(sinks: Option<&Vec<SinkConfig>>, name: &str) -> (r: String)
    ensures
        r@ == configured_marker(
            match sinks {
                Some(ss) => Some(sinks_view(ss@)),
                None => None,
            },
            name@,
        ),
{
    match sinks {
        Some(ss) => match named_in(ss, name) {
            Some(i) => {
                assert(sinks_view(ss@)[i as int] == ss@[i as int]@);
                let s = own(" [");
                let s = append(s, ss[i].desc.as_str());
                append(s, "]")
            },
            None => String::new(),
        },
        None => String::new(),
    }
}

// ============================================================================
// Switching by hand
// ============================================================================

/// Direction for sink cycling.
#[derive(Clone, Copy, PartialEq, Eq, Debug, Structural)]
pub enum Direction {
    Next,
    Prev,
}

/// Which configured sink a command settles on.
#[derive(Clone, Copy, PartialEq, Eq, Debug, Structural)]
pub enum SinkChoice {
    /// The sink at this index is already current: nothing to do.
    AlreadyOn { index: usize },
    /// Activate the sink at this index.
    Activate { index: usize },
}

/// A command that cannot go on.
#[derive(Debug)]
pub enum CommandError {
    /// The sink reference names no configured sink.
    UnknownSink { sink_ref: String, available: Vec<String> },
    /// No sink is marked default.
    NoDefaultSink,
}

/// The text of a command error.
pub open spec fn command_error_text(sink_ref: Seq<char>, available: Seq<Seq<char>>) -> Seq<char> {
    "Unknown sink '"@ + sink_ref + "'. Available: "@ + numbered_list(available, available.len())
}

impl CommandError {
    /// The human-readable text of this error.
    pub fn message(&self) -> (s: String)
        ensures
            match self {
                CommandError::UnknownSink { sink_ref, available } => s@ == command_error_text(
                    sink_ref@,
                    crate::config::strs_view(available@),
                ),
                CommandError::NoDefaultSink => s@ == "No default sink configured"@,
            },
    {
        match self {
            CommandError::UnknownSink { sink_ref, available } => {
                let s = own("Unknown sink '");
                let s = append(s, sink_ref.as_str());
                let s = append(s, "'. Available: ");
                proof {
                    assert(crate::config::strs_view(available@).len() == available@.len());
                }
                append(s, crate::config::numbered_descs(available).as_str())
            },
            CommandError::NoDefaultSink => own("No default sink configured"),
        }
    }
}

/// Resolve the sink reference of a manual switch.
pub fn resolve_target(config: &Config, sink_ref: &str) -> (r: Result<usize, CommandError>)
    ensures
        match resolve_index(config@.sinks, sink_ref@) {
            Some(i) => r == Ok::<usize, CommandError>(i as usize) && i < config@.sinks.len(),
            None => r matches Err(CommandError::UnknownSink { sink_ref: s, available }) && s@
                == sink_ref@ && crate::config::strs_view(available@) == sink_descs(config@.sinks),
        },
{
    match config.resolve_sink_index(sink_ref) {
        Some(i) => {
            proof {
                crate::config::lemma_resolve_bounds(config@.sinks, sink_ref@);
            }
            Ok(i)
        },
        None => Err(
            CommandError::UnknownSink {
                sink_ref: own(sink_ref),
                available: config.sink_descriptions(),
            },
        ),
    }
}

/// The choice of a manual switch to the sink at `target`, the current sink being
/// `current`: with smart toggling, asking for the current sink goes back to the
/// default sink (or stays, when it is the default).
pub open spec fn smart_choice(c: ConfigView, target: int, current: Seq<char>) -> Result<
    SinkChoice,
    (),
> {
    match first_default(c.sinks, 0) {
        None => Err(()),
        Some(d) => if c.settings.set_smart_toggle && current == c.sinks[target].name {
            if c.sinks[target].name == c.sinks[d].name {
                Ok(SinkChoice::AlreadyOn { index: d as usize })
            } else {
                Ok(SinkChoice::Activate { index: d as usize })
            }
        } else {
            Ok(SinkChoice::Activate { index: target as usize })
        },
    }
}

/// Decide a manual switch to the sink at `target`, the current sink being
/// `current`.
pub fn set_sink_smart(config: &Config, target: usize, current: &str) -> (r: Result<
    SinkChoice,
    CommandError,
>)
    requires
        target < config@.sinks.len(),
    ensures
        match smart_choice(config@, target as int, current@) {
            Ok(ch) => r == Ok::<SinkChoice, CommandError>(ch),
            Err(_) => r matches Err(CommandError::NoDefaultSink),
        },
{
    let d = match config.default_sink_index() {
        Some(d) => d,
        None => return Err(CommandError::NoDefaultSink),
    };
    proof {
        crate::config::lemma_first_default_bounds(config@.sinks, 0);
        assert(config@.sinks[target as int] == config.sinks@[target as int]@);
        assert(config@.sinks[d as int] == config.sinks@[d as int]@);
    }
    let t = &config.sinks[target];
    if config.settings.set_smart_toggle && str_eq(current, t.name.as_str()) {
        if str_eq(t.name.as_str(), config.sinks[d].name.as_str()) {
            Ok(SinkChoice::AlreadyOn { index: d })
        } else {
            Ok(SinkChoice::Activate { index: d })
        }
    } else {
        Ok(SinkChoice::Activate { index: target })
    }
}

/// The index after `i` among `len` sinks, wrapping around.
pub open spec fn next_index(len: nat, i: nat) -> nat {
    (i + 1) % len
}

/// The index before `i` among `len` sinks, wrapping around.
pub open spec fn prev_index(len: nat, i: nat) -> nat {
    if i == 0 {
        (len - 1) as nat
    } else {
        (i - 1) as nat
    }
}

/// The index cycling starts from: the current sink's, else the default sink's,
/// else the first.
pub open spec fn cycle_start(sinks: Seq<SinkView>, current: Seq<char>) -> nat {
    match first_named(sinks, current, 0) {
        Some(i) => i as nat,
        None => match first_default(sinks, 0) {
            Some(d) => d as nat,
            None => 0,
        },
    }
}

/// Where cycling in `direction` from the current sink `current` leads.
pub open spec fn cycle_choice(sinks: Seq<SinkView>, current: Seq<char>, direction: Direction) -> SinkChoice {
    let start = cycle_start(sinks, current);
    let len = sinks.len();
    let next = match direction {
        Direction::Next => next_index(len, start),
        Direction::Prev => prev_index(len, start),
    };
    if sinks[next as int].name == current {
        SinkChoice::AlreadyOn { index: next as usize }
    } else {
        SinkChoice::Activate { index: next as usize }
    }
}

/// Whether there is anything to cycle through: at least two configured sinks.
pub fn can_cycle(config: &Config) -> (r: bool)
    ensures
        r == (config@.sinks.len() >= 2),
{
    config.sinks.len() >= 2
}

/// Decide where cycling through the sinks leads.
pub fn cycle_in(sinks: &Vec<SinkConfig>, current: &str, direction: Direction) -> (r: SinkChoice)
    requires
        sinks@.len() >= 2,
    ensures
        r == cycle_choice(sinks_view(sinks@), current@, direction),
{
    let len = sinks.len();
    let start = match named_in(sinks, current) {
        Some(i) => i,
        None => match default_in(sinks) {
            Some(d) => d,
            None => 0,
        },
    };
    let next = match direction {
        Direction::Next => (start + 1) % len,
        Direction::Prev => if start == 0 {
            len - 1
        } else {
            start - 1
        },
    };
    assert(sinks_view(sinks@)[next as int] == sinks@[next as int]@);
    if str_eq(sinks[next].name.as_str(), current) {
        SinkChoice::AlreadyOn { index: next }
    } else {
        SinkChoice::Activate { index: next }
    }
}

/// Decide where cycling through the configured sinks leads.
pub fn cycle_sink(config: &Config, current: &str, direction: Direction) -> (r: SinkChoice)
    requires
        config@.sinks.len() >= 2,
    ensures
        r == cycle_choice(config@.sinks, current@, direction),
{
    cycle_in(&config.sinks, current, direction)
}

/// Cycling forward and then backward returns to the starting position.
pub proof fn lemma_cycle_round_trip(len: nat, i: nat)
    requires
        i < len,
    ensures
        prev_index(len, next_index(len, i)) == i,
        next_index(len, prev_index(len, i)) == i,
{
    if i + 1 == len {
        assert((i + 1) % len == 0) by {
            vstd::arithmetic::div_mod::lemma_mod_self_0(len as int);
        }
    } else {
        assert((i + 1) % len == i + 1) by {
            vstd::arithmetic::div_mod::lemma_small_mod((i + 1) as nat, len);
        }
    }
    if i == 0 {
        assert(len % len == 0) by {
            vstd::arithmetic::div_mod::lemma_mod_self_0(len as int);
        }
    } else {
        assert(i % len == i) by {
            vstd::arithmetic::div_mod::lemma_small_mod(i, len);
        }
    }
}

// ============================================================================
// Uptime
// ============================================================================

/// Uptime in human-readable form: seconds, minutes, or hours and minutes.
pub open spec fn uptime_text(secs: nat) -> Seq<char> {
    if secs < 60 {
        decimal(secs) + "s"@
    } else if secs < 3600 {
        decimal(secs / 60) + "m"@
    } else if (secs % 3600) / 60 > 0 {
        decimal(secs / 3600) + "h "@ + decimal((secs % 3600) / 60) + "m"@
    } else {
        decimal(secs / 3600) + "h"@
    }
}

/// Format uptime in human-readable form.
pub fn format_uptime(secs: u64) -> (r: String)
    ensures
        r@ == uptime_text(secs as nat),
{
    if secs < 60 {
        return append(format_decimal(secs), "s");
    }
    if secs < 3600 {
        return append(format_decimal(secs / 60), "m");
    }
    let hours = secs / 3600;
    let mins = (secs % 3600) / 60;
    if mins > 0 {
        let s = append(format_decimal(hours), "h ");
        let s = append(s, format_decimal(mins).as_str());
        append(s, "m")
    } else {
        append(format_decimal(hours), "h")
    }
}

// ============================================================================
// Reading the daemon's answers
// ============================================================================

/// The text that an unexpected or failed answer of the daemon gives.
pub open spec fn answer_error(r: ResponseView) -> Seq<char> {
    match r {
        ResponseView::Error { message } => "Error: "@ + message,
        _ => "Unexpected response from daemon"@,
    }
}

fn error_of(response: &Response) -> (s: String)
    ensures
        s@ == answer_error(response@),
{
    match response {
        Response::Error { message } => append(own("Error: "), message.as_str()),
        _ => own("Unexpected response from daemon"),
    }
}

/// The outcome of a shutdown request: the daemon's message, or the error.
pub fn shutdown_outcome(response: Response) -> (r: Result<String, String>)
    ensures
        match response@ {
            ResponseView::Success { message } => r matches Ok(m) && m@ == message,
            _ => r matches Err(e) && e@ == answer_error(response@),
        },
{
    match response {
        Response::Success { message } => Ok(message),
        _ => Err(error_of(&response)),
    }
}

/// The windows of a window-listing answer, or the error.
pub fn windows_outcome(response: Response) -> (r: Result<Vec<WindowInfo>, String>)
    ensures
        match response@ {
            ResponseView::Windows { windows } => r matches Ok(w) && infos_view(w@) == windows,
            _ => r matches Err(e) && e@ == answer_error(response@),
        },
{
    match response {
        Response::Windows { windows } => Ok(windows),
        _ => Err(error_of(&response)),
    }
}

/// The pattern and matches of a rule-test answer, or the error.
pub fn rule_matches_outcome(response: Response) -> (r: Result<(String, Vec<WindowInfo>), String>)
    ensures
        match response@ {
            ResponseView::RuleMatches { pattern, matches } => r matches Ok(p) && p.0@ == pattern
                && infos_view(p.1@) == matches,
            _ => r matches Err(e) && e@ == answer_error(response@),
        },
{
    match response {
        Response::RuleMatches { pattern, matches } => Ok((pattern, matches)),
        _ => Err(error_of(&response)),
    }
}

/// The number of windows in a listing that are tracked.
pub open spec fn count_tracked(ws: Seq<WindowInfoView>) -> nat
    decreases ws.len(),
{
    if ws.len() == 0 {
        0
    } else {
        count_tracked(ws.drop_last()) + if ws.last().tracking is Some {
            1nat
        } else {
            0nat
        }
    }
}

/// The heading of the window listing: `All Windows (<n> open, <k> tracked):`.
pub fn windows_header(windows: &Vec<WindowInfo>) -> (r: String)
    ensures
        r@ == "All Windows ("@ + decimal(windows@.len()) + " open, "@ + decimal(
            count_tracked(infos_view(windows@)),
        ) + " tracked):"@,
{
    let ghost ws = infos_view(windows@);
    let mut k: usize = 0;
    let mut i: usize = 0;
    while i < windows.len()
        invariant
            i <= windows@.len(),
            ws == infos_view(windows@),
            k == count_tracked(ws.take(i as int)),
            k <= i,
        decreases windows@.len() - i,
    {
        assert(ws.take(i + 1).drop_last() =~= ws.take(i as int));
        assert(ws.take(i + 1).last() == windows@[i as int]@);
        if windows[i].tracking.is_some() {
            k = k + 1;
        }
        i = i + 1;
    }
    assert(ws.take(windows@.len() as int) =~= ws);
    let s = own("All Windows (");
    let s = append(s, format_decimal(windows.len() as u64).as_str());
    let s = append(s, " open, ");
    let s = append(s, format_decimal(k as u64).as_str());
    append(s, " tracked):")
}

/// Whether a rule-test match marks the `app_id` and the title as matched.
pub open spec fn match_marks(matched_on: Option<Seq<char>>) -> (bool, bool) {
    match matched_on {
        Some(m) => (m == "app_id"@ || m == "both"@, m == "title"@ || m == "both"@),
        None => (false, false),
    }
}

/// Whether a rule-test match marks the `app_id` and the title as matched.
pub fn matched_marks(matched_on: &Option<String>) -> (r: (bool, bool))
    ensures
        r == match_marks(
            match matched_on {
                Some(m) => Some(m@),
                None => None,
            },
        ),
{
    match matched_on {
        Some(m) => (
            str_eq(m.as_str(), "app_id") || str_eq(m.as_str(), "both"),
            str_eq(m.as_str(), "title") || str_eq(m.as_str(), "both"),
        ),
        None => (false, false),
    }
}


/// The index a choice settles on.
pub open spec fn choice_index(c: SinkChoice) -> int {
    match c {
        SinkChoice::AlreadyOn { index } => index as int,
        SinkChoice::Activate { index } => index as int,
    }
}

proof fn lemma_step_indices(len: nat, i: nat)
    requires
        len >= 2,
        i < len,
    ensures
        next_index(len, i) == ((i + 1) as int) % (len as int),
        prev_index(len, i) == ((i + len - 1) as int) % (len as int),
        next_index(len, i) < len,
        prev_index(len, i) < len,
{
    if i + 1 == len {
        vstd::arithmetic::div_mod::lemma_mod_self_0(len as int);
    } else {
        vstd::arithmetic::div_mod::lemma_small_mod((i + 1) as nat, len);
    }
    if i == 0 {
        vstd::arithmetic::div_mod::lemma_small_mod((len - 1) as nat, len);
    } else {
        vstd::arithmetic::div_mod::lemma_mod_add_multiples_vanish((i - 1) as int, len as int);
        vstd::arithmetic::div_mod::lemma_small_mod((i - 1) as nat, len);
    }
}

/// Cycling moves exactly one step around the configured sinks, wrapping around:
/// from the current sink's position (else the default sink's, else the first),
/// `Next` goes to the following position and `Prev` to the preceding one, so
/// `Prev` from the first sink reaches the last. The choice is `AlreadyOn`
/// exactly when the sink reached is the current one.
pub proof fn lemma_cycle_steps(sinks: Seq<SinkView>, current: Seq<char>, direction: Direction)
    requires
        2 <= sinks.len() <= usize::MAX,
    ensures
        ({
            let len = sinks.len() as int;
            let start = match first_named(sinks, current, 0) {
                Some(i) => i,
                None => match first_default(sinks, 0) {
                    Some(d) => d,
                    None => 0,
                },
            };
            let c = cycle_choice(sinks, current, direction);
            &&& 0 <= choice_index(c) < len
            &&& direction == Direction::Next ==> choice_index(c) == (start + 1) % len
            &&& direction == Direction::Prev ==> choice_index(c) == (start + len - 1) % len
            &&& (c is AlreadyOn <==> sinks[choice_index(c)].name == current)
        }),
{
    crate::config::lemma_first_named_bounds(sinks, current, 0);
    crate::config::lemma_first_default_bounds(sinks, 0);
    lemma_step_indices(sinks.len(), cycle_start(sinks, current));
}

proof fn lemma_named_at(sinks: Seq<SinkView>, n: int, from: int)
    requires
        0 <= from <= n < sinks.len(),
        forall|i: int, j: int|
            0 <= i < sinks.len() && 0 <= j < sinks.len() && i != j ==> #[trigger] sinks[i].name
                != #[trigger] sinks[j].name,
    ensures
        first_named(sinks, sinks[n].name, from) == Some(n),
    decreases n - from,
{
    if from < n {
        assert(sinks[from].name != sinks[n].name);
        lemma_named_at(sinks, n, from + 1);
    }
}

/// With distinct node names, cycling from a configured current sink always
/// moves to another sink, and cycling forward and then backward (or backward and
/// then forward) from there comes back to the sink one started on.
pub proof fn lemma_cycle_choice_round_trip(sinks: Seq<SinkView>, current: Seq<char>)
    requires
        2 <= sinks.len() <= usize::MAX,
        first_named(sinks, current, 0) is Some,
        forall|i: int, j: int|
            0 <= i < sinks.len() && 0 <= j < sinks.len() && i != j ==> #[trigger] sinks[i].name
                != #[trigger] sinks[j].name,
    ensures
        ({
            let i = first_named(sinks, current, 0)->0;
            let n = choice_index(cycle_choice(sinks, current, Direction::Next));
            let p = choice_index(cycle_choice(sinks, current, Direction::Prev));
            &&& cycle_choice(sinks, current, Direction::Next) is Activate
            &&& cycle_choice(sinks, current, Direction::Prev) is Activate
            &&& choice_index(cycle_choice(sinks, sinks[n].name, Direction::Prev)) == i
            &&& choice_index(cycle_choice(sinks, sinks[p].name, Direction::Next)) == i
        }),
{
    let i = first_named(sinks, current, 0)->0;
    crate::config::lemma_first_named_bounds(sinks, current, 0);
    lemma_cycle_steps(sinks, current, Direction::Next);
    lemma_cycle_steps(sinks, current, Direction::Prev);
    let n = choice_index(cycle_choice(sinks, current, Direction::Next));
    let p = choice_index(cycle_choice(sinks, current, Direction::Prev));
    lemma_step_indices(sinks.len(), i as nat);
    lemma_named_at(sinks, n, 0);
    lemma_named_at(sinks, p, 0);
    lemma_named_at(sinks, i, 0);
    lemma_step_indices(sinks.len(), n as nat);
    lemma_step_indices(sinks.len(), p as nat);
    lemma_cycle_round_trip(sinks.len(), i as nat);
    lemma_cycle_steps(sinks, sinks[n].name, Direction::Prev);
    lemma_cycle_steps(sinks, sinks[p].name, Direction::Next);
}

} // verus!
