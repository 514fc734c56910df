//! NASW, the Niri audio switcher: a standalone daemon for the Niri compositor
//! that follows Niri's event stream. It has settings of its own, chooses its
//! icons from a smaller set of keywords, and always lets the most recently
//! opened window decide.
//!
//! Reading Niri's event stream, activating sinks and notifying are the
//! application's business; the library decides what each event does.

use vstd::prelude::*;

use std::collections::HashMap;

use crate::commands::{cycle_choice, cycle_in, CommandError, Direction, SinkChoice};
use crate::config::{
    check_sinks, default_in, descriptions_of, fault_message, first_default, first_named, lemma_sinks_fault_none,
    named_in, opt_str, resolve_in, resolve_index, sink_descs, sinks_fault, sinks_view,
    strs_view, unknown_sink_error, ConfigError, ConfigFault, SinkConfig, SinkConfigFile, SinkView,
};
use crate::compositor::{NiriEvent, NiriEventView};
use crate::notification::switch_text;
use crate::pattern::{check_pattern, matches_text, pattern_matches, regex_compiles, regex_error_text};
use crate::state::{beats, is_winner, lemma_winner_unique, winner, ActionView, SwitchAction, WindowView};
use crate::text::{
    append, decimal, format_decimal, lower, own, seq_contains, str_contains, str_eq,
    to_lowercase,
};

verus! {

broadcast use vstd::std_specs::hash::group_hash_axioms;

// ============================================================================
// Configuration
// ============================================================================

/// NASW settings.
#[derive(Clone, Debug)]
pub struct NaswSettings {
    pub reset_on_startup: bool,
    pub smart_toggle: bool,
    pub notify_daemon: bool,
    pub notify_switch: bool,
    pub notify_set: bool,
    /// Custom sink icons only for the status bar; notifications use the detected
    /// icons.
    pub status_bar_icons: bool,
    pub log_level: String,
}

/// A NASW window rule.
#[derive(Clone, Debug)]
pub struct NaswRule {
    pub app_id_pattern: String,
    pub title_pattern: Option<String>,
    pub sink_ref: String,
    pub desc: Option<String>,
    pub notify: bool,
}

/// The NASW configuration.
#[derive(Clone, Debug)]
pub struct NaswConfig {
    pub settings: NaswSettings,
    pub sinks: Vec<SinkConfig>,
    pub rules: Vec<NaswRule>,
}

/// A NASW rule, as values.
pub struct NaswRuleView {
    pub app_id_pattern: Seq<char>,
    pub title_pattern: Option<Seq<char>>,
    pub sink_ref: Seq<char>,
    pub desc: Option<Seq<char>>,
    pub notify: bool,
}

impl View for NaswRule {
    type V = NaswRuleView;

    open spec fn view(&self) -> NaswRuleView {
        NaswRuleView {
            app_id_pattern: self.app_id_pattern@,
            title_pattern: opt_str(self.title_pattern),
            sink_ref: self.sink_ref@,
            desc: opt_str(self.desc),
            notify: self.notify,
        }
    }
}

/// The NASW configuration, as values.
pub struct NaswConfigView {
    pub reset_on_startup: bool,
    pub smart_toggle: bool,
    pub notify_daemon: bool,
    pub notify_switch: bool,
    pub notify_set: bool,
    pub status_bar_icons: bool,
    pub log_level: Seq<char>,
    pub sinks: Seq<SinkView>,
    pub rules: Seq<NaswRuleView>,
}

impl View for NaswConfig {
    type V = NaswConfigView;

    open spec fn view(&self) -> NaswConfigView {
        NaswConfigView {
            reset_on_startup: self.settings.reset_on_startup,
            smart_toggle: self.settings.smart_toggle,
            notify_daemon: self.settings.notify_daemon,
            notify_switch: self.settings.notify_switch,
            notify_set: self.settings.notify_set,
            status_bar_icons: self.settings.status_bar_icons,
            log_level: self.settings.log_level@,
            sinks: sinks_view(self.sinks@),
            rules: self.rules@.map_values(|r: NaswRule| r@),
        }
    }
}

/// Every rule names a configured sink and one sink is the default: what loading
/// a NASW configuration ensures.
pub open spec fn nasw_ready(c: NaswConfigView) -> bool {
    &&& first_default(c.sinks, 0) is Some
    &&& forall|i: int| 0 <= i < c.rules.len() ==> #[trigger] resolve_index(c.sinks, c.rules[i].sink_ref) is Some
}

impl NaswConfig {
    /// Whether a rule-triggered switch notifies: both the setting and the rule ask
    /// for it.
    pub fn should_notify_switch(&self, rule_notify: bool) -> (r: bool)
        ensures
            r == (self.settings.notify_switch && rule_notify),
    {
        self.settings.notify_switch && rule_notify
    }

    /// Whether every rule names a configured sink and a default sink exists.
    pub fn is_ready(&self) -> (r: bool)
        ensures
            r == nasw_ready(self@),
    {
        if default_in(&self.sinks).is_none() {
            return false;
        }
        let ghost c = self@;
        let mut i: usize = 0;
        while i < self.rules.len()
            invariant
                c == self@,
                first_default(c.sinks, 0) is Some,
                i <= self.rules@.len(),
                forall|j: int| 0 <= j < i ==> #[trigger] resolve_index(c.sinks, c.rules[j].sink_ref) is Some,
            decreases self.rules@.len() - i,
        {
            assert(c.rules[i as int] == self.rules@[i as int]@);
            if resolve_in(&self.sinks, self.rules[i].sink_ref.as_str()).is_none() {
                assert(resolve_index(c.sinks, c.rules[i as int].sink_ref) is None);
                return false;
            }
            i = i + 1;
        }
        true
    }
}

// ============================================================================
// Configuration file and validation
// ============================================================================

/// The `[settings]` table of a NASW configuration file.
#[derive(Debug)]
pub struct NaswSettingsFile {
    pub reset_on_startup: bool,
    pub smart_toggle: bool,
    pub notify_daemon: bool,
    pub notify_switch: bool,
    pub notify_set: bool,
    pub status_bar_icons: bool,
    pub log_level: String,
}

impl Default for NaswSettingsFile {
    fn default() -> (s: Self)
        ensures
            s.reset_on_startup,
            s.smart_toggle,
            s.notify_daemon,
            s.notify_switch,
            s.notify_set,
            !s.status_bar_icons,
            s.log_level@ == "info"@,
    {
        NaswSettingsFile {
            reset_on_startup: true,
            smart_toggle: true,
            notify_daemon: true,
            notify_switch: true,
            notify_set: true,
            status_bar_icons: false,
            log_level: own("info"),
        }
    }
}

/// A `[[rules]]` entry of a NASW configuration file.
#[derive(Debug)]
pub struct NaswRuleFile {
    pub app_id: String,
    pub title: Option<String>,
    pub sink: String,
    pub desc: Option<String>,
    pub notify: bool,
}

/// A NASW configuration file as read.
#[derive(Debug)]
pub struct NaswConfigFile {
    pub settings: NaswSettingsFile,
    pub sinks: Vec<SinkConfigFile>,
    pub rules: Vec<NaswRuleFile>,
}

impl View for NaswRuleFile {
    type V = NaswRuleView;

    open spec fn view(&self) -> NaswRuleView {
        NaswRuleView {
            app_id_pattern: self.app_id@,
            title_pattern: opt_str(self.title),
            sink_ref: self.sink@,
            desc: opt_str(self.desc),
            notify: self.notify,
        }
    }
}

impl View for NaswConfigFile {
    type V = NaswConfigView;

    open spec fn view(&self) -> NaswConfigView {
        NaswConfigView {
            reset_on_startup: self.settings.reset_on_startup,
            smart_toggle: self.settings.smart_toggle,
            notify_daemon: self.settings.notify_daemon,
            notify_switch: self.settings.notify_switch,
            notify_set: self.settings.notify_set,
            status_bar_icons: self.settings.status_bar_icons,
            log_level: self.settings.log_level@,
            sinks: self.sinks@.map_values(|x: SinkConfigFile| x@),
            rules: self.rules@.map_values(|x: NaswRuleFile| x@),
        }
    }
}

/// The first rule, from `from` on, whose sink reference names no sink.
pub open spec fn nasw_rule_fault(sinks: Seq<SinkView>, rules: Seq<NaswRuleView>, from: int) -> Option<
    ConfigFault,
>
    decreases rules.len() - from,
{
    if from < 0 || from >= rules.len() {
        None
    } else if resolve_index(sinks, rules[from].sink_ref) is None {
        Some(
            ConfigFault::UnknownSinkRef {
                rule: (from + 1) as nat,
                sink_ref: rules[from].sink_ref,
                available: sink_descs(sinks),
            },
        )
    } else {
        nasw_rule_fault(sinks, rules, from + 1)
    }
}

/// The first fault of a NASW configuration: the log level and sink checks, then
/// the rules' sink references.
pub open spec fn nasw_config_fault(c: NaswConfigView) -> Option<ConfigFault> {
    if sinks_fault(c.log_level, c.sinks) is Some {
        sinks_fault(c.log_level, c.sinks)
    } else {
        nasw_rule_fault(c.sinks, c.rules, 0)
    }
}

/// The first rule pattern, from rule `from` on, that the `regex` crate rejects
/// (`app_id` before title).
pub open spec fn nasw_regex_fault(rules: Seq<NaswRuleView>, from: int) -> Option<ConfigFault>
    decreases rules.len() - from,
{
    if from < 0 || from >= rules.len() {
        None
    } else {
        let r = rules[from];
        let n = (from + 1) as nat;
        if !regex_compiles(r.app_id_pattern) {
            Some(
                ConfigFault::InvalidRegex {
                    rule: n,
                    field: "app_id"@,
                    pattern: r.app_id_pattern,
                    message: regex_error_text(r.app_id_pattern),
                },
            )
        } else if r.title_pattern is Some && !regex_compiles(r.title_pattern->0) {
            Some(
                ConfigFault::InvalidRegex {
                    rule: n,
                    field: "title"@,
                    pattern: r.title_pattern->0,
                    message: regex_error_text(r.title_pattern->0),
                },
            )
        } else {
            nasw_regex_fault(rules, from + 1)
        }
    }
}

/// The first fault of a NASW configuration file: no sinks, then rejected
/// patterns, then the checks of [`nasw_config_fault`].
pub open spec fn nasw_file_fault(c: NaswConfigView) -> Option<ConfigFault> {
    if c.sinks.len() == 0 {
        Some(ConfigFault::NoSinks)
    } else if nasw_regex_fault(c.rules, 0) is Some {
        nasw_regex_fault(c.rules, 0)
    } else {
        nasw_config_fault(c)
    }
}

/// The text of a NASW configuration fault: a rejected pattern names its rule and
/// field; the other faults read as in the daemon's configuration.
pub open spec fn nasw_fault_message(f: ConfigFault) -> Seq<char> {
    match f {
        ConfigFault::InvalidRegex { rule, field, pattern, .. } => "Invalid regex in rule "@
            + decimal(rule) + " "@ + field + ": '"@ + pattern + "'"@,
        _ => fault_message(f),
    }
}

/// The text of a NASW configuration error.
pub fn nasw_error_message(e: &ConfigError) -> (s: String)
    ensures
        s@ == nasw_fault_message(e@),
{
    match e {
        ConfigError::InvalidRegex { rule, field, pattern, .. } => {
            let s = own("Invalid regex in rule ");
            let s = append(s, format_decimal(*rule as u64).as_str());
            let s = append(s, " ");
            let s = append(s, field.as_str());
            let s = append(s, ": '");
            let s = append(s, pattern.as_str());
            append(s, "'")
        },
        _ => e.message(),
    }
}

proof fn lemma_nasw_rules_resolve(sinks: Seq<SinkView>, rules: Seq<NaswRuleView>, from: int)
    requires
        0 <= from,
        nasw_rule_fault(sinks, rules, from) is None,
    ensures
        forall|i: int| from <= i < rules.len() ==> #[trigger] resolve_index(sinks, rules[i].sink_ref) is Some,
    decreases rules.len() - from,
{
    if from < rules.len() {
        lemma_nasw_rules_resolve(sinks, rules, from + 1);
    }
}

/// A NASW configuration that passes validation is ready for the daemon: it has
/// a default sink and every rule names a configured sink.
pub proof fn lemma_nasw_valid_ready(c: NaswConfigView)
    requires
        nasw_config_fault(c) is None,
    ensures
        nasw_ready(c),
{
    lemma_sinks_fault_none(c.log_level, c.sinks);
    lemma_nasw_rules_resolve(c.sinks, c.rules, 0);
}

fn clone_text(o: &Option<String>) -> (r: Option<String>)
    ensures
        opt_str(r) == opt_str(*o),
{
    match o {
        Some(s) => Some(s.clone()),
        None => None,
    }
}

impl NaswConfig {
    /// Check the configuration: log level, exactly one default sink, no repeated
    /// sink descriptions or names, and a resolvable sink for every rule. The
    /// first failing check is reported.
    pub fn validate(&self) -> (r: Result<(), ConfigError>)
        ensures
            match nasw_config_fault(self@) {
                None => r is Ok,
                Some(f) => r matches Err(e) && e@ == f,
            },
    {
        let ghost c = self@;
        match check_sinks(self.settings.log_level.as_str(), &self.sinks) {
            Err(e) => {
                return Err(e);
            },
            Ok(()) => {},
        }
        let mut i: usize = 0;
        while i < self.rules.len()
            invariant
                c == self@,
                sinks_fault(c.log_level, c.sinks) is None,
                i <= self.rules@.len(),
                nasw_rule_fault(c.sinks, c.rules, 0) == nasw_rule_fault(c.sinks, c.rules, i as int),
            decreases self.rules@.len() - i,
        {
            assert(c.rules[i as int] == self.rules@[i as int]@);
            if resolve_in(&self.sinks, self.rules[i].sink_ref.as_str()).is_none() {
                return Err(unknown_sink_error(&self.sinks, i + 1, self.rules[i].sink_ref.as_str()));
            }
            i = i + 1;
        }
        Ok(())
    }

    /// Build a NASW configuration from the file's contents and check it.
    pub fn from_config_file(config_file: NaswConfigFile) -> (r: Result<NaswConfig, ConfigError>)
        ensures
            match nasw_file_fault(config_file@) {
                Some(f) => r matches Err(e) && e@ == f,
                None => r matches Ok(c) && c@ == config_file@,
            },
    {
        let ghost cf = config_file@;
        if config_file.sinks.len() == 0 {
            return Err(ConfigError::NoSinks);
        }
        let mut i: usize = 0;
        while i < config_file.rules.len()
            invariant
                cf == config_file@,
                cf.sinks.len() > 0,
                i <= config_file.rules@.len(),
                nasw_regex_fault(cf.rules, 0) == nasw_regex_fault(cf.rules, i as int),
            decreases config_file.rules@.len() - i,
        {
            let r = &config_file.rules[i];
            assert(cf.rules[i as int] == r@);
            match check_pattern(r.app_id.as_str()) {
                Err(message) => {
                    return Err(
                        ConfigError::InvalidRegex {
                            rule: i + 1,
                            field: own("app_id"),
                            pattern: r.app_id.clone(),
                            message,
                        },
                    );
                },
                Ok(()) => {},
            }
            match &r.title {
                Some(t) => {
                    match check_pattern(t.as_str()) {
                        Err(message) => {
                            return Err(
                                ConfigError::InvalidRegex {
                                    rule: i + 1,
                                    field: own("title"),
                                    pattern: t.clone(),
                                    message,
                                },
                            );
                        },
                        Ok(()) => {},
                    }
                },
                None => {},
            }
            i = i + 1;
        }
        let NaswConfigFile { settings: sf, sinks: sinks_file, rules: rules_file } = config_file;
        let settings = NaswSettings {
            reset_on_startup: sf.reset_on_startup,
            smart_toggle: sf.smart_toggle,
            notify_daemon: sf.notify_daemon,
            notify_switch: sf.notify_switch,
            notify_set: sf.notify_set,
            status_bar_icons: sf.status_bar_icons,
            log_level: sf.log_level,
        };
        let mut sinks: Vec<SinkConfig> = Vec::new();
        let mut k: usize = 0;
        while k < sinks_file.len()
            invariant
                k <= sinks_file@.len(),
                sinks@.len() == k,
                cf.sinks == sinks_file@.map_values(|x: SinkConfigFile| x@),
                forall|j: int| 0 <= j < k ==> #[trigger] sinks@[j]@ == cf.sinks[j],
            decreases sinks_file@.len() - k,
        {
            let s = &sinks_file[k];
            sinks.push(
                SinkConfig {
                    name: s.name.clone(),
                    desc: s.desc.clone(),
                    icon: clone_text(&s.icon),
                    default: s.default,
                },
            );
            k = k + 1;
        }
        let mut rules: Vec<NaswRule> = Vec::new();
        let mut k: usize = 0;
        while k < rules_file.len()
            invariant
                k <= rules_file@.len(),
                rules@.len() == k,
                cf.rules == rules_file@.map_values(|x: NaswRuleFile| x@),
                forall|j: int| 0 <= j < k ==> #[trigger] rules@[j]@ == cf.rules[j],
            decreases rules_file@.len() - k,
        {
            let r = &rules_file[k];
            rules.push(
                NaswRule {
                    app_id_pattern: r.app_id.clone(),
                    title_pattern: clone_text(&r.title),
                    sink_ref: r.sink.clone(),
                    desc: clone_text(&r.desc),
                    notify: r.notify,
                },
            );
            k = k + 1;
        }
        let config = NaswConfig { settings, sinks, rules };
        assert(config@.sinks =~= cf.sinks);
        assert(config@.rules =~= cf.rules);
        match config.validate() {
            Ok(()) => Ok(config),
            Err(e) => Err(e),
        }
    }

    /// The sink a reference names: a one-based position, else the first sink whose
    /// description or node name equals it.
    pub fn resolve_sink(&self, sink_ref: &str) -> (r: Option<&SinkConfig>)
        ensures
            match resolve_index(self@.sinks, sink_ref@) {
                Some(i) => r matches Some(s) && s@ == self@.sinks[i],
                None => r is None,
            },
    {
        match resolve_in(&self.sinks, sink_ref) {
            Some(i) => {
                proof {
                    crate::config::lemma_resolve_bounds(self@.sinks, sink_ref@);
                }
                assert(self@.sinks[i as int] == self.sinks@[i as int]@);
                Some(&self.sinks[i])
            },
            None => None,
        }
    }

    /// The default sink.
    pub fn get_default_sink(&self) -> (r: &SinkConfig)
        requires
            first_default(self@.sinks, 0) is Some,
        ensures
            r@ == self@.sinks[first_default(self@.sinks, 0)->0],
    {
        let i = default_in(&self.sinks).unwrap();
        assert(self@.sinks[i as int] == self.sinks@[i as int]@);
        &self.sinks[i]
    }
}

// ============================================================================
// Icons
// ============================================================================

/// The icon detected for a sink whose lower-cased description is `d` and
/// lower-cased node name is `n`: displays, then headphone-like devices, then
/// speakers.
pub open spec fn auto_icon(d: Seq<char>, n: Seq<char>) -> Seq<char> {
    if seq_contains(d, "hdmi"@) || seq_contains(d, "tv"@) || seq_contains(d, "display"@)
        || seq_contains(n, "hdmi"@) {
        "video-display"@
    } else if seq_contains(d, "headphone"@) || seq_contains(d, "headset"@) || seq_contains(
        d,
        "bluetooth"@,
    ) || seq_contains(n, "bluez"@) {
        "audio-headphones"@
    } else {
        "audio-speakers"@
    }
}

/// The detected icon of a sink.
pub open spec fn detected_icon(s: SinkView) -> Seq<char> {
    auto_icon(lower(s.desc), lower(s.name))
}

/// The icon of a sink: its custom icon, else the detected one.
pub open spec fn nasw_sink_icon(s: SinkView) -> Seq<char> {
    match s.icon {
        Some(i) => i,
        None => detected_icon(s),
    }
}

/// The icon of a sink in notifications: with `status_bar_icons`, custom icons are
/// for the status bar only and notifications use the detected icon.
pub open spec fn notification_icon(s: SinkView, status_bar_icons: bool) -> Seq<char> {
    if status_bar_icons {
        detected_icon(s)
    } else {
        nasw_sink_icon(s)
    }
}

/// The detected icon of a sink, by FreeDesktop standard names.
pub fn get_sink_icon_auto(sink: &SinkConfig) -> (r: String)
    ensures
        r@ == detected_icon(sink@),
{
    let d = to_lowercase(sink.desc.as_str());
    let n = to_lowercase(sink.name.as_str());
    if str_contains(d.as_str(), "hdmi") || str_contains(d.as_str(), "tv") || str_contains(
        d.as_str(),
        "display",
    ) || str_contains(n.as_str(), "hdmi") {
        own("video-display")
    } else if str_contains(d.as_str(), "headphone") || str_contains(d.as_str(), "headset")
        || str_contains(d.as_str(), "bluetooth") || str_contains(n.as_str(), "bluez") {
        own("audio-headphones")
    } else {
        own("audio-speakers")
    }
}

/// The icon of a sink: custom, else detected.
pub fn get_sink_icon(sink: &SinkConfig) -> (r: String)
    ensures
        r@ == nasw_sink_icon(sink@),
{
    match &sink.icon {
        Some(icon) => icon.clone(),
        None => get_sink_icon_auto(sink),
    }
}

/// The icon of a sink for notifications.
pub fn get_notification_sink_icon(sink: &SinkConfig, status_bar_icons: bool) -> (r: String)
    ensures
        r@ == notification_icon(sink@, status_bar_icons),
{
    if status_bar_icons {
        get_sink_icon_auto(sink)
    } else {
        get_sink_icon(sink)
    }
}

/// The icon name for an application id: a few known ids map to their icon, the
/// others are icon names themselves.
pub open spec fn nasw_app_icon(app_id: Seq<char>) -> Seq<char> {
    if app_id == "org.mozilla.firefox"@ {
        "firefox"@
    } else if app_id == "org.mozilla.Thunderbird"@ {
        "thunderbird"@
    } else if app_id == "org.gnome.Nautilus"@ {
        "nautilus"@
    } else if app_id == "org.telegram.desktop"@ {
        "telegram"@
    } else {
        app_id
    }
}

/// Convert an application id to an icon name.
pub fn get_app_icon(app_id: &str) -> (r: String)
    ensures
        r@ == nasw_app_icon(app_id@),
{
    if str_eq(app_id, "org.mozilla.firefox") {
        own("firefox")
    } else if str_eq(app_id, "org.mozilla.Thunderbird") {
        own("thunderbird")
    } else if str_eq(app_id, "org.gnome.Nautilus") {
        own("nautilus")
    } else if str_eq(app_id, "org.telegram.desktop") {
        own("telegram")
    } else {
        own(app_id)
    }
}

// ============================================================================
// State
// ============================================================================

/// A window that matched a rule.
#[derive(Debug)]
pub struct NaswWindow {
    pub sink_name: String,
    pub trigger_desc: String,
    /// When the window was tracked, on the state's own clock.
    pub opened_at: u64,
}

impl View for NaswWindow {
    type V = WindowView;

    /// A NASW window as the daemon's window values: no rule index, no properties.
    open spec fn view(&self) -> WindowView {
        WindowView {
            sink_name: self.sink_name@,
            trigger_desc: self.trigger_desc@,
            opened_at: self.opened_at,
            rule_index: 0,
            app_id: Seq::empty(),
            title: Seq::empty(),
        }
    }
}

/// The NASW daemon state.
pub struct NaswState {
    pub config: NaswConfig,
    pub current_sink_name: String,
    active_windows: HashMap<u64, NaswWindow>,
    next_order: u64,
}

/// The NASW state, as values.
#[verifier::ext_equal]
pub struct NaswStateView {
    pub config: NaswConfigView,
    pub current_sink: Seq<char>,
    pub active: Map<u64, WindowView>,
    pub next_order: u64,
}

impl View for NaswState {
    type V = NaswStateView;

    closed spec fn view(&self) -> NaswStateView {
        NaswStateView {
            config: self.config@,
            current_sink: self.current_sink_name@,
            active: self.active_windows@.map_values(|w: NaswWindow| w@),
            next_order: self.next_order,
        }
    }
}

/// A NASW rule matches a window when its `app_id` pattern matches and its title
/// pattern, if any, matches the title.
pub open spec fn nasw_rule_matches(r: NaswRuleView, app_id: Seq<char>, title: Seq<char>) -> bool {
    pattern_matches(r.app_id_pattern, app_id) && match r.title_pattern {
        Some(t) => pattern_matches(t, title),
        None => true,
    }
}

/// The first rule, from `from` on, that matches the window.
pub open spec fn nasw_first_matching(
    rules: Seq<NaswRuleView>,
    app_id: Seq<char>,
    title: Seq<char>,
    from: int,
) -> Option<int>
    decreases rules.len() - from,
{
    if from < 0 || from >= rules.len() {
        None
    } else if nasw_rule_matches(rules[from], app_id, title) {
        Some(from)
    } else {
        nasw_first_matching(rules, app_id, title, from + 1)
    }
}

proof fn lemma_nasw_first_matching_bounds(
    rules: Seq<NaswRuleView>,
    app_id: Seq<char>,
    title: Seq<char>,
    from: int,
)
    ensures
        nasw_first_matching(rules, app_id, title, from) matches Some(i) ==> from <= i < rules.len(),
    decreases rules.len() - from,
{
    if 0 <= from < rules.len() && !nasw_rule_matches(rules[from], app_id, title) {
        lemma_nasw_first_matching_bounds(rules, app_id, title, from + 1);
    }
}

/// The sink that should be current: that of the most recently tracked window,
/// else the default sink.
pub open spec fn nasw_target(s: NaswStateView) -> Seq<char> {
    match winner(s.active, false) {
        Some(id) => s.active[id].sink_name,
        None => s.config.sinks[first_default(s.config.sinks, 0)->0].name,
    }
}

/// The switch back to `target` after a tracked window ended or closed.
pub open spec fn nasw_return_action(c: NaswConfigView, target: Seq<char>, context: Seq<char>) -> ActionView {
    ActionView {
        target,
        desc: match first_named(c.sinks, target, 0) {
            Some(i) => c.sinks[i].desc,
            None => target,
        },
        reason: context,
        icon: match first_named(c.sinks, target, 0) {
            Some(i) => Some(notification_icon(c.sinks[i], c.status_bar_icons)),
            None => None,
        },
        notify: c.notify_switch && c.sinks[first_default(c.sinks, 0)->0].name == target,
    }
}

/// The clock value after one more tracked window.
pub open spec fn nasw_bump(n: u64) -> u64 {
    if n < u64::MAX {
        (n + 1) as u64
    } else {
        n
    }
}

/// Every tracked window received a clock value below the state's clock, unless
/// the clock has saturated.
pub open spec fn nasw_clock_ahead(s: NaswStateView) -> bool {
    forall|id: u64| #[trigger]
        s.active.contains_key(id) ==> (s.active[id].opened_at < s.next_order || s.next_order
            == u64::MAX)
}

/// What an untracked window's leaving does: untrack it and return to the target.
pub open spec fn nasw_leave(s: NaswStateView, id: u64, suffix: Seq<char>) -> (NaswStateView, Option<ActionView>) {
    if s.active.contains_key(id) {
        let old = s.active[id];
        let s2 = NaswStateView { active: s.active.remove(id), ..s };
        let t = nasw_target(s2);
        if t != s2.current_sink {
            (s2, Some(nasw_return_action(s.config, t, old.trigger_desc + suffix)))
        } else {
            (s2, None)
        }
    } else {
        (s, None)
    }
}

/// What a Niri event does to the NASW state, and the switch to perform. A window
/// that keeps matching keeps the time it was first tracked.
pub open spec fn nasw_step(s: NaswStateView, e: NiriEventView) -> (NaswStateView, Option<ActionView>) {
    let c = s.config;
    match e {
        NiriEventView::WindowOpenedOrChanged { id, app_id, title } => match nasw_first_matching(
            c.rules,
            app_id,
            title,
            0,
        ) {
            Some(ri) => {
                let rule = c.rules[ri];
                let sink = c.sinks[resolve_index(c.sinks, rule.sink_ref)->0];
                let trigger = match rule.desc {
                    Some(d) => d,
                    None => title,
                };
                if s.active.contains_key(id) {
                    (s, None)
                } else {
                    let w = WindowView {
                        sink_name: sink.name,
                        trigger_desc: trigger,
                        opened_at: s.next_order,
                        rule_index: 0,
                        app_id: Seq::empty(),
                        title: Seq::empty(),
                    };
                    let s2 = NaswStateView {
                        active: s.active.insert(id, w),
                        next_order: nasw_bump(s.next_order),
                        ..s
                    };
                    if sink.name != s.current_sink {
                        (
                            s2,
                            Some(
                                ActionView {
                                    target: sink.name,
                                    desc: sink.desc,
                                    reason: trigger,
                                    icon: Some(nasw_app_icon(app_id)),
                                    notify: c.notify_switch && rule.notify,
                                },
                            ),
                        )
                    } else {
                        (s2, None)
                    }
                }
            },
            None => nasw_leave(s, id, " ended"@),
        },
        NiriEventView::WindowClosed { id } => nasw_leave(s, id, " closed"@),
        NiriEventView::Other => (s, None),
    }
}

/// The value of an optional switch.
pub open spec fn opt_switch(a: Option<SwitchAction>) -> Option<ActionView> {
    match a {
        Some(x) => Some(x@),
        None => None,
    }
}

impl NaswState {
    /// Create the state; the current sink is the one PipeWire reported, else the
    /// configured default.
    pub fn new(config: NaswConfig, queried_default: Option<String>) -> (s: NaswState)
        requires
            queried_default is Some || first_default(config@.sinks, 0) is Some,
        ensures
            s@.config == config@,
            s@.current_sink == match queried_default {
                Some(n) => n@,
                None => config@.sinks[first_default(config@.sinks, 0)->0].name,
            },
            s@.active == Map::<u64, WindowView>::empty(),
            s.wf(),
    {
        let current = match queried_default {
            Some(n) => n,
            None => {
                let i = default_in(&config.sinks).unwrap();
                assert(config@.sinks[i as int] == config.sinks@[i as int]@);
                config.sinks[i].name.clone()
            },
        };
        let s = NaswState { config, current_sink_name: current, active_windows: HashMap::new(), next_order: 0 };
        assert(s@.active =~= Map::<u64, WindowView>::empty());
        s
    }

    /// Every tracked window received a clock value below the clock (until the
    /// clock saturates).
    pub closed spec fn wf(&self) -> bool {
        nasw_clock_ahead(self@)
    }

    /// Record that the current sink changed.
    pub fn update_sink(&mut self, new_sink_name: String)
        ensures
            final(self)@ == (NaswStateView { current_sink: new_sink_name@, ..old(self)@ }),
            old(self).wf() ==> final(self).wf(),
    {
        self.current_sink_name = new_sink_name;
    }

    /// Whether switching to `new_sink_name` is needed.
    pub fn should_switch_sink(&self, new_sink_name: &str) -> (r: bool)
        ensures
            r == (self@.current_sink != new_sink_name@),
    {
        !str_eq(self.current_sink_name.as_str(), new_sink_name)
    }

    /// The first rule that matches a window, by index.
    pub fn find_matching_rule(&self, app_id: &str, title: &str) -> (r: Option<usize>)
        ensures
            r matches Some(k) ==> nasw_first_matching(self@.config.rules, app_id@, title@, 0) == Some(k as int),
            r is None ==> nasw_first_matching(self@.config.rules, app_id@, title@, 0) is None,
    {
        let ghost rules = self@.config.rules;
        let mut i: usize = 0;
        while i < self.config.rules.len()
            invariant
                rules == self@.config.rules,
                rules == self.config.rules@.map_values(|r: NaswRule| r@),
                i <= self.config.rules@.len(),
                nasw_first_matching(rules, app_id@, title@, 0) == nasw_first_matching(
                    rules,
                    app_id@,
                    title@,
                    i as int,
                ),
            decreases self.config.rules@.len() - i,
        {
            let rule = &self.config.rules[i];
            assert(rules[i as int] == rule@);
            let app_ok = matches_text(rule.app_id_pattern.as_str(), app_id);
            let title_ok = match &rule.title_pattern {
                Some(t) => matches_text(t.as_str(), title),
                None => true,
            };
            if app_ok && title_ok {
                return Some(i);
            }
            i = i + 1;
        }
        None
    }

    /// The sink of the most recently tracked window, else the default sink.
    pub fn determine_target_sink(&self) -> (r: String)
        requires
            first_default(self@.config.sinks, 0) is Some,
        ensures
            r@ == nasw_target(self@),
    {
        let ghost m = self@.active;
        let mut best: Option<u64> = None;
        for (k, w) in it: self.active_windows.iter()
            invariant
                m == self.active_windows@.map_values(|w: NaswWindow| w@),
                it.seq().len() == self.active_windows@.len(),
                forall|i: int|
                    0 <= i < it.seq().len() ==> self.active_windows@.contains_key(*it.seq()[i].0)
                        && self.active_windows@[*it.seq()[i].0] == *it.seq()[i].1,
                forall|k: u64|
                    self.active_windows@.contains_key(k) ==> it.seq().contains(
                        (&k, &self.active_windows@[k]),
                    ),
                best is None <==> it.index() == 0,
                best matches Some(b) ==> m.contains_key(b) && forall|i: int|
                    0 <= i < it.index() ==> *it.seq()[i].0 == b || beats(
                        false,
                        b,
                        m[b],
                        *it.seq()[i].0,
                        m[*it.seq()[i].0],
                    ),
                it.index() == it.seq().len() ==> (best matches Some(b) ==> is_winner(m, false, b)),
                it.index() == it.seq().len() ==> (best is None ==> self.active_windows@.len() == 0),
        {
            match best {
                None => {
                    best = Some(*k);
                },
                Some(b) => {
                    let wb = self.active_windows.get(&b).unwrap();
                    if w.opened_at > wb.opened_at || (w.opened_at == wb.opened_at && *k > b) {
                        best = Some(*k);
                    }
                },
            }
        }
        match best {
            Some(b) => {
                proof {
                    let c = choose|id: u64| is_winner(m, false, id);
                    lemma_winner_unique(m, false, b, c);
                }
                self.active_windows.get(&b).unwrap().sink_name.clone()
            },
            None => {
                proof {
                    assert(m.dom() =~= self.active_windows@.dom());
                    if exists|id: u64| is_winner(m, false, id) {
                        let c = choose|id: u64| is_winner(m, false, id);
                        assert(m.dom().contains(c));
                    }
                }
                let i = default_in(&self.config.sinks).unwrap();
                assert(self@.config.sinks[i as int] == self.config.sinks@[i as int]@);
                self.config.sinks[i].name.clone()
            },
        }
    }

    /// The switch back to `target` after a tracked window ended or closed.
    fn return_switch(&self, target: String, context: String) -> (a: SwitchAction)
        requires
            first_default(self@.config.sinks, 0) is Some,
        ensures
            a@ == nasw_return_action(self@.config, target@, context@),
    {
        let (desc, icon) = match named_in(&self.config.sinks, target.as_str()) {
            Some(i) => {
                assert(self@.config.sinks[i as int] == self.config.sinks@[i as int]@);
                (
                    self.config.sinks[i].desc.clone(),
                    Some(get_notification_sink_icon(&self.config.sinks[i], self.config.settings.status_bar_icons)),
                )
            },
            None => (own(target.as_str()), None),
        };
        let d = default_in(&self.config.sinks).unwrap();
        assert(self@.config.sinks[d as int] == self.config.sinks@[d as int]@);
        let is_default = str_eq(self.config.sinks[d].name.as_str(), target.as_str());
        let notify = self.config.settings.notify_switch && is_default;
        SwitchAction { target, desc, reason: context, icon, notify }
    }

    /// Untrack a window that ended or closed, and decide the return switch.
    fn leave(&mut self, id: u64, suffix: &str) -> (r: Option<SwitchAction>)
        requires
            first_default(old(self)@.config.sinks, 0) is Some,
        ensures
            final(self)@ == nasw_leave(old(self)@, id, suffix@).0,
            opt_switch(r) == nasw_leave(old(self)@, id, suffix@).1,
    {
        match self.active_windows.remove(&id) {
            Some(old_w) => {
                assert(self@.active =~= old(self)@.active.remove(id));
                let t = self.determine_target_sink();
                if self.should_switch_sink(t.as_str()) {
                    let context = append(old_w.trigger_desc, suffix);
                    Some(self.return_switch(t, context))
                } else {
                    None
                }
            },
            None => {
                assert(self@.active =~= old(self)@.active);
                None
            },
        }
    }

    /// Process one event of Niri's event stream: update the tracked windows and
    /// answer with the switch to perform, if any. After a switch succeeds the
    /// caller records it with [`NaswState::update_sink`].
    pub fn process_event(&mut self, event: NiriEvent) -> (r: Option<SwitchAction>)
        requires
            nasw_ready(old(self)@.config),
        ensures
            final(self)@ == nasw_step(old(self)@, event@).0,
            opt_switch(r) == nasw_step(old(self)@, event@).1,
            old(self).wf() ==> final(self).wf(),
    {
        match event {
            NiriEvent::WindowOpenedOrChanged { id, app_id, title } => {
                match self.find_matching_rule(app_id.as_str(), title.as_str()) {
                    Some(ri) => {
                        proof {
                            lemma_nasw_first_matching_bounds(self@.config.rules, app_id@, title@, 0);
                            assert(self@.config.rules[ri as int] == self.config.rules@[ri as int]@);
                            assert(resolve_index(self@.config.sinks, self@.config.rules[ri as int].sink_ref) is Some);
                        }
                        let rule = &self.config.rules[ri];
                        let si = resolve_in(&self.config.sinks, rule.sink_ref.as_str()).unwrap();
                        proof {
                            crate::config::lemma_resolve_bounds(self@.config.sinks, rule@.sink_ref);
                            assert(self@.config.sinks[si as int] == self.config.sinks@[si as int]@);
                        }
                        let sink_name = self.config.sinks[si].name.clone();
                        let sink_desc = self.config.sinks[si].desc.clone();
                        let trigger = match &rule.desc {
                            Some(d) => d.clone(),
                            None => title.clone(),
                        };
                        let notify = self.config.should_notify_switch(rule.notify);
                        if self.active_windows.contains_key(&id) {
                            return None;
                        }
                        let window = NaswWindow {
                            sink_name: sink_name.clone(),
                            trigger_desc: trigger.clone(),
                            opened_at: self.next_order,
                        };
                        let ghost gw = window;
                        self.active_windows.insert(id, window);
                        if self.next_order < u64::MAX {
                            self.next_order = self.next_order + 1;
                        }
                        assert(self@.active =~= old(self)@.active.insert(id, gw@));
                        if self.should_switch_sink(sink_name.as_str()) {
                            let icon = get_app_icon(app_id.as_str());
                            Some(
                                SwitchAction {
                                    target: sink_name,
                                    desc: sink_desc,
                                    reason: trigger,
                                    icon: Some(icon),
                                    notify,
                                },
                            )
                        } else {
                            None
                        }
                    },
                    None => self.leave(id, " ended"),
                }
            },
            NiriEvent::WindowClosed { id } => self.leave(id, " closed"),
            NiriEvent::Other => None,
        }
    }

    /// The default sink to activate at startup when `reset_on_startup` asks for
    /// it, unless it is already current.
    pub fn startup_switch(&self) -> (r: Option<usize>)
        requires
            first_default(self@.config.sinks, 0) is Some,
        ensures
            match r {
                Some(i) => self@.config.reset_on_startup && first_default(self@.config.sinks, 0)
                    == Some(i as int) && self@.config.sinks[i as int].name != self@.current_sink,
                None => !self@.config.reset_on_startup || self@.config.sinks[first_default(
                    self@.config.sinks,
                    0,
                )->0].name == self@.current_sink,
            },
    {
        if !self.config.settings.reset_on_startup {
            return None;
        }
        let d = default_in(&self.config.sinks).unwrap();
        assert(self@.config.sinks[d as int] == self.config.sinks@[d as int]@);
        if str_eq(self.config.sinks[d].name.as_str(), self.current_sink_name.as_str()) {
            None
        } else {
            Some(d)
        }
    }
}

// ============================================================================
// Commands
// ============================================================================

/// The NASW choice of a manual switch to the sink at `target`: with smart
/// toggling, asking for the current sink goes back to the default sink (or stays,
/// when it is the default).
pub open spec fn nasw_smart_choice(c: NaswConfigView, target: int, current: Seq<char>) -> SinkChoice {
    let d = first_default(c.sinks, 0)->0;
    if c.smart_toggle && current == c.sinks[target].name {
        if c.sinks[target].name == c.sinks[d].name {
            SinkChoice::AlreadyOn { index: d as usize }
        } else {
            SinkChoice::Activate { index: d as usize }
        }
    } else {
        SinkChoice::Activate { index: target as usize }
    }
}

impl NaswConfig {
    /// Resolve the sink reference of a manual switch; an unknown reference is an
    /// error that lists the configured sinks.
    pub fn resolve_target(&self, sink_ref: &str) -> (r: Result<usize, CommandError>)
        ensures
            match resolve_index(self@.sinks, sink_ref@) {
                Some(i) => r == Ok::<usize, CommandError>(i as usize) && i < self@.sinks.len(),
                None => r matches Err(CommandError::UnknownSink { sink_ref: s, available }) && s@
                    == sink_ref@ && strs_view(available@) == sink_descs(self@.sinks),
            },
    {
        match resolve_in(&self.sinks, sink_ref) {
            Some(i) => {
                proof {
                    crate::config::lemma_resolve_bounds(self@.sinks, sink_ref@);
                }
                Ok(i)
            },
            None => Err(CommandError::UnknownSink { sink_ref: own(sink_ref), available: descriptions_of(&self.sinks) }),
        }
    }

    /// Decide a manual switch to the sink at `target`, the current sink being
    /// `current`.
    pub fn set_sink_smart(&self, target: usize, current: &str) -> (r: SinkChoice)
        requires
            target < self@.sinks.len(),
            first_default(self@.sinks, 0) is Some,
        ensures
            r == nasw_smart_choice(self@, target as int, current@),
    {
        let d = default_in(&self.sinks).unwrap();
        assert(self@.sinks[target as int] == self.sinks@[target as int]@);
        assert(self@.sinks[d as int] == self.sinks@[d as int]@);
        let t = &self.sinks[target];
        if self.settings.smart_toggle && str_eq(current, t.name.as_str()) {
            if str_eq(t.name.as_str(), self.sinks[d].name.as_str()) {
                SinkChoice::AlreadyOn { index: d }
            } else {
                SinkChoice::Activate { index: d }
            }
        } else {
            SinkChoice::Activate { index: target }
        }
    }

    /// Decide where cycling through the configured sinks leads.
    pub fn cycle_sink(&self, current: &str, direction: Direction) -> (r: SinkChoice)
        requires
            self@.sinks.len() >= 2,
        ensures
            r == cycle_choice(self@.sinks, current@, direction),
    {
        cycle_in(&self.sinks, current, direction)
    }

    /// The configured sink that is current, for the status bar; an error when the
    /// current sink is not configured.
    pub fn current_sink(&self, current: &str) -> (r: Result<usize, String>)
        ensures
            match first_named(self@.sinks, current@, 0) {
                Some(i) => r == Ok::<usize, String>(i as usize),
                None => r matches Err(m) && m@ == "Current sink '"@ + current@
                    + "' not in config. Run 'nasw --list-sinks' to see available sinks."@,
            },
    {
        match named_in(&self.sinks, current) {
            Some(i) => Ok(i),
            None => {
                let s = own("Current sink '");
                let s = append(s, current);
                Err(append(s, "' not in config. Run 'nasw --list-sinks' to see available sinks."))
            },
        }
    }
}

/// What `--get-sink --json` reports of the current sink, for status bars.
#[derive(Debug)]
pub struct SinkInfoJson {
    pub text: Option<String>,
    pub icon: String,
}

/// The status-bar report of a sink: its description and its icon.
pub fn sink_info(sink: &SinkConfig) -> (r: SinkInfoJson)
    ensures
        opt_str(r.text) == Some(sink@.desc),
        r.icon@ == nasw_sink_icon(sink@),
{
    SinkInfoJson { text: Some(sink.desc.clone()), icon: get_sink_icon(sink) }
}

/// The message of a NASW switch notification: `<desc> → <reason>`, or the
/// description alone.
pub fn switch_audio_message(desc: &str, custom_desc: Option<&str>) -> (r: String)
    ensures
        r@ == switch_text(
            desc@,
            match custom_desc {
                Some(d) => Some(d@),
                None => None,
            },
        ),
{
    crate::notification::switch_message(desc, custom_desc)
}

// ============================================================================
// Laws
// ============================================================================

/// A newly opened window that a rule matches becomes the target: the state
/// tracks it with the newest clock value, and the switch to its sink is due
/// exactly when that sink is not the current one.
pub proof fn lemma_nasw_new_window_wins(s: NaswStateView, id: u64, app_id: Seq<char>, title: Seq<char>)
    requires
        nasw_ready(s.config),
        nasw_clock_ahead(s),
        s.next_order < u64::MAX,
        !s.active.contains_key(id),
        nasw_first_matching(s.config.rules, app_id, title, 0) is Some,
    ensures
        ({
            let ri = nasw_first_matching(s.config.rules, app_id, title, 0)->0;
            let sink = s.config.sinks[resolve_index(s.config.sinks, s.config.rules[ri].sink_ref)->0];
            let (s2, a) = nasw_step(s, NiriEventView::WindowOpenedOrChanged { id, app_id, title });
            &&& nasw_target(s2) == sink.name
            &&& nasw_clock_ahead(s2)
            &&& (a is Some <==> sink.name != s.current_sink)
        }),
{
    let s2 = nasw_step(s, NiriEventView::WindowOpenedOrChanged { id, app_id, title }).0;
    assert forall|o: u64| #[trigger] s2.active.contains_key(o) && o != id implies beats(
        false,
        id,
        s2.active[id],
        o,
        s2.active[o],
    ) by {
        assert(s.active.contains_key(o));
    }
    assert(is_winner(s2.active, false, id));
    let c = choose|c: u64| is_winner(s2.active, false, c);
    lemma_winner_unique(s2.active, false, id, c);
}

/// Opening a window and closing it again leaves the tracked windows, and so the
/// target sink, as they were.
pub proof fn lemma_nasw_open_close_restores(s: NaswStateView, id: u64, app_id: Seq<char>, title: Seq<char>)
    requires
        !s.active.contains_key(id),
    ensures
        ({
            let s1 = nasw_step(s, NiriEventView::WindowOpenedOrChanged { id, app_id, title }).0;
            let s2 = nasw_step(s1, NiriEventView::WindowClosed { id }).0;
            &&& s2.active == s.active
            &&& s2.current_sink == s.current_sink
            &&& nasw_target(s2) == nasw_target(s)
        }),
{
    let s1 = nasw_step(s, NiriEventView::WindowOpenedOrChanged { id, app_id, title }).0;
    let s2 = nasw_step(s1, NiriEventView::WindowClosed { id }).0;
    assert(s2.active =~= s.active);
}


/// NASW only ever switches to the target: whenever an event asks for a switch,
/// the sink it names is the target of the new state.
pub proof fn lemma_nasw_switch_goes_to_target(s: NaswStateView, e: NiriEventView)
    requires
        nasw_ready(s.config),
        nasw_clock_ahead(s),
        s.next_order < u64::MAX,
    ensures
        nasw_step(s, e).1 matches Some(a) ==> a.target == nasw_target(nasw_step(s, e).0),
{
    if let NiriEventView::WindowOpenedOrChanged { id, app_id, title } = e {
        if !s.active.contains_key(id) && nasw_first_matching(s.config.rules, app_id, title, 0) is Some {
            lemma_nasw_new_window_wins(s, id, app_id, title);
        }
    }
}


/// Handling a Niri event changes neither the configuration nor the recorded
/// current sink: the sink changes only when the caller records a performed
/// switch with `update_sink`.
pub proof fn lemma_nasw_event_keeps_sink_and_config(s: NaswStateView, e: NiriEventView)
    ensures
        nasw_step(s, e).0.current_sink == s.current_sink,
        nasw_step(s, e).0.config == s.config,
{
}

} // verus!
