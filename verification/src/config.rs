//! Configuration: settings, sink definitions and window rules, with the checks
//! that a configuration must pass before the daemon or a command uses it.

use vstd::prelude::*;

use crate::pattern::{check_pattern, regex_compiles, regex_error_text};
use crate::text::{
    append, chars_of, decimal, format_decimal, own, parse_unsigned, parse_unsigned_chars,
    seq_contains, str_contains, str_eq,
};

verus! {

// ============================================================================
// Views
// ============================================================================

/// The characters of an optional string.
pub open spec fn opt_str(o: Option<String>) -> Option<Seq<char>> {
    match o {
        Some(s) => Some(s@),
        None => None,
    }
}

/// Global settings, as values.
pub struct SettingsView {
    pub default_on_startup: bool,
    pub set_smart_toggle: bool,
    pub notify_manual: bool,
    pub notify_rules: bool,
    pub match_by_index: bool,
    pub log_level: Seq<char>,
}

/// A configured sink, as values.
pub struct SinkView {
    pub name: Seq<char>,
    pub desc: Seq<char>,
    pub icon: Option<Seq<char>>,
    pub default: bool,
}

/// A window rule, as values.
pub struct RuleView {
    pub app_id_pattern: Seq<char>,
    pub title_pattern: Option<Seq<char>>,
    pub sink_ref: Seq<char>,
    pub desc: Option<Seq<char>>,
    pub notify: Option<bool>,
}

/// A whole configuration, as values.
pub struct ConfigView {
    pub settings: SettingsView,
    pub sinks: Seq<SinkView>,
    pub rules: Seq<RuleView>,
}

// ============================================================================
// Public configuration types
// ============================================================================

/// Global settings.
#[derive(Clone, Debug)]
pub struct Settings {
    pub default_on_startup: bool,
    pub set_smart_toggle: bool,
    pub notify_manual: bool,
    pub notify_rules: bool,
    pub match_by_index: bool,
    pub log_level: String,
}

/// Audio sink configuration.
#[derive(Clone, Debug)]
pub struct SinkConfig {
    /// PipeWire node name, e.g. `alsa_output.pci-0000_0c_00.4.iec958-stereo`.
    pub name: String,
    /// Human-readable description.
    pub desc: String,
    /// Optional icon for status bars and notifications (auto-detected when absent).
    pub icon: Option<String>,
    /// Whether this is the default fallback sink.
    pub default: bool,
}

/// Window matching rule. Patterns are regular expressions in the syntax of the
/// `regex` crate, kept as their source text.
#[derive(Clone, Debug)]
pub struct Rule {
    pub app_id_pattern: String,
    pub title_pattern: Option<String>,
    pub sink_ref: String,
    pub desc: Option<String>,
    pub notify: Option<bool>,
}

/// Main configuration structure.
#[derive(Clone, Debug)]
pub struct Config {
    pub settings: Settings,
    pub sinks: Vec<SinkConfig>,
    pub rules: Vec<Rule>,
}

impl View for Settings {
    type V = SettingsView;

    open spec fn view(&self) -> SettingsView {
        SettingsView {
            default_on_startup: self.default_on_startup,
            set_smart_toggle: self.set_smart_toggle,
            notify_manual: self.notify_manual,
            notify_rules: self.notify_rules,
            match_by_index: self.match_by_index,
            log_level: self.log_level@,
        }
    }
}

impl View for SinkConfig {
    type V = SinkView;

    open spec fn view(&self) -> SinkView {
        SinkView { name: self.name@, desc: self.desc@, icon: opt_str(self.icon), default: self.default }
    }
}

impl View for Rule {
    type V = RuleView;

    open spec fn view(&self) -> RuleView {
        RuleView {
            app_id_pattern: self.app_id_pattern@,
            title_pattern: opt_str(self.title_pattern),
            sink_ref: self.sink_ref@,
            desc: opt_str(self.desc),
            notify: self.notify,
        }
    }
}

/// The values of a sequence of sinks.
pub open spec fn sinks_view(s: Seq<SinkConfig>) -> Seq<SinkView> {
    s.map_values(|x: SinkConfig| x@)
}

/// The values of a sequence of rules.
pub open spec fn rules_view(s: Seq<Rule>) -> Seq<RuleView> {
    s.map_values(|x: Rule| x@)
}

impl View for Config {
    type V = ConfigView;

    open spec fn view(&self) -> ConfigView {
        ConfigView {
            settings: self.settings@,
            sinks: sinks_view(self.sinks@),
            rules: rules_view(self.rules@),
        }
    }
}

// ============================================================================
// Sink resolution
// ============================================================================

/// A sink carries `label` as its description or as its node name.
pub open spec fn sink_has_label(s: SinkView, label: Seq<char>) -> bool {
    s.desc == label || s.name == label
}

/// The first sink at or after `from` that carries `label`.
pub open spec fn first_labelled(sinks: Seq<SinkView>, label: Seq<char>, from: int) -> Option<int>
    decreases sinks.len() - from,
{
    if from < 0 || from >= sinks.len() {
        None
    } else if sink_has_label(sinks[from], label) {
        Some(from)
    } else {
        first_labelled(sinks, label, from + 1)
    }
}

/// Which sink a reference names: a reference that parses as a `usize` is a
/// one-based position (and names nothing when out of range); any other reference
/// names the first sink whose description or node name equals it.
pub open spec fn resolve_index(sinks: Seq<SinkView>, sink_ref: Seq<char>) -> Option<int> {
    match parse_unsigned(sink_ref, usize::MAX as nat) {
        Some(pos) => if 0 < pos && pos <= sinks.len() {
            Some(pos - 1)
        } else {
            None
        },
        None => first_labelled(sinks, sink_ref, 0),
    }
}

/// The first sink marked as default, from `from` on.
pub open spec fn first_default(sinks: Seq<SinkView>, from: int) -> Option<int>
    decreases sinks.len() - from,
{
    if from < 0 || from >= sinks.len() {
        None
    } else if sinks[from].default {
        Some(from)
    } else {
        first_default(sinks, from + 1)
    }
}

pub proof fn lemma_first_labelled_bounds(sinks: Seq<SinkView>, label: Seq<char>, from: int)
    ensures
        first_labelled(sinks, label, from) matches Some(i) ==> from <= i < sinks.len()
            && sink_has_label(sinks[i], label),
    decreases sinks.len() - from,
{
    if 0 <= from < sinks.len() && !sink_has_label(sinks[from], label) {
        lemma_first_labelled_bounds(sinks, label, from + 1);
    }
}

/// A resolved reference names a sink within the list.
pub proof fn lemma_resolve_bounds(sinks: Seq<SinkView>, sink_ref: Seq<char>)
    ensures
        resolve_index(sinks, sink_ref) matches Some(i) ==> 0 <= i < sinks.len(),
{
    lemma_first_labelled_bounds(sinks, sink_ref, 0);
}

pub proof fn lemma_first_default_bounds(sinks: Seq<SinkView>, from: int)
    ensures
        first_default(sinks, from) matches Some(i) ==> from <= i < sinks.len() && sinks[i].default,
    decreases sinks.len() - from,
{
    if 0 <= from < sinks.len() && !sinks[from].default {
        lemma_first_default_bounds(sinks, from + 1);
    }
}

/// Index of the sink that `sink_ref` names among `sinks` (see [`resolve_index`]).
pub fn resolve_in(sinks: &Vec<SinkConfig>, sink_ref: &str) -> (r: Option<usize>)
    ensures
        r matches Some(i) ==> resolve_index(sinks_view(sinks@), sink_ref@) == Some(i as int),
        r is None ==> resolve_index(sinks_view(sinks@), sink_ref@) is None,
{
    let chars = chars_of(sink_ref);
    let parsed = parse_unsigned_chars(&chars, usize::MAX as u64);
    match parsed {
        Some(pos) => {
            if pos > 0 && pos <= sinks.len() as u64 {
                Some((pos - 1) as usize)
            } else {
                None
            }
        },
        None => {
            let ghost sv = sinks_view(sinks@);
            let mut i: usize = 0;
            while i < sinks.len()
                invariant
                    i <= sinks@.len(),
                    sv == sinks_view(sinks@),
                    parse_unsigned(sink_ref@, usize::MAX as nat) is None,
                    first_labelled(sv, sink_ref@, 0) == first_labelled(sv, sink_ref@, i as int),
                decreases sinks@.len() - i,
            {
                let s = &sinks[i];
                assert(sv[i as int] == s@);
                if str_eq(s.desc.as_str(), sink_ref) || str_eq(s.name.as_str(), sink_ref) {
                    return Some(i);
                }
                i = i + 1;
            }
            None
        },
    }
}

/// Index of the first sink marked default among `sinks`.
pub fn default_in(sinks: &Vec<SinkConfig>) -> (r: Option<usize>)
    ensures
        r matches Some(i) ==> first_default(sinks_view(sinks@), 0) == Some(i as int) && i
            < sinks@.len(),
        r is None ==> first_default(sinks_view(sinks@), 0) is None,
{
    let ghost sv = sinks_view(sinks@);
    let mut i: usize = 0;
    while i < sinks.len()
        invariant
            i <= sinks@.len(),
            sv == sinks_view(sinks@),
            first_default(sv, 0) == first_default(sv, i as int),
        decreases sinks@.len() - i,
    {
        assert(sv[i as int] == sinks@[i as int]@);
        if sinks[i].default {
            return Some(i);
        }
        i = i + 1;
    }
    None
}

impl Config {
    /// Index of the sink that `sink_ref` names (see [`resolve_index`]).
    pub fn resolve_sink_index(&self, sink_ref: &str) -> (r: Option<usize>)
        ensures
            r matches Some(i) ==> resolve_index(self@.sinks, sink_ref@) == Some(i as int),
            r is None ==> resolve_index(self@.sinks, sink_ref@) is None,
    {
        resolve_in(&self.sinks, sink_ref)
    }

    /// Resolve a sink reference (by one-based position, description, or node name).
    pub fn resolve_sink(&self, sink_ref: &str) -> (r: Option<&SinkConfig>)
        ensures
            match resolve_index(self@.sinks, sink_ref@) {
                Some(i) => r matches Some(s) && 0 <= i < self.sinks@.len() && *s == self.sinks@[i],
                None => r is None,
            },
    {
        match self.resolve_sink_index(sink_ref) {
            Some(i) => {
                proof {
                    let sinks = self@.sinks;
                    if parse_unsigned(sink_ref@, usize::MAX as nat) is None {
                        lemma_first_labelled_bounds(sinks, sink_ref@, 0);
                    }
                }
                Some(&self.sinks[i])
            },
            None => None,
        }
    }

    /// Index of the configured default sink: the first sink marked default.
    pub fn default_sink_index(&self) -> (r: Option<usize>)
        ensures
            r matches Some(i) ==> first_default(self@.sinks, 0) == Some(i as int),
            r is None ==> first_default(self@.sinks, 0) is None,
    {
        default_in(&self.sinks)
    }

    /// Get the configured default sink (the first sink marked default).
    pub fn get_default_sink(&self) -> (r: Option<&SinkConfig>)
        ensures
            match first_default(self@.sinks, 0) {
                Some(i) => r matches Some(s) && 0 <= i < self.sinks@.len() && *s == self.sinks@[i],
                None => r is None,
            },
    {
        match self.default_sink_index() {
            Some(i) => {
                proof {
                    lemma_first_default_bounds(self@.sinks, 0);
                }
                Some(&self.sinks[i])
            },
            None => None,
        }
    }
}

/// The first sink, from `from` on, with node name `name`.
pub open spec fn first_named(sinks: Seq<SinkView>, name: Seq<char>, from: int) -> Option<int>
    decreases sinks.len() - from,
{
    if from < 0 || from >= sinks.len() {
        None
    } else if sinks[from].name == name {
        Some(from)
    } else {
        first_named(sinks, name, from + 1)
    }
}

pub proof fn lemma_first_named_bounds(sinks: Seq<SinkView>, name: Seq<char>, from: int)
    ensures
        first_named(sinks, name, from) matches Some(i) ==> from <= i < sinks.len()
            && sinks[i].name == name,
    decreases sinks.len() - from,
{
    if 0 <= from < sinks.len() && sinks[from].name != name {
        lemma_first_named_bounds(sinks, name, from + 1);
    }
}

/// The description of the first sink named `name`, or `name` itself.
pub open spec fn desc_for(c: ConfigView, name: Seq<char>) -> Seq<char> {
    match first_named(c.sinks, name, 0) {
        Some(i) => c.sinks[i].desc,
        None => name,
    }
}

/// Index of the first sink with node name `name` among `sinks`.
pub fn named_in(sinks: &Vec<SinkConfig>, name: &str) -> (r: Option<usize>)
    ensures
        r matches Some(i) ==> first_named(sinks_view(sinks@), name@, 0) == Some(i as int) && i
            < sinks@.len(),
        r is None ==> first_named(sinks_view(sinks@), name@, 0) is None,
{
    let ghost sv = sinks_view(sinks@);
    let mut i: usize = 0;
    while i < sinks.len()
        invariant
            i <= sinks@.len(),
            sv == sinks_view(sinks@),
            first_named(sv, name@, 0) == first_named(sv, name@, i as int),
        decreases sinks@.len() - i,
    {
        assert(sv[i as int] == sinks@[i as int]@);
        if str_eq(sinks[i].name.as_str(), name) {
            return Some(i);
        }
        i = i + 1;
    }
    None
}

impl Rule {
    /// Whether a switch by this rule notifies: its own setting, else the
    /// configured default.
    pub fn effective_notify(&self, default: bool) -> (r: bool)
        ensures
            r == match self@.notify {
                Some(n) => n,
                None => default,
            },
    {
        match self.notify {
            Some(n) => n,
            None => default,
        }
    }

    /// Where the rule's notification setting comes from: `override` when the
    /// rule sets it, else `default`.
    pub fn notify_source(&self) -> (r: &'static str)
        ensures
            r@ == if self@.notify is Some {
                "override"@
            } else {
                "default"@
            },
    {
        if self.notify.is_some() {
            "override"
        } else {
            "default"
        }
    }
}

impl Config {
    /// Index of the first configured sink with node name `name`.
    pub fn sink_named(&self, name: &str) -> (r: Option<usize>)
        ensures
            r matches Some(i) ==> first_named(self@.sinks, name@, 0) == Some(i as int)
                && i < self.sinks@.len(),
            r is None ==> first_named(self@.sinks, name@, 0) is None,
    {
        named_in(&self.sinks, name)
    }

    /// The description of the first sink named `name`, or `name` itself.
    pub fn desc_or_name(&self, name: &str) -> (r: String)
        ensures
            r@ == desc_for(self@, name@),
    {
        match self.sink_named(name) {
            Some(i) => {
                assert(self@.sinks[i as int] == self.sinks@[i as int]@);
                self.sinks[i].desc.clone()
            },
            None => own(name),
        }
    }
}

/// The descriptions of the given sinks, in order.
pub fn descriptions_of(sinks: &Vec<SinkConfig>) -> (r: Vec<String>)
    ensures
        strs_view(r@) == sink_descs(sinks_view(sinks@)),
{
    let ghost sv = sinks_view(sinks@);
    let mut out: Vec<String> = Vec::new();
    let mut k: usize = 0;
    while k < sinks.len()
        invariant
            sv == sinks_view(sinks@),
            k <= sinks@.len(),
            out@.len() == k,
            strs_view(out@) =~= sink_descs(sv).take(k as int),
        decreases sinks@.len() - k,
    {
        let ghost prev = out@;
        out.push(sinks[k].desc.clone());
        assert(sv[k as int] == sinks@[k as int]@);
        assert(out@ == prev.push(out@[k as int]));
        assert(out@[k as int]@ == sv[k as int].desc);
        assert(strs_view(out@) =~= sink_descs(sv).take(k + 1));
        k = k + 1;
    }
    assert(sink_descs(sv).take(sinks@.len() as int) =~= sink_descs(sv));
    out
}

impl Config {
    /// The descriptions of the configured sinks, in order.
    pub fn sink_descriptions(&self) -> (r: Vec<String>)
        ensures
            strs_view(r@) == sink_descs(self@.sinks),
    {
        descriptions_of(&self.sinks)
    }

    /// The configured sinks as a numbered list of descriptions:
    /// `1. 'A', 2. 'B'`.
    pub fn available_sinks(&self) -> (r: String)
        ensures
            r@ == numbered_list(sink_descs(self@.sinks), self@.sinks.len()),
    {
        let descs = self.sink_descriptions();
        proof {
            assert(strs_view(descs@).len() == descs@.len());
        }
        numbered_descs(&descs)
    }
}

// ============================================================================
// Validation
// ============================================================================

/// Why a configuration is rejected, as values.
pub enum ConfigFault {
    InvalidRegex { rule: nat, field: Seq<char>, pattern: Seq<char>, message: Seq<char> },
    NoSinks,
    InvalidLogLevel { level: Seq<char> },
    NoDefaultSink,
    MultipleDefaultSinks { count: nat },
    DuplicateSinkDesc { desc: Seq<char> },
    DuplicateSinkName { name: Seq<char> },
    UnknownSinkRef { rule: nat, sink_ref: Seq<char>, available: Seq<Seq<char>> },
    DangerousPattern {
        rule: nat,
        field: Seq<char>,
        pattern: Seq<char>,
        construct: Seq<char>,
        reason: Seq<char>,
    },
}

/// Why a configuration is rejected. Rule numbers are one-based.
#[derive(Debug)]
pub enum ConfigError {
    /// A rule pattern that the `regex` crate does not compile.
    InvalidRegex { rule: usize, field: String, pattern: String, message: String },
    /// The configuration defines no sink.
    NoSinks,
    /// The log level is not one of error, warn, info, debug, trace.
    InvalidLogLevel { level: String },
    /// No sink is marked default.
    NoDefaultSink,
    /// More than one sink is marked default.
    MultipleDefaultSinks { count: usize },
    /// Two sinks share a description.
    DuplicateSinkDesc { desc: String },
    /// Two sinks share a node name.
    DuplicateSinkName { name: String },
    /// A rule refers to a sink that no reference resolution finds.
    UnknownSinkRef { rule: usize, sink_ref: String, available: Vec<String> },
    /// A rule pattern holds a construct known for catastrophic backtracking.
    DangerousPattern { rule: usize, field: String, pattern: String, construct: String, reason: String },
}

/// The characters of each string in a sequence.
pub open spec fn strs_view(v: Seq<String>) -> Seq<Seq<char>> {
    v.map_values(|s: String| s@)
}

impl View for ConfigError {
    type V = ConfigFault;

    open spec fn view(&self) -> ConfigFault {
        match self {
            ConfigError::InvalidRegex { rule, field, pattern, message } => ConfigFault::InvalidRegex {
                rule: *rule as nat,
                field: field@,
                pattern: pattern@,
                message: message@,
            },
            ConfigError::NoSinks => ConfigFault::NoSinks,
            ConfigError::InvalidLogLevel { level } => ConfigFault::InvalidLogLevel { level: level@ },
            ConfigError::NoDefaultSink => ConfigFault::NoDefaultSink,
            ConfigError::MultipleDefaultSinks { count } => ConfigFault::MultipleDefaultSinks {
                count: *count as nat,
            },
            ConfigError::DuplicateSinkDesc { desc } => ConfigFault::DuplicateSinkDesc { desc: desc@ },
            ConfigError::DuplicateSinkName { name } => ConfigFault::DuplicateSinkName { name: name@ },
            ConfigError::UnknownSinkRef { rule, sink_ref, available } => ConfigFault::UnknownSinkRef {
                rule: *rule as nat,
                sink_ref: sink_ref@,
                available: strs_view(available@),
            },
            ConfigError::DangerousPattern { rule, field, pattern, construct, reason } =>
                ConfigFault::DangerousPattern {
                rule: *rule as nat,
                field: field@,
                pattern: pattern@,
                construct: construct@,
                reason: reason@,
            },
        }
    }
}

/// The accepted log levels.
pub open spec fn valid_log_level(level: Seq<char>) -> bool {
    level == "error"@ || level == "warn"@ || level == "info"@ || level == "debug"@ || level
        == "trace"@
}

/// How many sinks are marked default.
pub open spec fn count_defaults(sinks: Seq<SinkView>) -> nat
    decreases sinks.len(),
{
    if sinks.len() == 0 {
        0
    } else {
        count_defaults(sinks.drop_last()) + if sinks.last().default {
            1nat
        } else {
            0nat
        }
    }
}

/// Sink `i` repeats the description of an earlier sink.
pub open spec fn desc_seen_before(sinks: Seq<SinkView>, i: int) -> bool {
    exists|j: int| 0 <= j < i && #[trigger] sinks[j].desc == sinks[i].desc
}

/// Sink `i` repeats the node name of an earlier sink.
pub open spec fn name_seen_before(sinks: Seq<SinkView>, i: int) -> bool {
    exists|j: int| 0 <= j < i && #[trigger] sinks[j].name == sinks[i].name
}

/// The first repeated description or name, scanning sinks in order from `from`
/// (a sink's description is checked before its name).
pub open spec fn duplicate_fault(sinks: Seq<SinkView>, from: int) -> Option<ConfigFault>
    decreases sinks.len() - from,
{
    if from < 0 || from >= sinks.len() {
        None
    } else if desc_seen_before(sinks, from) {
        Some(ConfigFault::DuplicateSinkDesc { desc: sinks[from].desc })
    } else if name_seen_before(sinks, from) {
        Some(ConfigFault::DuplicateSinkName { name: sinks[from].name })
    } else {
        duplicate_fault(sinks, from + 1)
    }
}

/// The constructs known to cause catastrophic backtracking, in the order checked.
pub open spec fn danger_construct(k: int) -> Seq<char> {
    if k == 0 {
        "(.*)*"@
    } else if k == 1 {
        "(.*)+"@
    } else if k == 2 {
        "(.+)+"@
    } else if k == 3 {
        "(.+)*"@
    } else if k == 4 {
        "([^x]*)*"@
    } else {
        "([^x]+)+"@
    }
}

/// Why each construct of [`danger_construct`] is dangerous.
pub open spec fn danger_reason(k: int) -> Seq<char> {
    if k < 4 {
        "nested quantifiers on wildcard"@
    } else {
        "nested quantifiers on negated character class"@
    }
}

/// Number of dangerous constructs.
pub open spec fn danger_count() -> int {
    6
}

/// The first dangerous construct, from the `k`-th on, that `pattern` contains.
pub open spec fn first_danger(pattern: Seq<char>, k: int) -> Option<int>
    decreases danger_count() - k,
{
    if k < 0 || k >= danger_count() {
        None
    } else if seq_contains(pattern, danger_construct(k)) {
        Some(k)
    } else {
        first_danger(pattern, k + 1)
    }
}

/// The fault that the safety check reports for `pattern` in `field` of rule `rule`.
pub open spec fn pattern_fault(pattern: Seq<char>, field: Seq<char>, rule: nat) -> Option<ConfigFault> {
    match first_danger(pattern, 0) {
        Some(k) => Some(
            ConfigFault::DangerousPattern {
                rule,
                field,
                pattern,
                construct: danger_construct(k),
                reason: danger_reason(k),
            },
        ),
        None => None,
    }
}

/// The descriptions of the sinks, in order.
pub open spec fn sink_descs(sinks: Seq<SinkView>) -> Seq<Seq<char>> {
    sinks.map_values(|s: SinkView| s.desc)
}

/// The first fault among the rules from `from` on: an unresolved sink reference,
/// then a dangerous `app_id` pattern, then a dangerous title pattern.
pub open spec fn rule_fault(c: ConfigView, from: int) -> Option<ConfigFault>
    decreases c.rules.len() - from,
{
    if from < 0 || from >= c.rules.len() {
        None
    } else {
        let r = c.rules[from];
        let n = (from + 1) as nat;
        if resolve_index(c.sinks, r.sink_ref) is None {
            Some(
                ConfigFault::UnknownSinkRef {
                    rule: n,
                    sink_ref: r.sink_ref,
                    available: sink_descs(c.sinks),
                },
            )
        } else if pattern_fault(r.app_id_pattern, "app_id"@, n) is Some {
            pattern_fault(r.app_id_pattern, "app_id"@, n)
        } else if r.title_pattern is Some && pattern_fault(
            r.title_pattern->0,
            "title"@,
            n,
        ) is Some {
            pattern_fault(r.title_pattern->0, "title"@, n)
        } else {
            rule_fault(c, from + 1)
        }
    }
}

/// The first fault of the log level and the sinks: an unknown log level, no or
/// several default sinks, a repeated description or name.
pub open spec fn sinks_fault(level: Seq<char>, sinks: Seq<SinkView>) -> Option<ConfigFault> {
    if !valid_log_level(level) {
        Some(ConfigFault::InvalidLogLevel { level })
    } else if count_defaults(sinks) == 0 {
        Some(ConfigFault::NoDefaultSink)
    } else if count_defaults(sinks) > 1 {
        Some(ConfigFault::MultipleDefaultSinks { count: count_defaults(sinks) })
    } else {
        duplicate_fault(sinks, 0)
    }
}

/// The first fault of a configuration, in the order the checks run; `None` when
/// the configuration is valid.
pub open spec fn config_fault(c: ConfigView) -> Option<ConfigFault> {
    if sinks_fault(c.settings.log_level, c.sinks) is Some {
        sinks_fault(c.settings.log_level, c.sinks)
    } else {
        rule_fault(c, 0)
    }
}

/// A configuration passes every check.
pub open spec fn config_valid(c: ConfigView) -> bool {
    config_fault(c) is None
}

proof fn lemma_default_exists(sinks: Seq<SinkView>)
    requires
        count_defaults(sinks) > 0,
    ensures
        exists|i: int| 0 <= i < sinks.len() && #[trigger] sinks[i].default,
    decreases sinks.len(),
{
    if !sinks.last().default {
        lemma_default_exists(sinks.drop_last());
        let i = choose|i: int| 0 <= i < sinks.drop_last().len() && #[trigger] sinks.drop_last()[i].default;
        assert(sinks[i].default);
    } else {
        assert(sinks[sinks.len() - 1].default);
    }
}

proof fn lemma_first_default_found(sinks: Seq<SinkView>, from: int, i: int)
    requires
        0 <= from <= i < sinks.len(),
        sinks[i].default,
    ensures
        first_default(sinks, from) is Some,
    decreases i - from,
{
    if !sinks[from].default {
        lemma_first_default_found(sinks, from + 1, i);
    }
}

proof fn lemma_rules_resolve(c: ConfigView, from: int)
    requires
        0 <= from,
        rule_fault(c, from) is None,
    ensures
        forall|i: int| from <= i < c.rules.len() ==> #[trigger] resolve_index(c.sinks, c.rules[i].sink_ref) is Some,
    decreases c.rules.len() - from,
{
    if from < c.rules.len() {
        lemma_rules_resolve(c, from + 1);
    }
}

/// Sinks with a single default, as the sink checks accept them, have a default
/// that the daemon finds.
pub proof fn lemma_sinks_fault_none(level: Seq<char>, sinks: Seq<SinkView>)
    requires
        sinks_fault(level, sinks) is None,
    ensures
        count_defaults(sinks) == 1,
        first_default(sinks, 0) is Some,
{
    lemma_default_exists(sinks);
    let i = choose|i: int| 0 <= i < sinks.len() && #[trigger] sinks[i].default;
    lemma_first_default_found(sinks, 0, i);
}

/// A configuration that passes validation has exactly one default sink, which
/// the daemon finds, and every rule's sink reference names a configured sink.
pub proof fn lemma_valid_config(c: ConfigView)
    requires
        config_valid(c),
    ensures
        count_defaults(c.sinks) == 1,
        first_default(c.sinks, 0) is Some,
        forall|i: int| 0 <= i < c.rules.len() ==> #[trigger] resolve_index(c.sinks, c.rules[i].sink_ref) is Some,
{
    lemma_sinks_fault_none(c.settings.log_level, c.sinks);
    lemma_rules_resolve(c, 0);
}

/// The text and reason of the `k`-th dangerous construct.
fn danger_entry(k: usize) -> (r: (&'static str, &'static str))
    requires
        k < 6,
    ensures
        r.0@ == danger_construct(k as int),
        r.1@ == danger_reason(k as int),
{
    if k == 0 {
        ("(.*)*", "nested quantifiers on wildcard")
    } else if k == 1 {
        ("(.*)+", "nested quantifiers on wildcard")
    } else if k == 2 {
        ("(.+)+", "nested quantifiers on wildcard")
    } else if k == 3 {
        ("(.+)*", "nested quantifiers on wildcard")
    } else if k == 4 {
        ("([^x]*)*", "nested quantifiers on negated character class")
    } else {
        ("([^x]+)+", "nested quantifiers on negated character class")
    }
}

proof fn lemma_count_defaults_bound(sinks: Seq<SinkView>)
    ensures
        count_defaults(sinks) <= sinks.len(),
    decreases sinks.len(),
{
    if sinks.len() > 0 {
        lemma_count_defaults_bound(sinks.drop_last());
    }
}

/// The error for rule number `rule` whose reference `sink_ref` names no sink; it
/// lists the sink descriptions.
pub fn unknown_sink_error(sinks: &Vec<SinkConfig>, rule: usize, sink_ref: &str) -> (e: ConfigError)
    ensures
        e@ == (ConfigFault::UnknownSinkRef {
            rule: rule as nat,
            sink_ref: sink_ref@,
            available: sink_descs(sinks_view(sinks@)),
        }),
{
    let available = descriptions_of(sinks);
    ConfigError::UnknownSinkRef { rule, sink_ref: own(sink_ref), available }
}

/// Check the log level and the sinks: a known log level, exactly one default
/// sink, no repeated description or name. The first failing check is reported.
pub fn check_sinks(level: &str, sinks: &Vec<SinkConfig>) -> (r: Result<(), ConfigError>)
    ensures
        match sinks_fault(level@, sinks_view(sinks@)) {
            None => r is Ok,
            Some(f) => r matches Err(e) && e@ == f,
        },
{
    let ghost sv = sinks_view(sinks@);
    // Log level
    if !(str_eq(level, "error") || str_eq(level, "warn") || str_eq(level, "info") || str_eq(
        level,
        "debug",
    ) || str_eq(level, "trace")) {
        return Err(ConfigError::InvalidLogLevel { level: own(level) });
    }
    // Exactly one default sink
    let mut count: usize = 0;
    let mut i: usize = 0;
    while i < sinks.len()
        invariant
            sv == sinks_view(sinks@),
            i <= sinks@.len(),
            count as nat == count_defaults(sv.take(i as int)),
            count <= i,
        decreases sinks@.len() - i,
    {
        assert(sv.take(i + 1).drop_last() =~= sv.take(i as int));
        assert(sv.take(i + 1).last() == sinks@[i as int]@);
        if sinks[i].default {
            count = count + 1;
        }
        i = i + 1;
    }
    assert(sv.take(sinks@.len() as int) =~= sv);
    if count == 0 {
        return Err(ConfigError::NoDefaultSink);
    }
    if count > 1 {
        return Err(ConfigError::MultipleDefaultSinks { count });
    }
    // No repeated descriptions or names
    let mut i: usize = 0;
    while i < sinks.len()
        invariant
            sv == sinks_view(sinks@),
            i <= sinks@.len(),
            valid_log_level(level@),
            count_defaults(sv) == 1,
            duplicate_fault(sv, 0) == duplicate_fault(sv, i as int),
        decreases sinks@.len() - i,
    {
        let mut j: usize = 0;
        while j < i
            invariant
                sv == sinks_view(sinks@),
                j <= i < sinks@.len(),
                valid_log_level(level@),
                count_defaults(sv) == 1,
                duplicate_fault(sv, 0) == duplicate_fault(sv, i as int),
                forall|m: int| 0 <= m < j ==> #[trigger] sv[m].desc != sv[i as int].desc,
            decreases i - j,
        {
            assert(sv[j as int] == sinks@[j as int]@);
            assert(sv[i as int] == sinks@[i as int]@);
            if str_eq(sinks[j].desc.as_str(), sinks[i].desc.as_str()) {
                assert(sv[j as int].desc == sv[i as int].desc);
                return Err(ConfigError::DuplicateSinkDesc { desc: sinks[i].desc.clone() });
            }
            j = j + 1;
        }
        let mut j: usize = 0;
        while j < i
            invariant
                sv == sinks_view(sinks@),
                j <= i < sinks@.len(),
                valid_log_level(level@),
                count_defaults(sv) == 1,
                duplicate_fault(sv, 0) == duplicate_fault(sv, i as int),
                !desc_seen_before(sv, i as int),
                forall|m: int| 0 <= m < j ==> #[trigger] sv[m].name != sv[i as int].name,
            decreases i - j,
        {
            assert(sv[j as int] == sinks@[j as int]@);
            assert(sv[i as int] == sinks@[i as int]@);
            if str_eq(sinks[j].name.as_str(), sinks[i].name.as_str()) {
                assert(sv[j as int].name == sv[i as int].name);
                return Err(ConfigError::DuplicateSinkName { name: sinks[i].name.clone() });
            }
            j = j + 1;
        }
        i = i + 1;
    }
    Ok(())
}

impl Config {
    /// Check that a regex pattern holds none of the constructs known to cause
    /// catastrophic backtracking.
    pub fn validate_regex_safe(pattern: &str, field_name: &str, rule_num: usize) -> (r: Result<
        (),
        ConfigError,
    >)
        ensures
            match pattern_fault(pattern@, field_name@, rule_num as nat) {
                None => r is Ok,
                Some(f) => r matches Err(e) && e@ == f,
            },
    {
        let mut k: usize = 0;
        while k < 6
            invariant
                k <= 6,
                first_danger(pattern@, 0) == first_danger(pattern@, k as int),
            decreases 6 - k,
        {
            let (construct, reason) = danger_entry(k);
            if str_contains(pattern, construct) {
                return Err(
                    ConfigError::DangerousPattern {
                        rule: rule_num,
                        field: own(field_name),
                        pattern: own(pattern),
                        construct: own(construct),
                        reason: own(reason),
                    },
                );
            }
            k = k + 1;
        }
        Ok(())
    }

    /// Check the whole configuration: log level, exactly one default sink, no
    /// repeated sink descriptions or names, and for each rule a resolvable sink
    /// reference and safe patterns. The first failing check is reported.
    pub fn validate(&self) -> (r: Result<(), ConfigError>)
        ensures
            match config_fault(self@) {
                None => r is Ok,
                Some(f) => r matches Err(e) && e@ == f,
            },
    {
        let ghost c = self@;
        match check_sinks(self.settings.log_level.as_str(), &self.sinks) {
            Err(e) => {
                return Err(e);
            },
            Ok(()) => {},
        }
        // Rules
        assert(config_fault(c) == rule_fault(c, 0));
        let mut i: usize = 0;
        while i < self.rules.len()
            invariant
                c == self@,
                config_fault(c) == rule_fault(c, 0),
                i <= self.rules@.len(),
                rule_fault(c, 0) == rule_fault(c, i as int),
            decreases self.rules@.len() - i,
        {
            let rule = &self.rules[i];
            assert(c.rules[i as int] == rule@);
            if self.resolve_sink_index(rule.sink_ref.as_str()).is_none() {
                return Err(unknown_sink_error(&self.sinks, i + 1, rule.sink_ref.as_str()));
            }
            let checked = Self::validate_regex_safe(rule.app_id_pattern.as_str(), "app_id", i + 1);
            if checked.is_err() {
                return checked;
            }
            match &rule.title_pattern {
                Some(t) => {
                    let checked = Self::validate_regex_safe(t.as_str(), "title", i + 1);
                    if checked.is_err() {
                        return checked;
                    }
                },
                None => {},
            }
            i = i + 1;
        }
        Ok(())
    }
}

// ============================================================================
// Messages
// ============================================================================

/// `"<i+1>. '<desc>'"` for the `i`-th description.
pub open spec fn numbered_item(descs: Seq<Seq<char>>, i: int) -> Seq<char> {
    decimal((i + 1) as nat) + ". '"@ + descs[i] + "'"@
}

/// The first `k` descriptions, numbered from one and separated by `", "`.
pub open spec fn numbered_list(descs: Seq<Seq<char>>, k: nat) -> Seq<char>
    decreases k,
{
    if k == 0 {
        Seq::empty()
    } else if k == 1 {
        numbered_item(descs, 0)
    } else {
        numbered_list(descs, (k - 1) as nat) + ", "@ + numbered_item(descs, k - 1)
    }
}

/// The human-readable text of a configuration fault.
pub open spec fn fault_message(f: ConfigFault) -> Seq<char> {
    match f {
        ConfigFault::InvalidRegex { rule, field, pattern, message } => "Rule "@ + decimal(rule)
            + ": invalid "@ + field + " regex '"@ + pattern + "': "@ + message,
        ConfigFault::NoSinks => "No sinks defined. Add at least one [[sinks]] section to config."@,
        ConfigFault::InvalidLogLevel { level } => "Invalid log_level '"@ + level
            + "'. Must be: error, warn, info, debug, or trace"@,
        ConfigFault::NoDefaultSink => "No default sink. Mark one sink with 'default = true'"@,
        ConfigFault::MultipleDefaultSinks { count } => decimal(count)
            + " default sinks found. Only one allowed."@,
        ConfigFault::DuplicateSinkDesc { desc } => "Duplicate sink description: '"@ + desc + "'"@,
        ConfigFault::DuplicateSinkName { name } => "Duplicate sink name: '"@ + name + "'"@,
        ConfigFault::UnknownSinkRef { rule, sink_ref, available } => "Rule "@ + decimal(rule)
            + " references unknown sink '"@ + sink_ref + "'. Available: ["@ + numbered_list(
            available,
            available.len(),
        ) + "]"@,
        ConfigFault::DangerousPattern { rule, field, pattern, construct, reason } => "Rule "@
            + decimal(rule) + ": "@ + field + " pattern '"@ + pattern
            + "' contains dangerous construct '"@ + construct + "' ("@ + reason + ")"@,
    }
}

/// The numbered list of the given descriptions (`"1. 'A', 2. 'B'"`).
pub fn numbered_descs(descs: &Vec<String>) -> (s: String)
    ensures
        s@ == numbered_list(strs_view(descs@), descs@.len()),
{
    let ghost d = strs_view(descs@);
    let mut s = String::new();
    let mut i: usize = 0;
    while i < descs.len()
        invariant
            d == strs_view(descs@),
            i <= descs@.len(),
            s@ == numbered_list(d, i as nat),
        decreases descs@.len() - i,
    {
        let ghost before = s@;
        if i > 0 {
            s = append(s, ", ");
        }
        s = append(s, format_decimal((i + 1) as u64).as_str());
        s = append(s, ". '");
        s = append(s, descs[i].as_str());
        s = append(s, "'");
        assert(d[i as int] == descs@[i as int]@);
        if i == 0 {
            assert(s@ =~= numbered_item(d, 0));
        } else {
            assert(s@ =~= before + ", "@ + numbered_item(d, i as int));
        }
        i = i + 1;
    }
    s
}

impl ConfigError {
    /// The human-readable text of this error.
    pub fn message(&self) -> (s: String)
        ensures
            s@ == fault_message(self@),
    {
        match self {
            ConfigError::InvalidRegex { rule, field, pattern, message } => {
                let s = own("Rule ");
                let s = append(s, format_decimal(*rule as u64).as_str());
                let s = append(s, ": invalid ");
                let s = append(s, field.as_str());
                let s = append(s, " regex '");
                let s = append(s, pattern.as_str());
                let s = append(s, "': ");
                append(s, message.as_str())
            },
            ConfigError::NoSinks => own(
                "No sinks defined. Add at least one [[sinks]] section to config.",
            ),
            ConfigError::InvalidLogLevel { level } => {
                let s = own("Invalid log_level '");
                let s = append(s, level.as_str());
                append(s, "'. Must be: error, warn, info, debug, or trace")
            },
            ConfigError::NoDefaultSink => own("No default sink. Mark one sink with 'default = true'"),
            ConfigError::MultipleDefaultSinks { count } => {
                let s = format_decimal(*count as u64);
                append(s, " default sinks found. Only one allowed.")
            },
            ConfigError::DuplicateSinkDesc { desc } => {
                let s = own("Duplicate sink description: '");
                let s = append(s, desc.as_str());
                append(s, "'")
            },
            ConfigError::DuplicateSinkName { name } => {
                let s = own("Duplicate sink name: '");
                let s = append(s, name.as_str());
                append(s, "'")
            },
            ConfigError::UnknownSinkRef { rule, sink_ref, available } => {
                let s = own("Rule ");
                let s = append(s, format_decimal(*rule as u64).as_str());
                let s = append(s, " references unknown sink '");
                let s = append(s, sink_ref.as_str());
                let s = append(s, "'. Available: [");
                let s = append(s, numbered_descs(available).as_str());
                append(s, "]")
            },
            ConfigError::DangerousPattern { rule, field, pattern, construct, reason } => {
                let s = own("Rule ");
                let s = append(s, format_decimal(*rule as u64).as_str());
                let s = append(s, ": ");
                let s = append(s, field.as_str());
                let s = append(s, " pattern '");
                let s = append(s, pattern.as_str());
                let s = append(s, "' contains dangerous construct '");
                let s = append(s, construct.as_str());
                let s = append(s, "' (");
                let s = append(s, reason.as_str());
                append(s, ")")
            },
        }
    }
}

// ============================================================================
// Saving
// ============================================================================

/// Saving refuses to replace a non-empty regular file with empty contents:
/// `written_len` is the length of what is about to be written, `existing` the
/// kind and length of the file in place, if any (`true` for a regular file).
pub fn overwrite_refused(written_len: u64, existing: Option<(bool, u64)>) -> (r: bool)
    ensures
        r == (written_len == 0 && (existing matches Some((is_file, len)) && is_file && len > 0)),
{
    match existing {
        Some((is_file, len)) => written_len == 0 && is_file && len > 0,
        None => false,
    }
}

/// While tests run, writing the user's real configuration needs the explicit
/// opt-in `PWSW_ALLOW_CONFIG_WRITE=1`; otherwise writing is allowed.
pub fn config_write_refused(is_user_config: bool, in_tests: bool, allow: Option<&str>) -> (r: bool)
    ensures
        r == (is_user_config && in_tests && !(allow matches Some(a) && a@ == "1"@)),
{
    if is_user_config && in_tests {
        match allow {
            Some(a) => !str_eq(a, "1"),
            None => true,
        }
    } else {
        false
    }
}

/// The name of the backup taken before the user's configuration is replaced:
/// `config.toml.bak.<seconds since the epoch>`.
pub fn config_backup_name(secs: u64) -> (r: String)
    ensures
        r@ == "config.toml.bak."@ + decimal(secs as nat),
{
    append(own("config.toml.bak."), format_decimal(secs).as_str())
}

// ============================================================================
// Configuration file form
// ============================================================================

/// The `[settings]` table of the configuration file.
#[derive(Debug)]
pub struct SettingsFile {
    pub default_on_startup: bool,
    pub set_smart_toggle: bool,
    pub notify_manual: bool,
    pub notify_rules: bool,
    pub match_by_index: bool,
    pub log_level: String,
}

/// A `[[sinks]]` entry of the configuration file.
#[derive(Debug)]
pub struct SinkConfigFile {
    pub name: String,
    pub desc: String,
    pub icon: Option<String>,
    pub default: bool,
}

/// A `[[rules]]` entry of the configuration file.
#[derive(Debug)]
pub struct RuleConfigFile {
    pub app_id: String,
    pub title: Option<String>,
    pub sink: String,
    pub desc: Option<String>,
    pub notify: Option<bool>,
}

/// The configuration file as read.
#[derive(Debug)]
pub struct ConfigFile {
    pub settings: SettingsFile,
    pub sinks: Vec<SinkConfigFile>,
    pub rules: Vec<RuleConfigFile>,
}

impl View for SettingsFile {
    type V = SettingsView;

    open spec fn view(&self) -> SettingsView {
        SettingsView {
            default_on_startup: self.default_on_startup,
            set_smart_toggle: self.set_smart_toggle,
            notify_manual: self.notify_manual,
            notify_rules: self.notify_rules,
            match_by_index: self.match_by_index,
            log_level: self.log_level@,
        }
    }
}

impl View for SinkConfigFile {
    type V = SinkView;

    open spec fn view(&self) -> SinkView {
        SinkView { name: self.name@, desc: self.desc@, icon: opt_str(self.icon), default: self.default }
    }
}

impl View for RuleConfigFile {
    type V = RuleView;

    open spec fn view(&self) -> RuleView {
        RuleView {
            app_id_pattern: self.app_id@,
            title_pattern: opt_str(self.title),
            sink_ref: self.sink@,
            desc: opt_str(self.desc),
            notify: self.notify,
        }
    }
}

impl View for ConfigFile {
    type V = ConfigView;

    open spec fn view(&self) -> ConfigView {
        ConfigView {
            settings: self.settings@,
            sinks: self.sinks@.map_values(|x: SinkConfigFile| x@),
            rules: self.rules@.map_values(|x: RuleConfigFile| x@),
        }
    }
}

/// Default for the boolean settings that are on unless the file says otherwise.
pub fn default_true() -> (b: bool)
    ensures
        b,
{
    true
}

/// Default log level.
pub fn default_log_level() -> (s: String)
    ensures
        s@ == "info"@,
{
    own("info")
}

impl Default for SettingsFile {
    fn default() -> (s: Self)
        ensures
            s.default_on_startup,
            s.set_smart_toggle,
            s.notify_manual,
            s.notify_rules,
            !s.match_by_index,
            s.log_level@ == "info"@,
    {
        SettingsFile {
            default_on_startup: true,
            set_smart_toggle: true,
            notify_manual: true,
            notify_rules: true,
            match_by_index: false,
            log_level: own("info"),
        }
    }
}

/// The first rule pattern, from rule `from` on, that the `regex` crate rejects
/// (`app_id` before title).
pub open spec fn regex_fault(rules: Seq<RuleView>, from: int) -> Option<ConfigFault>
    decreases rules.len() - from,
{
    if from < 0 || from >= rules.len() {
        None
    } else {
        let r = rules[from];
        let n = (from + 1) as nat;
        if !regex_compiles(r.app_id_pattern) {
            Some(
                ConfigFault::InvalidRegex {
                    rule: n,
                    field: "app_id"@,
                    pattern: r.app_id_pattern,
                    message: regex_error_text(r.app_id_pattern),
                },
            )
        } else if r.title_pattern is Some && !regex_compiles(r.title_pattern->0) {
            Some(
                ConfigFault::InvalidRegex {
                    rule: n,
                    field: "title"@,
                    pattern: r.title_pattern->0,
                    message: regex_error_text(r.title_pattern->0),
                },
            )
        } else {
            regex_fault(rules, from + 1)
        }
    }
}

/// Every rule pattern compiles.
pub open spec fn patterns_compile(rules: Seq<RuleView>) -> bool {
    forall|i: int|
        0 <= i < rules.len() ==> regex_compiles(#[trigger] rules[i].app_id_pattern) && (
        rules[i].title_pattern matches Some(t) ==> regex_compiles(t))
}

/// The first fault of a configuration read from a file: rejected patterns, then
/// a missing `[[sinks]]` section, then the checks of [`config_fault`].
pub open spec fn file_fault(c: ConfigView) -> Option<ConfigFault> {
    if regex_fault(c.rules, 0) is Some {
        regex_fault(c.rules, 0)
    } else if c.sinks.len() == 0 {
        Some(ConfigFault::NoSinks)
    } else {
        config_fault(c)
    }
}

/// What loading a configuration file with contents `c` yields.
pub open spec fn load_result(c: ConfigView) -> Result<ConfigView, ConfigFault> {
    match file_fault(c) {
        Some(f) => Err(f),
        None => Ok(c),
    }
}

proof fn lemma_regex_fault_none(rules: Seq<RuleView>, from: int)
    requires
        patterns_compile(rules),
        0 <= from,
    ensures
        regex_fault(rules, from) is None,
    decreases rules.len() - from,
{
    if from < rules.len() {
        assert(regex_compiles(rules[from].app_id_pattern));
        lemma_regex_fault_none(rules, from + 1);
    }
}

/// Saving a valid configuration whose patterns compile and loading it back gives
/// the same configuration.
pub proof fn lemma_save_load_roundtrip(c: ConfigView)
    requires
        config_valid(c),
        patterns_compile(c.rules),
    ensures
        load_result(c) == Ok::<ConfigView, ConfigFault>(c),
{
    lemma_regex_fault_none(c.rules, 0);
    if c.sinks.len() == 0 {
        assert(count_defaults(c.sinks) == 0);
    }
}

fn clone_opt_string(o: &Option<String>) -> (r: Option<String>)
    ensures
        opt_str(r) == opt_str(*o),
{
    match o {
        Some(s) => Some(s.clone()),
        None => None,
    }
}

impl Config {
    /// Build a configuration from the file's contents and check it.
    pub fn from_config_file(config_file: ConfigFile) -> (r: Result<Config, ConfigError>)
        ensures
            match file_fault(config_file@) {
                Some(f) => r matches Err(e) && e@ == f,
                None => r matches Ok(c) && c@ == config_file@,
            },
    {
        let ghost cf = config_file@;
        // Patterns must compile.
        let mut i: usize = 0;
        while i < config_file.rules.len()
            invariant
                cf == config_file@,
                i <= config_file.rules@.len(),
                regex_fault(cf.rules, 0) == regex_fault(cf.rules, i as int),
            decreases config_file.rules@.len() - i,
        {
            let r = &config_file.rules[i];
            assert(cf.rules[i as int] == r@);
            match check_pattern(r.app_id.as_str()) {
                Err(message) => {
                    return Err(
                        ConfigError::InvalidRegex {
                            rule: i + 1,
                            field: own("app_id"),
                            pattern: r.app_id.clone(),
                            message,
                        },
                    );
                },
                Ok(()) => {},
            }
            match &r.title {
                Some(t) => {
                    match check_pattern(t.as_str()) {
                        Err(message) => {
                            return Err(
                                ConfigError::InvalidRegex {
                                    rule: i + 1,
                                    field: own("title"),
                                    pattern: t.clone(),
                                    message,
                                },
                            );
                        },
                        Ok(()) => {},
                    }
                },
                None => {},
            }
            i = i + 1;
        }
        if config_file.sinks.len() == 0 {
            return Err(ConfigError::NoSinks);
        }
        let ConfigFile { settings: sf, sinks: sinks_file, rules: rules_file } = config_file;
        let settings = Settings {
            default_on_startup: sf.default_on_startup,
            set_smart_toggle: sf.set_smart_toggle,
            notify_manual: sf.notify_manual,
            notify_rules: sf.notify_rules,
            match_by_index: sf.match_by_index,
            log_level: sf.log_level,
        };
        let mut sinks: Vec<SinkConfig> = Vec::new();
        let mut k: usize = 0;
        while k < sinks_file.len()
            invariant
                k <= sinks_file@.len(),
                sinks@.len() == k,
                cf.sinks == sinks_file@.map_values(|x: SinkConfigFile| x@),
                forall|j: int| 0 <= j < k ==> #[trigger] sinks@[j]@ == cf.sinks[j],
            decreases sinks_file@.len() - k,
        {
            let s = &sinks_file[k];
            sinks.push(
                SinkConfig {
                    name: s.name.clone(),
                    desc: s.desc.clone(),
                    icon: clone_opt_string(&s.icon),
                    default: s.default,
                },
            );
            k = k + 1;
        }
        let mut rules: Vec<Rule> = Vec::new();
        let mut k: usize = 0;
        while k < rules_file.len()
            invariant
                k <= rules_file@.len(),
                rules@.len() == k,
                cf.rules == rules_file@.map_values(|x: RuleConfigFile| x@),
                forall|j: int| 0 <= j < k ==> #[trigger] rules@[j]@ == cf.rules[j],
            decreases rules_file@.len() - k,
        {
            let r = &rules_file[k];
            rules.push(
                Rule {
                    app_id_pattern: r.app_id.clone(),
                    title_pattern: clone_opt_string(&r.title),
                    sink_ref: r.sink.clone(),
                    desc: clone_opt_string(&r.desc),
                    notify: r.notify,
                },
            );
            k = k + 1;
        }
        let config = Config { settings, sinks, rules };
        assert(config@.sinks =~= cf.sinks);
        assert(config@.rules =~= cf.rules);
        match config.validate() {
            Ok(()) => Ok(config),
            Err(e) => Err(e),
        }
    }

    /// The file form of this configuration.
    pub fn to_config_file(&self) -> (f: ConfigFile)
        ensures
            f@ == self@,
    {
        let settings = SettingsFile {
            default_on_startup: self.settings.default_on_startup,
            set_smart_toggle: self.settings.set_smart_toggle,
            notify_manual: self.settings.notify_manual,
            notify_rules: self.settings.notify_rules,
            match_by_index: self.settings.match_by_index,
            log_level: self.settings.log_level.clone(),
        };
        let mut sinks: Vec<SinkConfigFile> = Vec::new();
        let mut k: usize = 0;
        while k < self.sinks.len()
            invariant
                k <= self.sinks@.len(),
                sinks@.len() == k,
                forall|j: int| 0 <= j < k ==> #[trigger] sinks@[j]@ == self.sinks@[j]@,
            decreases self.sinks@.len() - k,
        {
            let s = &self.sinks[k];
            sinks.push(
                SinkConfigFile {
                    name: s.name.clone(),
                    desc: s.desc.clone(),
                    icon: clone_opt_string(&s.icon),
                    default: s.default,
                },
            );
            k = k + 1;
        }
        let mut rules: Vec<RuleConfigFile> = Vec::new();
        let mut k: usize = 0;
        while k < self.rules.len()
            invariant
                k <= self.rules@.len(),
                rules@.len() == k,
                forall|j: int| 0 <= j < k ==> #[trigger] rules@[j]@ == self.rules@[j]@,
            decreases self.rules@.len() - k,
        {
            let r = &self.rules[k];
            rules.push(
                RuleConfigFile {
                    app_id: r.app_id_pattern.clone(),
                    title: clone_opt_string(&r.title_pattern),
                    sink: r.sink_ref.clone(),
                    desc: clone_opt_string(&r.desc),
                    notify: r.notify,
                },
            );
            k = k + 1;
        }
        let f = ConfigFile { settings, sinks, rules };
        assert(f@.sinks =~= self@.sinks);
        assert(f@.rules =~= self@.rules);
        f
    }
}


proof fn lemma_no_duplicates_from(sinks: Seq<SinkView>, from: int)
    requires
        0 <= from,
        duplicate_fault(sinks, from) is None,
    ensures
        forall|j: int| from <= j < sinks.len() ==> !desc_seen_before(sinks, j) && !name_seen_before(sinks, j),
    decreases sinks.len() - from,
{
    if from < sinks.len() {
        lemma_no_duplicates_from(sinks, from + 1);
    }
}

/// Sinks that pass the sink checks have pairwise distinct descriptions and
/// pairwise distinct node names.
pub proof fn lemma_accepted_sinks_distinct(level: Seq<char>, sinks: Seq<SinkView>)
    requires
        sinks_fault(level, sinks) is None,
    ensures
        forall|i: int, j: int|
            0 <= i < sinks.len() && 0 <= j < sinks.len() && i != j ==> #[trigger] sinks[i].desc
                != #[trigger] sinks[j].desc,
        forall|i: int, j: int|
            0 <= i < sinks.len() && 0 <= j < sinks.len() && i != j ==> #[trigger] sinks[i].name
                != #[trigger] sinks[j].name,
{
    lemma_no_duplicates_from(sinks, 0);
    assert forall|i: int, j: int|
        0 <= i < sinks.len() && 0 <= j < sinks.len() && i != j implies #[trigger] sinks[i].desc
            != #[trigger] sinks[j].desc by {
        if i < j {
            assert(!desc_seen_before(sinks, j));
        } else {
            assert(!desc_seen_before(sinks, i));
        }
    }
    assert forall|i: int, j: int|
        0 <= i < sinks.len() && 0 <= j < sinks.len() && i != j implies #[trigger] sinks[i].name
            != #[trigger] sinks[j].name by {
        if i < j {
            assert(!name_seen_before(sinks, j));
        } else {
            assert(!name_seen_before(sinks, i));
        }
    }
}

/// A valid configuration has no two sinks with the same description and no two
/// sinks with the same node name.
pub proof fn lemma_valid_config_distinct_sinks(c: ConfigView)
    requires
        config_valid(c),
    ensures
        forall|i: int, j: int|
            0 <= i < c.sinks.len() && 0 <= j < c.sinks.len() && i != j ==> #[trigger] c.sinks[i].desc
                != #[trigger] c.sinks[j].desc,
        forall|i: int, j: int|
            0 <= i < c.sinks.len() && 0 <= j < c.sinks.len() && i != j ==> #[trigger] c.sinks[i].name
                != #[trigger] c.sinks[j].name,
{
    lemma_accepted_sinks_distinct(c.settings.log_level, c.sinks);
}


proof fn lemma_first_labelled_spec(sinks: Seq<SinkView>, label: Seq<char>, from: int)
    requires
        0 <= from,
    ensures
        first_labelled(sinks, label, from) matches Some(i) ==> from <= i < sinks.len() && (
        sinks[i].desc == label || sinks[i].name == label) && forall|j: int|
            from <= j < i ==> sinks[j].desc != label && sinks[j].name != label,
        first_labelled(sinks, label, from) is None ==> forall|j: int|
            from <= j < sinks.len() ==> sinks[j].desc != label && sinks[j].name != label,
    decreases sinks.len() - from,
{
    if from < sinks.len() {
        lemma_first_labelled_spec(sinks, label, from + 1);
    }
}

/// Sink references, by position: the decimal numeral of `k` names the `k`-th
/// sink (counting from one) when there is one, and nothing otherwise.
pub proof fn lemma_resolve_by_position(sinks: Seq<SinkView>, k: nat)
    requires
        k <= usize::MAX,
    ensures
        1 <= k <= sinks.len() ==> resolve_index(sinks, decimal(k)) == Some(k - 1),
        (k == 0 || k > sinks.len()) ==> resolve_index(sinks, decimal(k)) is None,
{
    crate::text::lemma_parse_decimal(k, usize::MAX as nat);
}

/// Sink references, by label: a reference that is not a number names the first
/// sink whose description or node name equals it, and names nothing when no
/// sink carries it.
pub proof fn lemma_resolve_by_label(sinks: Seq<SinkView>, sink_ref: Seq<char>)
    requires
        parse_unsigned(sink_ref, usize::MAX as nat) is None,
    ensures
        resolve_index(sinks, sink_ref) matches Some(i) ==> 0 <= i < sinks.len() && (sinks[i].desc
            == sink_ref || sinks[i].name == sink_ref) && forall|j: int|
            0 <= j < i ==> sinks[j].desc != sink_ref && sinks[j].name != sink_ref,
        resolve_index(sinks, sink_ref) is None ==> forall|j: int|
            0 <= j < sinks.len() ==> sinks[j].desc != sink_ref && sinks[j].name != sink_ref,
{
    lemma_first_labelled_spec(sinks, sink_ref, 0);
}

} // verus!
