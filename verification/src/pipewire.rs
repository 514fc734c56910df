//! PipeWire objects as `pw-dump` reports them, and the decisions taken on them:
//! which sinks are active, which become available through a profile switch, which
//! sink is the default, and how a sink is activated.
//!
//! Running `pw-dump`, `pw-metadata` and `pw-cli` is the application's business;
//! the library reads their output as values and says what to run next.

use vstd::prelude::*;

use crate::config::opt_str;
use crate::text::{
    append, format_decimal, own, parse_unsigned, parse_unsigned_chars, chars_of, replace_all,
    replaced, seq_contains, seq_ends_with, seq_starts_with, str_contains, str_ends_with, str_eq,
    str_starts_with, strip_or_keep, strip_prefix_or_keep,
};

verus! {

// ============================================================================
// Objects from pw-dump
// ============================================================================

/// Object properties; every property may be absent.
#[derive(Debug)]
pub struct PwProps {
    pub node_name: Option<String>,
    pub node_description: Option<String>,
    pub node_nick: Option<String>,
    pub media_class: Option<String>,
    pub metadata_name: Option<String>,
    pub device_name: Option<String>,
}

/// Object properties, as values.
pub struct PropsView {
    pub node_name: Option<Seq<char>>,
    pub node_description: Option<Seq<char>>,
    pub node_nick: Option<Seq<char>>,
    pub media_class: Option<Seq<char>>,
    pub metadata_name: Option<Seq<char>>,
    pub device_name: Option<Seq<char>>,
}

impl View for PwProps {
    type V = PropsView;

    open spec fn view(&self) -> PropsView {
        PropsView {
            node_name: opt_str(self.node_name),
            node_description: opt_str(self.node_description),
            node_nick: opt_str(self.node_nick),
            media_class: opt_str(self.media_class),
            metadata_name: opt_str(self.metadata_name),
            device_name: opt_str(self.device_name),
        }
    }
}

impl Default for PwProps {
    fn default() -> (p: PwProps)
        ensures
            p@ == (PropsView {
                node_name: None,
                node_description: None,
                node_nick: None,
                media_class: None,
                metadata_name: None,
                device_name: None,
            }),
    {
        PwProps {
            node_name: None,
            node_description: None,
            node_nick: None,
            media_class: None,
            metadata_name: None,
            device_name: None,
        }
    }
}

/// A device profile.
#[derive(Clone, Debug)]
pub struct PwProfile {
    pub index: Option<u32>,
    pub name: Option<String>,
    pub description: Option<String>,
    pub available: Option<String>,
}

/// A device profile, as values.
pub struct ProfileView {
    pub index: Option<u32>,
    pub name: Option<Seq<char>>,
    pub description: Option<Seq<char>>,
    pub available: Option<Seq<char>>,
}

impl View for PwProfile {
    type V = ProfileView;

    open spec fn view(&self) -> ProfileView {
        ProfileView {
            index: self.index,
            name: opt_str(self.name),
            description: opt_str(self.description),
            available: opt_str(self.available),
        }
    }
}

/// The values of a list of profiles.
pub open spec fn profiles_view(v: Seq<PwProfile>) -> Seq<ProfileView> {
    v.map_values(|p: PwProfile| p@)
}

/// The values of an optional list of profiles.
pub open spec fn opt_profiles(o: Option<Vec<PwProfile>>) -> Option<Seq<ProfileView>> {
    match o {
        Some(v) => Some(profiles_view(v@)),
        None => None,
    }
}

/// Device parameters: the profiles a device offers and the one it is in.
#[derive(Debug)]
pub struct PwParams {
    pub enum_profile: Option<Vec<PwProfile>>,
    pub profile: Option<Vec<PwProfile>>,
}

/// Device parameters, as values.
pub struct ParamsView {
    pub enum_profile: Option<Seq<ProfileView>>,
    pub profile: Option<Seq<ProfileView>>,
}

impl View for PwParams {
    type V = ParamsView;

    open spec fn view(&self) -> ParamsView {
        ParamsView { enum_profile: opt_profiles(self.enum_profile), profile: opt_profiles(self.profile) }
    }
}

impl Default for PwParams {
    fn default() -> (p: PwParams)
        ensures
            p@ == (ParamsView { enum_profile: None, profile: None }),
    {
        PwParams { enum_profile: None, profile: None }
    }
}

/// The `info` member of an object.
#[derive(Debug)]
pub struct PwInfo {
    pub props: Option<PwProps>,
    pub params: Option<PwParams>,
}

/// The `info` member of an object, as values.
pub struct InfoView {
    pub props: Option<PropsView>,
    pub params: Option<ParamsView>,
}

/// The values of optional properties.
pub open spec fn opt_props(o: Option<PwProps>) -> Option<PropsView> {
    match o {
        Some(p) => Some(p@),
        None => None,
    }
}

impl View for PwInfo {
    type V = InfoView;

    open spec fn view(&self) -> InfoView {
        InfoView {
            props: opt_props(self.props),
            params: match self.params {
                Some(p) => Some(p@),
                None => None,
            },
        }
    }
}

/// The value of a metadata entry, as far as the library reads it: a JSON string,
/// a JSON object with the string member `name` when it has one, or another JSON
/// value.
#[derive(Debug)]
pub enum MetadataValue {
    Text(String),
    Object { name: Option<String> },
    Other,
}

/// A metadata value, as values.
pub enum MetadataValueView {
    Text(Seq<char>),
    Object { name: Option<Seq<char>> },
    Other,
}

impl View for MetadataValue {
    type V = MetadataValueView;

    open spec fn view(&self) -> MetadataValueView {
        match self {
            MetadataValue::Text(s) => MetadataValueView::Text(s@),
            MetadataValue::Object { name } => MetadataValueView::Object { name: opt_str(*name) },
            MetadataValue::Other => MetadataValueView::Other,
        }
    }
}

/// One entry of a metadata object.
#[derive(Debug)]
pub struct PwMetadataEntry {
    pub key: String,
    pub value: Option<MetadataValue>,
}

/// A metadata entry, as values.
pub struct EntryView {
    pub key: Seq<char>,
    pub value: Option<MetadataValueView>,
}

impl View for PwMetadataEntry {
    type V = EntryView;

    open spec fn view(&self) -> EntryView {
        EntryView {
            key: self.key@,
            value: match self.value {
                Some(v) => Some(v@),
                None => None,
            },
        }
    }
}

/// The values of a list of metadata entries.
pub open spec fn entries_view(v: Seq<PwMetadataEntry>) -> Seq<EntryView> {
    v.map_values(|e: PwMetadataEntry| e@)
}

/// Top-level object of `pw-dump` output.
#[derive(Debug)]
pub struct PwObject {
    pub id: u32,
    pub obj_type: String,
    pub info: Option<PwInfo>,
    pub props: Option<PwProps>,
    pub metadata: Option<Vec<PwMetadataEntry>>,
}

/// An object, as values.
pub struct ObjectView {
    pub id: u32,
    pub obj_type: Seq<char>,
    pub info: Option<InfoView>,
    pub props: Option<PropsView>,
    pub metadata: Option<Seq<EntryView>>,
}

impl View for PwObject {
    type V = ObjectView;

    open spec fn view(&self) -> ObjectView {
        ObjectView {
            id: self.id,
            obj_type: self.obj_type@,
            info: match self.info {
                Some(i) => Some(i@),
                None => None,
            },
            props: opt_props(self.props),
            metadata: match self.metadata {
                Some(v) => Some(entries_view(v@)),
                None => None,
            },
        }
    }
}

/// The values of a list of objects.
pub open spec fn objects_view(v: Seq<PwObject>) -> Seq<ObjectView> {
    v.map_values(|o: PwObject| o@)
}

/// The properties of an object: those under `info` when present, else the
/// top-level ones (metadata objects carry them there).
pub open spec fn object_props(o: ObjectView) -> Option<PropsView> {
    match o.info {
        Some(i) => match i.props {
            Some(p) => Some(p),
            None => o.props,
        },
        None => o.props,
    }
}

impl PwObject {
    /// Get props from either `info.props` or top-level props.
    pub fn get_props(&self) -> (r: Option<&PwProps>)
        ensures
            opt_props(match r {
                Some(p) => Some(*p),
                None => None,
            }) == object_props(self@),
    {
        match &self.info {
            Some(info) => match &info.props {
                Some(p) => Some(p),
                None => self.props.as_ref(),
            },
            None => self.props.as_ref(),
        }
    }
}

/// The sink name a metadata value holds: the `name` member of an object, or a
/// plain string.
pub open spec fn value_name(v: Option<MetadataValueView>) -> Option<Seq<char>> {
    match v {
        Some(MetadataValueView::Text(s)) => Some(s),
        Some(MetadataValueView::Object { name }) => name,
        _ => None,
    }
}

impl PwMetadataEntry {
    /// Extract the sink name from the metadata value (object or plain string).
    pub fn get_name(&self) -> (r: Option<String>)
        ensures
            opt_str(r) == value_name(self@.value),
    {
        match &self.value {
            Some(MetadataValue::Text(s)) => Some(s.clone()),
            Some(MetadataValue::Object { name }) => match name {
                Some(n) => Some(n.clone()),
                None => None,
            },
            _ => None,
        }
    }
}

// ============================================================================
// The default sink
// ============================================================================

/// The first entry, from `from` on, with key `key`.
pub open spec fn first_with_key(entries: Seq<EntryView>, key: Seq<char>, from: int) -> Option<int>
    decreases entries.len() - from,
{
    if from < 0 || from >= entries.len() {
        None
    } else if entries[from].key == key {
        Some(from)
    } else {
        first_with_key(entries, key, from + 1)
    }
}

/// The object is the `default` metadata object.
pub open spec fn is_default_metadata(o: ObjectView) -> bool {
    &&& o.obj_type == "PipeWire:Interface:Metadata"@
    &&& object_props(o) matches Some(p)
    &&& p.metadata_name == Some("default"@)
}

/// The object answers the question of the default sink: it is the `default`
/// metadata object and holds an entry `default.audio.sink`.
pub open spec fn answers_default(o: ObjectView) -> bool {
    &&& is_default_metadata(o)
    &&& o.metadata matches Some(es)
    &&& first_with_key(es, "default.audio.sink"@, 0) is Some
}

/// The default sink named by the first object, from `from` on, that answers the
/// question; `None` when none does (or when its entry holds no name).
pub open spec fn default_sink_from(objs: Seq<ObjectView>, from: int) -> Option<Seq<char>>
    decreases objs.len() - from,
{
    if from < 0 || from >= objs.len() {
        None
    } else if answers_default(objs[from]) {
        let es = objs[from].metadata->0;
        value_name(es[first_with_key(es, "default.audio.sink"@, 0)->0].value)
    } else {
        default_sink_from(objs, from + 1)
    }
}

proof fn lemma_first_with_key_bounds(entries: Seq<EntryView>, key: Seq<char>, from: int)
    ensures
        first_with_key(entries, key, from) matches Some(i) ==> from <= i < entries.len()
            && entries[i].key == key,
    decreases entries.len() - from,
{
    if 0 <= from < entries.len() && entries[from].key != key {
        lemma_first_with_key_bounds(entries, key, from + 1);
    }
}

/// The `PipeWire` tools.
pub struct PipeWire;

impl PipeWire {
    /// Extract the default sink name from the metadata objects.
    #[verifier::loop_isolation(false)]
    pub fn get_default_sink_name_from_objects(objects: &[PwObject]) -> (r: Option<String>)
        ensures
            opt_str(r) == default_sink_from(objects_view(objects@), 0),
    {
        let ghost objs = objects_view(objects@);
        let mut i: usize = 0;
        while i < objects.len()
            invariant
                i <= objects@.len(),
                objs == objects_view(objects@),
                default_sink_from(objs, 0) == default_sink_from(objs, i as int),
            decreases objects@.len() - i,
        {
            let obj = &objects[i];
            assert(objs[i as int] == obj@);
            if str_eq(obj.obj_type.as_str(), "PipeWire:Interface:Metadata") {
                let props = obj.get_props();
                let is_default = match props {
                    Some(p) => match &p.metadata_name {
                        Some(n) => str_eq(n.as_str(), "default"),
                        None => false,
                    },
                    None => false,
                };
                if is_default {
                    if let Some(metadata) = &obj.metadata {
                        let ghost es = entries_view(metadata@);
                        let mut k: usize = 0;
                        while k < metadata.len()
                            invariant
                                k <= metadata@.len(),
                                es == entries_view(metadata@),
                                first_with_key(es, "default.audio.sink"@, 0) == first_with_key(
                                    es,
                                    "default.audio.sink"@,
                                    k as int,
                                ),
                            decreases metadata@.len() - k,
                        {
                            let entry = &metadata[k];
                            assert(es[k as int] == entry@);
                            if str_eq(entry.key.as_str(), "default.audio.sink") {
                                assert(is_default_metadata(objs[i as int]));
                                assert(answers_default(objs[i as int]));
                                return entry.get_name();
                            }
                            k = k + 1;
                        }
                    }
                }
            }
            i = i + 1;
        }
        None
    }
}

// ============================================================================
// Sinks
// ============================================================================

/// A sink currently available in PipeWire.
#[derive(Clone, Debug)]
pub struct ActiveSink {
    pub name: String,
    pub description: String,
    pub is_default: bool,
}

/// An active sink, as values.
pub struct ActiveSinkView {
    pub name: Seq<char>,
    pub description: Seq<char>,
    pub is_default: bool,
}

impl View for ActiveSink {
    type V = ActiveSinkView;

    open spec fn view(&self) -> ActiveSinkView {
        ActiveSinkView { name: self.name@, description: self.description@, is_default: self.is_default }
    }
}

/// The values of a list of active sinks.
pub open spec fn active_view(v: Seq<ActiveSink>) -> Seq<ActiveSinkView> {
    v.map_values(|s: ActiveSink| s@)
}

/// A sink that requires profile switching to become available.
#[derive(Debug)]
pub struct ProfileSink {
    /// Predicted node name (from the device name and the profile).
    pub predicted_name: String,
    /// Description from the profile.
    pub description: String,
    /// Device that owns this profile.
    pub device_id: u32,
    pub device_name: String,
    /// Profile index to switch to.
    pub profile_index: u32,
    pub profile_name: String,
}

/// A profile sink, as values.
pub struct ProfileSinkView {
    pub predicted_name: Seq<char>,
    pub description: Seq<char>,
    pub device_id: u32,
    pub device_name: Seq<char>,
    pub profile_index: u32,
    pub profile_name: Seq<char>,
}

impl View for ProfileSink {
    type V = ProfileSinkView;

    open spec fn view(&self) -> ProfileSinkView {
        ProfileSinkView {
            predicted_name: self.predicted_name@,
            description: self.description@,
            device_id: self.device_id,
            device_name: self.device_name@,
            profile_index: self.profile_index,
            profile_name: self.profile_name@,
        }
    }
}

/// The values of a list of profile sinks.
pub open spec fn profile_view(v: Seq<ProfileSink>) -> Seq<ProfileSinkView> {
    v.map_values(|s: ProfileSink| s@)
}

/// The active sink that an object is, if it is an audio sink node with a name.
/// Its description is the node description, else the node nick, else its name.
pub open spec fn node_sink(o: ObjectView, default: Option<Seq<char>>) -> Option<ActiveSinkView> {
    if o.obj_type != "PipeWire:Interface:Node"@ {
        None
    } else {
        match object_props(o) {
            None => None,
            Some(p) => if p.media_class != Some("Audio/Sink"@) {
                None
            } else {
                match p.node_name {
                    None => None,
                    Some(name) => Some(
                        ActiveSinkView {
                            name,
                            description: match p.node_description {
                                Some(d) => d,
                                None => match p.node_nick {
                                    Some(n) => n,
                                    None => name,
                                },
                            },
                            is_default: default == Some(name),
                        },
                    ),
                }
            },
        }
    }
}

/// The active sinks among the objects, in their order.
pub open spec fn active_sinks_in(objs: Seq<ObjectView>, default: Option<Seq<char>>) -> Seq<
    ActiveSinkView,
>
    decreases objs.len(),
{
    if objs.len() == 0 {
        Seq::empty()
    } else {
        let rest = active_sinks_in(objs.drop_last(), default);
        match node_sink(objs.last(), default) {
            Some(s) => rest.push(s),
            None => rest,
        }
    }
}

/// A profile name that stands for an output (stereo, surround, and so on).
pub open spec fn is_output_profile(name: Seq<char>) -> bool {
    ||| seq_contains(name, "output:"@)
    ||| seq_ends_with(name, "-stereo"@)
    ||| seq_ends_with(name, "-surround-40"@)
    ||| seq_ends_with(name, "-surround-51"@)
    ||| seq_ends_with(name, "-surround-71"@)
}

/// The node name that a profile of an ALSA card will get:
/// `alsa_output.{device suffix}.{profile suffix}`.
pub open spec fn predicted_node(device_name: Seq<char>, profile_name: Seq<char>) -> Seq<char> {
    "alsa_output."@ + strip_or_keep(device_name, "alsa_card."@) + "."@ + replaced(
        strip_or_keep(profile_name, "output:"@),
        "+input:"@,
        "-"@,
    )
}

/// Some active sink has node name `name`.
pub open spec fn has_active_named(active: Seq<ActiveSinkView>, name: Seq<char>) -> bool {
    exists|i: int| 0 <= i < active.len() && #[trigger] active[i].name == name
}

/// The sink that switching device `id` (named `device`, now in profile
/// `current`) to profile `p` would bring, unless the profile is off, current,
/// unavailable, not an output, or its sink is already active.
pub open spec fn profile_entry(
    id: u32,
    device: Seq<char>,
    current: Option<u32>,
    p: ProfileView,
    active: Seq<ActiveSinkView>,
) -> Option<ProfileSinkView> {
    match p.index {
        None => None,
        Some(index) => match p.name {
            None => None,
            Some(name) => if name == "off"@ || current == Some(index) || p.available == Some(
                "no"@,
            ) || !is_output_profile(name) {
                None
            } else {
                let predicted = predicted_node(device, name);
                if has_active_named(active, predicted) {
                    None
                } else {
                    Some(
                        ProfileSinkView {
                            predicted_name: predicted,
                            description: match p.description {
                                Some(d) => d,
                                None => name,
                            },
                            device_id: id,
                            device_name: device,
                            profile_index: index,
                            profile_name: name,
                        },
                    )
                }
            },
        },
    }
}

/// The profile sinks of one device's profiles, in their order.
pub open spec fn profile_entries(
    id: u32,
    device: Seq<char>,
    current: Option<u32>,
    ps: Seq<ProfileView>,
    active: Seq<ActiveSinkView>,
) -> Seq<ProfileSinkView>
    decreases ps.len(),
{
    if ps.len() == 0 {
        Seq::empty()
    } else {
        let rest = profile_entries(id, device, current, ps.drop_last(), active);
        match profile_entry(id, device, current, ps.last(), active) {
            Some(e) => rest.push(e),
            None => rest,
        }
    }
}

/// The index of the profile a device is in: that of the first listed current
/// profile.
pub open spec fn current_profile_index(params: ParamsView) -> Option<u32> {
    match params.profile {
        Some(ps) => if ps.len() > 0 {
            ps[0].index
        } else {
            None
        },
        None => None,
    }
}

/// The profile sinks of an object: none unless it is an ALSA card device
/// (`device.name` beginning with `alsa_card.`) listing its profiles.
pub open spec fn device_profile_sinks(o: ObjectView, active: Seq<ActiveSinkView>) -> Seq<
    ProfileSinkView,
> {
    if o.obj_type != "PipeWire:Interface:Device"@ {
        Seq::empty()
    } else {
        match object_props(o) {
            None => Seq::empty(),
            Some(props) => match o.info {
                None => Seq::empty(),
                Some(info) => match info.params {
                    None => Seq::empty(),
                    Some(params) => match params.enum_profile {
                        None => Seq::empty(),
                        Some(eps) => match props.device_name {
                            Some(d) => if seq_starts_with(d, "alsa_card."@) {
                                profile_entries(o.id, d, current_profile_index(params), eps, active)
                            } else {
                                Seq::empty()
                            },
                            None => Seq::empty(),
                        },
                    },
                },
            },
        }
    }
}

/// The profile sinks of all objects, device by device.
pub open spec fn profile_sinks_in(objs: Seq<ObjectView>, active: Seq<ActiveSinkView>) -> Seq<
    ProfileSinkView,
>
    decreases objs.len(),
{
    if objs.len() == 0 {
        Seq::empty()
    } else {
        profile_sinks_in(objs.drop_last(), active) + device_profile_sinks(objs.last(), active)
    }
}

/// The active sinks of a whole dump, each marked default when it is the sink that
/// the metadata names.
pub open spec fn dump_active_sinks(objs: Seq<ObjectView>) -> Seq<ActiveSinkView> {
    active_sinks_in(objs, default_sink_from(objs, 0))
}

/// Whether an active sink has node name `name`.
pub fn contains_sink_named(active: &[ActiveSink], name: &str) -> (r: bool)
    ensures
        r == has_active_named(active_view(active@), name@),
{
    let ghost av = active_view(active@);
    let mut i: usize = 0;
    while i < active.len()
        invariant
            i <= active@.len(),
            av == active_view(active@),
            forall|j: int| 0 <= j < i ==> av[j].name != name@,
        decreases active@.len() - i,
    {
        assert(av[i as int] == active@[i as int]@);
        if str_eq(active[i].name.as_str(), name) {
            assert(av[i as int].name == name@);
            return true;
        }
        i = i + 1;
    }
    false
}

/// Whether a profile name stands for an output.
fn output_profile(name: &str) -> (r: bool)
    ensures
        r == is_output_profile(name@),
{
    str_contains(name, "output:") || str_ends_with(name, "-stereo") || str_ends_with(
        name,
        "-surround-40",
    ) || str_ends_with(name, "-surround-51") || str_ends_with(name, "-surround-71")
}

/// The node name that switching card `device_name` to profile `profile_name`
/// brings.
pub fn predict_node_name(device_name: &str, profile_name: &str) -> (r: String)
    ensures
        r@ == predicted_node(device_name@, profile_name@),
{
    let device_suffix = strip_prefix_or_keep(device_name, "alsa_card.");
    let stripped = strip_prefix_or_keep(profile_name, "output:");
    proof {
        reveal_strlit("+input:");
    }
    let profile_suffix = replace_all(stripped.as_str(), "+input:", "-");
    let s = own("alsa_output.");
    let s = append(s, device_suffix.as_str());
    let s = append(s, ".");
    append(s, profile_suffix.as_str())
}

impl PipeWire {
    /// The active sink that an object is, if any.
    fn node_active_sink(obj: &PwObject, default_name: &Option<String>) -> (r: Option<ActiveSink>)
        ensures
            match r {
                Some(s) => node_sink(obj@, opt_str(*default_name)) == Some(s@),
                None => node_sink(obj@, opt_str(*default_name)) is None,
            },
    {
        if !str_eq(obj.obj_type.as_str(), "PipeWire:Interface:Node") {
            return None;
        }
        let props = match obj.get_props() {
            Some(p) => p,
            None => return None,
        };
        let is_sink = match &props.media_class {
            Some(c) => str_eq(c.as_str(), "Audio/Sink"),
            None => false,
        };
        if !is_sink {
            return None;
        }
        let name = match &props.node_name {
            Some(n) => n.clone(),
            None => return None,
        };
        let description = match &props.node_description {
            Some(d) => d.clone(),
            None => match &props.node_nick {
                Some(n) => n.clone(),
                None => name.clone(),
            },
        };
        let is_default = match default_name {
            Some(d) => str_eq(d.as_str(), name.as_str()),
            None => false,
        };
        Some(ActiveSink { name, description, is_default })
    }

    /// Get the currently active audio sinks among the objects.
    pub fn get_active_sinks(objects: &[PwObject]) -> (r: Vec<ActiveSink>)
        ensures
            active_view(r@) == dump_active_sinks(objects_view(objects@)),
    {
        let default_name = Self::get_default_sink_name_from_objects(objects);
        let ghost objs = objects_view(objects@);
        let ghost d = opt_str(default_name);
        let mut out: Vec<ActiveSink> = Vec::new();
        let mut i: usize = 0;
        while i < objects.len()
            invariant
                i <= objects@.len(),
                objs == objects_view(objects@),
                d == opt_str(default_name),
                d == default_sink_from(objs, 0),
                active_view(out@) == active_sinks_in(objs.take(i as int), d),
            decreases objects@.len() - i,
        {
            assert(objs[i as int] == objects@[i as int]@);
            assert(objs.take(i + 1).drop_last() =~= objs.take(i as int));
            assert(objs.take(i + 1).last() == objs[i as int]);
            let ghost before = out@;
            match Self::node_active_sink(&objects[i], &default_name) {
                Some(s) => {
                    out.push(s);
                    assert(active_view(out@) =~= active_view(before).push(out@.last()@));
                },
                None => {},
            }
            i = i + 1;
        }
        assert(objs.take(objects@.len() as int) =~= objs);
        out
    }

    /// The profile sink that switching to `profile` would bring, if any.
    fn profile_candidate(
        id: u32,
        device_name: &String,
        current: Option<u32>,
        profile: &PwProfile,
        active_sinks: &[ActiveSink],
    ) -> (r: Option<ProfileSink>)
        ensures
            match r {
                Some(s) => profile_entry(id, device_name@, current, profile@, active_view(
                    active_sinks@,
                )) == Some(s@),
                None => profile_entry(
                    id,
                    device_name@,
                    current,
                    profile@,
                    active_view(active_sinks@),
                ) is None,
            },
    {
        let index = match profile.index {
            Some(i) => i,
            None => return None,
        };
        let profile_name = match &profile.name {
            Some(n) => n,
            None => return None,
        };
        let is_current = match current {
            Some(c) => c == index,
            None => false,
        };
        if str_eq(profile_name.as_str(), "off") || is_current {
            return None;
        }
        let unavailable = match &profile.available {
            Some(a) => str_eq(a.as_str(), "no"),
            None => false,
        };
        if unavailable || !output_profile(profile_name.as_str()) {
            return None;
        }
        let predicted_name = predict_node_name(device_name.as_str(), profile_name.as_str());
        if contains_sink_named(active_sinks, predicted_name.as_str()) {
            return None;
        }
        let description = match &profile.description {
            Some(d) => d.clone(),
            None => profile_name.clone(),
        };
        Some(
            ProfileSink {
                predicted_name,
                description,
                device_id: id,
                device_name: device_name.clone(),
                profile_index: index,
                profile_name: profile_name.clone(),
            },
        )
    }

    /// The profile sinks of one object.
    #[verifier::loop_isolation(false)]
    fn device_candidates(obj: &PwObject, active_sinks: &[ActiveSink], out: &mut Vec<ProfileSink>)
        ensures
            profile_view(final(out)@) == profile_view(old(out)@) + device_profile_sinks(
                obj@,
                active_view(active_sinks@),
            ),
    {
        let ghost start = profile_view(out@);
        let ghost av = active_view(active_sinks@);
        if !str_eq(obj.obj_type.as_str(), "PipeWire:Interface:Device") {
            assert(start + Seq::<ProfileSinkView>::empty() =~= start);
            return;
        }
        let props = match obj.get_props() {
            Some(p) => p,
            None => {
                assert(start + Seq::<ProfileSinkView>::empty() =~= start);
                return;
            },
        };
        let (params, eps) = match &obj.info {
            Some(info) => match &info.params {
                Some(params) => match &params.enum_profile {
                    Some(eps) => (params, eps),
                    None => {
                        assert(start + Seq::<ProfileSinkView>::empty() =~= start);
                        return;
                    },
                },
                None => {
                    assert(start + Seq::<ProfileSinkView>::empty() =~= start);
                    return;
                },
            },
            None => {
                assert(start + Seq::<ProfileSinkView>::empty() =~= start);
                return;
            },
        };
        let device_name = match &props.device_name {
            Some(n) => n,
            None => {
                assert(start + Seq::<ProfileSinkView>::empty() =~= start);
                return;
            },
        };
        if !str_starts_with(device_name.as_str(), "alsa_card.") {
            assert(start + Seq::<ProfileSinkView>::empty() =~= start);
            return;
        }
        let current = match &params.profile {
            Some(ps) => if ps.len() > 0 {
                ps[0].index
            } else {
                None
            },
            None => None,
        };
        proof {
            if params@.profile is Some {
                let ps = params.profile->0;
                if ps@.len() > 0 {
                    assert(params@.profile->0[0] == ps@[0]@);
                }
            }
        }
        let ghost ps = profiles_view(eps@);
        let mut k: usize = 0;
        while k < eps.len()
            invariant
                k <= eps@.len(),
                ps == profiles_view(eps@),
                profile_view(out@) == start + profile_entries(
                    obj.id,
                    device_name@,
                    current,
                    ps.take(k as int),
                    av,
                ),
            decreases eps@.len() - k,
        {
            assert(ps[k as int] == eps@[k as int]@);
            assert(ps.take(k + 1).drop_last() =~= ps.take(k as int));
            assert(ps.take(k + 1).last() == ps[k as int]);
            let ghost before = profile_view(out@);
            match Self::profile_candidate(obj.id, device_name, current, &eps[k], active_sinks) {
                Some(c) => {
                    out.push(c);
                    assert(profile_view(out@) =~= before.push(out@.last()@));
                },
                None => {},
            }
            assert(profile_view(out@) =~= start + profile_entries(
                obj.id,
                device_name@,
                current,
                ps.take(k + 1),
                av,
            ));
            k = k + 1;
        }
        assert(ps.take(eps@.len() as int) =~= ps);
    }

    /// Get the sinks available through profile switching, device by device.
    ///
    /// Profile switching is ALSA-specific: Bluetooth profiles appear as separate
    /// nodes, so their sinks are among the active sinks instead.
    pub fn get_profile_sinks(objects: &[PwObject], active_sinks: &[ActiveSink]) -> (r: Vec<
        ProfileSink,
    >)
        ensures
            profile_view(r@) == profile_sinks_in(objects_view(objects@), active_view(active_sinks@)),
    {
        let ghost objs = objects_view(objects@);
        let ghost av = active_view(active_sinks@);
        let mut out: Vec<ProfileSink> = Vec::new();
        let mut i: usize = 0;
        while i < objects.len()
            invariant
                i <= objects@.len(),
                objs == objects_view(objects@),
                av == active_view(active_sinks@),
                profile_view(out@) == profile_sinks_in(objs.take(i as int), av),
            decreases objects@.len() - i,
        {
            assert(objs[i as int] == objects@[i as int]@);
            assert(objs.take(i + 1).drop_last() =~= objs.take(i as int));
            assert(objs.take(i + 1).last() == objs[i as int]);
            Self::device_candidates(&objects[i], active_sinks, &mut out);
            i = i + 1;
        }
        assert(objs.take(objects@.len() as int) =~= objs);
        out
    }
}

// ============================================================================
// Activation
// ============================================================================

/// The first profile sink, from `from` on, with predicted name `name`.
pub open spec fn first_predicted(ps: Seq<ProfileSinkView>, name: Seq<char>, from: int) -> Option<int>
    decreases ps.len() - from,
{
    if from < 0 || from >= ps.len() {
        None
    } else if ps[from].predicted_name == name {
        Some(from)
    } else {
        first_predicted(ps, name, from + 1)
    }
}

proof fn lemma_first_predicted_bounds(ps: Seq<ProfileSinkView>, name: Seq<char>, from: int)
    ensures
        first_predicted(ps, name, from) matches Some(i) ==> from <= i < ps.len()
            && ps[i].predicted_name == name,
    decreases ps.len() - from,
{
    if 0 <= from < ps.len() && ps[from].predicted_name != name {
        lemma_first_predicted_bounds(ps, name, from + 1);
    }
}

/// The profile sinks of a whole dump.
pub open spec fn dump_profile_sinks(objs: Seq<ObjectView>) -> Seq<ProfileSinkView> {
    profile_sinks_in(objs, dump_active_sinks(objs))
}

/// The first profile sink of a dump whose predicted name is `name`.
pub open spec fn profile_sink_for(objs: Seq<ObjectView>, name: Seq<char>) -> Option<ProfileSinkView> {
    let ps = dump_profile_sinks(objs);
    match first_predicted(ps, name, 0) {
        Some(i) => Some(ps[i]),
        None => None,
    }
}

/// The sink named `name` is among the active sinks of the dump.
pub open spec fn sink_active_in(objs: Seq<ObjectView>, name: Seq<char>) -> bool {
    has_active_named(dump_active_sinks(objs), name)
}

/// What to do after polling for a sink that a profile switch should bring up.
#[derive(Clone, Copy, PartialEq, Eq, Debug, Structural)]
pub enum PollAction {
    /// The sink appeared: make it the default sink.
    SetDefault,
    /// Not yet: wait the delay and poll again.
    Wait,
    /// The attempts are used up.
    GiveUp,
}

/// The decision after poll number `attempt` (counted from one) of at most
/// `max_retries`: make the sink the default as soon as it is active, wait while
/// attempts remain, else give up. Waiting `max_retries` times without seeing
/// the sink thus gives up at the last attempt.
pub fn poll_step(attempt: u32, max_retries: u32, sink_active: bool) -> (r: PollAction)
    ensures
        sink_active ==> r == PollAction::SetDefault,
        !sink_active && attempt < max_retries ==> r == PollAction::Wait,
        !sink_active && attempt >= max_retries ==> r == PollAction::GiveUp,
{
    if sink_active {
        PollAction::SetDefault
    } else if attempt < max_retries {
        PollAction::Wait
    } else {
        PollAction::GiveUp
    }
}

/// The first step of activating a sink.
#[derive(Debug)]
pub enum ActivationStep {
    /// The sink is active: make it the default sink.
    SetDefault,
    /// Switch the device to the profile, then wait for the sink to appear and make
    /// it the default.
    SwitchProfile { device_id: u32, profile_index: u32, device_name: String, profile_name: String },
}

/// A failure of the PipeWire logic.
#[derive(Debug)]
pub enum PipeWireError {
    /// The sink is neither active nor reachable by a profile switch.
    SinkNotFound { name: String },
    /// The profile was switched but the sink did not appear in time.
    SinkDidNotAppear { name: String, max_retries: u32, delay_ms: u64 },
    /// Some of the PipeWire tools are not installed.
    MissingTools { missing: Vec<String> },
    /// A sink name could not be encoded as JSON.
    JsonEncoding,
    /// The metadata names no default sink.
    NoDefaultSink,
}

/// The words of a list joined by `sep`.
pub open spec fn joined(items: Seq<Seq<char>>, sep: Seq<char>) -> Seq<char>
    decreases items.len(),
{
    if items.len() == 0 {
        Seq::empty()
    } else if items.len() == 1 {
        items[0]
    } else {
        joined(items.drop_last(), sep) + sep + items.last()
    }
}

/// Joins strings with a separator (`[String]::join`).
pub fn join_strings(items: &Vec<String>, sep: &str) -> (r: String)
    ensures
        r@ == joined(items@.map_values(|s: String| s@), sep@),
{
    let ghost words = items@.map_values(|s: String| s@);
    let mut out = String::new();
    let mut i: usize = 0;
    while i < items.len()
        invariant
            i <= items@.len(),
            words == items@.map_values(|s: String| s@),
            out@ == joined(words.take(i as int), sep@),
        decreases items@.len() - i,
    {
        assert(words.take(i + 1).drop_last() =~= words.take(i as int));
        if i > 0 {
            out = append(out, sep);
        }
        out = append(out, items[i].as_str());
        assert(words.take(i + 1).last() == items@[i as int]@);
        if i == 0 {
            assert(words.take(0) =~= Seq::<Seq<char>>::empty());
            assert(Seq::<char>::empty() + items@[0]@ =~= items@[0]@);
        }
        i = i + 1;
    }
    assert(words.take(items@.len() as int) =~= words);
    out
}

/// The text of a PipeWire error.
pub open spec fn pipewire_error_text(e: PipeWireErrorView) -> Seq<char> {
    match e {
        PipeWireErrorView::SinkNotFound { name } => "Sink '"@ + name
            + "' not found (not active and no profile switch available)"@,
        PipeWireErrorView::SinkDidNotAppear { name, max_retries, delay_ms } => "Profile switched successfully but sink '"@
            + name + "' did not appear after "@ + crate::text::decimal(max_retries as nat)
            + " attempts.\n\nThis may indicate:\n- The device needs more time to initialize (set PROFILE_SWITCH_DELAY_MS env var, current: "@
            + crate::text::decimal(delay_ms as nat)
            + "ms)\n- Too few retries (set PROFILE_SWITCH_MAX_RETRIES env var, current: "@
            + crate::text::decimal(max_retries as nat) + ")\n- The predicted node name '"@ + name
            + "' is incorrect\n- The audio device has a hardware issue\n\nYou can check available sinks with: pwsw list-sinks"@,
        PipeWireErrorView::MissingTools { missing } => "Missing required PipeWire tools: "@
            + joined(missing, ", "@)
            + "\n\nPlease install the PipeWire utilities package for your distribution:\n- Arch/Manjaro: pacman -S pipewire-tools\n- Fedora: dnf install pipewire-utils\n- Debian/Ubuntu: apt install pipewire-bin\n- openSUSE: zypper install pipewire-tools"@,
        PipeWireErrorView::JsonEncoding => "Failed to serialize sink name to JSON"@,
        PipeWireErrorView::NoDefaultSink => "No default sink found in PipeWire metadata"@,
    }
}

/// A PipeWire error, as values.
pub enum PipeWireErrorView {
    SinkNotFound { name: Seq<char> },
    SinkDidNotAppear { name: Seq<char>, max_retries: u32, delay_ms: u64 },
    MissingTools { missing: Seq<Seq<char>> },
    JsonEncoding,
    NoDefaultSink,
}

impl View for PipeWireError {
    type V = PipeWireErrorView;

    open spec fn view(&self) -> PipeWireErrorView {
        match self {
            PipeWireError::SinkNotFound { name } => PipeWireErrorView::SinkNotFound { name: name@ },
            PipeWireError::SinkDidNotAppear { name, max_retries, delay_ms } => {
                PipeWireErrorView::SinkDidNotAppear {
                    name: name@,
                    max_retries: *max_retries,
                    delay_ms: *delay_ms,
                }
            },
            PipeWireError::MissingTools { missing } => PipeWireErrorView::MissingTools {
                missing: missing@.map_values(|s: String| s@),
            },
            PipeWireError::JsonEncoding => PipeWireErrorView::JsonEncoding,
            PipeWireError::NoDefaultSink => PipeWireErrorView::NoDefaultSink,
        }
    }
}

impl PipeWireError {
    /// The human-readable text of this error.
    pub fn message(&self) -> (s: String)
        ensures
            s@ == pipewire_error_text(self@),
    {
        match self {
            PipeWireError::SinkNotFound { name } => {
                let s = own("Sink '");
                let s = append(s, name.as_str());
                append(s, "' not found (not active and no profile switch available)")
            },
            PipeWireError::SinkDidNotAppear { name, max_retries, delay_ms } => {
                let retries = format_decimal(*max_retries as u64);
                let delay = format_decimal(*delay_ms);
                let s = own("Profile switched successfully but sink '");
                let s = append(s, name.as_str());
                let s = append(s, "' did not appear after ");
                let s = append(s, retries.as_str());
                let s = append(
                    s,
                    " attempts.\n\nThis may indicate:\n- The device needs more time to initialize (set PROFILE_SWITCH_DELAY_MS env var, current: ",
                );
                let s = append(s, delay.as_str());
                let s = append(
                    s,
                    "ms)\n- Too few retries (set PROFILE_SWITCH_MAX_RETRIES env var, current: ",
                );
                let s = append(s, retries.as_str());
                let s = append(s, ")\n- The predicted node name '");
                let s = append(s, name.as_str());
                append(
                    s,
                    "' is incorrect\n- The audio device has a hardware issue\n\nYou can check available sinks with: pwsw list-sinks",
                )
            },
            PipeWireError::MissingTools { missing } => {
                let s = own("Missing required PipeWire tools: ");
                let list = join_strings(missing, ", ");
                let s = append(s, list.as_str());
                append(
                    s,
                    "\n\nPlease install the PipeWire utilities package for your distribution:\n- Arch/Manjaro: pacman -S pipewire-tools\n- Fedora: dnf install pipewire-utils\n- Debian/Ubuntu: apt install pipewire-bin\n- openSUSE: zypper install pipewire-tools",
                )
            },
            PipeWireError::JsonEncoding => own("Failed to serialize sink name to JSON"),
            PipeWireError::NoDefaultSink => own("No default sink found in PipeWire metadata"),
        }
    }
}

/// Time to wait for a new sink node after a profile switch, in milliseconds, when
/// `PROFILE_SWITCH_DELAY_MS` does not say otherwise.
pub const DEFAULT_PROFILE_SWITCH_DELAY_MS: u64 = 150;

/// Attempts to find a new sink node after a profile switch, when
/// `PROFILE_SWITCH_MAX_RETRIES` does not say otherwise.
pub const DEFAULT_PROFILE_SWITCH_MAX_RETRIES: u32 = 5;

/// A setting read as an unsigned number up to `max`, or `default` when it is
/// absent or not such a number.
pub open spec fn setting_or(setting: Option<Seq<char>>, max: nat, default: nat) -> nat {
    match setting {
        Some(s) => match parse_unsigned(s, max) {
            Some(n) => n,
            None => default,
        },
        None => default,
    }
}

/// The profile-switch delay from the value of `PROFILE_SWITCH_DELAY_MS`, if set.
pub fn profile_switch_delay_ms(setting: Option<&str>) -> (r: u64)
    ensures
        r == setting_or(
            match setting {
                Some(s) => Some(s@),
                None => None,
            },
            u64::MAX as nat,
            DEFAULT_PROFILE_SWITCH_DELAY_MS as nat,
        ),
{
    match setting {
        Some(s) => match parse_unsigned_chars(&chars_of(s), u64::MAX) {
            Some(n) => n,
            None => DEFAULT_PROFILE_SWITCH_DELAY_MS,
        },
        None => DEFAULT_PROFILE_SWITCH_DELAY_MS,
    }
}

/// The number of attempts after a profile switch from the value of
/// `PROFILE_SWITCH_MAX_RETRIES`, if set.
pub fn profile_switch_max_retries(setting: Option<&str>) -> (r: u32)
    ensures
        r == setting_or(
            match setting {
                Some(s) => Some(s@),
                None => None,
            },
            u32::MAX as nat,
            DEFAULT_PROFILE_SWITCH_MAX_RETRIES as nat,
        ),
{
    match setting {
        Some(s) => match parse_unsigned_chars(&chars_of(s), u32::MAX as u64) {
            Some(n) => n as u32,
            None => DEFAULT_PROFILE_SWITCH_MAX_RETRIES,
        },
        None => DEFAULT_PROFILE_SWITCH_MAX_RETRIES,
    }
}

/// A lower-case hexadecimal digit.
pub open spec fn hex_digit(n: nat) -> char {
    if n < 10 {
        (48 + n) as char
    } else {
        (87 + n) as char
    }
}

/// How a character stands in a JSON string literal as `serde_json` writes it:
/// `"` and `\` and the control characters backspace, tab, line feed, form feed
/// and carriage return by their short escapes, the other characters below
/// U+0020 as `\u00XX` with lower-case hex digits, every other character as
/// itself.
pub open spec fn json_escape(c: char) -> Seq<char> {
    if c == '"' {
        seq!['\\', '"']
    } else if c == '\\' {
        seq!['\\', '\\']
    } else if (c as u32) == 8 {
        seq!['\\', 'b']
    } else if c == '\t' {
        seq!['\\', 't']
    } else if c == '\n' {
        seq!['\\', 'n']
    } else if (c as u32) == 12 {
        seq!['\\', 'f']
    } else if c == '\r' {
        seq!['\\', 'r']
    } else if (c as u32) < 32 {
        seq!['\\', 'u', '0', '0', hex_digit((c as u32 / 16) as nat), hex_digit((c as u32 % 16) as nat)]
    } else {
        seq![c]
    }
}

/// The escaped characters of a string.
pub open spec fn json_escaped(s: Seq<char>) -> Seq<char>
    decreases s.len(),
{
    if s.len() == 0 {
        Seq::empty()
    } else {
        json_escaped(s.drop_last()) + json_escape(s.last())
    }
}

/// The JSON text of a string: the escaped characters between double quotes.
pub open spec fn json_string(s: Seq<char>) -> Seq<char> {
    seq!['"'] + json_escaped(s) + seq!['"']
}

/// Calls `serde_json::to_string` on a string slice. Serialising a `str` writes
/// into a `Vec` and does not fail; the result is the JSON string literal of
/// `s` as `serde_json`'s escape table (`ser.rs`, `ESCAPE`) gives it.
#[verifier::external_body]
fn json_quote(s: &str) -> (r: Option<String>)
    ensures
        r is Some,
        r matches Some(q) ==> q@ == json_string(s@),
{
    serde_json::to_string(s).ok()
}

/// The value that names sink `node_name` as the default sink in metadata:
/// `{"name":<JSON string>}`.
pub open spec fn default_sink_value(node_name: Seq<char>) -> Seq<char> {
    "{\"name\":"@ + json_string(node_name) + "}"@
}

/// The decimal text of a number.
pub open spec fn dec(n: nat) -> Seq<char> {
    crate::text::decimal(n)
}

impl PipeWire {
    /// The current default sink named by the metadata objects of a fresh dump.
    pub fn get_default_sink_name(objects: &[PwObject]) -> (r: Result<String, PipeWireError>)
        ensures
            match default_sink_from(objects_view(objects@), 0) {
                Some(n) => r matches Ok(s) && s@ == n,
                None => r matches Err(PipeWireError::NoDefaultSink),
            },
    {
        match Self::get_default_sink_name_from_objects(objects) {
            Some(n) => Ok(n),
            None => Err(PipeWireError::NoDefaultSink),
        }
    }

    /// Whether the sink named `sink_name` is among the active sinks.
    pub fn is_sink_active(objects: &[PwObject], sink_name: &str) -> (r: bool)
        ensures
            r == sink_active_in(objects_view(objects@), sink_name@),
    {
        let active = Self::get_active_sinks(objects);
        contains_sink_named(active.as_slice(), sink_name)
    }

    /// Find the profile sink, if any, whose predicted name is `sink_name`.
    pub fn find_profile_sink(objects: &[PwObject], sink_name: &str) -> (r: Option<ProfileSink>)
        ensures
            match r {
                Some(p) => profile_sink_for(objects_view(objects@), sink_name@) == Some(p@),
                None => profile_sink_for(objects_view(objects@), sink_name@) is None,
            },
    {
        let active = Self::get_active_sinks(objects);
        let mut profile_sinks = Self::get_profile_sinks(objects, active.as_slice());
        let ghost ps = profile_view(profile_sinks@);
        let mut i: usize = 0;
        while i < profile_sinks.len()
            invariant
                i <= profile_sinks@.len(),
                ps == profile_view(profile_sinks@),
                ps == dump_profile_sinks(objects_view(objects@)),
                first_predicted(ps, sink_name@, 0) == first_predicted(ps, sink_name@, i as int),
            decreases profile_sinks@.len() - i,
        {
            assert(ps[i as int] == profile_sinks@[i as int]@);
            if str_eq(profile_sinks[i].predicted_name.as_str(), sink_name) {
                let found = profile_sinks.remove(i);
                return Some(found);
            }
            i = i + 1;
        }
        None
    }

    /// The first step of activating the sink `sink_name`: make it the default
    /// when it is active, else switch the profile that brings it.
    pub fn plan_activation(objects: &[PwObject], sink_name: &str) -> (r: Result<
        ActivationStep,
        PipeWireError,
    >)
        ensures
            sink_active_in(objects_view(objects@), sink_name@) ==> r matches Ok(
                ActivationStep::SetDefault,
            ),
            !sink_active_in(objects_view(objects@), sink_name@) ==> match profile_sink_for(
                objects_view(objects@),
                sink_name@,
            ) {
                Some(p) => r matches Ok(
                    ActivationStep::SwitchProfile {
                        device_id,
                        profile_index,
                        device_name,
                        profile_name,
                    },
                ) && device_id == p.device_id && profile_index == p.profile_index
                    && device_name@ == p.device_name && profile_name@ == p.profile_name,
                None => r matches Err(PipeWireError::SinkNotFound { name }) && name@
                    == sink_name@,
            },
    {
        if Self::is_sink_active(objects, sink_name) {
            return Ok(ActivationStep::SetDefault);
        }
        match Self::find_profile_sink(objects, sink_name) {
            Some(p) => Ok(
                ActivationStep::SwitchProfile {
                    device_id: p.device_id,
                    profile_index: p.profile_index,
                    device_name: p.device_name,
                    profile_name: p.profile_name,
                },
            ),
            None => Err(PipeWireError::SinkNotFound { name: own(sink_name) }),
        }
    }

    /// The error after a profile switch whose sink did not appear.
    pub fn sink_did_not_appear(sink_name: &str, max_retries: u32, delay_ms: u64) -> (e:
        PipeWireError)
        ensures
            e@ == (PipeWireErrorView::SinkDidNotAppear {
                name: sink_name@,
                max_retries,
                delay_ms,
            }),
    {
        PipeWireError::SinkDidNotAppear { name: own(sink_name), max_retries, delay_ms }
    }

    /// The outcome of checking for the PipeWire tools, given those that are
    /// missing.
    pub fn check_missing_tools(missing: Vec<String>) -> (r: Result<(), PipeWireError>)
        ensures
            missing@.len() == 0 ==> r is Ok,
            missing@.len() > 0 ==> (r matches Err(e) && e@ == (PipeWireErrorView::MissingTools {
                missing: missing@.map_values(|s: String| s@),
            })),
    {
        if missing.len() == 0 {
            Ok(())
        } else {
            Err(PipeWireError::MissingTools { missing })
        }
    }

    /// The arguments of `pw-metadata` that make `node_name` the default sink.
    pub fn set_default_sink_args(node_name: &str) -> (r: Result<Vec<String>, PipeWireError>)
        ensures
            r matches Ok(args) ==> args@.map_values(|s: String| s@) == seq![
                "0"@,
                "default.audio.sink"@,
                default_sink_value(node_name@),
                "Spa:String:JSON"@,
            ],
            r is Ok,
    {
        let quoted = match json_quote(node_name) {
            Some(q) => q,
            None => return Err(PipeWireError::JsonEncoding),
        };
        let value = own("{\"name\":");
        let value = append(value, quoted.as_str());
        let value = append(value, "}");
        let mut args: Vec<String> = Vec::new();
        args.push(own("0"));
        args.push(own("default.audio.sink"));
        args.push(value);
        args.push(own("Spa:String:JSON"));
        assert(args@.map_values(|s: String| s@) =~= seq![
            "0"@,
            "default.audio.sink"@,
            default_sink_value(node_name@),
            "Spa:String:JSON"@,
        ]);
        Ok(args)
    }

    /// The arguments of `pw-cli` that switch device `device_id` to profile
    /// `profile_index`: `s <id> Profile {"index":<index>}`.
    pub fn set_device_profile_args(device_id: u32, profile_index: u32) -> (r: Vec<String>)
        ensures
            r@.map_values(|s: String| s@) == seq![
                "s"@,
                dec(device_id as nat),
                "Profile"@,
                "{\"index\":"@ + dec(profile_index as nat) + "}"@,
            ],
    {
        let json = own("{\"index\":");
        let index = format_decimal(profile_index as u64);
        let json = append(json, index.as_str());
        let json = append(json, "}");
        let mut args: Vec<String> = Vec::new();
        args.push(own("s"));
        args.push(format_decimal(device_id as u64));
        args.push(own("Profile"));
        args.push(json);
        assert(args@.map_values(|s: String| s@) =~= seq![
            "s"@,
            dec(device_id as nat),
            "Profile"@,
            "{\"index\":"@ + dec(profile_index as nat) + "}"@,
        ]);
        args
    }
}

// ============================================================================
// Device locks
// ============================================================================

/// The number of per-device locks kept before stale ones are dropped.
pub const MAX_DEVICE_LOCKS: usize = 100;

/// The devices of the lock entries that are held elsewhere.
pub open spec fn held_devices(entries: Seq<(u32, bool)>) -> Seq<u32>
    decreases entries.len(),
{
    if entries.len() == 0 {
        Seq::empty()
    } else {
        let rest = held_devices(entries.drop_last());
        if entries.last().1 {
            rest.push(entries.last().0)
        } else {
            rest
        }
    }
}

/// The devices of all lock entries.
pub open spec fn all_devices(entries: Seq<(u32, bool)>) -> Seq<u32> {
    entries.map_values(|e: (u32, bool)| e.0)
}

/// Which per-device lock entries remain when a lock is taken: each entry names
/// a device and says whether its lock is held elsewhere. Once the table has
/// reached its limit, the entries that nobody else holds are dropped.
pub fn retained_device_locks(entries: &Vec<(u32, bool)>) -> (r: Vec<u32>)
    ensures
        entries@.len() >= MAX_DEVICE_LOCKS ==> r@ == held_devices(entries@),
        entries@.len() < MAX_DEVICE_LOCKS ==> r@ == all_devices(entries@),
{
    if entries.len() < MAX_DEVICE_LOCKS {
        let mut all: Vec<u32> = Vec::new();
        let mut i: usize = 0;
        while i < entries.len()
            invariant
                i <= entries@.len(),
                all@ == all_devices(entries@.take(i as int)),
            decreases entries@.len() - i,
        {
            all.push(entries[i].0);
            assert(all_devices(entries@.take(i + 1)) =~= all_devices(entries@.take(i as int)).push(
                entries@[i as int].0,
            ));
            i = i + 1;
        }
        assert(entries@.take(entries@.len() as int) =~= entries@);
        return all;
    }
    // Drop the entries that nobody else holds. A further pass that would drop up
    // to a fifth of the remaining unheld entries when the table is still full has
    // nothing left to drop: every remaining entry is held.
    let mut result: Vec<u32> = Vec::new();
    let mut i: usize = 0;
    while i < entries.len()
        invariant
            i <= entries@.len(),
            result@ == held_devices(entries@.take(i as int)),
        decreases entries@.len() - i,
    {
        assert(entries@.take(i + 1).drop_last() =~= entries@.take(i as int));
        if entries[i].1 {
            result.push(entries[i].0);
        }
        i = i + 1;
    }
    assert(entries@.take(entries@.len() as int) =~= entries@);
    result
}

// ============================================================================
// Listing sinks as JSON
// ============================================================================

/// Sink listing for `list-sinks --json`.
#[derive(Debug)]
pub struct ListSinksJson {
    pub active_sinks: Vec<ActiveSinkJson>,
    pub profile_sinks: Vec<ProfileSinkJson>,
    pub configured_sinks: Vec<ConfiguredSinkJson>,
    pub current_default: Option<String>,
}

/// An active sink in the listing.
#[derive(Debug)]
pub struct ActiveSinkJson {
    pub name: String,
    pub description: String,
    pub is_default: bool,
    pub configured: bool,
}

/// A profile sink in the listing.
#[derive(Debug)]
pub struct ProfileSinkJson {
    pub predicted_name: String,
    pub description: String,
    pub device_name: String,
    pub profile_name: String,
    pub profile_index: u32,
}

/// A configured sink in the listing, with its status.
#[derive(Debug)]
pub struct ConfiguredSinkJson {
    pub index: usize,
    pub name: String,
    pub desc: String,
    pub icon: Option<String>,
    pub is_default_config: bool,
    pub status: String,
}

/// An active sink in the listing, as values.
pub struct ActiveSinkJsonView {
    pub name: Seq<char>,
    pub description: Seq<char>,
    pub is_default: bool,
    pub configured: bool,
}

impl View for ActiveSinkJson {
    type V = ActiveSinkJsonView;

    open spec fn view(&self) -> ActiveSinkJsonView {
        ActiveSinkJsonView {
            name: self.name@,
            description: self.description@,
            is_default: self.is_default,
            configured: self.configured,
        }
    }
}

/// A profile sink in the listing, as values.
pub struct ProfileSinkJsonView {
    pub predicted_name: Seq<char>,
    pub description: Seq<char>,
    pub device_name: Seq<char>,
    pub profile_name: Seq<char>,
    pub profile_index: u32,
}

impl View for ProfileSinkJson {
    type V = ProfileSinkJsonView;

    open spec fn view(&self) -> ProfileSinkJsonView {
        ProfileSinkJsonView {
            predicted_name: self.predicted_name@,
            description: self.description@,
            device_name: self.device_name@,
            profile_name: self.profile_name@,
            profile_index: self.profile_index,
        }
    }
}

/// A configured sink in the listing, as values.
pub struct ConfiguredSinkJsonView {
    pub index: usize,
    pub name: Seq<char>,
    pub desc: Seq<char>,
    pub icon: Option<Seq<char>>,
    pub is_default_config: bool,
    pub status: Seq<char>,
}

impl View for ConfiguredSinkJson {
    type V = ConfiguredSinkJsonView;

    open spec fn view(&self) -> ConfiguredSinkJsonView {
        ConfiguredSinkJsonView {
            index: self.index,
            name: self.name@,
            desc: self.desc@,
            icon: opt_str(self.icon),
            is_default_config: self.is_default_config,
            status: self.status@,
        }
    }
}

/// The listing, as values.
#[verifier::ext_equal]
pub struct ListSinksJsonView {
    pub active_sinks: Seq<ActiveSinkJsonView>,
    pub profile_sinks: Seq<ProfileSinkJsonView>,
    pub configured_sinks: Seq<ConfiguredSinkJsonView>,
    pub current_default: Option<Seq<char>>,
}

impl View for ListSinksJson {
    type V = ListSinksJsonView;

    open spec fn view(&self) -> ListSinksJsonView {
        ListSinksJsonView {
            active_sinks: self.active_sinks@.map_values(|s: ActiveSinkJson| s@),
            profile_sinks: self.profile_sinks@.map_values(|s: ProfileSinkJson| s@),
            configured_sinks: self.configured_sinks@.map_values(|s: ConfiguredSinkJson| s@),
            current_default: opt_str(self.current_default),
        }
    }
}

// ============================================================================
// Laws
// ============================================================================

proof fn lemma_entries_exclude_active(
    id: u32,
    device: Seq<char>,
    current: Option<u32>,
    ps: Seq<ProfileView>,
    active: Seq<ActiveSinkView>,
)
    ensures
        forall|k: int|
            0 <= k < profile_entries(id, device, current, ps, active).len() ==> !has_active_named(
                active,
                #[trigger] profile_entries(id, device, current, ps, active)[k].predicted_name,
            ),
    decreases ps.len(),
{
    if ps.len() > 0 {
        lemma_entries_exclude_active(id, device, current, ps.drop_last(), active);
        let rest = profile_entries(id, device, current, ps.drop_last(), active);
        let whole = profile_entries(id, device, current, ps, active);
        if let Some(e) = profile_entry(id, device, current, ps.last(), active) {
            assert forall|k: int| 0 <= k < whole.len() implies !has_active_named(
                active,
                #[trigger] whole[k].predicted_name,
            ) by {
                if k < rest.len() {
                    assert(whole[k] == rest[k]);
                } else {
                    assert(whole[k] == e);
                }
            }
        }
    }
}

/// A sink offered through a profile switch is never one of the active sinks
/// it was computed against.
pub proof fn lemma_profile_sinks_exclude_active(
    objs: Seq<ObjectView>,
    active: Seq<ActiveSinkView>,
)
    ensures
        forall|k: int|
            0 <= k < profile_sinks_in(objs, active).len() ==> !has_active_named(
                active,
                #[trigger] profile_sinks_in(objs, active)[k].predicted_name,
            ),
    decreases objs.len(),
{
    if objs.len() > 0 {
        lemma_profile_sinks_exclude_active(objs.drop_last(), active);
        let rest = profile_sinks_in(objs.drop_last(), active);
        let o = objs.last();
        let d = device_profile_sinks(o, active);
        assert forall|k: int| 0 <= k < d.len() implies !has_active_named(
            active,
            #[trigger] d[k].predicted_name,
        ) by {
            if o.obj_type == "PipeWire:Interface:Device"@ {
                if let Some(props) = object_props(o) {
                    if let Some(info) = o.info {
                        if let Some(params) = info.params {
                            if let Some(eps) = params.enum_profile {
                                if let Some(dn) = props.device_name {
                                    lemma_entries_exclude_active(
                                        o.id,
                                        dn,
                                        current_profile_index(params),
                                        eps,
                                        active,
                                    );
                                }
                            }
                        }
                    }
                }
            }
        }
        assert forall|k: int| 0 <= k < profile_sinks_in(objs, active).len() implies !has_active_named(
            active,
            #[trigger] profile_sinks_in(objs, active)[k].predicted_name,
        ) by {
            if k < rest.len() {
                assert(profile_sinks_in(objs, active)[k] == rest[k]);
            } else {
                assert(profile_sinks_in(objs, active)[k] == d[k - rest.len()]);
            }
        }
    }
}

/// An active sink is marked default exactly when the metadata names it as the
/// default sink.
pub proof fn lemma_default_marking(objs: Seq<ObjectView>, default: Option<Seq<char>>)
    ensures
        forall|k: int|
            0 <= k < active_sinks_in(objs, default).len() ==> (#[trigger] active_sinks_in(
                objs,
                default,
            )[k].is_default <==> default == Some(active_sinks_in(objs, default)[k].name)),
    decreases objs.len(),
{
    if objs.len() > 0 {
        lemma_default_marking(objs.drop_last(), default);
        let rest = active_sinks_in(objs.drop_last(), default);
        let whole = active_sinks_in(objs, default);
        if let Some(e) = node_sink(objs.last(), default) {
            assert forall|k: int| 0 <= k < whole.len() implies (#[trigger] whole[k].is_default
                <==> default == Some(whole[k].name)) by {
                if k < rest.len() {
                    assert(whole[k] == rest[k]);
                } else {
                    assert(whole[k] == e);
                }
            }
        }
    }
}


/// Sink `a` is the audio sink that node `o` announces: `o` is a PipeWire node of
/// media class `Audio/Sink` whose node name is `a`'s name, and `a`'s description
/// is the node's description when it has one, else its nick, else its node name.
pub open spec fn announced_by(o: ObjectView, a: ActiveSinkView) -> bool {
    &&& o.obj_type == "PipeWire:Interface:Node"@
    &&& object_props(o) matches Some(p)
    &&& p.media_class == Some("Audio/Sink"@)
    &&& p.node_name == Some(a.name)
    &&& (p.node_description matches Some(d) ==> a.description == d)
    &&& (p.node_description is None ==> (p.node_nick matches Some(n) ==> a.description == n))
    &&& (p.node_description is None && p.node_nick is None ==> a.description == a.name)
}

/// Some node of the objects announces sink `a`.
pub open spec fn announced_in(objs: Seq<ObjectView>, a: ActiveSinkView) -> bool {
    exists|j: int| 0 <= j < objs.len() && #[trigger] announced_by(objs[j], a)
}

proof fn lemma_node_sink_announced(o: ObjectView, default: Option<Seq<char>>)
    ensures
        node_sink(o, default) matches Some(a) ==> announced_by(o, a),
{
}

proof fn lemma_active_sinks_in_announced(objs: Seq<ObjectView>, default: Option<Seq<char>>)
    ensures
        forall|k: int|
            0 <= k < active_sinks_in(objs, default).len() ==> announced_in(objs, #[trigger] active_sinks_in(objs, default)[k]),
        forall|j: int|
            0 <= j < objs.len() && #[trigger] node_sink(objs[j], default) is Some ==> exists|k: int|
                0 <= k < active_sinks_in(objs, default).len() && active_sinks_in(objs, default)[k]
                    == node_sink(objs[j], default)->0,
    decreases objs.len(),
{
    if objs.len() > 0 {
        let pre = objs.drop_last();
        lemma_active_sinks_in_announced(pre, default);
        let last = objs[objs.len() - 1];
        lemma_node_sink_announced(last, default);
        let rest = active_sinks_in(pre, default);
        let r = active_sinks_in(objs, default);
        assert(r == match node_sink(last, default) {
            Some(x) => rest.push(x),
            None => rest,
        });
        assert forall|k: int|
            0 <= k < active_sinks_in(objs, default).len() implies announced_in(objs, #[trigger] active_sinks_in(objs, default)[k]) by {
            if k < rest.len() {
                assert(r[k] == rest[k]);
                assert(announced_in(pre, rest[k]));
                let j = choose|j: int| 0 <= j < pre.len() && #[trigger] announced_by(pre[j], rest[k]);
                assert(objs[j] == pre[j]);
                assert(announced_by(objs[j], r[k]));
            } else {
                assert(r[k] == node_sink(last, default)->0);
                assert(announced_by(objs[objs.len() - 1], r[k]));
            }
        }
        assert forall|j: int| 0 <= j < objs.len() && #[trigger] node_sink(objs[j], default) is Some implies exists|k: int|
            0 <= k < r.len() && r[k] == node_sink(objs[j], default)->0 by {
            if j < pre.len() {
                assert(objs[j] == pre[j]);
                assert(node_sink(pre[j], default) is Some);
                let k = choose|k: int| 0 <= k < rest.len() && rest[k] == node_sink(pre[j], default)->0;
                assert(r[k] == rest[k]);
            } else {
                assert(r[r.len() - 1] == node_sink(objs[j], default)->0);
            }
        }
    }
}

/// Every active sink that a dump lists is announced by one of its audio sink
/// nodes, named and described by that node (its description first, the nick
/// only when there is no description); and every audio sink node with a name is
/// listed.
pub proof fn lemma_active_sinks_announced(objs: Seq<ObjectView>)
    ensures
        forall|k: int|
            0 <= k < dump_active_sinks(objs).len() ==> announced_in(objs, #[trigger] dump_active_sinks(objs)[k]),
        forall|j: int|
            0 <= j < objs.len() && objs[j].obj_type == "PipeWire:Interface:Node"@ && (
            #[trigger] object_props(objs[j]) matches Some(p) && p.media_class == Some("Audio/Sink"@)
                && p.node_name is Some) ==> exists|k: int|
                0 <= k < dump_active_sinks(objs).len() && Some(dump_active_sinks(objs)[k].name)
                    == object_props(objs[j])->0.node_name,
{
    let d = default_sink_from(objs, 0);
    lemma_active_sinks_in_announced(objs, d);
    let r = dump_active_sinks(objs);
    assert(r == active_sinks_in(objs, d));
    assert forall|k: int|
        0 <= k < dump_active_sinks(objs).len() implies announced_in(objs, #[trigger] dump_active_sinks(objs)[k]) by {
        assert(dump_active_sinks(objs)[k] == active_sinks_in(objs, d)[k]);
    }
    assert forall|j: int|
        0 <= j < objs.len() && objs[j].obj_type == "PipeWire:Interface:Node"@ && (
        #[trigger] object_props(objs[j]) matches Some(p) && p.media_class == Some("Audio/Sink"@)
            && p.node_name is Some) implies exists|k: int|
            0 <= k < r.len() && Some(r[k].name) == object_props(objs[j])->0.node_name by {
        assert(node_sink(objs[j], d) is Some);
        let k = choose|k: int| 0 <= k < r.len() && r[k] == node_sink(objs[j], d)->0;
        assert(Some(r[k].name) == object_props(objs[j])->0.node_name);
    }
}

} // verus!
