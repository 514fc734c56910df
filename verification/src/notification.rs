//! Icon selection for desktop notifications, using FreeDesktop standard icon names.
//! Sending a notification is the application's business; the library only
//! decides which icon goes with a sink or a window.

use vstd::prelude::*;

use crate::config::{opt_str, SinkConfig, SinkView};
use crate::text::{append, ascii_lower, ascii_lower_char, chars_of, is_ascii_seq, lemma_ascii_lower_char, lower, own, seq_contains, str_contains, str_eq, to_lowercase};

verus! {

// ============================================================================
// Sink icons
// ============================================================================

/// The icon for a sink whose lower-cased description is `d` and lower-cased node
/// name is `n`: displays, then headphone-like devices, then speakers.
pub open spec fn classify_icon(d: Seq<char>, n: Seq<char>) -> Seq<char> {
    if seq_contains(d, "hdmi"@) || seq_contains(d, "tv"@) || seq_contains(d, "display"@)
        || seq_contains(n, "hdmi"@) {
        "video-display"@
    } else if seq_contains(d, "headphone"@) || seq_contains(d, "headset"@) || seq_contains(
        d,
        "bluetooth"@,
    ) || seq_contains(d, "earbuds"@) || seq_contains(d, "earphone"@) || seq_contains(
        d,
        "airpods"@,
    ) || seq_contains(n, "bluez"@) {
        "audio-headphones"@
    } else {
        "audio-speakers"@
    }
}

/// The icon of a sink: its configured icon, or one detected from its description
/// and node name.
pub open spec fn sink_icon(s: SinkView) -> Seq<char> {
    match s.icon {
        Some(i) => i,
        None => classify_icon(lower(s.desc), lower(s.name)),
    }
}

/// Detects an icon from a lower-cased description and node name.
pub fn classify_sink_icon(desc_lower: &str, name_lower: &str) -> (r: String)
    ensures
        r@ == classify_icon(desc_lower@, name_lower@),
{
    let d = desc_lower;
    let n = name_lower;
    if str_contains(d, "hdmi") || str_contains(d, "tv") || str_contains(d, "display")
        || str_contains(n, "hdmi") {
        own("video-display")
    } else if str_contains(d, "headphone") || str_contains(d, "headset") || str_contains(
        d,
        "bluetooth",
    ) || str_contains(d, "earbuds") || str_contains(d, "earphone") || str_contains(d, "airpods")
        || str_contains(n, "bluez") {
        own("audio-headphones")
    } else {
        own("audio-speakers")
    }
}

/// Determine the icon for a sink (custom or auto-detected).
pub fn get_sink_icon(sink: &SinkConfig) -> (r: String)
    ensures
        r@ == sink_icon(sink@),
{
    match &sink.icon {
        Some(icon) => icon.clone(),
        None => {
            let desc_lower = to_lowercase(sink.desc.as_str());
            let name_lower = to_lowercase(sink.name.as_str());
            classify_sink_icon(desc_lower.as_str(), name_lower.as_str())
        },
    }
}

// ============================================================================
// Application icons
// ============================================================================

/// The pieces of `s` between occurrences of `sep` (`str::split` with a `char`).
pub open spec fn split_on(s: Seq<char>, sep: char) -> Seq<Seq<char>>
    decreases s.len(),
{
    if s.len() == 0 {
        seq![Seq::<char>::empty()]
    } else {
        let rest = split_on(s.drop_last(), sep);
        if s.last() == sep {
            rest.push(Seq::<char>::empty())
        } else {
            rest.update(rest.len() - 1, rest.last().push(s.last()))
        }
    }
}

proof fn lemma_split_on_nonempty(s: Seq<char>, sep: char)
    ensures
        split_on(s, sep).len() >= 1,
    decreases s.len(),
{
    if s.len() > 0 {
        lemma_split_on_nonempty(s.drop_last(), sep);
    }
}

/// Components of an application id that say nothing about the application.
pub open spec fn is_generic_suffix(s: Seq<char>) -> bool {
    s == "desktop"@ || s == "client"@ || s == "app"@ || s == "application"@ || s == "gui"@ || s
        == "gtk"@ || s == "gtk3"@ || s == "gtk4"@ || s == "qt"@ || s == "qt5"@ || s == "qt6"@
}

/// The last of the first `k` lower-cased components that is non-empty and not generic.
pub open spec fn meaningful_part(lowered: Seq<Seq<char>>, k: int) -> Option<Seq<char>>
    decreases k,
{
    if k <= 0 || k > lowered.len() {
        None
    } else if lowered[k - 1].len() > 0 && !is_generic_suffix(lowered[k - 1]) {
        Some(lowered[k - 1])
    } else {
        meaningful_part(lowered, k - 1)
    }
}

/// The icon name for an application id: the last meaningful dot-separated
/// component, lower-cased; the whole id lower-cased when none is meaningful; the
/// empty string for an empty id.
pub open spec fn app_icon(app_id: Seq<char>) -> Seq<char> {
    if app_id.len() == 0 {
        Seq::empty()
    } else {
        let lowered = split_on(app_id, '.').map_values(|p: Seq<char>| lower(p));
        match meaningful_part(lowered, lowered.len() as int) {
            Some(p) => p,
            None => lower(app_id),
        }
    }
}

/// The dot-separated components of a string.
pub fn split_dots(s: &str) -> (parts: Vec<String>)
    ensures
        parts@.map_values(|p: String| p@) == split_on(s@, '.'),
{
    let chars = chars_of(s);
    let mut parts: Vec<String> = Vec::new();
    let mut current: Vec<char> = Vec::new();
    let mut i: usize = 0;
    while i < chars.len()
        invariant
            chars@ == s@,
            i <= chars@.len(),
            parts@.map_values(|p: String| p@).push(current@) == split_on(chars@.take(i as int), '.'),
        decreases chars@.len() - i,
    {
        let c = chars[i];
        let ghost pre = chars@.take(i as int);
        assert(chars@.take(i + 1).drop_last() =~= pre);
        assert(chars@.take(i + 1).last() == c);
        proof {
            lemma_split_on_nonempty(pre, '.');
        }
        if c == '.' {
            let ghost old_parts = parts@;
            parts.push(crate::text::string_from_chars(&current));
            assert(parts@.map_values(|p: String| p@) =~= old_parts.map_values(|p: String| p@).push(
                current@,
            ));
            current = Vec::new();
            assert(parts@.map_values(|p: String| p@).push(current@) =~= split_on(
                chars@.take(i + 1),
                '.',
            ));
        } else {
            let ghost old_cur = current@;
            current.push(c);
            assert(parts@.map_values(|p: String| p@).push(current@) =~= split_on(
                chars@.take(i + 1),
                '.',
            ));
        }
        i = i + 1;
    }
    assert(chars@.take(chars@.len() as int) =~= chars@);
    let ghost old_parts = parts@;
    parts.push(crate::text::string_from_chars(&current));
    assert(parts@.map_values(|p: String| p@) =~= old_parts.map_values(|p: String| p@).push(
        current@,
    ));
    parts
}

/// Whether a lower-cased component is one of the generic suffixes.
pub fn is_generic(part: &str) -> (r: bool)
    ensures
        r == is_generic_suffix(part@),
{
    str_eq(part, "desktop") || str_eq(part, "client") || str_eq(part, "app") || str_eq(
        part,
        "application",
    ) || str_eq(part, "gui") || str_eq(part, "gtk") || str_eq(part, "gtk3") || str_eq(part, "gtk4")
        || str_eq(part, "qt") || str_eq(part, "qt5") || str_eq(part, "qt6")
}

/// The last lower-cased component that is non-empty and not generic.
pub fn choose_icon_part(lowered: &Vec<String>) -> (r: Option<String>)
    ensures
        opt_str(r) == meaningful_part(
            lowered@.map_values(|p: String| p@),
            lowered@.len() as int,
        ),
{
    let ghost l = lowered@.map_values(|p: String| p@);
    let mut k: usize = lowered.len();
    while k > 0
        invariant
            k <= lowered@.len(),
            l == lowered@.map_values(|p: String| p@),
            meaningful_part(l, lowered@.len() as int) == meaningful_part(l, k as int),
        decreases k,
    {
        let part = &lowered[k - 1];
        assert(l[k - 1] == part@);
        if !part.as_str().is_empty() && !is_generic(part.as_str()) {
            return Some(part.clone());
        }
        k = k - 1;
    }
    None
}

/// Convert an application id to an icon name, e.g. `org.mozilla.firefox` to
/// `firefox` and `org.telegram.desktop` to `telegram`.
pub fn get_app_icon(app_id: &str) -> (r: String)
    ensures
        r@ == app_icon(app_id@),
{
    if app_id.is_empty() {
        return String::new();
    }
    let parts = split_dots(app_id);
    let mut lowered: Vec<String> = Vec::new();
    let mut i: usize = 0;
    while i < parts.len()
        invariant
            i <= parts@.len(),
            lowered@.len() == i,
            forall|j: int| 0 <= j < i ==> #[trigger] lowered@[j]@ == lower(parts@[j]@),
        decreases parts@.len() - i,
    {
        lowered.push(to_lowercase(parts[i].as_str()));
        i = i + 1;
    }
    let ghost expected = split_on(app_id@, '.').map_values(|p: Seq<char>| lower(p));
    assert(lowered@.map_values(|p: String| p@) =~= expected);
    match choose_icon_part(&lowered) {
        Some(p) => p,
        None => to_lowercase(app_id),
    }
}

// ============================================================================
// Switch notifications
// ============================================================================

/// The body of the notification for a switch to the sink described `desc`, with
/// the reason when there is one: `<desc> → <reason>`.
pub open spec fn switch_text(desc: Seq<char>, reason: Option<Seq<char>>) -> Seq<char> {
    match reason {
        Some(d) => desc + " → "@ + d,
        None => desc,
    }
}

/// The body of the notification for a sink switch.
pub fn switch_message(desc: &str, custom_desc: Option<&str>) -> (r: String)
    ensures
        r@ == switch_text(
            desc@,
            match custom_desc {
                Some(d) => Some(d@),
                None => None,
            },
        ),
{
    match custom_desc {
        Some(d) => append(append(own(desc), " → "), d),
        None => own(desc),
    }
}


/// No component of a split holds the separator, and the components of ASCII text
/// are ASCII.
proof fn lemma_split_parts(s: Seq<char>, sep: char)
    ensures
        forall|i: int| 0 <= i < split_on(s, sep).len() ==> !(#[trigger] split_on(s, sep)[i]).contains(sep),
        is_ascii_seq(s) ==> forall|i: int|
            0 <= i < split_on(s, sep).len() ==> is_ascii_seq(#[trigger] split_on(s, sep)[i]),
    decreases s.len(),
{
    lemma_split_on_nonempty(s, sep);
    if s.len() > 0 {
        let p = s.drop_last();
        lemma_split_parts(p, sep);
        lemma_split_on_nonempty(p, sep);
        if is_ascii_seq(s) {
            assert forall|i: int| 0 <= i < p.len() implies (#[trigger] p[i] as u32) < 128 by {
                assert(p[i] == s[i]);
            }
            assert((s[s.len() - 1] as u32) < 128);
        }
        let rest = split_on(p, sep);
        if s.last() != sep {
            let lastp = rest.last().push(s.last());
            assert forall|j: int| 0 <= j < lastp.len() && lastp[j] == sep implies false by {
                if j < rest.last().len() {
                    assert(rest.last()[j] == sep);
                    assert(rest.last().contains(sep));
                }
            }
            if is_ascii_seq(s) {
                assert(is_ascii_seq(rest[rest.len() - 1]));
                assert forall|j: int| 0 <= j < lastp.len() implies (#[trigger] lastp[j] as u32) < 128 by {
                    if j < rest.last().len() {
                        assert(lastp[j] == rest[rest.len() - 1][j]);
                    }
                }
            }
        }
    }
}

/// Splitting ASCII text on dots and lower-casing each component is splitting the
/// lower-cased text.
proof fn lemma_split_lower(s: Seq<char>)
    requires
        is_ascii_seq(s),
    ensures
        split_on(ascii_lower(s), '.') == split_on(s, '.').map_values(|p: Seq<char>| ascii_lower(p)),
    decreases s.len(),
{
    if s.len() > 0 {
        let p = s.drop_last();
        assert forall|i: int| 0 <= i < p.len() implies (#[trigger] p[i] as u32) < 128 by {
            assert(p[i] == s[i]);
        }
        lemma_split_lower(p);
        lemma_split_on_nonempty(p, '.');
        let c = s.last();
        assert((c as u32) < 128);
        lemma_ascii_lower_char(c);
        let ls = ascii_lower(s);
        assert(ls.drop_last() =~= ascii_lower(p));
        assert(ls.last() == ascii_lower_char(c));
        let rest = split_on(p, '.');
        if c == '.' {
            assert(split_on(ls, '.') == split_on(ascii_lower(p), '.').push(Seq::<char>::empty()));
            assert(ascii_lower(Seq::<char>::empty()) =~= Seq::<char>::empty());
            assert(split_on(ls, '.') =~= split_on(s, '.').map_values(|q: Seq<char>| ascii_lower(q)));
        } else {
            let lrest = split_on(ascii_lower(p), '.');
            assert(lrest.last() == ascii_lower(rest.last()));
            assert(ascii_lower(rest.last().push(c)) =~= ascii_lower(rest.last()).push(ascii_lower_char(c)));
            assert(split_on(ls, '.') =~= split_on(s, '.').map_values(|q: Seq<char>| ascii_lower(q)));
        }
    } else {
        assert(ascii_lower(s) =~= Seq::<char>::empty());
        assert(s =~= Seq::<char>::empty());
        assert(split_on(ascii_lower(s), '.') =~= split_on(s, '.').map_values(|q: Seq<char>| ascii_lower(q)));
    }
}

/// Text without the separator is a single component.
proof fn lemma_split_single(s: Seq<char>, sep: char)
    requires
        !s.contains(sep),
    ensures
        split_on(s, sep) == seq![s],
    decreases s.len(),
{
    if s.len() > 0 {
        let p = s.drop_last();
        if p.contains(sep) {
            let j = choose|j: int| 0 <= j < p.len() && p[j] == sep;
            assert(s[j] == sep);
        }
        lemma_split_single(p, sep);
        assert(s[s.len() - 1] != sep);
        assert(p.push(s.last()) =~= s);
        assert(split_on(s, sep) =~= seq![s]);
    } else {
        assert(s =~= Seq::<char>::empty());
    }
}

proof fn lemma_ascii_lower_facts(s: Seq<char>)
    requires
        is_ascii_seq(s),
    ensures
        is_ascii_seq(ascii_lower(s)),
        ascii_lower(ascii_lower(s)) == ascii_lower(s),
        ascii_lower(s).len() == s.len(),
        !s.contains('.') ==> !ascii_lower(s).contains('.'),
{
    assert forall|i: int| 0 <= i < s.len() implies (#[trigger] ascii_lower(s)[i] as u32) < 128 && ascii_lower_char(ascii_lower(s)[i]) == ascii_lower(s)[i] && (ascii_lower(s)[i] == '.') == (s[i] == '.') by {
        lemma_ascii_lower_char(s[i]);
    }
    assert(ascii_lower(ascii_lower(s)) =~= ascii_lower(s));
    if ascii_lower(s).contains('.') {
        let j = choose|j: int| 0 <= j < ascii_lower(s).len() && ascii_lower(s)[j] == '.';
        assert(s[j] == '.');
    }
}

proof fn lemma_meaningful_found(l: Seq<Seq<char>>, k: int)
    ensures
        meaningful_part(l, k) matches Some(p) ==> exists|j: int|
            0 <= j < k && j < l.len() && #[trigger] l[j] == p && p.len() > 0 && !is_generic_suffix(p),
    decreases k,
{
    if 0 < k <= l.len() && !(l[k - 1].len() > 0 && !is_generic_suffix(l[k - 1])) {
        lemma_meaningful_found(l, k - 1);
    }
}

/// On an ASCII application id, the icon name is its own icon name: turning it
/// into an icon again changes nothing.
pub proof fn lemma_app_icon_idempotent(s: Seq<char>)
    requires
        is_ascii_seq(s),
    ensures
        app_icon(app_icon(s)) == app_icon(s),
{
    if s.len() > 0 {
        let parts = split_on(s, '.');
        lemma_split_parts(s, '.');
        lemma_split_on_nonempty(s, '.');
        let lowered = parts.map_values(|p: Seq<char>| lower(p));
        assert(lowered =~= parts.map_values(|p: Seq<char>| ascii_lower(p)));
        lemma_meaningful_found(lowered, lowered.len() as int);
        match meaningful_part(lowered, lowered.len() as int) {
            Some(r) => {
                let j = choose|j: int|
                    0 <= j < lowered.len() && #[trigger] lowered[j] == r && r.len() > 0
                        && !is_generic_suffix(r);
                lemma_ascii_lower_facts(parts[j]);
                assert(is_ascii_seq(r));
                assert(!r.contains('.'));
                lemma_split_single(r, '.');
                assert(lower(r) == r);
                let l2 = split_on(r, '.').map_values(|p: Seq<char>| lower(p));
                assert(l2 =~= seq![r]);
                assert(meaningful_part(l2, 1) == Some(r));
            },
            None => {
                let t = lower(s);
                lemma_ascii_lower_facts(s);
                assert(t == ascii_lower(s));
                lemma_split_lower(s);
                let l2 = split_on(t, '.').map_values(|p: Seq<char>| lower(p));
                assert forall|i: int| 0 <= i < l2.len() implies #[trigger] l2[i] == lowered[i] by {
                    lemma_ascii_lower_facts(parts[i]);
                }
                assert(l2 =~= lowered);
                assert(t.len() > 0);
            },
        }
    }
}

} // verus!
