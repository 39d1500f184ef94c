//! System audio outputs: the endpoint model, saved labels and availability,
//! a stable display order, selection checks, and parsing of the platform
//! tools' replies.
use vstd::prelude::*;

use crate::stable_sort::{
    insertion_sorted, key_order, key_views, lemma_insertion_sorted_is_sorted, lemma_map_same_multiset,
    lemma_sorted_unique,
    lemma_insertion_sorted_permutes, sorted_by_key, stable_sort_by_key, strict_order, SortKey,
};
use crate::text::{
    chars_less, chars_lt, chars_of, has_prefix, i64_to_decimal, is_blank, is_whitespace, is_ws,
    first_token, first_token_of, leading_ws, lemma_chars_lt_irreflexive, decode_utf8_lossy, utf8_lossy, lemma_chars_lt_transitive, lines, lines_of,
    lowercase, parse_u32_chars, parse_u32_spec, signed_decimal, slice_range, str_eq,
    string_from_chars, to_lowercase, trim, trim_chars,
};

verus! {

/// Availability of one playback endpoint in the app.
#[derive(Clone, Copy, Debug, PartialEq, Eq, Structural, PartialOrd, Ord)]
pub enum AudioOutputDeviceState {
    Enabled,
    Disabled,
    Hidden,
}

impl Default for AudioOutputDeviceState {
    fn default() -> (res: Self)
        ensures
            res == AudioOutputDeviceState::Enabled,
    {
        AudioOutputDeviceState::Enabled
    }
}

/// Position of a state in the display order: enabled, disabled, hidden.
pub open spec fn state_rank(s: AudioOutputDeviceState) -> u8 {
    match s {
        AudioOutputDeviceState::Enabled => 0,
        AudioOutputDeviceState::Disabled => 1,
        AudioOutputDeviceState::Hidden => 2,
    }
}

fn state_rank_of(s: AudioOutputDeviceState) -> (res: u8)
    ensures
        res == state_rank(s),
{
    match s {
        AudioOutputDeviceState::Enabled => 0,
        AudioOutputDeviceState::Disabled => 1,
        AudioOutputDeviceState::Hidden => 2,
    }
}

/// A playback endpoint.
#[derive(Clone, Debug, PartialEq, Eq)]
pub struct AudioOutputDevice {
    /// Stable platform identifier used for selection and saved aliases.
    pub id: String,
    /// Label after applying a saved alias.
    pub name: String,
    /// Native operating-system endpoint name.
    pub original_name: String,
    /// User-controlled availability.
    pub state: AudioOutputDeviceState,
    /// Whether the operating system reports an integrated output.
    pub is_built_in: bool,
}

/// Current playback endpoints and the selected system default.
#[derive(Clone, Debug, PartialEq, Eq)]
pub struct AudioOutputState {
    pub devices: Vec<AudioOutputDevice>,
    pub selected_device_id: Option<String>,
}

/// Whether `id` is the selected device id.
pub open spec fn is_selected(id: Seq<char>, selected: Option<String>) -> bool {
    match selected {
        Some(s) => s@ == id,
        None => false,
    }
}

/// Display order key: state, built-in first, selected first, lowercase
/// name, id.
pub type AudioKeyView = (u8, u8, u8, Seq<char>, Seq<char>);

/// Strict lexicographic order of audio keys.
pub open spec fn audio_key_lt(a: AudioKeyView, b: AudioKeyView) -> bool {
    a.0 < b.0 || (a.0 == b.0 && (a.1 < b.1 || (a.1 == b.1 && (a.2 < b.2 || (a.2 == b.2 && (
    chars_lt(a.3, b.3) || (a.3 == b.3 && chars_lt(a.4, b.4))))))))
}

/// Sort key of one endpoint.
pub struct AudioKey {
    pub state: u8,
    pub builtin: u8,
    pub selected: u8,
    pub name: Vec<char>,
    pub id: Vec<char>,
}

impl SortKey for AudioKey {
    type KeyView = AudioKeyView;

    open spec fn key_view(&self) -> AudioKeyView {
        (self.state, self.builtin, self.selected, self.name@, self.id@)
    }

    open spec fn view_lt(a: AudioKeyView, b: AudioKeyView) -> bool {
        audio_key_lt(a, b)
    }

    fn lt(&self, other: &Self) -> (r: bool) {
        if self.state != other.state {
            return self.state < other.state;
        }
        if self.builtin != other.builtin {
            return self.builtin < other.builtin;
        }
        if self.selected != other.selected {
            return self.selected < other.selected;
        }
        if chars_less(self.name.as_slice(), other.name.as_slice()) {
            return true;
        }
        if chars_less(other.name.as_slice(), self.name.as_slice()) {
            proof {
                lemma_chars_lt_irreflexive(self.name@);
                if self.name@ == other.name@ {
                }
            }
            return false;
        }
        proof {
            crate::text::lemma_chars_lt_total(self.name@, other.name@);
        }
        chars_less(self.id.as_slice(), other.id.as_slice())
    }
}

/// The order on audio keys is a strict order.
pub proof fn lemma_audio_key_strict_order()
    ensures
        strict_order(key_order::<AudioKey>()),
{
    let lt = key_order::<AudioKey>();
    assert forall|a: AudioKeyView| !#[trigger] lt(a, a) by {
        lemma_chars_lt_irreflexive(a.3);
        lemma_chars_lt_irreflexive(a.4);
    }
    assert forall|a: AudioKeyView, b: AudioKeyView, c: AudioKeyView|
        #[trigger] lt(a, b) && #[trigger] lt(b, c) implies lt(a, c) by {
        if chars_lt(a.3, b.3) && chars_lt(b.3, c.3) {
            lemma_chars_lt_transitive(a.3, b.3, c.3);
        }
        if chars_lt(a.4, b.4) && chars_lt(b.4, c.4) {
            lemma_chars_lt_transitive(a.4, b.4, c.4);
        }
    }
}

/// The key view of a device.
pub open spec fn audio_key_of(d: AudioOutputDevice, selected: Option<String>) -> AudioKeyView {
    (
        state_rank(d.state),
        if d.is_built_in {
            0u8
        } else {
            1u8
        },
        if is_selected(d.id@, selected) {
            0u8
        } else {
            1u8
        },
        lowercase(d.name@),
        d.id@,
    )
}

/// Devices in display order: enabled before disabled before hidden, then
/// built-in first, the selected device first, then by lowercase name and id;
/// a stable sort.
pub open spec fn sorted_devices(devices: Seq<AudioOutputDevice>, selected: Option<String>) -> Seq<
    AudioOutputDevice,
> {
    insertion_sorted(
        devices.map_values(|d: AudioOutputDevice| (audio_key_of(d, selected), d)),
        key_order::<AudioKey>(),
    ).map_values(|p: (AudioKeyView, AudioOutputDevice)| p.1)
}

/// The display order is sorted by key and is a permutation of the devices.
pub proof fn lemma_sorted_devices_sorted_and_complete(devices: Seq<AudioOutputDevice>, selected: Option<String>)
    ensures
        sorted_by_key(
            insertion_sorted(
                devices.map_values(|d: AudioOutputDevice| (audio_key_of(d, selected), d)),
                key_order::<AudioKey>(),
            ),
            key_order::<AudioKey>(),
        ),
        insertion_sorted(
            devices.map_values(|d: AudioOutputDevice| (audio_key_of(d, selected), d)),
            key_order::<AudioKey>(),
        ).to_multiset() =~= devices.map_values(
            |d: AudioOutputDevice| (audio_key_of(d, selected), d),
        ).to_multiset(),
        sorted_devices(devices, selected).len() == devices.len(),
{
    let keyed = devices.map_values(|d: AudioOutputDevice| (audio_key_of(d, selected), d));
    lemma_audio_key_strict_order();
    lemma_insertion_sorted_is_sorted(keyed, key_order::<AudioKey>());
    lemma_insertion_sorted_permutes(keyed, key_order::<AudioKey>());
}

/// The display order of the devices: a permutation of them in which
/// enabled devices come before disabled ones and those before hidden ones;
/// among devices in the same state the built-in ones come first; among
/// those alike in both, the selected default device comes before every
/// other; and the rest are in order of their lowercase names.
pub proof fn lemma_sorted_devices_display_order(devices: Seq<AudioOutputDevice>, selected: Option<String>)
    ensures
        sorted_devices(devices, selected).to_multiset() == devices.to_multiset(),
        forall|i: int, j: int|
            0 <= i < j < sorted_devices(devices, selected).len() ==> {
                let a = #[trigger] sorted_devices(devices, selected)[i];
                let b = #[trigger] sorted_devices(devices, selected)[j];
                &&& a.state == AudioOutputDeviceState::Hidden ==> b.state == AudioOutputDeviceState::Hidden
                &&& a.state == AudioOutputDeviceState::Disabled ==> b.state != AudioOutputDeviceState::Enabled
                &&& a.state == b.state && b.is_built_in ==> a.is_built_in
                &&& a.state == b.state && a.is_built_in == b.is_built_in && is_selected(b.id@, selected)
                    ==> is_selected(a.id@, selected)
                &&& a.state == b.state && a.is_built_in == b.is_built_in && is_selected(b.id@, selected)
                    == is_selected(a.id@, selected) ==> !chars_lt(lowercase(b.name@), lowercase(a.name@))
            },
{
    broadcast use vstd::seq_lib::group_to_multiset_ensures;

    let f = |d: AudioOutputDevice| (audio_key_of(d, selected), d);
    let g = |p: (AudioKeyView, AudioOutputDevice)| p.1;
    let keyed = devices.map_values(f);
    let lt = key_order::<AudioKey>();
    let st = insertion_sorted(keyed, lt);
    lemma_sorted_devices_sorted_and_complete(devices, selected);
    let r = sorted_devices(devices, selected);
    assert(r == st.map_values(g));
    assert(keyed.map_values(g) =~= devices);
    lemma_map_same_multiset(st, keyed, g);
    assert forall|i: int| 0 <= i < st.len() implies (#[trigger] st[i]).0 == audio_key_of(st[i].1, selected) by {
        assert(st.to_multiset().count(st[i]) > 0);
        assert(keyed.contains(st[i]));
        let k = choose|k: int| 0 <= k < keyed.len() && keyed[k] == st[i];
    }
    assert forall|i: int, j: int| 0 <= i < j < r.len() implies {
        let a = #[trigger] r[i];
        let b = #[trigger] r[j];
        &&& a.state == AudioOutputDeviceState::Hidden ==> b.state == AudioOutputDeviceState::Hidden
        &&& a.state == AudioOutputDeviceState::Disabled ==> b.state != AudioOutputDeviceState::Enabled
        &&& a.state == b.state && b.is_built_in ==> a.is_built_in
        &&& a.state == b.state && a.is_built_in == b.is_built_in && is_selected(b.id@, selected)
            ==> is_selected(a.id@, selected)
        &&& a.state == b.state && a.is_built_in == b.is_built_in && is_selected(b.id@, selected)
            == is_selected(a.id@, selected) ==> !chars_lt(lowercase(b.name@), lowercase(a.name@))
    } by {
        assert(r[i] == st[i].1 && r[j] == st[j].1);
        assert(st[i].0 == audio_key_of(st[i].1, selected));
        assert(st[j].0 == audio_key_of(st[j].1, selected));
        assert(!lt(st[j].0, st[i].0));
        assert(lt(st[j].0, st[i].0) == audio_key_lt(st[j].0, st[i].0));
    }
}

/// The display order does not depend on the order the platform lists the
/// devices in: two listings of the same devices (with distinct ids) give
/// the same order.
pub proof fn lemma_sorted_devices_order_independent(
    d1: Seq<AudioOutputDevice>,
    d2: Seq<AudioOutputDevice>,
    selected: Option<String>,
)
    requires
        d1.to_multiset() == d2.to_multiset(),
        forall|i: int, j: int| 0 <= i < j < d1.len() ==> (#[trigger] d1[i]).id@ != (#[trigger] d1[j]).id@,
    ensures
        sorted_devices(d1, selected) == sorted_devices(d2, selected),
{
    broadcast use vstd::seq_lib::group_to_multiset_ensures;

    let f = |d: AudioOutputDevice| (audio_key_of(d, selected), d);
    let lt = key_order::<AudioKey>();
    let k1 = d1.map_values(f);
    let k2 = d2.map_values(f);
    let s1 = insertion_sorted(k1, lt);
    let s2 = insertion_sorted(k2, lt);
    lemma_map_same_multiset(d1, d2, f);
    lemma_sorted_devices_sorted_and_complete(d1, selected);
    lemma_sorted_devices_sorted_and_complete(d2, selected);
    assert forall|x: (AudioKeyView, AudioOutputDevice), y: (AudioKeyView, AudioOutputDevice)|
        s1.contains(x) && s1.contains(y) && x != y implies #[trigger] lt(x.0, y.0) || #[trigger] lt(y.0, x.0) by {
        assert(k1.to_multiset().count(x) > 0 && k1.to_multiset().count(y) > 0);
        assert(k1.contains(x) && k1.contains(y));
        let i = choose|i: int| 0 <= i < k1.len() && k1[i] == x;
        let j = choose|j: int| 0 <= j < k1.len() && k1[j] == y;
        assert(x == (audio_key_of(d1[i], selected), d1[i]));
        assert(y == (audio_key_of(d1[j], selected), d1[j]));
        assert(i != j);
        if i < j {
            assert(d1[i].id@ != d1[j].id@);
        } else {
            assert(d1[j].id@ != d1[i].id@);
        }
        crate::text::lemma_chars_lt_total(x.0.4, y.0.4);
        crate::text::lemma_chars_lt_total(x.0.3, y.0.3);
        assert(lt(x.0, y.0) == audio_key_lt(x.0, y.0));
        assert(lt(y.0, x.0) == audio_key_lt(y.0, x.0));
        assert(x.0.4 != y.0.4);
    }
    lemma_sorted_unique(s1, s2, lt);
}

/// `get_audio_output_state` does not depend on the order of the platform's
/// device list: two enumerations with the same devices (distinct ids) and
/// the same selected device give the same answer.
pub proof fn lemma_audio_state_order_independent(s1: AudioOutputState, s2: AudioOutputState)
    requires
        s1.devices@.to_multiset() == s2.devices@.to_multiset(),
        s1.selected_device_id == s2.selected_device_id,
        forall|i: int, j: int|
            0 <= i < j < s1.devices@.len() ==> (#[trigger] s1.devices@[i]).id@ != (#[trigger] s1.devices@[j]).id@,
    ensures
        sorted_devices(s1.devices@, s1.selected_device_id) == sorted_devices(
            s2.devices@,
            s2.selected_device_id,
        ),
{
    lemma_sorted_devices_order_independent(s1.devices@, s2.devices@, s1.selected_device_id);
}

fn selected_flag(id: &str, selected: &Option<String>) -> (res: bool)
    ensures
        res == is_selected(id@, *selected),
{
    match selected {
        Some(s) => str_eq(s.as_str(), id),
        None => false,
    }
}

/// Orders the devices so polling snapshots stay stable across platform
/// enumeration order changes.
pub fn sort_audio_output_state(state: AudioOutputState) -> (res: AudioOutputState)
    ensures
        res.devices@ == sorted_devices(state.devices@, state.selected_device_id),
        res.selected_device_id == state.selected_device_id,
{
    let AudioOutputState { devices, selected_device_id } = state;
    let ghost orig = devices@;
    let mut keyed: Vec<(AudioKey, AudioOutputDevice)> = Vec::new();
    let mut rest = devices;
    let ghost mut done: int = 0;
    while rest.len() > 0
        invariant
            0 <= done <= orig.len(),
            rest@ == orig.subrange(done, orig.len() as int),
            key_views(keyed@) == orig.subrange(0, done).map_values(
                |d: AudioOutputDevice| (audio_key_of(d, selected_device_id), d),
            ),
        decreases rest.len(),
    {
        let ghost r_before = rest@;
        assert(done < orig.len());
        let d = rest.remove(0);
        assert(d == orig[done]) by {
            assert(orig.subrange(done, orig.len() as int)[0] == orig[done]);
        }
        let lname = to_lowercase(d.name.as_str());
        let key = AudioKey {
            state: state_rank_of(d.state),
            builtin: if d.is_built_in {
                0
            } else {
                1
            },
            selected: if selected_flag(d.id.as_str(), &selected_device_id) {
                0
            } else {
                1
            },
            name: chars_of(lname.as_str()),
            id: chars_of(d.id.as_str()),
        };
        let ghost before = key_views(keyed@);
        keyed.push((key, d));
        proof {
            let f = |d: AudioOutputDevice| (audio_key_of(d, selected_device_id), d);
            assert(key_views(keyed@) =~= before.push(f(orig[done])));
            assert(orig.subrange(0, done + 1) =~= orig.subrange(0, done).push(orig[done]));
            assert(orig.subrange(0, done + 1).map_values(f) =~= orig.subrange(0, done).map_values(
                f,
            ).push(f(orig[done])));
            assert(rest@ =~= r_before.subrange(1, r_before.len() as int));
            done = done + 1;
            assert(rest@ =~= orig.subrange(done, orig.len() as int));
        }
    }
    proof {
        assert(orig.subrange(0, done) =~= orig);
    }
    let sorted = stable_sort_by_key(keyed);
    let ghost sv = key_views(sorted@);
    let mut out: Vec<AudioOutputDevice> = Vec::new();
    let mut rest2 = sorted;
    let ghost mut k: int = 0;
    while rest2.len() > 0
        invariant
            0 <= k <= sv.len(),
            key_views(rest2@) == sv.subrange(k, sv.len() as int),
            out@ == sv.subrange(0, k).map_values(|p: (AudioKeyView, AudioOutputDevice)| p.1),
        decreases rest2.len(),
    {
        let ghost r_before = rest2@;
        assert(key_views(r_before).len() == r_before.len());
        assert(k < sv.len());
        let (_key, d) = rest2.remove(0);
        assert(key_views(r_before)[0].1 == d);
        assert(sv[k] == key_views(r_before)[0]) by {
            assert(sv.subrange(k, sv.len() as int)[0] == sv[k]);
        }
        out.push(d);
        proof {
            assert(sv.subrange(0, k + 1) =~= sv.subrange(0, k).push(sv[k]));
            assert(out@ =~= sv.subrange(0, k + 1).map_values(
                |p: (AudioKeyView, AudioOutputDevice)| p.1,
            ));
            assert(key_views(rest2@) =~= key_views(r_before).subrange(1, r_before.len() as int));
            k = k + 1;
            assert(key_views(rest2@) =~= sv.subrange(k, sv.len() as int));
        }
    }
    proof {
        assert(sv.subrange(0, k) =~= sv);
    }
    AudioOutputState { devices: out, selected_device_id }
}

/// Views of saved output preferences: (device id, label, state).
pub open spec fn pref_views(prefs: Seq<(String, String, AudioOutputDeviceState)>) -> Seq<
    (Seq<char>, Seq<char>, AudioOutputDeviceState),
> {
    prefs.map_values(|p: (String, String, AudioOutputDeviceState)| (p.0@, p.1@, p.2))
}

/// `i` is the first saved preference for device `id`.
pub open spec fn first_pref(prefs: Seq<(Seq<char>, Seq<char>, AudioOutputDeviceState)>, id: Seq<char>, i: int) -> bool {
    0 <= i < prefs.len() && prefs[i].0 == id && forall|j: int|
        0 <= j < i ==> (#[trigger] prefs[j]).0 != id
}

/// Views of a device's (id, name, original name, state, built-in).
pub type DeviceView = (Seq<char>, Seq<char>, Seq<char>, AudioOutputDeviceState, bool);

pub open spec fn device_view(d: AudioOutputDevice) -> DeviceView {
    (d.id@, d.name@, d.original_name@, d.state, d.is_built_in)
}

/// A device with its saved preference applied: the first preference for its
/// id sets its state and, when the label is not blank, its name.
pub open spec fn with_pref(d: DeviceView, prefs: Seq<(Seq<char>, Seq<char>, AudioOutputDeviceState)>) -> DeviceView {
    if exists|i: int| first_pref(prefs, d.0, i) {
        let i = choose|i: int| first_pref(prefs, d.0, i);
        (d.0, if trim(prefs[i].1).len() > 0 {
            prefs[i].1
        } else {
            d.1
        }, d.2, prefs[i].2, d.4)
    } else {
        d
    }
}

/// Applies saved labels and availability while keeping native endpoint data,
/// then puts the devices in display order.
pub fn apply_preferences(state: AudioOutputState, preferences: &[(String, String, AudioOutputDeviceState)]) -> (res: AudioOutputState)
    ensures
        res.selected_device_id == state.selected_device_id,
        exists|updated: Seq<AudioOutputDevice>|
            {
                &&& updated.len() == state.devices@.len()
                &&& forall|k: int|
                    0 <= k < updated.len() ==> device_view(#[trigger] updated[k]) == with_pref(
                        device_view(state.devices@[k]),
                        pref_views(preferences@),
                    )
                &&& res.devices@ == sorted_devices(updated, state.selected_device_id)
            },
{
    let ghost pv = pref_views(preferences@);
    let AudioOutputState { devices, selected_device_id } = state;
    let ghost orig = devices@;
    let mut out: Vec<AudioOutputDevice> = Vec::new();
    let mut k: usize = 0;
    while k < devices.len()
        invariant
            pv == pref_views(preferences@),
            orig == devices@,
            k <= devices@.len(),
            out@.len() == k,
            forall|q: int|
                0 <= q < k ==> device_view(#[trigger] out@[q]) == with_pref(device_view(orig[q]), pv),
        decreases devices.len() - k,
    {
        let d = &devices[k];
        let mut nd = AudioOutputDevice {
            id: d.id.clone(),
            name: d.name.clone(),
            original_name: d.original_name.clone(),
            state: d.state,
            is_built_in: d.is_built_in,
        };
        let mut j: usize = 0;
        while j < preferences.len()
            invariant
                pv == pref_views(preferences@),
                j <= preferences@.len(),
                device_view(nd) == device_view(*d),
                forall|t: int| 0 <= t < j ==> (#[trigger] pv[t]).0 != d.id@,
            ensures
                j <= preferences@.len(),
                device_view(nd) == device_view(*d),
                forall|t: int| 0 <= t < j ==> (#[trigger] pv[t]).0 != d.id@,
                j < preferences@.len() ==> pv[j as int].0 == d.id@,
            decreases preferences.len() - j,
        {
            assert(pv[j as int].0 == preferences@[j as int].0@);
            if str_eq(preferences[j].0.as_str(), d.id.as_str()) {
                break;
            }
            j = j + 1;
        }
        if j < preferences.len() {
            proof {
                assert(pv[j as int].0 == d.id@);
                assert(first_pref(pv, d.id@, j as int));
                assert forall|q: int| first_pref(pv, d.id@, q) implies q == j by {
                    if q < j {
                    }
                    if j < q {
                        assert(pv[j as int].0 != d.id@);
                    }
                }
            }
            let label = &preferences[j].1;
            assert(pv[j as int].1 == label@);
            if !is_blank(label.as_str()) {
                nd.name = label.clone();
            }
            nd.state = preferences[j].2;
        } else {
            assert(!exists|q: int| first_pref(pv, d.id@, q)) by {
                if exists|q: int| first_pref(pv, d.id@, q) {
                    let q = choose|q: int| first_pref(pv, d.id@, q);
                    assert(pv[q].0 != d.id@);
                }
            }
        }
        assert(device_view(nd) == with_pref(device_view(orig[k as int]), pv));
        out.push(nd);
        assert(out@[k as int] == nd);
        k = k + 1;
    }
    let ghost updated = out@;
    let res = sort_audio_output_state(AudioOutputState { devices: out, selected_device_id });
    assert(updated.len() == orig.len());
    res
}

/// Finds an endpoint by exact stable identifier.
pub fn resolve_device<'a>(devices: &'a [AudioOutputDevice], device_id: &str) -> (res: Result<&'a AudioOutputDevice, String>)
    ensures
        match res {
            Ok(d) => exists|i: int|
                0 <= i < devices@.len() && *d == devices@[i] && d.id@ == device_id@ && forall|j: int|
                    0 <= j < i ==> (#[trigger] devices@[j]).id@ != device_id@,
            Err(e) => e@ == "audio output device not found: "@ + device_id@ && forall|j: int|
                0 <= j < devices@.len() ==> (#[trigger] devices@[j]).id@ != device_id@,
        },
{
    let mut i: usize = 0;
    while i < devices.len()
        invariant
            i <= devices@.len(),
            forall|j: int| 0 <= j < i ==> (#[trigger] devices@[j]).id@ != device_id@,
        decreases devices.len() - i,
    {
        if str_eq(devices[i].id.as_str(), device_id) {
            return Ok(&devices[i]);
        }
        i = i + 1;
    }
    Err(String::from_str("audio output device not found: ").concat(device_id))
}

/// The playback endpoints from the platform's enumeration, put in display
/// order; an enumeration error passes through.
pub fn get_audio_output_state(platform: Result<AudioOutputState, String>) -> (res: Result<AudioOutputState, String>)
    ensures
        match platform {
            Ok(s) => res matches Ok(r) && r.devices@ == sorted_devices(s.devices@, s.selected_device_id)
                && r.selected_device_id == s.selected_device_id,
            Err(e) => res matches Err(r) && r@ == e@,
        },
{
    match platform {
        Ok(s) => Ok(sort_audio_output_state(s)),
        Err(e) => Err(e),
    }
}

/// Checks that a user-given device id (trimmed) names a current endpoint:
/// an error for a blank id, the enumeration's error, or the not-found error.
pub fn ensure_device_exists(device_id: &str, current: Result<AudioOutputState, String>) -> (res: Result<(), String>)
    ensures
        trim(device_id@).len() == 0 ==> (res matches Err(e) && e@
            == "audio output device id cannot be empty"@),
        trim(device_id@).len() > 0 ==> match current {
            Err(e) => res matches Err(r) && r@ == e@,
            Ok(s) => {
                &&& res is Ok <==> exists|i: int|
                    0 <= i < s.devices@.len() && (#[trigger] s.devices@[i]).id@ == trim(device_id@)
                &&& res matches Err(r) ==> r@ == "audio output device not found: "@ + trim(
                    device_id@,
                )
            },
        },
{
    let id = match trimmed_device_id(device_id) {
        Ok(id) => id,
        Err(e) => {
            return Err(e);
        },
    };
    let state = match current {
        Ok(s) => s,
        Err(e) => {
            return Err(e);
        },
    };
    match resolve_device(state.devices.as_slice(), id.as_str()) {
        Ok(_) => Ok(()),
        Err(e) => Err(e),
    }
}

/// A device id as given by the user: trimmed, and an error when nothing is left.
pub fn trimmed_device_id(device_id: &str) -> (res: Result<String, String>)
    ensures
        trim(device_id@).len() == 0 ==> (res matches Err(e) && e@
            == "audio output device id cannot be empty"@),
        trim(device_id@).len() > 0 ==> (res matches Ok(s) && s@ == trim(device_id@)),
{
    let cs = chars_of(device_id);
    let t = trim_chars(cs.as_slice());
    if t.len() == 0 {
        Err(String::from_str("audio output device id cannot be empty"))
    } else {
        Ok(string_from_chars(t.as_slice()))
    }
}

/// Checks that `device_id` names an enabled device of `current`, the
/// condition for making it the system default.
pub fn check_selectable(current: &AudioOutputState, device_id: &str) -> (res: Result<(), String>)
    ensures
        res is Ok <==> exists|i: int|
            0 <= i < current.devices@.len() && current.devices@[i].id@ == device_id@
                && current.devices@[i].state == AudioOutputDeviceState::Enabled && forall|j: int|
                0 <= j < i ==> (#[trigger] current.devices@[j]).id@ != device_id@,
        res matches Err(e) ==> if exists|i: int|
            0 <= i < current.devices@.len() && (#[trigger] current.devices@[i]).id@ == device_id@ {
            e@ == "audio output device is not enabled: "@ + device_id@
        } else {
            e@ == "audio output device not found: "@ + device_id@
        },
{
    let d = match resolve_device(current.devices.as_slice(), device_id) {
        Ok(d) => d,
        Err(e) => {
            return Err(e);
        },
    };
    if d.state != AudioOutputDeviceState::Enabled {
        proof {
            assert forall|i: int|
                0 <= i < current.devices@.len() && current.devices@[i].id@ == device_id@ && forall|
                    j: int,
                | 0 <= j < i ==> (#[trigger] current.devices@[j]).id@ != device_id@ implies current.devices@[i].state
                != AudioOutputDeviceState::Enabled by {
                let k = choose|k: int|
                    0 <= k < current.devices@.len() && *d == current.devices@[k] && d.id@
                        == device_id@ && forall|j: int|
                        0 <= j < k ==> (#[trigger] current.devices@[j]).id@ != device_id@;
                if i < k {
                    assert(current.devices@[i].id@ != device_id@);
                }
                if k < i {
                    assert(current.devices@[k].id@ != device_id@);
                }
            }
        }
        proof {
            let k = choose|k: int|
                0 <= k < current.devices@.len() && *d == current.devices@[k] && d.id@ == device_id@
                    && forall|j: int| 0 <= j < k ==> (#[trigger] current.devices@[j]).id@ != device_id@;
            assert(current.devices@[k].id@ == device_id@);
        }
        return Err(String::from_str("audio output device is not enabled: ").concat(device_id));
    }
    Ok(())
}

// ------------------------------------------------------------------ pactl (Linux)

/// The default sink named in `pactl info` output: the trimmed rest of the
/// first line starting "Default Sink:" whose rest is not blank.
pub open spec fn default_sink_of(ls: Seq<Seq<char>>) -> Option<Seq<char>>
    decreases ls.len(),
{
    if ls.len() == 0 {
        None
    } else {
        let l = ls[0];
        if has_prefix(l, "Default Sink:"@) && trim(l.subrange(13, l.len() as int)).len() > 0 {
            Some(trim(l.subrange(13, l.len() as int)))
        } else {
            default_sink_of(ls.drop_first())
        }
    }
}

/// The device a pactl sink (name, description) becomes: the name is the
/// id, the description (when not blank) the label, else the name.
pub open spec fn sink_device(name: Seq<char>, description: Option<Seq<char>>) -> (Seq<char>, Seq<char>) {
    let label = match description {
        Some(d) => if trim(d).len() > 0 {
            d
        } else {
            name
        },
        None => name,
    };
    (name, label)
}

/// The devices of the pactl sinks (name, description), in order; sinks
/// with a blank name are left out.
pub open spec fn sink_devices_of(sinks: Seq<(String, Option<String>)>) -> Seq<(Seq<char>, Seq<char>)>
    decreases sinks.len(),
{
    if sinks.len() == 0 {
        Seq::empty()
    } else {
        let p = sink_devices_of(sinks.drop_last());
        let s = sinks.last();
        if trim(s.0@).len() == 0 {
            p
        } else {
            p.push(
                sink_device(
                    s.0@,
                    match s.1 {
                        Some(d) => Some(d@),
                        None => None,
                    },
                ),
            )
        }
    }
}

/// Turns the parsed pactl sinks (name, description) into playback devices:
/// id from the name, label and native name from the description when not
/// blank (else the name), enabled, not built in.
pub fn sinks_to_devices(sinks: Vec<(String, Option<String>)>) -> (res: Vec<AudioOutputDevice>)
    ensures
        res@.map_values(|d: AudioOutputDevice| (d.id@, d.name@)) == sink_devices_of(sinks@),
        forall|i: int|
            0 <= i < res@.len() ==> (#[trigger] res@[i]).original_name@ == res@[i].name@
                && res@[i].state == AudioOutputDeviceState::Enabled && !res@[i].is_built_in,
{
    let mut out: Vec<AudioOutputDevice> = Vec::new();
    let mut i: usize = 0;
    assert(sinks@.subrange(0, 0) =~= Seq::<(String, Option<String>)>::empty());
    while i < sinks.len()
        invariant
            i <= sinks@.len(),
            out@.map_values(|d: AudioOutputDevice| (d.id@, d.name@)) == sink_devices_of(
                sinks@.subrange(0, i as int),
            ),
            forall|k: int|
                0 <= k < out@.len() ==> (#[trigger] out@[k]).original_name@ == out@[k].name@
                    && out@[k].state == AudioOutputDeviceState::Enabled && !out@[k].is_built_in,
        decreases sinks.len() - i,
    {
        proof {
            assert(sinks@.subrange(0, i + 1).drop_last() =~= sinks@.subrange(0, i as int));
            assert(sinks@.subrange(0, i + 1).last() == sinks@[i as int]);
        }
        let name = &sinks[i].0;
        if !is_blank(name.as_str()) {
            let label = match &sinks[i].1 {
                Some(d) => if !is_blank(d.as_str()) {
                    d.clone()
                } else {
                    name.clone()
                },
                None => name.clone(),
            };
            let ghost before = out@.map_values(|d: AudioOutputDevice| (d.id@, d.name@));
            out.push(
                AudioOutputDevice {
                    id: name.clone(),
                    name: label.clone(),
                    original_name: label,
                    state: AudioOutputDeviceState::Enabled,
                    is_built_in: false,
                },
            );
            proof {
                let dv = match sinks@[i as int].1 {
                    Some(d) => Some(d@),
                    None => None,
                };
                assert(out@.map_values(|d: AudioOutputDevice| (d.id@, d.name@)) =~= before.push(
                    sink_device(name@, dv),
                ));
            }
        }
        i = i + 1;
    }
    assert(sinks@.subrange(0, i as int) =~= sinks@);
    out
}

/// Parses `Default Sink: <name>` from `pactl info` output.
pub fn parse_default_sink_info(bytes: &[u8]) -> (res: Option<String>)
    ensures
        match default_sink_of(lines(utf8_lossy(bytes@))) {
            Some(v) => res matches Some(s) && s@ == v,
            None => res is None,
        },
{
    proof {
        reveal_strlit("Default Sink:");
    }
    let text = decode_utf8_lossy(bytes);
    let cs = chars_of(text.as_str());
    let ls = lines_of(cs.as_slice());
    let ghost lv = ls@.map_values(|l: Vec<char>| l@);
    let prefix = chars_of("Default Sink:");
    assert(prefix@.len() == 13);
    assert(lv.subrange(0, lv.len() as int) =~= lv);
    let mut i: usize = 0;
    while i < ls.len()
        invariant
            lv == ls@.map_values(|l: Vec<char>| l@),
            lv == lines(utf8_lossy(bytes@)),
            prefix@ == "Default Sink:"@,
            prefix@.len() == 13,
            i <= lv.len(),
            default_sink_of(lv) == default_sink_of(lv.subrange(i as int, lv.len() as int)),
        decreases ls.len() - i,
    {
        let line = ls[i].as_slice();
        let ghost rest = lv.subrange(i as int, lv.len() as int);
        assert(rest[0] == line@);
        assert(rest.drop_first() =~= lv.subrange(i + 1, lv.len() as int));
        if line.len() >= 13 {
            let head = slice_range(line, 0, 13);
            if crate::text::chars_eq(head.as_slice(), prefix.as_slice()) {
                let tail = slice_range(line, 13, line.len());
                let t = trim_chars(tail.as_slice());
                if t.len() > 0 {
                    assert(has_prefix(rest[0], "Default Sink:"@));
                    assert(default_sink_of(rest) == Some(trim(rest[0].subrange(13, rest[0].len() as int))));
                    let out = string_from_chars(t.as_slice());
                    assert(out@ == trim(rest[0].subrange(13, rest[0].len() as int)));
                    return Some(out);
                }
            }
        }
        i = i + 1;
    }
    None
}

/// Sink-input ids: from each line, its first token when that parses as a `u32`.
pub open spec fn sink_input_ids_of(ls: Seq<Seq<char>>) -> Seq<Seq<char>>
    decreases ls.len(),
{
    if ls.len() == 0 {
        Seq::empty()
    } else {
        let prev = sink_input_ids_of(ls.drop_last());
        match first_token(ls.last()) {
            Some(t) => if parse_u32_spec(t) is Some {
                prev.push(t)
            } else {
                prev
            },
            None => prev,
        }
    }
}

/// Parses sink-input numeric ids from `pactl list short sink-inputs` output.
pub fn parse_sink_input_ids(bytes: &[u8]) -> (res: Vec<String>)
    ensures
        res@.map_values(|s: String| s@) == sink_input_ids_of(lines(utf8_lossy(bytes@))),
{
    let text = decode_utf8_lossy(bytes);
    let cs = chars_of(text.as_str());
    let ls = lines_of(cs.as_slice());
    let ghost lv = ls@.map_values(|l: Vec<char>| l@);
    let mut out: Vec<String> = Vec::new();
    let mut i: usize = 0;
    while i < ls.len()
        invariant
            lv == ls@.map_values(|l: Vec<char>| l@),
            i <= lv.len(),
            out@.map_values(|s: String| s@) == sink_input_ids_of(lv.subrange(0, i as int)),
        decreases ls.len() - i,
    {
        let ghost before = out@.map_values(|s: String| s@);
        proof {
            assert(lv.subrange(0, i + 1).drop_last() =~= lv.subrange(0, i as int));
            assert(lv.subrange(0, i + 1).last() == ls@[i as int]@);
        }
        match first_token_of(ls[i].as_slice()) {
            Some(t) => {
                if parse_u32_chars(t.as_slice()).is_some() {
                    out.push(string_from_chars(t.as_slice()));
                    assert(out@.map_values(|s: String| s@) =~= before.push(t@));
                }
            },
            None => {},
        }
        i = i + 1;
    }
    assert(lv.subrange(0, i as int) =~= lv);
    out
}

// ------------------------------------------------------------------ CoreAudio (macOS)

/// Numeric value of a four-character code, first byte most significant.
pub open spec fn four_cc_value(b: [u8; 4]) -> int {
    b[0] * 0x100_0000 + b[1] * 0x1_0000 + b[2] * 0x100 + b[3]
}

/// Converts a four-character CoreAudio selector into its numeric form (big endian).
pub fn four_cc(value: [u8; 4]) -> (res: u32)
    ensures
        res == four_cc_value(value),
{
    let b0 = value[0] as u32;
    let b1 = value[1] as u32;
    let b2 = value[2] as u32;
    let b3 = value[3] as u32;
    assert(b0 * 0x100_0000 + b1 * 0x1_0000 + b2 * 0x100 + b3 <= u32::MAX) by (nonlinear_arith)
        requires
            b0 < 256,
            b1 < 256,
            b2 < 256,
            b3 < 256,
    ;
    b0 * 0x100_0000 + b1 * 0x1_0000 + b2 * 0x100 + b3
}

/// Only live outputs that CoreAudio allows as the default are listed.
pub fn should_list_output(has_output_streams: bool, is_alive: bool, can_be_default: bool) -> (res: bool)
    ensures
        res == (has_output_streams && is_alive && can_be_default),
{
    has_output_streams && is_alive && can_be_default
}

/// Loopback endpoints that cannot route system playback.
pub open spec fn is_unsupported_uid(uid: Seq<char>) -> bool {
    uid == "MSLoopbackDriverDevice_UID"@ || uid == "zoom.us.zoomaudiodevice.001"@
}

/// Matches CoreAudio UIDs known to be non-playback loopback endpoints.
pub fn is_unsupported_output_uid(device_uid: &str) -> (res: bool)
    ensures
        res == is_unsupported_uid(device_uid@),
{
    str_eq(device_uid, "MSLoopbackDriverDevice_UID") || str_eq(
        device_uid,
        "zoom.us.zoomaudiodevice.001",
    )
}

/// The error a loopback endpoint gets when selected.
pub fn check_output_uid_selectable(device_uid: &str) -> (res: Result<(), String>)
    ensures
        is_unsupported_uid(device_uid@) ==> (res matches Err(e) && e@
            == "unsupported audio output device cannot be selected: "@ + device_uid@),
        !is_unsupported_uid(device_uid@) ==> res is Ok,
{
    if is_unsupported_output_uid(device_uid) {
        Err(String::from_str("unsupported audio output device cannot be selected: ").concat(device_uid))
    } else {
        Ok(())
    }
}

/// Converts a non-zero CoreAudio status into an error naming the operation.
pub fn check_status(status: i32, operation: &str) -> (res: Result<(), String>)
    ensures
        status == 0 ==> res is Ok,
        status != 0 ==> (res matches Err(e) && e@ == operation@ + " failed with OSStatus "@
            + signed_decimal(status as int)),
{
    if status == 0 {
        Ok(())
    } else {
        let s = String::from_str(operation).concat(" failed with OSStatus ");
        let n = i64_to_decimal(status as i64);
        Err(s.concat(n.as_str()))
    }
}

} // verus!
