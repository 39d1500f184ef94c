//! Monitors as the UI sees them: conversion from platform display info, the
//! per-monitor metadata registry kept in preferences, brightness routing, and
//! lookup by user query.
use vstd::prelude::*;

use crate::config::{copy_metadata, default_brightness_mode, meta_views, MetaView, MonitorMetadata};
use crate::platform::DisplayInfo;
use crate::stable_sort::{
    insertion_sorted, key_order, key_views, lemma_insertion_sorted_is_sorted,
    lemma_insertion_sorted_permutes, sorted_by_key, stable_sort_by_key, strict_order, SortKey,
};
use crate::text::{
    chars_less, chars_lt, chars_of, contains_chars, contains_seq, lemma_chars_lt_irreflexive,
    lemma_chars_lt_transitive, lowercase, occurs_at, str_eq, string_from_chars, to_lowercase,
};

verus! {

/// A connected monitor as shown in the UI.
#[derive(Clone, Debug)]
pub struct Monitor {
    /// Raw API id (e.g. "1", "builtin"). Used for brightness commands.
    pub id: String,
    /// Composite unique key: "{api_id}::{api_name}". Used for config lookups.
    pub uid: String,
    /// Display label (custom label from config, or the model name).
    pub name: String,
    /// Original model name from the platform (never changes).
    pub original_name: String,
    pub brightness: u32,
    /// Current contrast level (None for displays without DDC contrast).
    pub contrast: Option<u32>,
    pub supports_brightness: bool,
    pub is_built_in: bool,
    pub hidden: bool,
    /// Physical screen rect `(left, top, width, height)` used by the overlay fallback.
    pub monitor_rect: Option<(i32, i32, i32, i32)>,
}

/// Field-wise copy of a monitor.
pub fn copy_monitor(m: &Monitor) -> (res: Monitor)
    ensures
        res == *m,
{
    Monitor {
        id: m.id.clone(),
        uid: m.uid.clone(),
        name: m.name.clone(),
        original_name: m.original_name.clone(),
        brightness: m.brightness,
        contrast: m.contrast,
        supports_brightness: m.supports_brightness,
        is_built_in: m.is_built_in,
        hidden: m.hidden,
        monitor_rect: m.monitor_rect,
    }
}

/// The separator between api id and api name in a monitor uid.
pub open spec fn uid_separator() -> Seq<char> {
    seq![':', ':']
}

/// The uid of a monitor with api id `id` and model name `name`: "{id}::{name}".
pub open spec fn make_uid(id: Seq<char>, name: Seq<char>) -> Seq<char> {
    id + uid_separator() + name
}

/// Builds "{id}::{name}".
pub fn compose_uid(id: &str, name: &str) -> (res: String)
    ensures
        res@ == make_uid(id@, name@),
{
    proof {
        reveal_strlit("::");
    }
    let s = String::from_str(id);
    let s = s.concat("::");
    let s = s.concat(name);
    assert("::"@ =~= uid_separator());
    s
}

/// Converts platform display info into a `Monitor`: the uid is
/// "{id}::{name}", the displayed name and the original name are the platform
/// name, unknown brightness reads as 50, and the display is built in exactly
/// when its type is "builtin".
pub fn into_monitor(d: DisplayInfo) -> (res: Monitor)
    ensures
        res.id@ == d.id@,
        res.uid@ == make_uid(d.id@, d.name@),
        res.name@ == d.name@,
        res.original_name@ == d.name@,
        res.brightness == (match d.brightness {
            Some(b) => b,
            None => 50,
        }),
        res.contrast == d.contrast,
        res.supports_brightness,
        res.is_built_in == (d.display_type@ == "builtin"@),
        !res.hidden,
        res.monitor_rect == d.monitor_rect,
{
    let is_built_in = str_eq(d.display_type.as_str(), "builtin");
    let uid = compose_uid(d.id.as_str(), d.name.as_str());
    let brightness = match d.brightness {
        Some(b) => b,
        None => 50,
    };
    Monitor {
        id: d.id,
        uid,
        name: d.name.clone(),
        original_name: d.name,
        brightness,
        contrast: d.contrast,
        supports_brightness: true,
        is_built_in,
        hidden: false,
        monitor_rect: d.monitor_rect,
    }
}

// ===========================================================================
// Brightness mode routing
// ===========================================================================

/// The brightness modes the dispatcher knows.
pub open spec fn is_known_mode(m: Seq<char>) -> bool {
    m == "auto"@ || m == "ddc"@ || m == "gamma"@ || m == "overlay"@
}

/// Index of the first metadata entry whose api id is `api_id`.
pub open spec fn first_with_api_id(configs: Seq<MonitorMetadata>, api_id: Seq<char>, i: int) -> bool {
    0 <= i < configs.len() && configs[i].api_id@ == api_id && forall|j: int|
        0 <= j < i ==> (#[trigger] configs[j]).api_id@ != api_id
}

/// The brightness mode stored for the monitor with this api id: the mode of the
/// first entry with that api id when it is a known mode, and "auto" when there
/// is no such entry or its mode is unknown.
pub open spec fn brightness_mode_for(configs: Seq<MonitorMetadata>, api_id: Seq<char>) -> Seq<char> {
    if exists|i: int| first_with_api_id(configs, api_id, i) {
        let i = choose|i: int| first_with_api_id(configs, api_id, i);
        if is_known_mode(configs[i].brightness_mode@) {
            configs[i].brightness_mode@
        } else {
            "auto"@
        }
    } else {
        "auto"@
    }
}

proof fn lemma_first_unique(configs: Seq<MonitorMetadata>, api_id: Seq<char>, i: int, k: int)
    requires
        first_with_api_id(configs, api_id, i),
        first_with_api_id(configs, api_id, k),
    ensures
        i == k,
{
    if i < k {
        assert(configs[i].api_id@ != api_id);
    }
    if k < i {
        assert(configs[k].api_id@ != api_id);
    }
}

/// Resolves the brightness mode of the monitor with raw api id `api_id`.
pub fn resolve_brightness_mode(configs: &[MonitorMetadata], api_id: &str) -> (res: String)
    ensures
        res@ == brightness_mode_for(configs@, api_id@),
{
    let mut i: usize = 0;
    while i < configs.len()
        invariant
            i <= configs@.len(),
            forall|j: int| 0 <= j < i ==> (#[trigger] configs@[j]).api_id@ != api_id@,
        decreases configs.len() - i,
    {
        if str_eq(configs[i].api_id.as_str(), api_id) {
            assert(first_with_api_id(configs@, api_id@, i as int));
            proof {
                assert forall|k: int| first_with_api_id(configs@, api_id@, k) implies k == i by {
                    lemma_first_unique(configs@, api_id@, i as int, k);
                }
            }
            let mode = configs[i].brightness_mode.as_str();
            if str_eq(mode, "auto") || str_eq(mode, "ddc") || str_eq(mode, "gamma") || str_eq(
                mode,
                "overlay",
            ) {
                return String::from_str(mode);
            }
            return String::from_str("auto");
        }
        i = i + 1;
    }
    assert(!exists|k: int| first_with_api_id(configs@, api_id@, k));
    String::from_str("auto")
}

/// Which platform path the brightness dispatcher takes.
#[derive(Debug, PartialEq, Eq, Clone, Copy)]
pub enum BrightnessRoute {
    /// Try DDC then gamma; fall back to the overlay only if both fail.
    AutoWithOverlayFallback,
    /// DDC only; no overlay.
    DdcOnly,
    /// Gamma only; no overlay.
    GammaOnly,
    /// Overlay only; skip the hardware paths.
    OverlayOnly,
}

/// The route for a brightness mode string; anything but "ddc", "gamma" or
/// "overlay" routes to auto with overlay fallback.
pub open spec fn route_of(mode: Seq<char>) -> BrightnessRoute {
    if mode == "ddc"@ {
        BrightnessRoute::DdcOnly
    } else if mode == "gamma"@ {
        BrightnessRoute::GammaOnly
    } else if mode == "overlay"@ {
        BrightnessRoute::OverlayOnly
    } else {
        BrightnessRoute::AutoWithOverlayFallback
    }
}

/// Routing decision for a brightness mode string.
pub fn route_for_mode(mode: &str) -> (res: BrightnessRoute)
    ensures
        res == route_of(mode@),
{
    if str_eq(mode, "ddc") {
        BrightnessRoute::DdcOnly
    } else if str_eq(mode, "gamma") {
        BrightnessRoute::GammaOnly
    } else if str_eq(mode, "overlay") {
        BrightnessRoute::OverlayOnly
    } else {
        BrightnessRoute::AutoWithOverlayFallback
    }
}

// ===========================================================================
// Metadata merge and sort
// ===========================================================================

/// `i` is the first metadata entry with this uid.
pub open spec fn first_with_uid(configs: Seq<MonitorMetadata>, uid: Seq<char>, i: int) -> bool {
    0 <= i < configs.len() && configs[i].uid@ == uid && forall|j: int|
        0 <= j < i ==> (#[trigger] configs[j]).uid@ != uid
}

/// The first metadata entry with this uid, if any.
pub open spec fn meta_for(configs: Seq<MonitorMetadata>, uid: Seq<char>) -> Option<MonitorMetadata> {
    if exists|i: int| first_with_uid(configs, uid, i) {
        Some(configs[choose|i: int| first_with_uid(configs, uid, i)])
    } else {
        None
    }
}

proof fn lemma_first_uid_unique(configs: Seq<MonitorMetadata>, uid: Seq<char>, i: int, k: int)
    requires
        first_with_uid(configs, uid, i),
        first_with_uid(configs, uid, k),
    ensures
        i == k,
{
    if i < k {
        assert(configs[i].uid@ != uid);
    }
    if k < i {
        assert(configs[k].uid@ != uid);
    }
}

/// Position of the first metadata entry with this uid.
pub fn find_meta(configs: &[MonitorMetadata], uid: &str) -> (res: Option<usize>)
    ensures
        match res {
            Some(i) => first_with_uid(configs@, uid@, i as int) && meta_for(configs@, uid@) == Some(
                configs@[i as int],
            ),
            None => meta_for(configs@, uid@) is None && forall|j: int|
                0 <= j < configs@.len() ==> (#[trigger] configs@[j]).uid@ != uid@,
        },
{
    let mut i: usize = 0;
    while i < configs.len()
        invariant
            i <= configs@.len(),
            forall|j: int| 0 <= j < i ==> (#[trigger] configs@[j]).uid@ != uid@,
        decreases configs.len() - i,
    {
        if str_eq(configs[i].uid.as_str(), uid) {
            assert(first_with_uid(configs@, uid@, i as int));
            proof {
                let k = choose|k: int| first_with_uid(configs@, uid@, k);
                lemma_first_uid_unique(configs@, uid@, i as int, k);
            }
            return Some(i);
        }
        i = i + 1;
    }
    None
}

/// A monitor with its saved metadata applied: a non-empty label replaces the
/// displayed name, and the hidden flag is taken from the metadata.
pub open spec fn with_meta(m: Monitor, configs: Seq<MonitorMetadata>) -> Monitor {
    match meta_for(configs, m.uid@) {
        Some(meta) => Monitor {
            name: if meta.label@.len() > 0 {
                meta.label
            } else {
                m.name
            },
            hidden: meta.hidden,
            ..m
        },
        None => m,
    }
}

/// The sort position of a monitor: its saved sort order, or `i32::MAX` when
/// it has no metadata.
pub open spec fn order_of(uid: Seq<char>, configs: Seq<MonitorMetadata>) -> i32 {
    match meta_for(configs, uid) {
        Some(meta) => meta.sort_order,
        None => i32::MAX,
    }
}

/// Strict order of monitor keys (sort order, then uid).
pub open spec fn monitor_key_lt(a: (i32, Seq<char>), b: (i32, Seq<char>)) -> bool {
    a.0 < b.0 || (a.0 == b.0 && chars_lt(a.1, b.1))
}

/// Sort key of a monitor in the UI list: sort order, then uid.
pub struct MonitorKey {
    pub order: i32,
    pub uid: Vec<char>,
}

impl SortKey for MonitorKey {
    type KeyView = (i32, Seq<char>);

    open spec fn key_view(&self) -> (i32, Seq<char>) {
        (self.order, self.uid@)
    }

    open spec fn view_lt(a: (i32, Seq<char>), b: (i32, Seq<char>)) -> bool {
        monitor_key_lt(a, b)
    }

    fn lt(&self, other: &Self) -> (r: bool) {
        self.order < other.order || (self.order == other.order && chars_less(
            self.uid.as_slice(),
            other.uid.as_slice(),
        ))
    }
}

/// The order on monitor keys is a strict order.
pub proof fn lemma_monitor_key_strict_order()
    ensures
        strict_order(key_order::<MonitorKey>()),
{
    let lt = key_order::<MonitorKey>();
    assert forall|a: (i32, Seq<char>)| !#[trigger] lt(a, a) by {
        lemma_chars_lt_irreflexive(a.1);
    }
    assert forall|a: (i32, Seq<char>), b: (i32, Seq<char>), c: (i32, Seq<char>)|
        #[trigger] lt(a, b) && #[trigger] lt(b, c) implies lt(a, c) by {
        if a.0 == b.0 && b.0 == c.0 {
            lemma_chars_lt_transitive(a.1, b.1, c.1);
        }
    }
}

/// The keyed list the merge sorts: each monitor with metadata applied, keyed
/// by (sort order, uid).
pub open spec fn keyed_monitors(monitors: Seq<Monitor>, configs: Seq<MonitorMetadata>) -> Seq<
    ((i32, Seq<char>), Monitor),
> {
    monitors.map_values(|m: Monitor| ((order_of(m.uid@, configs), m.uid@), with_meta(m, configs)))
}

/// The UI monitor list: connected monitors with saved labels and hidden flags
/// applied, stably sorted by (saved sort order, uid), monitors without
/// metadata last.
pub open spec fn merged(monitors: Seq<Monitor>, configs: Seq<MonitorMetadata>) -> Seq<Monitor> {
    insertion_sorted(keyed_monitors(monitors, configs), key_order::<MonitorKey>()).map_values(
        |p: ((i32, Seq<char>), Monitor)| p.1,
    )
}

/// Applies saved metadata (custom labels, hidden state) to detected monitors
/// and sorts them by the user's configured sort order.
pub fn merge_with_configs(monitors: Vec<Monitor>, configs: &[MonitorMetadata]) -> (res: Vec<Monitor>)
    ensures
        res@ == merged(monitors@, configs@),
{
    let mut keyed: Vec<(MonitorKey, Monitor)> = Vec::new();
    let mut rest = monitors;
    let ghost orig = rest@;
    let ghost mut done: int = 0;
    while rest.len() > 0
        invariant
            0 <= done <= orig.len(),
            rest@ == orig.subrange(done, orig.len() as int),
            key_views(keyed@) == keyed_monitors(orig.subrange(0, done), configs@),
        decreases rest.len(),
    {
        let ghost r_before = rest@;
        assert(done < orig.len());
        let mut m = rest.remove(0);
        assert(m == orig[done]) by {
            assert(orig.subrange(done, orig.len() as int)[0] == orig[done]);
        }
        let idx = find_meta(configs, m.uid.as_str());
        let order = match idx {
            Some(i) => configs[i].sort_order,
            None => i32::MAX,
        };
        match idx {
            Some(i) => {
                if configs[i].label.as_str().unicode_len() > 0 {
                    m.name = configs[i].label.clone();
                }
                m.hidden = configs[i].hidden;
            },
            None => {},
        }
        let key = MonitorKey { order, uid: chars_of(orig_uid_str(&m)) };
        let ghost before = key_views(keyed@);
        keyed.push((key, m));
        proof {
            assert(key_views(keyed@) =~= before.push(((order_of(orig[done].uid@, configs@), orig[done].uid@), with_meta(orig[done], configs@))));
            assert(orig.subrange(0, done + 1) =~= orig.subrange(0, done).push(orig[done]));
            assert(keyed_monitors(orig.subrange(0, done + 1), configs@) =~= keyed_monitors(orig.subrange(0, done), configs@).push(((order_of(orig[done].uid@, configs@), orig[done].uid@), with_meta(orig[done], configs@))));
            assert(rest@ =~= r_before.subrange(1, r_before.len() as int));
            done = done + 1;
            assert(rest@ =~= orig.subrange(done, orig.len() as int));
        }
    }
    proof {
        assert(orig.subrange(0, done) =~= orig);
    }
    let sorted = stable_sort_by_key(keyed);
    let mut out: Vec<Monitor> = Vec::new();
    let mut rest2 = sorted;
    let ghost sv = key_views(rest2@);
    let ghost mut k: int = 0;
    while rest2.len() > 0
        invariant
            0 <= k <= sv.len(),
            key_views(rest2@) == sv.subrange(k, sv.len() as int),
            out@ == sv.subrange(0, k).map_values(|p: ((i32, Seq<char>), Monitor)| p.1),
        decreases rest2.len(),
    {
        let ghost r_before = rest2@;
        assert(key_views(r_before).len() == r_before.len());
        assert(k < sv.len());
        let (_key, m) = rest2.remove(0);
        assert(key_views(r_before)[0].1 == m);
        assert(sv[k] == key_views(r_before)[0]) by {
            assert(sv.subrange(k, sv.len() as int)[0] == sv[k]);
        }
        out.push(m);
        proof {
            assert(sv.subrange(0, k + 1) =~= sv.subrange(0, k).push(sv[k]));
            assert(out@ =~= sv.subrange(0, k + 1).map_values(|p: ((i32, Seq<char>), Monitor)| p.1));
            assert(key_views(rest2@) =~= key_views(r_before).subrange(1, r_before.len() as int));
            k = k + 1;
            assert(key_views(rest2@) =~= sv.subrange(k, sv.len() as int));
        }
    }
    proof {
        assert(sv.subrange(0, k) =~= sv);
    }
    out
}

/// The uid of a monitor (the sort key keeps it; the displayed name may change).
fn orig_uid_str(m: &Monitor) -> (res: &str)
    ensures
        res@ == m.uid@,
{
    m.uid.as_str()
}

/// The merged list is sorted by (sort order, uid) and holds exactly the
/// connected monitors, each with its metadata applied.
pub proof fn lemma_merged_sorted_and_complete(monitors: Seq<Monitor>, configs: Seq<MonitorMetadata>)
    ensures
        sorted_by_key(
            insertion_sorted(keyed_monitors(monitors, configs), key_order::<MonitorKey>()),
            key_order::<MonitorKey>(),
        ),
        merged(monitors, configs).len() == monitors.len(),
        insertion_sorted(keyed_monitors(monitors, configs), key_order::<MonitorKey>()).to_multiset()
            =~= keyed_monitors(monitors, configs).to_multiset(),
{
    lemma_monitor_key_strict_order();
    lemma_insertion_sorted_is_sorted(keyed_monitors(monitors, configs), key_order::<MonitorKey>());
    lemma_insertion_sorted_permutes(keyed_monitors(monitors, configs), key_order::<MonitorKey>());
}

// ===========================================================================
// Metadata registry updates
// ===========================================================================

/// Some entry has this uid.
pub open spec fn has_uid(configs: Seq<MetaView>, uid: Seq<char>) -> bool {
    exists|i: int| 0 <= i < configs.len() && (#[trigger] configs[i]).uid == uid
}

/// `i` is the first entry migrated for api id `api_id` whose model name is
/// still "unknown".
pub open spec fn first_unknown(configs: Seq<MetaView>, api_id: Seq<char>, i: int) -> bool {
    0 <= i < configs.len() && configs[i].api_id == api_id && configs[i].api_name == "unknown"@
        && forall|j: int|
        0 <= j < i ==> !((#[trigger] configs[j]).api_id == api_id && configs[j].api_name
            == "unknown"@)
}

/// One reconcile step for a detected monitor: when no entry has its uid, the
/// first migrated entry with its api id and an "unknown" model name takes the
/// monitor's uid and model name. Returns the entries and whether they changed.
pub open spec fn reconcile_one(configs: Seq<MetaView>, m: Monitor) -> (Seq<MetaView>, bool) {
    if has_uid(configs, m.uid@) {
        (configs, false)
    } else if exists|i: int| first_unknown(configs, m.id@, i) {
        let i = choose|i: int| first_unknown(configs, m.id@, i);
        (configs.update(i, MetaView { uid: m.uid@, api_name: m.original_name@, ..configs[i] }), true)
    } else {
        (configs, false)
    }
}

/// Reconcile steps for each monitor in order.
pub open spec fn reconcile_all(configs: Seq<MetaView>, monitors: Seq<Monitor>) -> (
    Seq<MetaView>,
    bool,
)
    decreases monitors.len(),
{
    if monitors.len() == 0 {
        (configs, false)
    } else {
        let (c, ch) = reconcile_all(configs, monitors.drop_last());
        let (c2, ch2) = reconcile_one(c, monitors.last());
        (c2, ch || ch2)
    }
}

proof fn lemma_first_unknown_unique(configs: Seq<MetaView>, api_id: Seq<char>, i: int, k: int)
    requires
        first_unknown(configs, api_id, i),
        first_unknown(configs, api_id, k),
    ensures
        i == k,
{
    if i < k {
        assert(!(configs[i].api_id == api_id && configs[i].api_name == "unknown"@));
    }
    if k < i {
        assert(!(configs[k].api_id == api_id && configs[k].api_name == "unknown"@));
    }
}

/// Fixes up migrated entries whose model name is "unknown" once the real
/// monitor is detected. Returns whether any entry changed.
pub fn reconcile_migrated_configs(monitors: &[Monitor], configs: &mut Vec<MonitorMetadata>) -> (changed: bool)
    ensures
        (meta_views(final(configs)@), changed) == reconcile_all(meta_views(old(configs)@), monitors@),
{
    let ghost orig = meta_views(configs@);
    let mut changed = false;
    let mut k: usize = 0;
    while k < monitors.len()
        invariant
            k <= monitors@.len(),
            (meta_views(configs@), changed) == reconcile_all(orig, monitors@.subrange(0, k as int)),
        decreases monitors.len() - k,
    {
        let monitor = &monitors[k];
        proof {
            assert(monitors@.subrange(0, k + 1).drop_last() =~= monitors@.subrange(0, k as int));
            assert(monitors@.subrange(0, k + 1).last() == *monitor);
        }
        let ghost cv = meta_views(configs@);
        let found = find_meta(configs.as_slice(), monitor.uid.as_str());
        if found.is_some() {
            proof {
                let i = found.unwrap() as int;
                assert(cv[i].uid == monitor.uid@);
                assert(has_uid(cv, monitor.uid@));
            }
        } else {
            assert(!has_uid(cv, monitor.uid@)) by {
                if has_uid(cv, monitor.uid@) {
                    let i = choose|i: int| 0 <= i < cv.len() && (#[trigger] cv[i]).uid == monitor.uid@;
                    assert(configs@[i].uid@ != monitor.uid@);
                }
            }
            let mut j: usize = 0;
            let mut hit: Option<usize> = None;
            while j < configs.len()
                invariant_except_break
                    hit is None,
                invariant
                    cv == meta_views(configs@),
                    j <= configs@.len(),
                    forall|t: int|
                        0 <= t < j ==> !((#[trigger] cv[t]).api_id == monitor.id@ && cv[t].api_name
                            == "unknown"@),
                ensures
                    match hit {
                        Some(t) => first_unknown(cv, monitor.id@, t as int),
                        None => forall|t: int|
                            0 <= t < cv.len() ==> !((#[trigger] cv[t]).api_id == monitor.id@
                                && cv[t].api_name == "unknown"@),
                    },
                decreases configs.len() - j,
            {
                if str_eq(configs[j].api_id.as_str(), monitor.id.as_str()) && str_eq(
                    configs[j].api_name.as_str(),
                    "unknown",
                ) {
                    hit = Some(j);
                    break;
                }
                j = j + 1;
            }
            match hit {
                Some(t) => {
                    proof {
                        assert forall|q: int| first_unknown(cv, monitor.id@, q) implies q == t by {
                            lemma_first_unknown_unique(cv, monitor.id@, t as int, q);
                        }
                    }
                    let mut meta = copy_metadata(&configs[t]);
                    meta.uid = monitor.uid.clone();
                    meta.api_name = monitor.original_name.clone();
                    configs.set(t, meta);
                    changed = true;
                    assert(meta_views(configs@) =~= cv.update(
                        t as int,
                        MetaView { uid: monitor.uid@, api_name: monitor.original_name@, ..cv[t as int] },
                    ));
                },
                None => {
                    assert(!exists|q: int| first_unknown(cv, monitor.id@, q));
                },
            }
        }
        k = k + 1;
    }
    assert(monitors@.subrange(0, k as int) =~= monitors@);
    changed
}

/// Largest saved sort order, or -1 when there are no entries.
pub open spec fn max_sort_order(configs: Seq<MetaView>) -> int
    decreases configs.len(),
{
    if configs.len() == 0 {
        -1
    } else {
        let m = max_sort_order(configs.drop_last());
        if configs.last().sort_order > m {
            configs.last().sort_order as int
        } else {
            m
        }
    }
}

/// The entry a newly detected monitor gets: its uid, api id and model name, an
/// empty label, the given sort order, visible, and brightness mode "auto".
pub open spec fn new_meta(m: Monitor, order: int) -> MetaView {
    MetaView {
        uid: m.uid@,
        api_id: m.id@,
        api_name: m.original_name@,
        label: Seq::empty(),
        sort_order: order as i32,
        hidden: false,
        brightness_mode: "auto"@,
    }
}

/// Adds an entry for each detected monitor (in order, at its index `i`) whose
/// uid has none yet, with sort order `next + i`.
pub open spec fn ensure_all(configs: Seq<MetaView>, monitors: Seq<Monitor>, next: int) -> (
    Seq<MetaView>,
    bool,
)
    decreases monitors.len(),
{
    if monitors.len() == 0 {
        (configs, false)
    } else {
        let (c, ch) = ensure_all(configs, monitors.drop_last(), next);
        let m = monitors.last();
        if has_uid(c, m.uid@) {
            (c, ch)
        } else {
            (c.push(new_meta(m, next + monitors.len() - 1)), true)
        }
    }
}

/// Monitor `k` gets a new entry: neither the saved entries nor an earlier
/// monitor carry its uid.
pub open spec fn appends_at(configs: Seq<MetaView>, monitors: Seq<Monitor>, k: int) -> bool {
    !has_uid(configs, monitors[k].uid@) && forall|j: int|
        0 <= j < k ==> (#[trigger] monitors[j]).uid@ != monitors[k].uid@
}

/// The sort orders stay within `i32`: the next order after the largest saved
/// one fits, and so does the order of every monitor that gets a new entry.
pub open spec fn ensure_orders_fit(configs: Seq<MetaView>, monitors: Seq<Monitor>) -> bool {
    max_sort_order(configs) < i32::MAX && forall|k: int|
        0 <= k < monitors.len() && #[trigger] appends_at(configs, monitors, k) ==> max_sort_order(
            configs,
        ) + 1 + k <= i32::MAX
}

/// An entry for a uid is there after ensuring exactly when it was saved
/// before or some monitor carries it.
proof fn lemma_ensure_all_uids(configs: Seq<MetaView>, monitors: Seq<Monitor>, next: int, u: Seq<char>)
    ensures
        has_uid(ensure_all(configs, monitors, next).0, u) <==> (has_uid(configs, u) || exists|j: int|
            0 <= j < monitors.len() && (#[trigger] monitors[j]).uid@ == u),
    decreases monitors.len(),
{
    if monitors.len() > 0 {
        let ms = monitors.drop_last();
        lemma_ensure_all_uids(configs, ms, next, u);
        let c = ensure_all(configs, ms, next).0;
        let m = monitors.last();
        if (exists|j: int| 0 <= j < ms.len() && (#[trigger] ms[j]).uid@ == u) {
            let j = choose|j: int| 0 <= j < ms.len() && (#[trigger] ms[j]).uid@ == u;
            assert(monitors[j] == ms[j]);
        }
        if (exists|j: int| 0 <= j < monitors.len() && (#[trigger] monitors[j]).uid@ == u) {
            let j = choose|j: int| 0 <= j < monitors.len() && (#[trigger] monitors[j]).uid@ == u;
            if j < ms.len() {
                assert(ms[j] == monitors[j]);
            }
        }
        if !has_uid(c, m.uid@) {
            let x = new_meta(m, next + monitors.len() - 1);
            if has_uid(c, u) {
                lemma_has_uid_push(c, x, u);
            }
            if has_uid(c.push(x), u) {
                let i = choose|i: int| 0 <= i < c.len() + 1 && (#[trigger] c.push(x)[i]).uid == u;
                if i < c.len() {
                    assert(c.push(x)[i] == c[i]);
                } else {
                    assert(monitors[monitors.len() - 1].uid@ == u);
                }
            }
            if u == m.uid@ {
                assert(c.push(x)[c.len() as int].uid == u);
            }
        }
    }
}

proof fn lemma_max_sort_order_bounds(configs: Seq<MetaView>)
    ensures
        max_sort_order(configs) >= -1,
        max_sort_order(configs) <= i32::MAX,
        forall|i: int| 0 <= i < configs.len() ==> (#[trigger] configs[i]).sort_order <= max_sort_order(configs),
    decreases configs.len(),
{
    if configs.len() > 0 {
        lemma_max_sort_order_bounds(configs.drop_last());
        assert forall|i: int| 0 <= i < configs.len() implies (#[trigger] configs[i]).sort_order
            <= max_sort_order(configs) by {
            if i < configs.len() - 1 {
                assert(configs[i] == configs.drop_last()[i]);
            }
        }
    }
}

/// Largest sort order among the entries, or -1.
fn compute_max_sort_order(configs: &[MonitorMetadata]) -> (res: i64)
    ensures
        res == max_sort_order(meta_views(configs@)),
{
    let ghost cv = meta_views(configs@);
    let mut m: i64 = -1;
    let mut i: usize = 0;
    while i < configs.len()
        invariant
            cv == meta_views(configs@),
            i <= configs@.len(),
            m == max_sort_order(cv.subrange(0, i as int)),
        decreases configs.len() - i,
    {
        assert(cv.subrange(0, i + 1).drop_last() =~= cv.subrange(0, i as int));
        if (configs[i].sort_order as i64) > m {
            m = configs[i].sort_order as i64;
        }
        i = i + 1;
    }
    assert(cv.subrange(0, i as int) =~= cv);
    m
}

/// Whether the sort orders new entries would get stay within `i32` (the
/// condition `ensure_metadata_for_monitors` needs).
pub fn sort_orders_fit(monitors: &[Monitor], configs: &[MonitorMetadata]) -> (res: bool)
    ensures
        res == ensure_orders_fit(meta_views(configs@), monitors@),
{
    let ghost cv = meta_views(configs@);
    let max = compute_max_sort_order(configs);
    proof {
        lemma_max_sort_order_bounds(cv);
    }
    if max >= 0x7fff_ffff {
        return false;
    }
    let mut k: usize = 0;
    while k < monitors.len()
        invariant
            cv == meta_views(configs@),
            max == max_sort_order(cv),
            -1 <= max < 0x7fff_ffff,
            k <= monitors@.len(),
            forall|q: int|
                0 <= q < k && #[trigger] appends_at(cv, monitors@, q) ==> max + 1 + q <= i32::MAX,
        decreases monitors.len() - k,
    {
        let uid = monitors[k].uid.as_str();
        let mut earlier = false;
        let mut j: usize = 0;
        while j < k
            invariant
                k < monitors@.len(),
                j <= k,
                earlier == exists|t: int| 0 <= t < j && (#[trigger] monitors@[t]).uid@ == uid@,
                uid@ == monitors@[k as int].uid@,
            decreases k - j,
        {
            if str_eq(monitors[j].uid.as_str(), uid) {
                earlier = true;
            }
            j = j + 1;
        }
        let found = find_meta(configs, uid);
        let appends = found.is_none() && !earlier;
        proof {
            if found.is_some() {
                let i = found.unwrap() as int;
                assert(cv[i].uid == uid@);
                assert(has_uid(cv, uid@));
            } else {
                assert(!has_uid(cv, uid@)) by {
                    if has_uid(cv, uid@) {
                        let i = choose|i: int| 0 <= i < cv.len() && (#[trigger] cv[i]).uid == uid@;
                        assert(configs@[i].uid@ != uid@);
                    }
                }
            }
            if earlier {
                let t = choose|t: int| 0 <= t < j && (#[trigger] monitors@[t]).uid@ == uid@;
                assert(!appends_at(cv, monitors@, k as int));
            }
            assert(appends == appends_at(cv, monitors@, k as int));
        }
        let room: u64 = (0x7fff_fffe - max) as u64;
        if appends && (k as u64) > room {
            return false;
        }
        k = k + 1;
    }
    true
}

/// Ensures every detected monitor has a metadata entry: each new monitor gets
/// an entry with an empty label and sort order continuing after the largest
/// saved one (offset by its index in `monitors`). Returns whether any entry was added.
pub fn ensure_metadata_for_monitors(monitors: &[Monitor], configs: &mut Vec<MonitorMetadata>) -> (changed: bool)
    requires
        ensure_orders_fit(meta_views(old(configs)@), monitors@),
    ensures
        (meta_views(final(configs)@), changed) == ensure_all(
            meta_views(old(configs)@),
            monitors@,
            max_sort_order(meta_views(old(configs)@)) + 1,
        ),
{
    let ghost orig = meta_views(configs@);
    let max = compute_max_sort_order(configs.as_slice());
    proof {
        lemma_max_sort_order_bounds(orig);
    }
    let next: i64 = max + 1;
    let mut changed = false;
    let mut k: usize = 0;
    while k < monitors.len()
        invariant
            k <= monitors@.len(),
            next == max_sort_order(orig) + 1,
            ensure_orders_fit(orig, monitors@),
            (meta_views(configs@), changed) == ensure_all(orig, monitors@.subrange(0, k as int), next as int),
        decreases monitors.len() - k,
    {
        let monitor = &monitors[k];
        proof {
            assert(monitors@.subrange(0, k + 1).drop_last() =~= monitors@.subrange(0, k as int));
            assert(monitors@.subrange(0, k + 1).last() == *monitor);
        }
        let ghost cv = meta_views(configs@);
        let found = find_meta(configs.as_slice(), monitor.uid.as_str());
        if found.is_some() {
            proof {
                let i = found.unwrap() as int;
                assert(cv[i].uid == monitor.uid@);
            }
        } else {
            assert(!has_uid(cv, monitor.uid@)) by {
                if has_uid(cv, monitor.uid@) {
                    let i = choose|i: int| 0 <= i < cv.len() && (#[trigger] cv[i]).uid == monitor.uid@;
                    assert(configs@[i].uid@ != monitor.uid@);
                }
            }
            proof {
                lemma_ensure_all_uids(orig, monitors@.subrange(0, k as int), next as int, monitor.uid@);
                assert forall|j: int| 0 <= j < k implies (#[trigger] monitors@[j]).uid@ != monitors@[k as int].uid@ by {
                    assert(monitors@.subrange(0, k as int)[j] == monitors@[j]);
                }
                assert(appends_at(orig, monitors@, k as int));
            }
            let order = (next + k as i64) as i32;
            let meta = MonitorMetadata {
                uid: monitor.uid.clone(),
                api_id: monitor.id.clone(),
                api_name: monitor.original_name.clone(),
                label: String::new(),
                sort_order: order,
                hidden: false,
                brightness_mode: default_brightness_mode(),
            };
            configs.push(meta);
            changed = true;
            assert(meta_views(configs@) =~= cv.push(new_meta(*monitor, next + k)));
        }
        k = k + 1;
    }
    assert(monitors@.subrange(0, k as int) =~= monitors@);
    changed
}

// ===========================================================================
// Settings-panel edits of the registry
// ===========================================================================

/// Position of the first "::" in a uid.
pub open spec fn first_separator(uid: Seq<char>, at: int) -> bool {
    occurs_at(uid, uid_separator(), at) && forall|q: int|
        0 <= q < at ==> !occurs_at(uid, uid_separator(), q)
}

/// Splits a uid at its first "::" into (api id, api name); a uid without "::"
/// is all api id with an empty api name.
pub open spec fn split_uid(uid: Seq<char>) -> (Seq<char>, Seq<char>) {
    if exists|at: int| first_separator(uid, at) {
        let at = choose|at: int| first_separator(uid, at);
        (uid.subrange(0, at), uid.subrange(at + 2, uid.len() as int))
    } else {
        (uid, Seq::empty())
    }
}

proof fn lemma_first_separator_unique(uid: Seq<char>, a: int, b: int)
    requires
        first_separator(uid, a),
        first_separator(uid, b),
    ensures
        a == b,
{
}

/// Splits "{api_id}::{api_name}" at the first "::".
pub fn split_monitor_uid(uid: &str) -> (res: (String, String))
    ensures
        (res.0@, res.1@) == split_uid(uid@),
{
    let cs = chars_of(uid);
    let n = cs.len();
    let mut at: usize = 0;
    while n > 0 && at < n - 1
        invariant
            n == uid@.len(),
            cs@ == uid@,
            forall|q: int| 0 <= q < at ==> !occurs_at(uid@, uid_separator(), q),
        decreases n - at,
    {
        if cs[at] == ':' && cs[at + 1] == ':' {
            proof {
                assert(uid@.subrange(at as int, at + 2) =~= uid_separator());
                assert(first_separator(uid@, at as int));
                assert forall|b: int| first_separator(uid@, b) implies b == at by {
                    lemma_first_separator_unique(uid@, at as int, b);
                }
            }
            let id = crate::text::slice_range(cs.as_slice(), 0, at);
            let name = crate::text::slice_range(cs.as_slice(), at + 2, n);
            return (string_from_chars(id.as_slice()), string_from_chars(name.as_slice()));
        }
        proof {
            if occurs_at(uid@, uid_separator(), at as int) {
                assert(uid@.subrange(at as int, at + 2)[0] == uid@[at as int]);
                assert(uid@.subrange(at as int, at + 2)[1] == uid@[at + 1]);
            }
        }
        at = at + 1;
    }
    assert(!exists|b: int| first_separator(uid@, b)) by {
        if exists|b: int| first_separator(uid@, b) {
            let b = choose|b: int| first_separator(uid@, b);
            assert(b < at || b + 2 > n);
        }
    }
    (String::from_str(uid), String::new())
}

/// The entry a rename or reorder creates for an unknown uid.
pub open spec fn entry_for_uid(uid: Seq<char>, label: Seq<char>, order: i32) -> MetaView {
    MetaView {
        uid,
        api_id: split_uid(uid).0,
        api_name: split_uid(uid).1,
        label,
        sort_order: order,
        hidden: false,
        brightness_mode: "auto"@,
    }
}

fn new_entry(uid: &str, label: String, order: i32) -> (res: MonitorMetadata)
    ensures
        res@ == entry_for_uid(uid@, label@, order),
{
    let (api_id, api_name) = split_monitor_uid(uid);
    MonitorMetadata {
        uid: String::from_str(uid),
        api_id,
        api_name,
        label,
        sort_order: order,
        hidden: false,
        brightness_mode: default_brightness_mode(),
    }
}

/// Index of the first entry with this uid (over views).
pub open spec fn first_uid_at(configs: Seq<MetaView>, uid: Seq<char>, i: int) -> bool {
    0 <= i < configs.len() && configs[i].uid == uid && forall|j: int|
        0 <= j < i ==> (#[trigger] configs[j]).uid != uid
}

/// Entries after renaming the monitor `uid` to `name`: the first entry with
/// that uid gets the label, or a new entry (sort order 0) is appended.
pub open spec fn renamed(configs: Seq<MetaView>, uid: Seq<char>, name: Seq<char>) -> Seq<MetaView> {
    if exists|i: int| first_uid_at(configs, uid, i) {
        let i = choose|i: int| first_uid_at(configs, uid, i);
        configs.update(i, MetaView { label: name, ..configs[i] })
    } else {
        configs.push(entry_for_uid(uid, name, 0))
    }
}

proof fn lemma_first_uid_at_unique(configs: Seq<MetaView>, uid: Seq<char>, i: int, k: int)
    requires
        first_uid_at(configs, uid, i),
        first_uid_at(configs, uid, k),
    ensures
        i == k,
{
    if i < k {
        assert(configs[i].uid != uid);
    }
    if k < i {
        assert(configs[k].uid != uid);
    }
}

/// Position of the first entry with this uid, over views.
fn find_uid(configs: &Vec<MonitorMetadata>, uid: &str) -> (res: Option<usize>)
    ensures
        match res {
            Some(i) => first_uid_at(meta_views(configs@), uid@, i as int) && forall|k: int|
                first_uid_at(meta_views(configs@), uid@, k) ==> k == i,
            None => !exists|k: int| first_uid_at(meta_views(configs@), uid@, k),
        },
{
    let ghost cv = meta_views(configs@);
    let found = find_meta(configs.as_slice(), uid);
    match found {
        Some(i) => {
            proof {
                assert forall|j: int| 0 <= j < i implies (#[trigger] cv[j]).uid != uid@ by {
                    assert(cv[j].uid == configs@[j].uid@);
                }
                assert(first_uid_at(cv, uid@, i as int));
                assert forall|k: int| first_uid_at(cv, uid@, k) implies k == i by {
                    lemma_first_uid_at_unique(cv, uid@, i as int, k);
                }
            }
            Some(i)
        },
        None => {
            assert(!exists|k: int| first_uid_at(cv, uid@, k)) by {
                if exists|k: int| first_uid_at(cv, uid@, k) {
                    let k = choose|k: int| first_uid_at(cv, uid@, k);
                    assert(configs@[k].uid@ != uid@);
                }
            }
            None
        },
    }
}

/// Sets a monitor's custom label, creating its entry if it is not tracked yet.
pub fn rename_monitor(configs: &mut Vec<MonitorMetadata>, uid: String, name: String)
    ensures
        meta_views(final(configs)@) == renamed(meta_views(old(configs)@), uid@, name@),
{
    let ghost cv = meta_views(configs@);
    match find_uid(configs, uid.as_str()) {
        Some(i) => {
            let mut meta = copy_metadata(&configs[i]);
            meta.label = name;
            configs.set(i, meta);
            assert(meta_views(configs@) =~= cv.update(i as int, MetaView { label: name@, ..cv[i as int] }));
        },
        None => {
            let e = new_entry(uid.as_str(), name, 0);
            configs.push(e);
            assert(meta_views(configs@) =~= cv.push(entry_for_uid(uid@, name@, 0)));
        },
    }
}

/// Entries after saving one sort order: the first entry with the uid gets the
/// order, or a new entry with an empty label is appended.
pub open spec fn reordered_one(configs: Seq<MetaView>, uid: Seq<char>, order: i32) -> Seq<MetaView> {
    if exists|i: int| first_uid_at(configs, uid, i) {
        let i = choose|i: int| first_uid_at(configs, uid, i);
        configs.update(i, MetaView { sort_order: order, ..configs[i] })
    } else {
        configs.push(entry_for_uid(uid, Seq::empty(), order))
    }
}

/// Entries after saving each (uid, sort order) pair in turn.
pub open spec fn reordered(configs: Seq<MetaView>, orders: Seq<(Seq<char>, i32)>) -> Seq<MetaView>
    decreases orders.len(),
{
    if orders.len() == 0 {
        configs
    } else {
        reordered_one(reordered(configs, orders.drop_last()), orders.last().0, orders.last().1)
    }
}

/// Views of the (uid, sort order) pairs.
pub open spec fn order_views(orders: Seq<(String, i32)>) -> Seq<(Seq<char>, i32)> {
    orders.map_values(|p: (String, i32)| (p.0@, p.1))
}

/// Persists the user's monitor order: each (uid, order) pair updates the
/// first entry with that uid, or creates one.
pub fn save_monitor_order(configs: &mut Vec<MonitorMetadata>, orders: Vec<(String, i32)>)
    ensures
        meta_views(final(configs)@) == reordered(meta_views(old(configs)@), order_views(orders@)),
{
    let ghost orig = meta_views(configs@);
    let ghost ov = order_views(orders@);
    let mut k: usize = 0;
    while k < orders.len()
        invariant
            k <= orders@.len(),
            ov == order_views(orders@),
            meta_views(configs@) == reordered(orig, ov.subrange(0, k as int)),
        decreases orders.len() - k,
    {
        let uid = orders[k].0.as_str();
        let order = orders[k].1;
        proof {
            assert(ov.subrange(0, k + 1).drop_last() =~= ov.subrange(0, k as int));
            assert(ov.subrange(0, k + 1).last() == (uid@, order));
        }
        let ghost cv = meta_views(configs@);
        match find_uid(configs, uid) {
            Some(i) => {
                let mut meta = copy_metadata(&configs[i]);
                meta.sort_order = order;
                configs.set(i, meta);
                assert(meta_views(configs@) =~= cv.update(i as int, MetaView { sort_order: order, ..cv[i as int] }));
            },
            None => {
                let e = new_entry(uid, String::new(), order);
                configs.push(e);
                assert(meta_views(configs@) =~= cv.push(entry_for_uid(uid@, Seq::empty(), order)));
            },
        }
        k = k + 1;
    }
    assert(ov.subrange(0, k as int) =~= ov);
}

/// Entries after setting a monitor's hidden flag: only the first entry with
/// that uid changes; an unknown uid changes nothing.
pub open spec fn with_visibility(configs: Seq<MetaView>, uid: Seq<char>, hidden: bool) -> Seq<MetaView> {
    if exists|i: int| first_uid_at(configs, uid, i) {
        let i = choose|i: int| first_uid_at(configs, uid, i);
        configs.update(i, MetaView { hidden, ..configs[i] })
    } else {
        configs
    }
}

/// Sets a monitor's hidden flag (hidden monitors are left out of the main UI).
pub fn set_monitor_visibility(configs: &mut Vec<MonitorMetadata>, uid: String, hidden: bool)
    ensures
        meta_views(final(configs)@) == with_visibility(meta_views(old(configs)@), uid@, hidden),
{
    let ghost cv = meta_views(configs@);
    match find_uid(configs, uid.as_str()) {
        Some(i) => {
            let mut meta = copy_metadata(&configs[i]);
            meta.hidden = hidden;
            configs.set(i, meta);
            assert(meta_views(configs@) =~= cv.update(i as int, MetaView { hidden, ..cv[i as int] }));
        },
        None => {},
    }
}

// ===========================================================================
// Lookup by user query
// ===========================================================================

/// `i` is the first monitor satisfying `p`.
pub open spec fn is_first_where(ms: Seq<Monitor>, p: spec_fn(Monitor) -> bool, i: int) -> bool {
    0 <= i < ms.len() && p(ms[i]) && forall|j: int| 0 <= j < i ==> !p(#[trigger] ms[j])
}

/// No monitor satisfies `p`.
pub open spec fn none_where(ms: Seq<Monitor>, p: spec_fn(Monitor) -> bool) -> bool {
    forall|j: int| 0 <= j < ms.len() ==> !p(#[trigger] ms[j])
}

pub open spec fn id_is(q: Seq<char>) -> spec_fn(Monitor) -> bool {
    |m: Monitor| m.id@ == q
}

pub open spec fn uid_is(q: Seq<char>) -> spec_fn(Monitor) -> bool {
    |m: Monitor| m.uid@ == q
}

/// Case-insensitive substring match on the displayed or original name.
pub open spec fn name_has(q: Seq<char>) -> spec_fn(Monitor) -> bool {
    |m: Monitor|
        contains_seq(lowercase(m.name@), lowercase(q)) || contains_seq(
            lowercase(m.original_name@),
            lowercase(q),
        )
}

/// First monitor satisfying the test selected by `stage` (0: id, 1: uid,
/// 2: name substring).
fn first_where(ms: &[Monitor], q: &str, stage: u8) -> (res: Option<usize>)
    requires
        stage <= 2,
    ensures
        ({
            let p = if stage == 0 {
                id_is(q@)
            } else if stage == 1 {
                uid_is(q@)
            } else {
                name_has(q@)
            };
            match res {
                Some(i) => is_first_where(ms@, p, i as int),
                None => none_where(ms@, p),
            }
        }),
{
    let ghost p = if stage == 0 {
        id_is(q@)
    } else if stage == 1 {
        uid_is(q@)
    } else {
        name_has(q@)
    };
    let needle_s = to_lowercase(q);
    let needle = chars_of(needle_s.as_str());
    let mut i: usize = 0;
    while i < ms.len()
        invariant
            i <= ms@.len(),
            stage <= 2,
            needle@ == lowercase(q@),
            p == (if stage == 0 {
                id_is(q@)
            } else if stage == 1 {
                uid_is(q@)
            } else {
                name_has(q@)
            }),
            forall|j: int| 0 <= j < i ==> !p(#[trigger] ms@[j]),
        decreases ms.len() - i,
    {
        let m = &ms[i];
        let hit = if stage == 0 {
            str_eq(m.id.as_str(), q)
        } else if stage == 1 {
            str_eq(m.uid.as_str(), q)
        } else {
            let a = to_lowercase(m.name.as_str());
            let b = to_lowercase(m.original_name.as_str());
            let ac = chars_of(a.as_str());
            let bc = chars_of(b.as_str());
            contains_chars(ac.as_slice(), needle.as_slice()) || contains_chars(
                bc.as_slice(),
                needle.as_slice(),
            )
        };
        assert(hit == p(ms@[i as int]));
        if hit {
            return Some(i);
        }
        i = i + 1;
    }
    None
}

/// Resolves a monitor query, trying in order: exact id, exact uid, then a
/// case-insensitive substring of the displayed or original name. Returns the
/// first match of the first test that matches anything, with its index.
pub fn resolve_monitor(monitors: &[Monitor], query: &str) -> (res: Option<(usize, Monitor)>)
    ensures
        match res {
            Some((i, m)) => {
                &&& i < monitors@.len()
                &&& m == monitors@[i as int]
                &&& {
                    ||| is_first_where(monitors@, id_is(query@), i as int)
                    ||| none_where(monitors@, id_is(query@)) && is_first_where(
                        monitors@,
                        uid_is(query@),
                        i as int,
                    )
                    ||| none_where(monitors@, id_is(query@)) && none_where(
                        monitors@,
                        uid_is(query@),
                    ) && is_first_where(monitors@, name_has(query@), i as int)
                }
            },
            None => none_where(monitors@, id_is(query@)) && none_where(monitors@, uid_is(query@))
                && none_where(monitors@, name_has(query@)),
        },
{
    if let Some(i) = first_where(monitors, query, 0) {
        return Some((i, copy_monitor(&monitors[i])));
    }
    if let Some(i) = first_where(monitors, query, 1) {
        return Some((i, copy_monitor(&monitors[i])));
    }
    if let Some(i) = first_where(monitors, query, 2) {
        return Some((i, copy_monitor(&monitors[i])));
    }
    None
}

/// Whenever some monitor satisfies `p`, a first one does, at or before it.
proof fn lemma_first_where_exists(ms: Seq<Monitor>, p: spec_fn(Monitor) -> bool, k: int)
    requires
        0 <= k < ms.len(),
        p(ms[k]),
    ensures
        exists|i: int| 0 <= i <= k && is_first_where(ms, p, i),
    decreases k,
{
    if exists|j: int| 0 <= j < k && p(#[trigger] ms[j]) {
        let j = choose|j: int| 0 <= j < k && p(#[trigger] ms[j]);
        lemma_first_where_exists(ms, p, j);
    } else {
        assert(is_first_where(ms, p, k));
    }
}

/// A query that is no monitor's id or uid finds a monitor by name: one
/// whose displayed name or original model name contains the query,
/// ignoring case, is found (the first such monitor, at or before it), so a
/// renamed monitor is still found by its model name; and the monitor found
/// that way contains the query in one of its two names while no earlier
/// monitor contains it in either.
pub proof fn lemma_query_finds_by_either_name(ms: Seq<Monitor>, q: Seq<char>, k: int)
    requires
        0 <= k < ms.len(),
        contains_seq(lowercase(ms[k].original_name@), lowercase(q)) || contains_seq(
            lowercase(ms[k].name@),
            lowercase(q),
        ),
    ensures
        !none_where(ms, name_has(q)),
        exists|i: int| 0 <= i <= k && is_first_where(ms, name_has(q), i),
        forall|i: int|
            #[trigger] is_first_where(ms, name_has(q), i) ==> {
                &&& contains_seq(lowercase(ms[i].name@), lowercase(q)) || contains_seq(
                    lowercase(ms[i].original_name@),
                    lowercase(q),
                )
                &&& forall|j: int|
                    0 <= j < i ==> !contains_seq(lowercase((#[trigger] ms[j]).name@), lowercase(q))
                        && !contains_seq(lowercase(ms[j].original_name@), lowercase(q))
            },
{
    assert(name_has(q)(ms[k]));
    lemma_first_where_exists(ms, name_has(q), k);
    assert forall|i: int| #[trigger] is_first_where(ms, name_has(q), i) implies forall|j: int|
        0 <= j < i ==> !contains_seq(lowercase((#[trigger] ms[j]).name@), lowercase(q))
            && !contains_seq(lowercase(ms[j].original_name@), lowercase(q)) by {
        assert forall|j: int| 0 <= j < i implies !contains_seq(lowercase((#[trigger] ms[j]).name@), lowercase(q))
            && !contains_seq(lowercase(ms[j].original_name@), lowercase(q)) by {
            assert(!name_has(q)(ms[j]));
        }
    }
}

/// Brightness modes route as named: "ddc" to DDC only, "gamma" to gamma
/// only, "overlay" to the overlay only, and every other mode (including
/// "auto") to auto with the overlay as fallback.
pub proof fn lemma_mode_routes(mode: Seq<char>)
    ensures
        mode == "ddc"@ ==> route_of(mode) == BrightnessRoute::DdcOnly,
        mode == "gamma"@ ==> route_of(mode) == BrightnessRoute::GammaOnly,
        mode == "overlay"@ ==> route_of(mode) == BrightnessRoute::OverlayOnly,
        mode != "ddc"@ && mode != "gamma"@ && mode != "overlay"@ ==> route_of(mode)
            == BrightnessRoute::AutoWithOverlayFallback,
{
    reveal_strlit("ddc");
    reveal_strlit("gamma");
    reveal_strlit("overlay");
    assert("ddc"@.len() != "gamma"@.len() && "ddc"@.len() != "overlay"@.len());
    assert("gamma"@.len() != "overlay"@.len());
}

// ===========================================================================
// Laws of the registry
// ===========================================================================

/// The label of the first entry with this uid, if any.
pub open spec fn label_for(configs: Seq<MetaView>, uid: Seq<char>) -> Option<Seq<char>> {
    if exists|i: int| first_uid_at(configs, uid, i) {
        Some(configs[choose|i: int| first_uid_at(configs, uid, i)].label)
    } else {
        None
    }
}

/// The hidden flag of the first entry with this uid, if any.
pub open spec fn hidden_for(configs: Seq<MetaView>, uid: Seq<char>) -> Option<bool> {
    if exists|i: int| first_uid_at(configs, uid, i) {
        Some(configs[choose|i: int| first_uid_at(configs, uid, i)].hidden)
    } else {
        None
    }
}

/// After renaming a monitor, its entry (tracked before or created by the
/// rename) carries the new label, and every other monitor's label is as it
/// was.
pub proof fn lemma_rename_then_label(configs: Seq<MetaView>, uid: Seq<char>, name: Seq<char>, other: Seq<char>)
    requires
        other != uid,
    ensures
        label_for(renamed(configs, uid, name), uid) == Some(name),
        label_for(renamed(configs, uid, name), other) == label_for(configs, other),
{
    let r = renamed(configs, uid, name);
    if exists|i: int| first_uid_at(configs, uid, i) {
        let i = choose|i: int| first_uid_at(configs, uid, i);
        assert(r.len() == configs.len());
        assert(forall|j: int| 0 <= j < r.len() ==> (#[trigger] r[j]).uid == configs[j].uid);
        assert(first_uid_at(r, uid, i));
        let c = choose|k: int| first_uid_at(r, uid, k);
        lemma_first_uid_at_unique(r, uid, i, c);
        assert forall|k: int| first_uid_at(r, other, k) implies first_uid_at(configs, other, k) by {
            assert forall|j: int| 0 <= j < k implies (#[trigger] configs[j]).uid != other by {
                assert(r[j].uid == configs[j].uid);
            }
            assert(r[k].uid == configs[k].uid);
        }
        assert forall|k: int| first_uid_at(configs, other, k) implies first_uid_at(r, other, k) by {
            assert forall|j: int| 0 <= j < k implies (#[trigger] r[j]).uid != other by {
                assert(r[j].uid == configs[j].uid);
            }
            assert(r[k].uid == configs[k].uid);
        }
        if exists|k: int| first_uid_at(configs, other, k) {
            let k = choose|k: int| first_uid_at(configs, other, k);
            let k2 = choose|k2: int| first_uid_at(r, other, k2);
            lemma_first_uid_at_unique(configs, other, k, k2);
            assert(k != i);
        }
    } else {
        let n = configs.len() as int;
        lemma_no_first_uid(configs, uid);
        assert forall|j: int| 0 <= j < n implies (#[trigger] r[j]).uid != uid by {
            assert(r[j] == configs[j]);
        }
        assert(first_uid_at(r, uid, n));
        let c = choose|k: int| first_uid_at(r, uid, k);
        lemma_first_uid_at_unique(r, uid, n, c);
        assert forall|k: int| first_uid_at(r, other, k) implies first_uid_at(configs, other, k) by {
            if k == n {
                assert(r[n].uid == uid);
            }
            assert forall|j: int| 0 <= j < k implies (#[trigger] configs[j]).uid != other by {
                assert(r[j] == configs[j]);
            }
            assert(r[k] == configs[k]);
        }
        assert forall|k: int| first_uid_at(configs, other, k) implies first_uid_at(r, other, k) by {
            assert forall|j: int| 0 <= j < k implies (#[trigger] r[j]).uid != other by {
                assert(r[j] == configs[j]);
            }
            assert(r[k] == configs[k]);
        }
        if exists|k: int| first_uid_at(configs, other, k) {
            let k = choose|k: int| first_uid_at(configs, other, k);
            let k2 = choose|k2: int| first_uid_at(r, other, k2);
            lemma_first_uid_at_unique(configs, other, k, k2);
        }
    }
}

/// Without a first entry with this uid there is no entry with it at all
/// (among the first `m`).
proof fn lemma_no_first_uid_upto(configs: Seq<MetaView>, uid: Seq<char>, m: int)
    requires
        0 <= m <= configs.len(),
        !exists|i: int| first_uid_at(configs, uid, i),
    ensures
        forall|j: int| 0 <= j < m ==> (#[trigger] configs[j]).uid != uid,
    decreases m,
{
    if m > 0 {
        lemma_no_first_uid_upto(configs, uid, m - 1);
        if configs[m - 1].uid == uid {
            assert(first_uid_at(configs, uid, m - 1));
        }
    }
}

/// Without a first entry with this uid there is no entry with it at all.
proof fn lemma_no_first_uid(configs: Seq<MetaView>, uid: Seq<char>)
    requires
        !exists|i: int| first_uid_at(configs, uid, i),
    ensures
        forall|j: int| 0 <= j < configs.len() ==> (#[trigger] configs[j]).uid != uid,
{
    lemma_no_first_uid_upto(configs, uid, configs.len() as int);
}

/// Setting a monitor's visibility is what its entry then reports (an
/// untracked monitor stays untracked).
pub proof fn lemma_visibility_then_hidden(configs: Seq<MetaView>, uid: Seq<char>, hidden: bool)
    ensures
        hidden_for(with_visibility(configs, uid, hidden), uid) == if exists|i: int|
            first_uid_at(configs, uid, i) {
            Some(hidden)
        } else {
            None::<bool>
        },
{
    let r = with_visibility(configs, uid, hidden);
    if exists|i: int| first_uid_at(configs, uid, i) {
        let i = choose|i: int| first_uid_at(configs, uid, i);
        assert(first_uid_at(r, uid, i));
        let c = choose|k: int| first_uid_at(r, uid, k);
        lemma_first_uid_at_unique(r, uid, i, c);
    }
}

proof fn lemma_has_uid_push(c: Seq<MetaView>, x: MetaView, uid: Seq<char>)
    requires
        has_uid(c, uid),
    ensures
        has_uid(c.push(x), uid),
{
    let i = choose|i: int| 0 <= i < c.len() && (#[trigger] c[i]).uid == uid;
    assert(c.push(x)[i] == c[i]);
}

/// After `ensure_all`, every monitor has an entry, and entries known before
/// are still known.
proof fn lemma_ensure_all_covers(configs: Seq<MetaView>, monitors: Seq<Monitor>, next: int)
    ensures
        forall|k: int| 0 <= k < monitors.len() ==> has_uid(ensure_all(configs, monitors, next).0, #[trigger] monitors[k].uid@),
        forall|u: Seq<char>| has_uid(configs, u) ==> has_uid(ensure_all(configs, monitors, next).0, u),
    decreases monitors.len(),
{
    if monitors.len() > 0 {
        let ms = monitors.drop_last();
        lemma_ensure_all_covers(configs, ms, next);
        let c = ensure_all(configs, ms, next).0;
        let m = monitors.last();
        let c2 = ensure_all(configs, monitors, next).0;
        if !has_uid(c, m.uid@) {
            let x = new_meta(m, next + monitors.len() - 1);
            assert(c2 == c.push(x));
            assert(c2[c.len() as int].uid == m.uid@);
            assert forall|u: Seq<char>| has_uid(c, u) implies has_uid(c2, u) by {
                lemma_has_uid_push(c, x, u);
            }
        }
        assert forall|k: int| 0 <= k < monitors.len() implies has_uid(c2, #[trigger] monitors[k].uid@) by {
            if k < monitors.len() - 1 {
                assert(monitors[k] == ms[k]);
            }
        }
    }
}

/// `ensure_all` adds nothing when every monitor already has an entry.
proof fn lemma_ensure_all_noop(configs: Seq<MetaView>, monitors: Seq<Monitor>, next: int)
    requires
        forall|k: int| 0 <= k < monitors.len() ==> has_uid(configs, #[trigger] monitors[k].uid@),
    ensures
        ensure_all(configs, monitors, next) == (configs, false),
    decreases monitors.len(),
{
    if monitors.len() > 0 {
        let ms = monitors.drop_last();
        assert forall|k: int| 0 <= k < ms.len() implies has_uid(configs, #[trigger] ms[k].uid@) by {
            assert(ms[k] == monitors[k]);
        }
        lemma_ensure_all_noop(configs, ms, next);
        assert(has_uid(configs, monitors[monitors.len() - 1].uid@));
    }
}

/// Ensuring metadata twice adds nothing the second time: after one pass
/// every detected monitor has an entry, whatever sort orders a second pass
/// would hand out.
pub proof fn lemma_ensure_metadata_idempotent(configs: Seq<MetaView>, monitors: Seq<Monitor>, next: int, next2: int)
    ensures
        ensure_all(ensure_all(configs, monitors, next).0, monitors, next2) == (
            ensure_all(configs, monitors, next).0,
            false,
        ),
{
    lemma_ensure_all_covers(configs, monitors, next);
    lemma_ensure_all_noop(ensure_all(configs, monitors, next).0, monitors, next2);
}

/// Calling `ensure_metadata_for_monitors` a second time with the same
/// monitors adds nothing: with the sort orders each call starts from (one
/// past the largest saved), the second pass leaves the entries as the first
/// left them and reports no change.
pub proof fn lemma_ensure_metadata_twice(configs: Seq<MetaView>, monitors: Seq<Monitor>)
    ensures
        ({
            let first = ensure_all(configs, monitors, max_sort_order(configs) + 1).0;
            ensure_all(first, monitors, max_sort_order(first) + 1) == (first, false)
        }),
{
    let next = max_sort_order(configs) + 1;
    let first = ensure_all(configs, monitors, next).0;
    lemma_ensure_metadata_idempotent(configs, monitors, next, max_sort_order(first) + 1);
}

/// The resolved brightness mode is always one the dispatcher knows.
pub proof fn lemma_resolved_mode_is_known(configs: Seq<MonitorMetadata>, api_id: Seq<char>)
    ensures
        is_known_mode(brightness_mode_for(configs, api_id)),
{
}

/// Splitting a composed uid gives back its api id and model name, when the
/// api id neither holds "::" nor ends with ':' (otherwise the first "::" of
/// the uid is not the one composition put there).
pub proof fn lemma_split_composed_uid(id: Seq<char>, name: Seq<char>)
    requires
        !contains_seq(id, uid_separator()),
        id.len() > 0 ==> id.last() != ':',
    ensures
        split_uid(make_uid(id, name)) == (id, name),
{
    let uid = make_uid(id, name);
    let n = id.len() as int;
    assert(uid.subrange(n, n + 2) =~= uid_separator());
    assert forall|q: int| 0 <= q < n implies !occurs_at(uid, uid_separator(), q) by {
        if occurs_at(uid, uid_separator(), q) {
            assert(uid.subrange(q, q + 2)[0] == uid[q]);
            assert(uid.subrange(q, q + 2)[1] == uid[q + 1]);
            if q + 1 < n {
                assert(id.subrange(q, q + 2) =~= uid_separator());
                assert(occurs_at(id, uid_separator(), q));
            } else {
                assert(uid[q] == id.last());
            }
        }
    }
    assert(first_separator(uid, n));
    let c = choose|at: int| first_separator(uid, at);
    lemma_first_separator_unique(uid, n, c);
    assert(uid.subrange(0, n) =~= id);
    assert(uid.subrange(n + 2, uid.len() as int) =~= name);
}

} // verus!
