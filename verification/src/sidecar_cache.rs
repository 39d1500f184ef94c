//! TTL-based cache for platform reads (monitors, dark mode, volume,
//! accessibility permission). Entries older than five minutes are stale and
//! read as absent; writes and Force Refresh invalidate entries.
use vstd::prelude::*;

use crate::display::{copy_monitor, Monitor};
use std::time::{Duration, Instant};

verus! {

#[verifier::external_type_specification]
#[verifier::external_body]
pub struct ExInstant(Instant);

/// std `Instant::now`: the current time of the monotonic clock.
#[verifier::external_body]
fn instant_now() -> (res: Instant) {
    Instant::now()
}

/// std `Instant::elapsed`: time since `t`.
#[verifier::external_body]
fn instant_elapsed(t: &Instant) -> (res: Duration) {
    t.elapsed()
}

/// std `Duration::as_millis`: whole milliseconds in `d`.
#[verifier::external_body]
fn duration_as_millis(d: &Duration) -> (res: u128) {
    d.as_millis()
}

/// Cache time-to-live in milliseconds (5 minutes).
pub const CACHE_TTL_MS: u128 = 300_000;

/// An entry fetched `elapsed_ms` milliseconds ago is fresh while that is under
/// the TTL.
pub fn within_ttl(elapsed_ms: u128) -> (res: bool)
    ensures
        res == (elapsed_ms < CACHE_TTL_MS),
{
    elapsed_ms < CACHE_TTL_MS
}

/// A cached value with the time it was stored.
pub struct CacheEntry<T> {
    value: T,
    fetched_at: Instant,
}

impl<T> CacheEntry<T> {
    /// The cached value.
    pub closed spec fn stored(&self) -> T {
        self.value
    }

    /// Milliseconds since the entry was stored, by the monotonic clock.
    pub fn age_ms(&self) -> (res: u128) {
        let d = instant_elapsed(&self.fetched_at);
        duration_as_millis(&d)
    }

    /// Whether the entry is still within the TTL.
    pub fn is_fresh(&self) -> (res: bool) {
        within_ttl(self.age_ms())
    }
}

fn new_entry<T>(value: T) -> (res: CacheEntry<T>)
    ensures
        res.stored() == value,
{
    CacheEntry { value, fetched_at: instant_now() }
}

/// The value held in an optional entry.
pub open spec fn held<T>(e: Option<CacheEntry<T>>) -> Option<T> {
    match e {
        Some(entry) => Some(entry.stored()),
        None => None,
    }
}

/// What a read returns of a stored value whose entry is `elapsed_ms`
/// milliseconds old: the value while that is under the TTL, else nothing.
pub open spec fn read_within_ttl<T>(stored: Option<T>, elapsed_ms: u128) -> Option<T> {
    if elapsed_ms < CACHE_TTL_MS {
        stored
    } else {
        None
    }
}

/// A value written to the cache is what a read returns while its entry is
/// under the TTL; an invalidated (or never written) slot reads as nothing,
/// and so does any entry once the TTL has passed.
pub proof fn lemma_read_after_write<T>(value: T, elapsed_ms: u128)
    ensures
        elapsed_ms < CACHE_TTL_MS ==> read_within_ttl(Some(value), elapsed_ms) == Some(value),
        elapsed_ms >= CACHE_TTL_MS ==> read_within_ttl(Some(value), elapsed_ms) is None,
        read_within_ttl(None::<T>, elapsed_ms) is None,
{
}

/// The view of an optional monitor list.
pub open spec fn monitors_view(m: Option<Vec<Monitor>>) -> Option<Seq<Monitor>> {
    match m {
        Some(v) => Some(v@),
        None => None,
    }
}

/// Cache of platform reads and system state.
pub struct SidecarCache {
    monitors: Option<CacheEntry<Vec<Monitor>>>,
    dark_mode: Option<CacheEntry<bool>>,
    volume: Option<CacheEntry<u32>>,
    accessibility: Option<CacheEntry<bool>>,
}

impl SidecarCache {
    /// Stored monitor list (fresh or not).
    pub closed spec fn stored_monitors(&self) -> Option<Seq<Monitor>> {
        match held(self.monitors) {
            Some(v) => Some(v@),
            None => None,
        }
    }

    /// Stored dark mode flag (fresh or not).
    pub closed spec fn stored_dark_mode(&self) -> Option<bool> {
        held(self.dark_mode)
    }

    /// Stored volume (fresh or not).
    pub closed spec fn stored_volume(&self) -> Option<u32> {
        held(self.volume)
    }

    /// Stored accessibility status (fresh or not).
    pub closed spec fn stored_accessibility(&self) -> Option<bool> {
        held(self.accessibility)
    }

    /// An empty cache.
    pub fn new() -> (res: Self)
        ensures
            res.stored_monitors() is None,
            res.stored_dark_mode() is None,
            res.stored_volume() is None,
            res.stored_accessibility() is None,
    {
        SidecarCache { monitors: None, dark_mode: None, volume: None, accessibility: None }
    }

    /// The stored monitors as a read finds them when their entry is
    /// `elapsed_ms` milliseconds old.
    pub fn get_monitors_at(&self, elapsed_ms: u128) -> (res: Option<Vec<Monitor>>)
        ensures
            monitors_view(res) == read_within_ttl(self.stored_monitors(), elapsed_ms),
    {
        match &self.monitors {
            Some(e) => {
                if within_ttl(elapsed_ms) {
                    let mut out: Vec<Monitor> = Vec::new();
                    let mut i: usize = 0;
                    while i < e.value.len()
                        invariant
                            i <= e.value@.len(),
                            out@ == e.value@.subrange(0, i as int),
                        decreases e.value.len() - i,
                    {
                        out.push(copy_monitor(&e.value[i]));
                        i = i + 1;
                        assert(out@ =~= e.value@.subrange(0, i as int));
                    }
                    assert(out@ =~= e.value@);
                    Some(out)
                } else {
                    None
                }
            },
            None => None,
        }
    }

    /// The cached monitors while their entry is within the TTL, otherwise
    /// `None`: the read at the entry's age by the clock.
    pub fn get_monitors(&self) -> (res: Option<Vec<Monitor>>)
        ensures
            exists|elapsed_ms: u128|
                monitors_view(res) == #[trigger] read_within_ttl(self.stored_monitors(), elapsed_ms),
    {
        let age: u128 = match &self.monitors {
            Some(e) => e.age_ms(),
            None => 0,
        };
        self.get_monitors_at(age)
    }

    /// Stores the monitor list; the other entries are unchanged.
    pub fn set_monitors(&mut self, monitors: Vec<Monitor>)
        ensures
            final(self).stored_monitors() == Some(monitors@),
            final(self).stored_dark_mode() == old(self).stored_dark_mode(),
            final(self).stored_volume() == old(self).stored_volume(),
            final(self).stored_accessibility() == old(self).stored_accessibility(),
    {
        self.monitors = Some(new_entry(monitors));
    }

    /// The stored dark mode flag as a read finds it when its entry is
    /// `elapsed_ms` milliseconds old.
    pub fn get_dark_mode_at(&self, elapsed_ms: u128) -> (res: Option<bool>)
        ensures
            res == read_within_ttl(self.stored_dark_mode(), elapsed_ms),
    {
        match &self.dark_mode {
            Some(e) => if within_ttl(elapsed_ms) {
                Some(e.value)
            } else {
                None
            },
            None => None,
        }
    }

    /// The cached dark mode flag while its entry is within the TTL, otherwise
    /// `None`: the read at the entry's age by the clock.
    pub fn get_dark_mode(&self) -> (res: Option<bool>)
        ensures
            exists|elapsed_ms: u128| res == #[trigger] read_within_ttl(self.stored_dark_mode(), elapsed_ms),
    {
        let age: u128 = match &self.dark_mode {
            Some(e) => e.age_ms(),
            None => 0,
        };
        self.get_dark_mode_at(age)
    }

    /// Stores the dark mode flag; the other entries are unchanged.
    pub fn set_dark_mode(&mut self, is_dark: bool)
        ensures
            final(self).stored_dark_mode() == Some(is_dark),
            final(self).stored_monitors() == old(self).stored_monitors(),
            final(self).stored_volume() == old(self).stored_volume(),
            final(self).stored_accessibility() == old(self).stored_accessibility(),
    {
        self.dark_mode = Some(new_entry(is_dark));
    }

    /// The stored volume as a read finds it when its entry is
    /// `elapsed_ms` milliseconds old.
    pub fn get_volume_at(&self, elapsed_ms: u128) -> (res: Option<u32>)
        ensures
            res == read_within_ttl(self.stored_volume(), elapsed_ms),
    {
        match &self.volume {
            Some(e) => if within_ttl(elapsed_ms) {
                Some(e.value)
            } else {
                None
            },
            None => None,
        }
    }

    /// The cached volume while its entry is within the TTL, otherwise
    /// `None`: the read at the entry's age by the clock.
    pub fn get_volume(&self) -> (res: Option<u32>)
        ensures
            exists|elapsed_ms: u128| res == #[trigger] read_within_ttl(self.stored_volume(), elapsed_ms),
    {
        let age: u128 = match &self.volume {
            Some(e) => e.age_ms(),
            None => 0,
        };
        self.get_volume_at(age)
    }

    /// Stores the volume; the other entries are unchanged.
    pub fn set_volume(&mut self, volume: u32)
        ensures
            final(self).stored_volume() == Some(volume),
            final(self).stored_monitors() == old(self).stored_monitors(),
            final(self).stored_dark_mode() == old(self).stored_dark_mode(),
            final(self).stored_accessibility() == old(self).stored_accessibility(),
    {
        self.volume = Some(new_entry(volume));
    }

    /// The stored accessibility status as a read finds it when its entry is
    /// `elapsed_ms` milliseconds old.
    pub fn get_accessibility_at(&self, elapsed_ms: u128) -> (res: Option<bool>)
        ensures
            res == read_within_ttl(self.stored_accessibility(), elapsed_ms),
    {
        match &self.accessibility {
            Some(e) => if within_ttl(elapsed_ms) {
                Some(e.value)
            } else {
                None
            },
            None => None,
        }
    }

    /// The cached accessibility status while its entry is within the TTL, otherwise
    /// `None`: the read at the entry's age by the clock.
    pub fn get_accessibility(&self) -> (res: Option<bool>)
        ensures
            exists|elapsed_ms: u128| res == #[trigger] read_within_ttl(self.stored_accessibility(), elapsed_ms),
    {
        let age: u128 = match &self.accessibility {
            Some(e) => e.age_ms(),
            None => 0,
        };
        self.get_accessibility_at(age)
    }

    /// Stores the accessibility status; the other entries are unchanged.
    pub fn set_accessibility(&mut self, trusted: bool)
        ensures
            final(self).stored_accessibility() == Some(trusted),
            final(self).stored_monitors() == old(self).stored_monitors(),
            final(self).stored_dark_mode() == old(self).stored_dark_mode(),
            final(self).stored_volume() == old(self).stored_volume(),
    {
        self.accessibility = Some(new_entry(trusted));
    }

    /// Drops the accessibility entry; the other entries are unchanged.
    pub fn invalidate_accessibility(&mut self)
        ensures
            final(self).stored_accessibility() is None,
            final(self).stored_monitors() == old(self).stored_monitors(),
            final(self).stored_dark_mode() == old(self).stored_dark_mode(),
            final(self).stored_volume() == old(self).stored_volume(),
    {
        self.accessibility = None;
    }

    /// Drops the monitors entry (e.g. after set_brightness); the others are unchanged.
    pub fn invalidate_monitors(&mut self)
        ensures
            final(self).stored_monitors() is None,
            final(self).stored_dark_mode() == old(self).stored_dark_mode(),
            final(self).stored_volume() == old(self).stored_volume(),
            final(self).stored_accessibility() == old(self).stored_accessibility(),
    {
        self.monitors = None;
    }

    /// Drops the dark mode entry; the others are unchanged.
    pub fn invalidate_dark_mode(&mut self)
        ensures
            final(self).stored_dark_mode() is None,
            final(self).stored_monitors() == old(self).stored_monitors(),
            final(self).stored_volume() == old(self).stored_volume(),
            final(self).stored_accessibility() == old(self).stored_accessibility(),
    {
        self.dark_mode = None;
    }

    /// Drops the volume entry; the others are unchanged.
    pub fn invalidate_volume(&mut self)
        ensures
            final(self).stored_volume() is None,
            final(self).stored_monitors() == old(self).stored_monitors(),
            final(self).stored_dark_mode() == old(self).stored_dark_mode(),
            final(self).stored_accessibility() == old(self).stored_accessibility(),
    {
        self.volume = None;
    }

    /// Drops every entry (Force Refresh, Reset to Default).
    pub fn invalidate_all(&mut self)
        ensures
            final(self).stored_monitors() is None,
            final(self).stored_dark_mode() is None,
            final(self).stored_volume() is None,
            final(self).stored_accessibility() is None,
    {
        self.invalidate_monitors();
        self.invalidate_dark_mode();
        self.invalidate_volume();
        self.invalidate_accessibility();
    }
}

impl Default for SidecarCache {
    fn default() -> (res: Self)
        ensures
            res.stored_monitors() is None,
            res.stored_dark_mode() is None,
            res.stored_volume() is None,
            res.stored_accessibility() is None,
    {
        Self::new()
    }
}

} // verus!
