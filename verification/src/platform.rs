//! Display model shared with the platform backends: what a backend reports for
//! each display, and how a user's query selects a display.
use vstd::prelude::*;

use crate::text::{lowercase, str_eq, to_lowercase};

verus! {

/// VCP code of the brightness register (DDC/CI).
pub const VCP_BRIGHTNESS: u8 = 0x10;

/// VCP code of the contrast register (DDC/CI).
pub const VCP_CONTRAST: u8 = 0x12;

/// Identifier of the built-in display.
pub const BUILTIN_ID: &'static str = "builtin";

/// Per-display information reported by a platform backend.
#[derive(Clone, Debug)]
pub struct DisplayInfo {
    /// "builtin", "1", "2", ...
    pub id: String,
    /// Human-readable name from the monitor's EDID.
    pub name: String,
    /// "builtin" or "external".
    pub display_type: String,
    pub brightness: Option<u32>,
    pub contrast: Option<u32>,
    pub ddc_supported: bool,
    /// Physical screen rect `(left, top, width, height)` in global physical pixels.
    pub monitor_rect: Option<(i32, i32, i32, i32)>,
}

/// The identifier of the built-in display, as characters.
pub open spec fn builtin_id() -> Seq<char> {
    seq!['b', 'u', 'i', 'l', 't', 'i', 'n']
}

/// A query selects a display by exact id, by name ignoring case, or — the
/// query "0" — the built-in display only.
pub open spec fn display_matches(id: Seq<char>, name: Seq<char>, query: Seq<char>) -> bool {
    if query == seq!['0'] {
        id == builtin_id()
    } else {
        id == query || lowercase(name) == lowercase(query)
    }
}

/// Whether `info` is the display that `query` names.
pub fn matches_display(info: &DisplayInfo, query: &str) -> (res: bool)
    ensures
        res == display_matches(info.id@, info.name@, query@),
{
    proof {
        reveal_strlit("0");
        reveal_strlit("builtin");
    }
    if str_eq(query, "0") {
        assert("0"@ =~= seq!['0']);
        assert(BUILTIN_ID@ =~= builtin_id());
        return str_eq(info.id.as_str(), BUILTIN_ID);
    }
    assert(query@ != seq!['0']) by {
        assert("0"@ =~= seq!['0']);
    }
    if str_eq(info.id.as_str(), query) {
        return true;
    }
    let a = to_lowercase(info.name.as_str());
    let b = to_lowercase(query);
    a == b
}

/// Position of the first display that `query` names (the display a "set one"
/// command acts on), or `None`.
pub fn find_display(displays: &Vec<DisplayInfo>, query: &str) -> (res: Option<usize>)
    ensures
        match res {
            Some(i) => {
                &&& i < displays@.len()
                &&& display_matches(displays@[i as int].id@, displays@[i as int].name@, query@)
                &&& forall|j: int|
                    0 <= j < i ==> !display_matches(
                        #[trigger] displays@[j].id@,
                        displays@[j].name@,
                        query@,
                    )
            },
            None => forall|j: int|
                0 <= j < displays@.len() ==> !display_matches(
                    #[trigger] displays@[j].id@,
                    displays@[j].name@,
                    query@,
                ),
        },
{
    let mut i: usize = 0;
    while i < displays.len()
        invariant
            i <= displays@.len(),
            forall|j: int|
                0 <= j < i ==> !display_matches(
                    #[trigger] displays@[j].id@,
                    displays@[j].name@,
                    query@,
                ),
        decreases displays.len() - i,
    {
        if matches_display(&displays[i], query) {
            return Some(i);
        }
        i = i + 1;
    }
    None
}

/// Hardware access to one display, as a platform backend provides it.
pub trait DisplayControl {
    /// Current brightness (0-100), if it can be read.
    fn get_brightness(&mut self) -> Option<u32>;

    /// Current contrast (0-100), if it can be read.
    fn get_contrast(&mut self) -> Option<u32>;

    /// Sets brightness through the platform `mode` ("ddc", "gamma", "force"
    /// or "auto"); whether it took.
    fn set_brightness(&mut self, value: u16, mode: &str) -> bool;

    /// Sets contrast; whether it took.
    fn set_contrast(&mut self, value: u16) -> bool;

    /// Restores the display's gamma to neutral.
    fn reset_gamma(&self);
}

/// A display's control together with the record of the calls the library
/// made on it: the brightness and contrast writes (with their arguments),
/// the readings it answered, and its reply to the last write.
pub struct Logged<C> {
    control: C,
    brightness_writes: Ghost<Seq<(u16, Seq<char>)>>,
    contrast_writes: Ghost<Seq<u16>>,
    brightness_reads: Ghost<Seq<Option<u32>>>,
    contrast_reads: Ghost<Seq<Option<u32>>>,
    last_reply: Ghost<bool>,
}

impl<C> Logged<C> {
    /// The brightness writes made, in order: (value, mode).
    pub closed spec fn brightness_writes(&self) -> Seq<(u16, Seq<char>)> {
        self.brightness_writes@
    }

    /// The contrast writes made, in order.
    pub closed spec fn contrast_writes(&self) -> Seq<u16> {
        self.contrast_writes@
    }

    /// The brightness readings answered, in order.
    pub closed spec fn brightness_reads(&self) -> Seq<Option<u32>> {
        self.brightness_reads@
    }

    /// The contrast readings answered, in order.
    pub closed spec fn contrast_reads(&self) -> Seq<Option<u32>> {
        self.contrast_reads@
    }

    /// The reply to the last write.
    pub closed spec fn last_reply(&self) -> bool {
        self.last_reply@
    }

    /// A control with nothing recorded yet.
    pub fn new(control: C) -> (res: Self)
        ensures
            res.brightness_writes().len() == 0,
            res.contrast_writes().len() == 0,
            res.brightness_reads().len() == 0,
            res.contrast_reads().len() == 0,
    {
        Logged {
            control,
            brightness_writes: Ghost(Seq::empty()),
            contrast_writes: Ghost(Seq::empty()),
            brightness_reads: Ghost(Seq::empty()),
            contrast_reads: Ghost(Seq::empty()),
            last_reply: Ghost(false),
        }
    }

    /// The control itself.
    pub fn into_inner(self) -> C {
        self.control
    }
}

/// `after` is `before` with one brightness write of `(level, mode)` added,
/// and nothing else.
pub open spec fn wrote_brightness<C>(before: Logged<C>, after: Logged<C>, level: u16, mode: Seq<char>) -> bool {
    &&& after.brightness_writes() == before.brightness_writes().push((level, mode))
    &&& after.contrast_writes() == before.contrast_writes()
    &&& after.brightness_reads() == before.brightness_reads()
    &&& after.contrast_reads() == before.contrast_reads()
}

/// `after` is `before` with one contrast write of `level` added, and
/// nothing else.
pub open spec fn wrote_contrast<C>(before: Logged<C>, after: Logged<C>, level: u16) -> bool {
    &&& after.contrast_writes() == before.contrast_writes().push(level)
    &&& after.brightness_writes() == before.brightness_writes()
    &&& after.brightness_reads() == before.brightness_reads()
    &&& after.contrast_reads() == before.contrast_reads()
}

/// `after` is `before` with one brightness and one contrast reading added
/// (answering `b` and `c`), and no write.
pub open spec fn read_both<C>(before: Logged<C>, after: Logged<C>, b: Option<u32>, c: Option<u32>) -> bool {
    &&& after.brightness_reads() == before.brightness_reads().push(b)
    &&& after.contrast_reads() == before.contrast_reads().push(c)
    &&& after.brightness_writes() == before.brightness_writes()
    &&& after.contrast_writes() == before.contrast_writes()
    &&& after.last_reply() == before.last_reply()
}

impl<C: DisplayControl> Logged<C> {
    /// Reads the brightness, recording the answer.
    pub fn get_brightness(&mut self) -> (r: Option<u32>)
        ensures
            final(self).brightness_reads() == old(self).brightness_reads().push(r),
            final(self).contrast_reads() == old(self).contrast_reads(),
            final(self).brightness_writes() == old(self).brightness_writes(),
            final(self).contrast_writes() == old(self).contrast_writes(),
            final(self).last_reply() == old(self).last_reply(),
    {
        let r = self.control.get_brightness();
        self.brightness_reads = Ghost(self.brightness_reads@.push(r));
        r
    }

    /// Reads the contrast, recording the answer.
    pub fn get_contrast(&mut self) -> (r: Option<u32>)
        ensures
            final(self).contrast_reads() == old(self).contrast_reads().push(r),
            final(self).brightness_reads() == old(self).brightness_reads(),
            final(self).brightness_writes() == old(self).brightness_writes(),
            final(self).contrast_writes() == old(self).contrast_writes(),
            final(self).last_reply() == old(self).last_reply(),
    {
        let r = self.control.get_contrast();
        self.contrast_reads = Ghost(self.contrast_reads@.push(r));
        r
    }

    /// Writes the brightness through `mode`, recording the write and the reply.
    pub fn set_brightness(&mut self, value: u16, mode: &str) -> (r: bool)
        ensures
            wrote_brightness(*old(self), *final(self), value, mode@),
            final(self).last_reply() == r,
    {
        let r = self.control.set_brightness(value, mode);
        self.brightness_writes = Ghost(self.brightness_writes@.push((value, mode@)));
        self.last_reply = Ghost(r);
        r
    }

    /// Writes the contrast, recording the write and the reply.
    pub fn set_contrast(&mut self, value: u16) -> (r: bool)
        ensures
            wrote_contrast(*old(self), *final(self), value),
            final(self).last_reply() == r,
    {
        let r = self.control.set_contrast(value);
        self.contrast_writes = Ghost(self.contrast_writes@.push(value));
        self.last_reply = Ghost(r);
        r
    }
}

/// `info` with the brightness and contrast replaced.
pub open spec fn with_readings(info: DisplayInfo, b: Option<u32>, c: Option<u32>) -> DisplayInfo {
    DisplayInfo { brightness: b, contrast: c, ..info }
}

fn copy_with_readings(info: &DisplayInfo, b: Option<u32>, c: Option<u32>) -> (res: DisplayInfo)
    ensures
        res == with_readings(*info, b, c),
{
    DisplayInfo {
        id: info.id.clone(),
        name: info.name.clone(),
        display_type: info.display_type.clone(),
        brightness: b,
        contrast: c,
        ddc_supported: info.ddc_supported,
        monitor_rect: info.monitor_rect,
    }
}

/// `k` is the first display `query` names.
pub open spec fn first_match<C>(ds: Seq<(DisplayInfo, Logged<C>)>, query: Seq<char>, k: int) -> bool {
    0 <= k < ds.len() && display_matches(ds[k].0.id@, ds[k].0.name@, query) && forall|j: int|
        0 <= j < k ==> !display_matches(#[trigger] ds[j].0.id@, ds[j].0.name@, query)
}

/// The enumerated displays with their brightness and contrast read again
/// from each control (one reading of each, recorded), every other field as
/// enumerated, in the same order; no control is written.
pub fn list_all<C: DisplayControl>(displays: &mut Vec<(DisplayInfo, Logged<C>)>) -> (res: Vec<DisplayInfo>)
    ensures
        final(displays)@.len() == old(displays)@.len(),
        res@.len() == old(displays)@.len(),
        forall|i: int|
            0 <= i < res@.len() ==> {
                &&& (#[trigger] res@[i]) == with_readings(
                    old(displays)@[i].0,
                    res@[i].brightness,
                    res@[i].contrast,
                )
                &&& final(displays)@[i].0 == old(displays)@[i].0
                &&& read_both(old(displays)@[i].1, final(displays)@[i].1, res@[i].brightness, res@[i].contrast)
            },
{
    let ghost orig = displays@;
    let mut out: Vec<DisplayInfo> = Vec::new();
    let mut i: usize = 0;
    while i < displays.len()
        invariant
            orig == old(displays)@,
            displays@.len() == orig.len(),
            i <= orig.len(),
            out@.len() == i,
            forall|j: int| i <= j < orig.len() ==> displays@[j] == orig[j],
            forall|j: int|
                0 <= j < i ==> {
                    &&& (#[trigger] out@[j]) == with_readings(orig[j].0, out@[j].brightness, out@[j].contrast)
                    &&& displays@[j].0 == orig[j].0
                    &&& read_both(orig[j].1, displays@[j].1, out@[j].brightness, out@[j].contrast)
                },
        decreases orig.len() - i,
    {
        let ghost before = displays@;
        let (info, mut ctrl) = displays.remove(i);
        let b = ctrl.get_brightness();
        let c = ctrl.get_contrast();
        out.push(copy_with_readings(&info, b, c));
        displays.insert(i, (info, ctrl));
        assert(displays@ =~= before.update(i as int, displays@[i as int]));
        i = i + 1;
    }
    out
}

/// Sets the brightness of the first display `id` names (by id, name or the
/// "0" alias): that display's control gets one write of `(level, mode)` and
/// its reply is the result; no other control is touched. False, with nothing
/// written, when no display matches.
pub fn set_one_brightness<C: DisplayControl>(displays: &mut Vec<(DisplayInfo, Logged<C>)>, id: &str, level: u16, mode: &str) -> (res: bool)
    ensures
        final(displays)@.len() == old(displays)@.len(),
        (forall|k: int| !first_match(old(displays)@, id@, k)) ==> !res && final(displays)@ == old(displays)@,
        forall|k: int|
            #[trigger] first_match(old(displays)@, id@, k) ==> {
                &&& wrote_brightness(old(displays)@[k].1, final(displays)@[k].1, level, mode@)
                &&& res == final(displays)@[k].1.last_reply()
                &&& final(displays)@[k].0 == old(displays)@[k].0
                &&& forall|j: int| 0 <= j < old(displays)@.len() && j != k ==> final(displays)@[j] == old(displays)@[j]
            },
{
    let ghost orig = displays@;
    let mut i: usize = 0;
    while i < displays.len()
        invariant
            displays@ == orig,
            orig == old(displays)@,
            i <= orig.len(),
            forall|j: int| 0 <= j < i ==> !display_matches(#[trigger] orig[j].0.id@, orig[j].0.name@, id@),
        decreases orig.len() - i,
    {
        if matches_display(&displays[i].0, id) {
            assert(first_match(orig, id@, i as int));
            let (info, mut ctrl) = displays.remove(i);
            let r = ctrl.set_brightness(level, mode);
            displays.insert(i, (info, ctrl));
            assert(displays@ =~= orig.update(i as int, displays@[i as int]));
            assert forall|k: int| #[trigger] first_match(orig, id@, k) implies k == i by {
                if k < i {
                    assert(!display_matches(orig[k].0.id@, orig[k].0.name@, id@));
                }
                if k > i {
                    assert(!display_matches(orig[i as int].0.id@, orig[i as int].0.name@, id@));
                }
            }
            return r;
        }
        i = i + 1;
    }
    false
}

/// Sets the brightness of every display: each control gets one write of
/// `(level, mode)`, in order, whatever the earlier ones replied; the result
/// is (id, reply) for each.
pub fn set_all_brightness<C: DisplayControl>(displays: &mut Vec<(DisplayInfo, Logged<C>)>, level: u16, mode: &str) -> (res: Vec<(String, bool)>)
    ensures
        final(displays)@.len() == old(displays)@.len(),
        res@.len() == old(displays)@.len(),
        forall|i: int|
            0 <= i < res@.len() ==> {
                &&& (#[trigger] res@[i]).0@ == old(displays)@[i].0.id@
                &&& final(displays)@[i].0 == old(displays)@[i].0
                &&& wrote_brightness(old(displays)@[i].1, final(displays)@[i].1, level, mode@)
                &&& res@[i].1 == final(displays)@[i].1.last_reply()
            },
{
    let ghost orig = displays@;
    let mut out: Vec<(String, bool)> = Vec::new();
    let mut i: usize = 0;
    while i < displays.len()
        invariant
            orig == old(displays)@,
            displays@.len() == orig.len(),
            i <= orig.len(),
            out@.len() == i,
            forall|j: int| i <= j < orig.len() ==> displays@[j] == orig[j],
            forall|j: int|
                0 <= j < i ==> {
                    &&& (#[trigger] out@[j]).0@ == orig[j].0.id@
                    &&& displays@[j].0 == orig[j].0
                    &&& wrote_brightness(orig[j].1, displays@[j].1, level, mode@)
                    &&& out@[j].1 == displays@[j].1.last_reply()
                },
        decreases orig.len() - i,
    {
        let ghost before = displays@;
        let (info, mut ctrl) = displays.remove(i);
        let ok = ctrl.set_brightness(level, mode);
        out.push((info.id.clone(), ok));
        displays.insert(i, (info, ctrl));
        assert(displays@ =~= before.update(i as int, displays@[i as int]));
        i = i + 1;
    }
    out
}

/// Sets the contrast of the first display `id` names: that display's
/// control gets one write of `level` and its reply is the result; no other
/// control is touched. False, with nothing written, when no display matches.
pub fn set_one_contrast<C: DisplayControl>(displays: &mut Vec<(DisplayInfo, Logged<C>)>, id: &str, level: u16) -> (res: bool)
    ensures
        final(displays)@.len() == old(displays)@.len(),
        (forall|k: int| !first_match(old(displays)@, id@, k)) ==> !res && final(displays)@ == old(displays)@,
        forall|k: int|
            #[trigger] first_match(old(displays)@, id@, k) ==> {
                &&& wrote_contrast(old(displays)@[k].1, final(displays)@[k].1, level)
                &&& res == final(displays)@[k].1.last_reply()
                &&& final(displays)@[k].0 == old(displays)@[k].0
                &&& forall|j: int| 0 <= j < old(displays)@.len() && j != k ==> final(displays)@[j] == old(displays)@[j]
            },
{
    let ghost orig = displays@;
    let mut i: usize = 0;
    while i < displays.len()
        invariant
            displays@ == orig,
            orig == old(displays)@,
            i <= orig.len(),
            forall|j: int| 0 <= j < i ==> !display_matches(#[trigger] orig[j].0.id@, orig[j].0.name@, id@),
        decreases orig.len() - i,
    {
        if matches_display(&displays[i].0, id) {
            assert(first_match(orig, id@, i as int));
            let (info, mut ctrl) = displays.remove(i);
            let r = ctrl.set_contrast(level);
            displays.insert(i, (info, ctrl));
            assert(displays@ =~= orig.update(i as int, displays@[i as int]));
            assert forall|k: int| #[trigger] first_match(orig, id@, k) implies k == i by {
                if k < i {
                    assert(!display_matches(orig[k].0.id@, orig[k].0.name@, id@));
                }
                if k > i {
                    assert(!display_matches(orig[i as int].0.id@, orig[i as int].0.name@, id@));
                }
            }
            return r;
        }
        i = i + 1;
    }
    false
}

/// Sets the contrast of every display: each control gets one write of
/// `level`, in order; the result is (id, reply) for each.
pub fn set_all_contrast<C: DisplayControl>(displays: &mut Vec<(DisplayInfo, Logged<C>)>, level: u16) -> (res: Vec<(String, bool)>)
    ensures
        final(displays)@.len() == old(displays)@.len(),
        res@.len() == old(displays)@.len(),
        forall|i: int|
            0 <= i < res@.len() ==> {
                &&& (#[trigger] res@[i]).0@ == old(displays)@[i].0.id@
                &&& final(displays)@[i].0 == old(displays)@[i].0
                &&& wrote_contrast(old(displays)@[i].1, final(displays)@[i].1, level)
                &&& res@[i].1 == final(displays)@[i].1.last_reply()
            },
{
    let ghost orig = displays@;
    let mut out: Vec<(String, bool)> = Vec::new();
    let mut i: usize = 0;
    while i < displays.len()
        invariant
            orig == old(displays)@,
            displays@.len() == orig.len(),
            i <= orig.len(),
            out@.len() == i,
            forall|j: int| i <= j < orig.len() ==> displays@[j] == orig[j],
            forall|j: int|
                0 <= j < i ==> {
                    &&& (#[trigger] out@[j]).0@ == orig[j].0.id@
                    &&& displays@[j].0 == orig[j].0
                    &&& wrote_contrast(orig[j].1, displays@[j].1, level)
                    &&& out@[j].1 == displays@[j].1.last_reply()
                },
        decreases orig.len() - i,
    {
        let ghost before = displays@;
        let (info, mut ctrl) = displays.remove(i);
        let ok = ctrl.set_contrast(level);
        out.push((info.id.clone(), ok));
        displays.insert(i, (info, ctrl));
        assert(displays@ =~= before.update(i as int, displays@[i as int]));
        i = i + 1;
    }
    out
}

} // verus!
