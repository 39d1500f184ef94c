//! The crash log: when it is trimmed and where, the debug-log tail a panic
//! record embeds, the panic record itself, and the summary of a macOS crash
//! report.
use vstd::prelude::*;

use crate::json::{
    compact_json, field, field_of, field_text, field_u64, get_field, json_compact, parse_json,
    parsed_json, str_view, u64_view, JsonValue,
};
use crate::stable_sort::{insertion_sorted, key_order, key_views, stable_sort_by_key, SortKey};
use crate::text::{chars_of, decimal, lines, lines_of, string_from_chars, u64_to_decimal};

verus! {

/// The crash log is trimmed once it grows past this many bytes.
pub const MAX_CRASH_LOG_SIZE: u64 = 2097152;

/// Whether a crash log of `size` bytes is trimmed before the next append.
pub fn needs_rotation(size: u64) -> (res: bool)
    ensures
        res == (size > MAX_CRASH_LOG_SIZE),
{
    size > MAX_CRASH_LOG_SIZE
}

/// An entry marker (ten '=' bytes) starts at `at`.
pub open spec fn marker_at(b: Seq<u8>, at: int) -> bool {
    0 <= at && at + 10 <= b.len() && forall|k: int| 0 <= k < 10 ==> #[trigger] b[at + k] == 0x3du8
}

/// An entry footer's word: " END" follows the marker at `at`.
pub open spec fn footer_word_at(b: Seq<u8>, at: int) -> bool {
    at + 14 <= b.len() && b[at + 10] == 0x20u8 && b[at + 11] == 0x45u8 && b[at + 12] == 0x4eu8
        && b[at + 13] == 0x44u8
}

/// An entry header starts at `at`: a marker at the start of a line that is
/// not an entry's "END" footer.
pub open spec fn header_at(b: Seq<u8>, at: int) -> bool {
    marker_at(b, at) && (at == 0 || b[at - 1] == 0x0au8) && !footer_word_at(b, at)
}

/// `position` in `b` is the start of a UTF-8 character (or the end).
pub open spec fn is_char_boundary(b: Seq<u8>, position: int) -> bool {
    position == b.len() || (0 <= position < b.len() && (b[position] < 0x80 || b[position] >= 0xc0))
}

/// `p` is the first character boundary at or after `from`.
pub open spec fn next_boundary(b: Seq<u8>, from: int, p: int) -> bool {
    from <= p <= b.len() && is_char_boundary(b, p) && forall|q: int|
        from <= q < p ==> !is_char_boundary(b, q)
}

/// Where a trimmed log starts: the first entry header at or after the
/// middle byte, so that the log keeps whole records only; when no header
/// follows, the first character boundary at or after the middle.
pub open spec fn rotation_cut(b: Seq<u8>, at: int) -> bool {
    let half: int = (b.len() / 2) as int;
    (half <= at && header_at(b, at) && forall|q: int| half <= q < at ==> !header_at(b, q)) || (
    next_boundary(b, half, at) && forall|q: int| half <= q ==> !header_at(b, q))
}

fn marker_at_exec(b: &[u8], at: usize) -> (res: bool)
    requires
        at + 10 <= b@.len(),
    ensures
        res == marker_at(b@, at as int),
{
    let mut k: usize = 0;
    assert(b.len() == b@.len());
    while k < 10
        invariant
            at + 10 <= b@.len(),
            b@.len() == b.len(),
            k <= 10,
            forall|m: int| 0 <= m < k ==> #[trigger] b@[at + m] == 0x3du8,
        decreases 10 - k,
    {
        if b[at + k] != 0x3du8 {
            return false;
        }
        k = k + 1;
    }
    true
}

fn header_at_exec(b: &[u8], at: usize) -> (res: bool)
    requires
        at + 10 <= b@.len(),
    ensures
        res == header_at(b@, at as int),
{
    if !marker_at_exec(b, at) {
        return false;
    }
    if at > 0 && b[at - 1] != 0x0au8 {
        return false;
    }
    let footer = b.len() - at >= 14 && b[at + 10] == 0x20u8 && b[at + 11] == 0x45u8 && b[at
        + 12] == 0x4eu8 && b[at + 13] == 0x44u8;
    !footer
}

/// Finds where a trimmed crash log starts (the content keeps its tail from
/// that byte): the first entry header after the middle, else the first
/// character boundary after it. The cut is always a character boundary.
pub fn rotation_start(content: &[u8]) -> (res: usize)
    ensures
        rotation_cut(content@, res as int),
        is_char_boundary(content@, res as int),
        res <= content@.len(),
{
    let half = content.len() / 2;
    let mut at = half;
    while at <= content.len() && content.len() - at >= 10
        invariant
            half == content@.len() / 2,
            half <= at,
            forall|q: int| half <= q < at ==> !header_at(content@, q),
        decreases content.len() - at,
    {
        if header_at_exec(content, at) {
            assert(content@[at + 0] == 0x3du8);
            return at;
        }
        at = at + 1;
    }
    assert forall|q: int| half <= q implies !header_at(content@, q) by {
        if q >= at {
            assert(!marker_at(content@, q));
        }
    }
    let mut p = half;
    while p < content.len() && content[p] >= 0x80u8 && content[p] < 0xc0u8
        invariant
            half <= p <= content@.len(),
            forall|q: int| half <= q < p ==> !is_char_boundary(content@, q),
        decreases content.len() - p,
    {
        p = p + 1;
    }
    p
}

/// Lines joined with '\n'.
pub open spec fn join_lines(ls: Seq<Seq<char>>) -> Seq<char>
    decreases ls.len(),
{
    if ls.len() == 0 {
        Seq::empty()
    } else if ls.len() == 1 {
        ls[0]
    } else {
        join_lines(ls.drop_last()) + seq!['\n'] + ls.last()
    }
}

/// The last `n` lines of a text, in their order, joined with '\n'.
pub open spec fn tail_text(text: Seq<char>, n: nat) -> Seq<char> {
    let ls = lines(text);
    let k: int = if n < ls.len() {
        n as int
    } else {
        ls.len() as int
    };
    join_lines(ls.subrange(ls.len() - k, ls.len() as int))
}

/// The last `n` lines of the debug log, for a panic record.
pub fn tail_lines(text: &str, n: usize) -> (res: String)
    ensures
        res@ == tail_text(text@, n as nat),
{
    let cs = chars_of(text);
    let ls = lines_of(cs.as_slice());
    let ghost lv = ls@.map_values(|l: Vec<char>| l@);
    let k: usize = if n < ls.len() {
        n
    } else {
        ls.len()
    };
    let start = ls.len() - k;
    let mut out: Vec<char> = Vec::new();
    let mut i = start;
    assert(lv.subrange(start as int, start as int) =~= Seq::<Seq<char>>::empty());
    while i < ls.len()
        invariant
            lv == ls@.map_values(|l: Vec<char>| l@),
            start <= i <= lv.len(),
            out@ == join_lines(lv.subrange(start as int, i as int)),
        decreases ls.len() - i,
    {
        let ghost before = out@;
        let line = ls[i].as_slice();
        if i > start {
            out.push('\n');
        }
        let mut j: usize = 0;
        let ghost mid = out@;
        while j < line.len()
            invariant
                j <= line@.len(),
                out@ == mid + line@.subrange(0, j as int),
            decreases line.len() - j,
        {
            out.push(line[j]);
            j = j + 1;
            assert(out@ =~= mid + line@.subrange(0, j as int));
        }
        proof {
            let s = lv.subrange(start as int, i + 1);
            assert(s.drop_last() =~= lv.subrange(start as int, i as int));
            assert(s.last() == line@);
            assert(line@.subrange(0, line@.len() as int) =~= line@);
            if i == start {
                assert(out@ =~= line@);
            } else {
                assert(out@ =~= before + seq!['\n'] + line@);
            }
        }
        i = i + 1;
    }
    string_from_chars(out.as_slice())
}

/// What stands in a record for a file that could not be read.
pub open spec fn unavailable() -> Seq<char> {
    "<unavailable>"@
}

/// The debug-log tail a panic record embeds: the last `n` lines, or
/// "<unavailable>" when the log could not be read.
pub fn debug_log_tail_of(content: Option<&str>, n: usize) -> (res: String)
    ensures
        res@ == match content {
            Some(t) => tail_text(t@, n as nat),
            None => unavailable(),
        },
{
    match content {
        Some(t) => tail_lines(t, n),
        None => String::from_str("<unavailable>"),
    }
}

/// The preferences snapshot a panic record embeds: the file verbatim, or
/// "<unavailable>" when it could not be read.
pub fn preferences_snapshot_of(content: Option<String>) -> (res: String)
    ensures
        res@ == match content {
            Some(t) => t@,
            None => unavailable(),
        },
{
    match content {
        Some(t) => t,
        None => String::from_str("<unavailable>"),
    }
}

/// What a panic record holds.
pub struct PanicDetails {
    pub timestamp: String,
    pub app_version: String,
    pub build_date: String,
    pub is_dev_build: String,
    pub os: String,
    pub arch: String,
    pub thread: String,
    pub location: String,
    pub payload: String,
    pub backtrace: String,
    pub log_tail: String,
    pub preferences: String,
}

/// The text of a panic record, between its section markers.
pub open spec fn panic_entry_text(d: PanicDetails) -> Seq<char> {
    "\n========== RUST PANIC ==========\ntimestamp: "@ + d.timestamp@ + "\napp_version: "@
        + d.app_version@ + "\nbuild_date: "@ + d.build_date@ + "\nis_dev_build: "@
        + d.is_dev_build@ + "\nos: "@ + d.os@ + " "@ + d.arch@ + "\nthread: "@ + d.thread@
        + "\nlocation: "@ + d.location@ + "\npayload: "@ + d.payload@ + "\n\nbacktrace:\n"@
        + d.backtrace@ + "\n\nrecent debug.log tail (last 80 lines):\n"@ + d.log_tail@
        + "\n\npreferences snapshot:\n"@ + d.preferences@
        + "\n========== END RUST PANIC ==========\n"@
}

/// Formats a panic record.
pub fn panic_entry(d: &PanicDetails) -> (res: String)
    ensures
        res@ == panic_entry_text(*d),
{
    String::from_str("\n========== RUST PANIC ==========\ntimestamp: ").concat(
        d.timestamp.as_str(),
    ).concat("\napp_version: ").concat(d.app_version.as_str()).concat("\nbuild_date: ").concat(
        d.build_date.as_str(),
    ).concat("\nis_dev_build: ").concat(d.is_dev_build.as_str()).concat("\nos: ").concat(
        d.os.as_str(),
    ).concat(" ").concat(d.arch.as_str()).concat("\nthread: ").concat(d.thread.as_str()).concat(
        "\nlocation: ",
    ).concat(d.location.as_str()).concat("\npayload: ").concat(d.payload.as_str()).concat(
        "\n\nbacktrace:\n",
    ).concat(d.backtrace.as_str()).concat("\n\nrecent debug.log tail (last 80 lines):\n").concat(
        d.log_tail.as_str(),
    ).concat("\n\npreferences snapshot:\n").concat(d.preferences.as_str()).concat(
        "\n========== END RUST PANIC ==========\n",
    )
}

/// The header line and the body of a crash report (JSON Lines): the text up
/// to the first '\n' and the text after it; none without a '\n'.
pub open spec fn ips_parts_of(content: Seq<char>) -> Option<(Seq<char>, Seq<char>)> {
    if content.contains('\n') {
        let k = crate::text::find_char(content, '\n');
        Some((content.subrange(0, k), content.subrange(k + 1, content.len() as int)))
    } else {
        None
    }
}

/// Splits a crash report into its header line and its body.
pub fn split_ips(content: &str) -> (res: Option<(String, String)>)
    ensures
        match ips_parts_of(content@) {
            Some((h, b)) => res matches Some((rh, rb)) && rh@ == h && rb@ == b,
            None => res is None,
        },
{
    let cs = chars_of(content);
    proof {
        crate::text::lemma_find_char(cs@, '\n');
    }
    assert(cs@.subrange(0, cs@.len() as int) =~= cs@);
    let k = crate::text::find_char_from(cs.as_slice(), 0, '\n');
    if k >= cs.len() {
        assert(!cs@.contains('\n')) by {
            if cs@.contains('\n') {
                let i = choose|i: int| 0 <= i < cs@.len() && cs@[i] == '\n';
                assert(cs@[i] != '\n');
            }
        }
        return None;
    }
    assert(cs@.contains('\n')) by {
        assert(cs@[k as int] == '\n');
    }
    let h = crate::text::slice_range(cs.as_slice(), 0, k);
    let b = crate::text::slice_range(cs.as_slice(), k + 1, cs.len());
    Some((string_from_chars(h.as_slice()), string_from_chars(b.as_slice())))
}

/// One stack frame of a crash report's faulting thread.
pub struct IpsFrame {
    pub symbol: Option<String>,
    pub symbol_location: Option<u64>,
    pub image_index: Option<u64>,
    pub image_offset: Option<u64>,
}

/// The faulting thread of a crash report, when the report has it.
pub struct IpsThread {
    pub name: Option<String>,
    /// Its frames, when the thread lists them.
    pub frames: Option<Vec<IpsFrame>>,
}

/// The fields of a crash report a summary shows; each is absent when the
/// report lacks it.
pub struct IpsReport {
    pub file_name: Option<String>,
    pub app_version: Option<String>,
    pub build_version: Option<String>,
    pub timestamp: Option<String>,
    pub incident_id: Option<String>,
    pub bug_type: Option<String>,
    pub os_train: Option<String>,
    pub os_build: Option<String>,
    pub cpu_type: Option<String>,
    pub proc_name: Option<String>,
    pub parent_proc: Option<String>,
    pub exception_type: Option<String>,
    pub signal: Option<String>,
    pub termination: Option<String>,
    /// The `asi` object as compact JSON.
    pub asi: Option<String>,
    pub faulting_thread: Option<u64>,
    pub thread: Option<IpsThread>,
}

/// A field's text, or `dflt` when absent.
pub open spec fn or_text(v: Option<String>, dflt: Seq<char>) -> Seq<char> {
    match v {
        Some(s) => s@,
        None => dflt,
    }
}

/// A number, or 0 when absent.
pub open spec fn or_zero(v: Option<u64>) -> nat {
    match v {
        Some(n) => n as nat,
        None => 0,
    }
}

/// A frame index right-aligned in two columns.
pub open spec fn index2(i: nat) -> Seq<char> {
    if i < 10 {
        seq![' '] + decimal(i)
    } else {
        decimal(i)
    }
}

/// One frame line of a crash summary.
pub open spec fn frame_line(i: nat, f: IpsFrame) -> Seq<char> {
    "  "@ + index2(i) + ": "@ + or_text(f.symbol, "<unsymbolicated>"@) + " +"@ + decimal(
        or_zero(f.symbol_location),
    ) + "  (imageIndex="@ + decimal(or_zero(f.image_index)) + ", imageOffset="@ + decimal(
        or_zero(f.image_offset),
    ) + ")\n"@
}

/// The frame lines of the first `n` frames.
pub open spec fn frame_lines(frames: Seq<IpsFrame>, n: nat) -> Seq<char>
    decreases n,
{
    if n == 0 {
        Seq::empty()
    } else {
        frame_lines(frames, (n - 1) as nat) + frame_line((n - 1) as nat, frames[n - 1])
    }
}

/// The frames part of a summary: the top 40 frames of the faulting thread.
pub open spec fn frames_text(t: Option<IpsThread>) -> Seq<char> {
    match t {
        Some(th) => match th.frames {
            Some(fs) => frame_lines(
                fs@,
                if fs@.len() < 40 {
                    fs@.len()
                } else {
                    40
                },
            ),
            None => Seq::empty(),
        },
        None => Seq::empty(),
    }
}

/// The faulting thread's name in a summary.
pub open spec fn thread_name_text(t: Option<IpsThread>) -> Seq<char> {
    match t {
        Some(th) => or_text(th.name, "<unnamed>"@),
        None => "<missing>"@,
    }
}

/// The summary block of a macOS crash report.
pub open spec fn ips_summary_text(r: IpsReport) -> Seq<char> {
    "\n========== MACOS NATIVE CRASH ==========\nsource_file: "@ + or_text(r.file_name, "?"@)
        + "\nincident_id: "@ + or_text(r.incident_id, "?"@) + "\nbug_type: "@ + or_text(
        r.bug_type,
        "?"@,
    ) + "\ntimestamp: "@ + or_text(r.timestamp, "?"@) + "\ncrashed_app_version: "@ + or_text(
        r.app_version,
        "?"@,
    ) + "\ncrashed_bundle_version: "@ + or_text(r.build_version, "?"@) + "\nproc: "@ + or_text(
        r.proc_name,
        "?"@,
    ) + "  parent: "@ + or_text(r.parent_proc, "?"@) + "\nos: macOS "@ + or_text(
        r.os_train,
        "?"@,
    ) + " ("@ + or_text(r.os_build, "?"@) + ")  cpu: "@ + or_text(r.cpu_type, "?"@)
        + "\nexception_type: "@ + or_text(r.exception_type, "?"@) + "\nsignal: "@ + or_text(
        r.signal,
        "?"@,
    ) + "\ntermination: "@ + or_text(r.termination, "?"@) + "\nasi: "@ + or_text(r.asi, "{}"@)
        + "\nfaulting_thread: '"@ + thread_name_text(r.thread) + "' (idx="@ + decimal(
        or_zero(r.faulting_thread),
    ) + ")\nframes (top 40):\n"@ + frames_text(r.thread)
        + "========== END MACOS NATIVE CRASH ==========\n"@
}

fn text_or(v: &Option<String>, dflt: &str) -> (res: String)
    ensures
        res@ == or_text(*v, dflt@),
{
    match v {
        Some(s) => s.clone(),
        None => String::from_str(dflt),
    }
}

fn number_or_zero(v: Option<u64>) -> (res: String)
    ensures
        res@ == decimal(or_zero(v)),
{
    match v {
        Some(n) => u64_to_decimal(n),
        None => u64_to_decimal(0),
    }
}

fn frame_text(i: usize, f: &IpsFrame) -> (res: String)
    ensures
        res@ == frame_line(i as nat, *f),
{
    let idx = if i < 10 {
        String::from_str(" ").concat(u64_to_decimal(i as u64).as_str())
    } else {
        u64_to_decimal(i as u64)
    };
    proof {
        reveal_strlit(" ");
    }
    assert(idx@ =~= index2(i as nat));
    String::from_str("  ").concat(idx.as_str()).concat(": ").concat(
        text_or(&f.symbol, "<unsymbolicated>").as_str(),
    ).concat(" +").concat(number_or_zero(f.symbol_location).as_str()).concat(
        "  (imageIndex=",
    ).concat(number_or_zero(f.image_index).as_str()).concat(", imageOffset=").concat(
        number_or_zero(f.image_offset).as_str(),
    ).concat(")\n")
}

fn frames_of(t: &Option<IpsThread>) -> (res: String)
    ensures
        res@ == frames_text(*t),
{
    match t {
        Some(th) => match &th.frames {
            Some(fs) => {
                let n: usize = if fs.len() < 40 {
                    fs.len()
                } else {
                    40
                };
                let mut out = String::new();
                let mut i: usize = 0;
                while i < n
                    invariant
                        n <= fs@.len(),
                        i <= n,
                        out@ == frame_lines(fs@, i as nat),
                    decreases n - i,
                {
                    let line = frame_text(i, &fs[i]);
                    out = out.concat(line.as_str());
                    i = i + 1;
                }
                out
            },
            None => String::new(),
        },
        None => String::new(),
    }
}

/// Formats the summary block of a macOS crash report.
pub fn ips_summary(r: &IpsReport) -> (res: String)
    ensures
        res@ == ips_summary_text(*r),
{
    let thread_name = match &r.thread {
        Some(th) => text_or(&th.name, "<unnamed>"),
        None => String::from_str("<missing>"),
    };
    String::from_str("\n========== MACOS NATIVE CRASH ==========\nsource_file: ").concat(
        text_or(&r.file_name, "?").as_str(),
    ).concat("\nincident_id: ").concat(text_or(&r.incident_id, "?").as_str()).concat(
        "\nbug_type: ",
    ).concat(text_or(&r.bug_type, "?").as_str()).concat("\ntimestamp: ").concat(
        text_or(&r.timestamp, "?").as_str(),
    ).concat("\ncrashed_app_version: ").concat(text_or(&r.app_version, "?").as_str()).concat(
        "\ncrashed_bundle_version: ",
    ).concat(text_or(&r.build_version, "?").as_str()).concat("\nproc: ").concat(
        text_or(&r.proc_name, "?").as_str(),
    ).concat("  parent: ").concat(text_or(&r.parent_proc, "?").as_str()).concat(
        "\nos: macOS ",
    ).concat(text_or(&r.os_train, "?").as_str()).concat(" (").concat(
        text_or(&r.os_build, "?").as_str(),
    ).concat(")  cpu: ").concat(text_or(&r.cpu_type, "?").as_str()).concat(
        "\nexception_type: ",
    ).concat(text_or(&r.exception_type, "?").as_str()).concat("\nsignal: ").concat(
        text_or(&r.signal, "?").as_str(),
    ).concat("\ntermination: ").concat(text_or(&r.termination, "?").as_str()).concat(
        "\nasi: ",
    ).concat(text_or(&r.asi, "{}").as_str()).concat("\nfaulting_thread: '").concat(
        thread_name.as_str(),
    ).concat("' (idx=").concat(number_or_zero(r.faulting_thread).as_str()).concat(
        ")\nframes (top 40):\n",
    ).concat(frames_of(&r.thread).as_str()).concat(
        "========== END MACOS NATIVE CRASH ==========\n",
    )
}

// ------------------------------------------------------------------ reading a crash report

/// The view of an optional text.
pub open spec fn opt_text(v: Option<String>) -> Option<Seq<char>> {
    match v {
        Some(s) => Some(s@),
        None => None,
    }
}

/// A frame as read from its JSON object: symbol, symbol offset, image index
/// and image offset, each absent when missing or of another kind.
pub open spec fn frame_matches(f: IpsFrame, v: JsonValue) -> bool {
    &&& opt_text(f.symbol) == str_view(field(v, "symbol"@))
    &&& f.symbol_location == u64_view(field(v, "symbolLocation"@))
    &&& f.image_index == u64_view(field(v, "imageIndex"@))
    &&& f.image_offset == u64_view(field(v, "imageOffset"@))
}

/// A thread's frames as read from its `frames` member: all of them when it
/// is an array, none otherwise.
pub open spec fn frames_match(fr: Option<Vec<IpsFrame>>, v: Option<JsonValue>) -> bool {
    match v {
        Some(JsonValue::Array(items)) => match fr {
            Some(fs) => fs@.len() == items@.len() && forall|i: int|
                0 <= i < fs@.len() ==> frame_matches(#[trigger] fs@[i], items@[i]),
            None => false,
        },
        _ => fr is None,
    }
}

/// The faulting thread's JSON object: entry `faultingThread` (0 when
/// missing) of the `threads` array, when there is one.
pub open spec fn faulting_thread_value(body: JsonValue) -> Option<JsonValue> {
    let idx = or_zero(u64_view(field(body, "faultingThread"@)));
    match field(body, "threads"@) {
        Some(JsonValue::Array(ts)) => if idx < ts@.len() {
            Some(ts@[idx as int])
        } else {
            None
        },
        _ => None,
    }
}

/// The faulting thread as read: its name and its frames.
pub open spec fn thread_matches(t: Option<IpsThread>, v: Option<JsonValue>) -> bool {
    match (t, v) {
        (Some(th), Some(tv)) => opt_text(th.name) == str_view(field(tv, "name"@)) && frames_match(
            th.frames,
            field(tv, "frames"@),
        ),
        (None, None) => true,
        _ => false,
    }
}

/// A report holds what a crash report's header and body say: the header's
/// versions, time, incident and bug type; the body's OS, CPU, processes,
/// exception, termination, `asi` (as compact JSON), faulting thread index
/// and that thread; and the file name.
pub open spec fn report_matches(r: IpsReport, header: JsonValue, body: JsonValue, file_name: Option<Seq<char>>) -> bool {
    &&& opt_text(r.file_name) == file_name
    &&& opt_text(r.app_version) == str_view(field(header, "app_version"@))
    &&& opt_text(r.build_version) == str_view(field(header, "build_version"@))
    &&& opt_text(r.timestamp) == str_view(field(header, "timestamp"@))
    &&& opt_text(r.incident_id) == str_view(field(header, "incident_id"@))
    &&& opt_text(r.bug_type) == str_view(field(header, "bug_type"@))
    &&& opt_text(r.os_train) == str_view(field_of(field(body, "osVersion"@), "train"@))
    &&& opt_text(r.os_build) == str_view(field_of(field(body, "osVersion"@), "build"@))
    &&& opt_text(r.cpu_type) == str_view(field(body, "cpuType"@))
    &&& opt_text(r.proc_name) == str_view(field(body, "procName"@))
    &&& opt_text(r.parent_proc) == str_view(field(body, "parentProc"@))
    &&& opt_text(r.exception_type) == str_view(field_of(field(body, "exception"@), "type"@))
    &&& opt_text(r.signal) == str_view(field_of(field(body, "exception"@), "signal"@))
    &&& opt_text(r.termination) == str_view(field_of(field(body, "termination"@), "indicator"@))
    &&& opt_text(r.asi) == match field(body, "asi"@) {
        Some(v) => Some(json_compact(v)),
        None => None,
    }
    &&& r.faulting_thread == u64_view(field(body, "faultingThread"@))
    &&& thread_matches(r.thread, faulting_thread_value(body))
}

/// The view of an optional file name.
pub open spec fn name_view(n: Option<&str>) -> Option<Seq<char>> {
    match n {
        Some(t) => Some(t@),
        None => None,
    }
}

fn nested_text(v: &JsonValue, outer: &str, inner: &str) -> (res: Option<String>)
    ensures
        opt_text(res) == str_view(field_of(field(*v, outer@), inner@)),
{
    match get_field(v, outer) {
        Some(o) => field_text(o, inner),
        None => None,
    }
}

fn frame_from(v: &JsonValue) -> (f: IpsFrame)
    ensures
        frame_matches(f, *v),
{
    IpsFrame {
        symbol: field_text(v, "symbol"),
        symbol_location: field_u64(v, "symbolLocation"),
        image_index: field_u64(v, "imageIndex"),
        image_offset: field_u64(v, "imageOffset"),
    }
}

fn thread_from(v: &JsonValue) -> (t: IpsThread)
    ensures
        thread_matches(Some(t), Some(*v)),
{
    let frames = match get_field(v, "frames") {
        Some(JsonValue::Array(items)) => {
            let mut out: Vec<IpsFrame> = Vec::new();
            let mut i: usize = 0;
            while i < items.len()
                invariant
                    i <= items@.len(),
                    out@.len() == i,
                    forall|k: int| 0 <= k < i ==> frame_matches(#[trigger] out@[k], items@[k]),
                decreases items.len() - i,
            {
                out.push(frame_from(&items[i]));
                i = i + 1;
            }
            Some(out)
        },
        _ => None,
    };
    IpsThread { name: field_text(v, "name"), frames }
}

/// Reads the fields a summary shows out of a crash report's header and body.
pub fn ips_report_from(header: &JsonValue, body: &JsonValue, file_name: Option<&str>) -> (r: IpsReport)
    ensures
        report_matches(
            r,
            *header,
            *body,
            name_view(file_name),
        ),
{
    let asi = match get_field(body, "asi") {
        Some(v) => Some(compact_json(v)),
        None => None,
    };
    let faulting = field_u64(body, "faultingThread");
    let idx: u64 = match faulting {
        Some(n) => n,
        None => 0,
    };
    let thread = match get_field(body, "threads") {
        Some(JsonValue::Array(ts)) => if (idx as u128) < (ts.len() as u128) {
            Some(thread_from(&ts[idx as usize]))
        } else {
            None
        },
        _ => None,
    };
    IpsReport {
        file_name: match file_name {
            Some(n) => Some(String::from_str(n)),
            None => None,
        },
        app_version: field_text(header, "app_version"),
        build_version: field_text(header, "build_version"),
        timestamp: field_text(header, "timestamp"),
        incident_id: field_text(header, "incident_id"),
        bug_type: field_text(header, "bug_type"),
        os_train: nested_text(body, "osVersion", "train"),
        os_build: nested_text(body, "osVersion", "build"),
        cpu_type: field_text(body, "cpuType"),
        proc_name: field_text(body, "procName"),
        parent_proc: field_text(body, "parentProc"),
        exception_type: nested_text(body, "exception", "type"),
        signal: nested_text(body, "exception", "signal"),
        termination: nested_text(body, "termination", "indicator"),
        asi,
        faulting_thread: faulting,
        thread,
    }
}

/// Summarises a crash report's text (a JSON header line, then the JSON
/// body): none when there is no line break or either part is not one JSON
/// value; otherwise the summary of what the two parts hold.
pub fn summarize_ips_text(content: &str, file_name: Option<&str>) -> (res: Option<String>)
    ensures
        res is Some <==> (ips_parts_of(content@) matches Some((h, b)) && parsed_json(h) is Some
            && parsed_json(b) is Some),
        res matches Some(text) ==> exists|r: IpsReport|
            #[trigger] report_matches(
                r,
                parsed_json(ips_parts_of(content@).unwrap().0).unwrap(),
                parsed_json(ips_parts_of(content@).unwrap().1).unwrap(),
                name_view(file_name),
            ) && text@ == ips_summary_text(r),
{
    let (h, b) = match split_ips(content) {
        Some(p) => p,
        None => {
            return None;
        },
    };
    let header = match parse_json(h.as_str()) {
        Some(v) => v,
        None => {
            return None;
        },
    };
    let body = match parse_json(b.as_str()) {
        Some(v) => v,
        None => {
            return None;
        },
    };
    let r = ips_report_from(&header, &body, file_name);
    let text = ips_summary(&r);
    Some(text)
}

// ------------------------------------------------------------------ crash reports to import

/// A crash report file of this app: named "display-dj-…" with the ".ips"
/// extension.
pub open spec fn is_report_name(n: Seq<char>) -> bool {
    n.len() >= 11 && n.subrange(0, 11) == "display-dj-"@ && n.len() >= 4 && n.subrange(
        n.len() - 4,
        n.len() as int,
    ) == ".ips"@
}

/// Whether a file name is one of this app's crash reports.
pub fn is_report_file_name(name: &str) -> (res: bool)
    ensures
        res == is_report_name(name@),
{
    proof {
        reveal_strlit("display-dj-");
        reveal_strlit(".ips");
    }
    let cs = chars_of(name);
    let n = cs.len();
    if n < 11 {
        return false;
    }
    let pre = crate::text::slice_range(cs.as_slice(), 0, 11);
    let suf = crate::text::slice_range(cs.as_slice(), n - 4, n);
    let p = chars_of("display-dj-");
    let q = chars_of(".ips");
    crate::text::chars_eq(pre.as_slice(), p.as_slice()) && crate::text::chars_eq(suf.as_slice(), q.as_slice())
}

/// Sort key of a crash report: its modification time in seconds.
pub struct SecsKey {
    pub secs: u64,
}

impl SortKey for SecsKey {
    type KeyView = u64;

    open spec fn key_view(&self) -> u64 {
        self.secs
    }

    open spec fn view_lt(a: u64, b: u64) -> bool {
        a < b
    }

    fn lt(&self, other: &Self) -> (r: bool) {
        self.secs < other.secs
    }
}

/// The reports not imported yet, in listing order: (modification time,
/// file name) of each entry with a report name modified after `last`.
pub open spec fn new_reports(entries: Seq<(String, u64)>, last: u64) -> Seq<(u64, String)>
    decreases entries.len(),
{
    if entries.len() == 0 {
        Seq::empty()
    } else {
        let p = new_reports(entries.drop_last(), last);
        let e = entries.last();
        if is_report_name(e.0@) && e.1 > last {
            p.push((e.1, e.0))
        } else {
            p
        }
    }
}

/// The newest modification time among `last` and the given reports.
pub open spec fn newest_time(reports: Seq<(u64, String)>, last: u64) -> u64
    decreases reports.len(),
{
    if reports.len() == 0 {
        last
    } else {
        let m = newest_time(reports.drop_last(), last);
        if reports.last().0 > m {
            reports.last().0
        } else {
            m
        }
    }
}

/// Chooses the crash reports to import from a folder listing (file name,
/// modification time in seconds): this app's reports modified after the
/// last import, oldest first (ties in listing order), and the new newest
/// time to remember.
pub fn crash_reports_to_import(entries: Vec<(String, u64)>, last_imported: u64) -> (res: (Vec<String>, u64))
    ensures
        res.0@ == insertion_sorted(new_reports(entries@, last_imported), key_order::<SecsKey>()).map_values(
            |p: (u64, String)| p.1,
        ),
        res.1 == newest_time(new_reports(entries@, last_imported), last_imported),
{
    let mut keyed: Vec<(SecsKey, String)> = Vec::new();
    let mut newest = last_imported;
    let mut i: usize = 0;
    while i < entries.len()
        invariant
            i <= entries@.len(),
            key_views(keyed@) == new_reports(entries@.subrange(0, i as int), last_imported),
            newest == newest_time(new_reports(entries@.subrange(0, i as int), last_imported), last_imported),
        decreases entries.len() - i,
    {
        proof {
            assert(entries@.subrange(0, i + 1).drop_last() =~= entries@.subrange(0, i as int));
        }
        let name = &entries[i].0;
        let secs = entries[i].1;
        let ghost prev = new_reports(entries@.subrange(0, i as int), last_imported);
        if is_report_file_name(name.as_str()) && secs > last_imported {
            let ghost before = key_views(keyed@);
            assert(prev.push((secs, entries@[i as int].0)).drop_last() =~= prev);
            keyed.push((SecsKey { secs }, name.clone()));
            assert(key_views(keyed@) =~= before.push((secs, entries@[i as int].0)));
            if secs > newest {
                newest = secs;
            }
        }
        i = i + 1;
    }
    assert(entries@.subrange(0, i as int) =~= entries@);
    let sorted = stable_sort_by_key(keyed);
    let ghost sv = key_views(sorted@);
    let mut names: Vec<String> = Vec::new();
    let mut k: usize = 0;
    while k < sorted.len()
        invariant
            k <= sorted@.len(),
            sv == key_views(sorted@),
            names@ == sv.subrange(0, k as int).map_values(|p: (u64, String)| p.1),
        decreases sorted.len() - k,
    {
        names.push(sorted[k].1.clone());
        k = k + 1;
        assert(names@ =~= sv.subrange(0, k as int).map_values(|p: (u64, String)| p.1));
    }
    assert(sv.subrange(0, k as int) =~= sv);
    (names, newest)
}

} // verus!
