//! Display tooling on Linux: which display server runs, the external outputs
//! that xrandr, wlr-randr and swaymsg report, the displays `ddcutil detect`
//! lists, and the choices a brightness change makes there.
use vstd::prelude::*;

use crate::platform::{DisplayInfo, BUILTIN_ID};
use crate::text::{
    before_char, before_char_chars, chars_eq, chars_of, decimal, decode_utf8_lossy, find_char,
    find_char_from, find_from, first_hit, first_occurrence_from, first_token, first_token_of, has_prefix, last_token,
    last_token_of, lemma_find_char, lemma_find_from_suffix, lemma_first_hit_unique, lines,
    lines_of, lowercase, parse_u32_chars, parse_u32_spec, slice_range, str_eq, string_from_chars,
    to_lowercase, trim, trim_chars, trim_start_char, trim_start_char_chars, u64_to_decimal,
    utf8_lossy,
};

verus! {

/// The display server of the session.
#[derive(Clone, Copy, Debug, PartialEq, Eq, Structural)]
pub enum DisplayServer {
    X11,
    Wayland,
    Unknown,
}

/// The display server: `XDG_SESSION_TYPE` decides when it names wayland or
/// x11 (ignoring case); otherwise a set `WAYLAND_DISPLAY` means Wayland and a
/// set `DISPLAY` means X11.
pub open spec fn display_server_of(session: Option<String>, has_wayland_display: bool, has_display: bool) -> DisplayServer {
    match session {
        Some(s) if lowercase(s@) == "wayland"@ => DisplayServer::Wayland,
        Some(s) if lowercase(s@) == "x11"@ => DisplayServer::X11,
        _ => if has_wayland_display {
            DisplayServer::Wayland
        } else if has_display {
            DisplayServer::X11
        } else {
            DisplayServer::Unknown
        },
    }
}

/// Decides the display server from the session environment.
pub fn detect_display_server(session: &Option<String>, has_wayland_display: bool, has_display: bool) -> (res: DisplayServer)
    ensures
        res == display_server_of(*session, has_wayland_display, has_display),
{
    match session {
        Some(s) => {
            let low = to_lowercase(s.as_str());
            if str_eq(low.as_str(), "wayland") {
                return DisplayServer::Wayland;
            }
            if str_eq(low.as_str(), "x11") {
                return DisplayServer::X11;
            }
        },
        None => {},
    }
    if has_wayland_display {
        DisplayServer::Wayland
    } else if has_display {
        DisplayServer::X11
    } else {
        DisplayServer::Unknown
    }
}

/// Laptop panels: embedded DisplayPort and LVDS outputs.
pub open spec fn is_builtin_output(name: Seq<char>) -> bool {
    has_prefix(name, "eDP"@) || has_prefix(name, "LVDS"@)
}

/// Whether an output name is a laptop panel.
pub fn is_builtin_output_name(name: &[char]) -> (res: bool)
    ensures
        res == is_builtin_output(name@),
{
    proof {
        reveal_strlit("eDP");
        reveal_strlit("LVDS");
    }
    let edp = chars_of("eDP");
    let lvds = chars_of("LVDS");
    starts_with(name, edp.as_slice()) || starts_with(name, lvds.as_slice())
}

fn starts_with(s: &[char], p: &[char]) -> (res: bool)
    ensures
        res == has_prefix(s@, p@),
{
    if p.len() > s.len() {
        return false;
    }
    let head = slice_range(s, 0, p.len());
    chars_eq(head.as_slice(), p)
}

/// A token kept as an external output name: present and not a laptop panel.
pub open spec fn external_name(tok: Option<Seq<char>>) -> Option<Seq<char>> {
    match tok {
        Some(n) => if is_builtin_output(n) {
            None
        } else {
            Some(n)
        },
        None => None,
    }
}

/// The present values, in order.
pub open spec fn somes(s: Seq<Option<Seq<char>>>) -> Seq<Seq<char>>
    decreases s.len(),
{
    if s.len() == 0 {
        Seq::empty()
    } else {
        let p = somes(s.drop_last());
        match s.last() {
            Some(x) => p.push(x),
            None => p,
        }
    }
}

/// Views of strings.
pub open spec fn string_views(v: Seq<String>) -> Seq<Seq<char>> {
    v.map_values(|s: String| s@)
}

fn push_some(out: &mut Vec<String>, item: Option<Vec<char>>, Ghost(prefix): Ghost<Seq<Option<Seq<char>>>>, Ghost(x): Ghost<Option<Seq<char>>>)
    requires
        string_views(old(out)@) == somes(prefix),
        match x {
            Some(v) => item matches Some(w) && w@ == v,
            None => item is None,
        },
    ensures
        string_views(final(out)@) == somes(prefix.push(x)),
{
    assert(prefix.push(x).drop_last() =~= prefix);
    match item {
        Some(w) => {
            let ghost before = string_views(out@);
            out.push(string_from_chars(w.as_slice()));
            assert(string_views(out@) =~= before.push(w@));
        },
        None => {},
    }
}

/// The external outputs in `xrandr --listactivemonitors` output: after the
/// header line, the last word of each line, laptop panels left out.
pub open spec fn xrandr_outputs_of(text: Seq<char>) -> Seq<Seq<char>> {
    let ls = lines(text);
    let body = if ls.len() == 0 {
        ls
    } else {
        ls.drop_first()
    };
    somes(body.map_values(|l: Seq<char>| xrandr_candidate(l)))
}

/// An xrandr monitor line's output: its last word, unless a laptop panel.
pub open spec fn xrandr_candidate(l: Seq<char>) -> Option<Seq<char>> {
    external_name(last_token(l))
}

fn external_token(tok: Option<Vec<char>>) -> (res: Option<Vec<char>>)
    ensures
        match external_name(
            match tok {
                Some(v) => Some(v@),
                None => None,
            },
        ) {
            Some(n) => res matches Some(w) && w@ == n,
            None => res is None,
        },
{
    match tok {
        Some(v) => {
            if is_builtin_output_name(v.as_slice()) {
                None
            } else {
                Some(v)
            }
        },
        None => None,
    }
}

/// Reads the external output names out of `xrandr --listactivemonitors`.
pub fn parse_xrandr_outputs(stdout: &[u8]) -> (res: Vec<String>)
    ensures
        string_views(res@) == xrandr_outputs_of(utf8_lossy(stdout@)),
{
    let text = decode_utf8_lossy(stdout);
    let cs = chars_of(text.as_str());
    let ls = lines_of(cs.as_slice());
    let ghost lv = ls@.map_values(|l: Vec<char>| l@);
    let mut out: Vec<String> = Vec::new();
    if ls.len() == 0 {
        assert(xrandr_outputs_of(utf8_lossy(stdout@)) =~= Seq::<Seq<char>>::empty());
        return out;
    }
    let mut i: usize = 1;
    assert(lv.subrange(1, 1).map_values(|l: Seq<char>| xrandr_candidate(l)) =~= Seq::<
        Option<Seq<char>>,
    >::empty());
    while i < ls.len()
        invariant
            lv == ls@.map_values(|l: Vec<char>| l@),
            1 <= i <= lv.len(),
            string_views(out@) == somes(
                lv.subrange(1, i as int).map_values(|l: Seq<char>| xrandr_candidate(l)),
            ),
        decreases ls.len() - i,
    {
        let ghost prefix = lv.subrange(1, i as int).map_values(|l: Seq<char>| xrandr_candidate(l));
        let tok = last_token_of(ls[i].as_slice());
        let item = external_token(tok);
        push_some(&mut out, item, Ghost(prefix), Ghost(xrandr_candidate(lv[i as int])));
        assert(lv.subrange(1, i + 1).map_values(|l: Seq<char>| xrandr_candidate(l)) =~= prefix.push(
            xrandr_candidate(lv[i as int]),
        ));
        i = i + 1;
    }
    assert(lv.subrange(1, lv.len() as int) =~= lv.drop_first());
    out
}

/// A wlr-randr line that names an output: not indented and not empty; its
/// first word, unless a laptop panel.
pub open spec fn wlr_candidate(l: Seq<char>) -> Option<Seq<char>> {
    if l.len() > 0 && l[0] != ' ' {
        external_name(first_token(l))
    } else {
        None
    }
}

/// The external outputs in `wlr-randr` output.
pub open spec fn wlr_outputs_of(text: Seq<char>) -> Seq<Seq<char>> {
    somes(lines(text).map_values(|l: Seq<char>| wlr_candidate(l)))
}

/// Reads the external output names out of `wlr-randr` output.
pub fn parse_wlr_randr_outputs(stdout: &[u8]) -> (res: Vec<String>)
    ensures
        string_views(res@) == wlr_outputs_of(utf8_lossy(stdout@)),
{
    let text = decode_utf8_lossy(stdout);
    let cs = chars_of(text.as_str());
    let ls = lines_of(cs.as_slice());
    let ghost lv = ls@.map_values(|l: Vec<char>| l@);
    let mut out: Vec<String> = Vec::new();
    let mut i: usize = 0;
    assert(lv.subrange(0, 0).map_values(|l: Seq<char>| wlr_candidate(l)) =~= Seq::<
        Option<Seq<char>>,
    >::empty());
    while i < ls.len()
        invariant
            lv == ls@.map_values(|l: Vec<char>| l@),
            i <= lv.len(),
            string_views(out@) == somes(
                lv.subrange(0, i as int).map_values(|l: Seq<char>| wlr_candidate(l)),
            ),
        decreases ls.len() - i,
    {
        let ghost prefix = lv.subrange(0, i as int).map_values(|l: Seq<char>| wlr_candidate(l));
        let line = ls[i].as_slice();
        let item = if line.len() > 0 && line[0] != ' ' {
            external_token(first_token_of(line))
        } else {
            None
        };
        push_some(&mut out, item, Ghost(prefix), Ghost(wlr_candidate(lv[i as int])));
        assert(lv.subrange(0, i + 1).map_values(|l: Seq<char>| wlr_candidate(l)) =~= prefix.push(
            wlr_candidate(lv[i as int]),
        ));
        i = i + 1;
    }
    assert(lv.subrange(0, lv.len() as int) =~= lv);
    out
}

/// The `"name"` key of swaymsg's JSON.
pub open spec fn name_key() -> Seq<char> {
    seq!['"', 'n', 'a', 'm', 'e', '"']
}

/// The pieces of `s` between occurrences of the `"name"` key (what
/// `s.split("\"name\"")` yields).
pub open spec fn name_pieces(s: Seq<char>) -> Seq<Seq<char>>
    decreases s.len(),
{
    if exists|at: int| first_hit(s, name_key(), at) {
        let at = choose|at: int| first_hit(s, name_key(), at);
        seq![s.subrange(0, at)] + name_pieces(s.subrange(at + 6, s.len() as int))
    } else {
        seq![s]
    }
}

/// The output a swaymsg piece names: after a ':' and blanks and quotes, the
/// text up to the next quote, unless empty or a laptop panel.
pub open spec fn sway_candidate(p: Seq<char>) -> Option<Seq<char>> {
    if p.len() > 0 && p[0] == ':' {
        let rest = trim_start_char(trim(p.subrange(1, p.len() as int)), '"');
        let name = before_char(rest, '"');
        if is_builtin_output(name) || name.len() == 0 {
            None
        } else {
            Some(name)
        }
    } else {
        None
    }
}

/// The external outputs in `swaymsg -t get_outputs -r` output: for each
/// `"name"` key, its string value.
pub open spec fn sway_outputs_of(text: Seq<char>) -> Seq<Seq<char>> {
    somes(name_pieces(text).drop_first().map_values(|p: Seq<char>| sway_candidate(p)))
}

fn sway_candidate_of(p: &[char]) -> (res: Option<Vec<char>>)
    ensures
        match sway_candidate(p@) {
            Some(n) => res matches Some(w) && w@ == n,
            None => res is None,
        },
{
    if p.len() > 0 && p[0] == ':' {
        let after = slice_range(p, 1, p.len());
        let t = trim_chars(after.as_slice());
        let rest = trim_start_char_chars(t.as_slice(), '"');
        let name = before_char_chars(rest.as_slice(), '"');
        if is_builtin_output_name(name.as_slice()) || name.len() == 0 {
            None
        } else {
            Some(name)
        }
    } else {
        None
    }
}

/// One step of splitting at the `"name"` key, from the result of `find_from`.
proof fn lemma_name_pieces_step(s: Seq<char>, pos: int, k: int)
    requires
        0 <= pos <= s.len(),
        first_occurrence_from(s, name_key(), pos, k),
        k <= s.len(),
    ensures
        k < s.len() ==> k + 6 <= s.len() && name_pieces(s.subrange(pos, s.len() as int)) == seq![
            s.subrange(pos, k),
        ] + name_pieces(s.subrange(k + 6, s.len() as int)),
        k >= s.len() ==> name_pieces(s.subrange(pos, s.len() as int)) == seq![
            s.subrange(pos, s.len() as int),
        ],
{
    let rest = s.subrange(pos, s.len() as int);
    lemma_find_from_suffix(s, name_key(), pos, k);
    if k < s.len() {
        let at = k - pos;
        assert(first_hit(rest, name_key(), at));
        let c = choose|a: int| first_hit(rest, name_key(), a);
        lemma_first_hit_unique(rest, name_key(), at, c);
        assert(rest.subrange(at + 6, rest.len() as int) =~= s.subrange(k + 6, s.len() as int));
        assert(rest.subrange(0, at) =~= s.subrange(pos, k));
    }
}

/// Reads the external output names out of `swaymsg -t get_outputs -r`.
pub fn parse_sway_outputs(stdout: &[u8]) -> (res: Vec<String>)
    ensures
        string_views(res@) == sway_outputs_of(utf8_lossy(stdout@)),
{
    proof {
        reveal_strlit("\"name\"");
    }
    let text = decode_utf8_lossy(stdout);
    let cs = chars_of(text.as_str());
    let key = chars_of("\"name\"");
    assert(key@ =~= name_key());
    let mut out: Vec<String> = Vec::new();
    let mut pos: usize = 0;
    let mut first = true;
    let ghost mut done: Seq<Seq<char>> = Seq::empty();
    assert(cs@.subrange(0, cs@.len() as int) =~= cs@);
    loop
        invariant
            key@ == name_key(),
            cs@ == utf8_lossy(stdout@),
            pos <= cs@.len(),
            name_pieces(cs@) == done + name_pieces(cs@.subrange(pos as int, cs@.len() as int)),
            first <==> done.len() == 0,
            first ==> pos == 0,
            done.len() > 0 ==> string_views(out@) == somes(
                done.drop_first().map_values(|p: Seq<char>| sway_candidate(p)),
            ),
            done.len() == 0 ==> out@.len() == 0,
        decreases cs@.len() + 1 - pos,
    {
        let k = find_from(cs.as_slice(), key.as_slice(), pos);
        proof {
            lemma_name_pieces_step(cs@, pos as int, k as int);
        }
        let piece = slice_range(cs.as_slice(), pos, k);
        let ghost old_done = done;
        if !first {
            let ghost prefix = old_done.drop_first().map_values(|p: Seq<char>| sway_candidate(p));
            let item = sway_candidate_of(piece.as_slice());
            push_some(&mut out, item, Ghost(prefix), Ghost(sway_candidate(piece@)));
            assert(old_done.push(piece@).drop_first() =~= old_done.drop_first().push(piece@));
            assert(old_done.push(piece@).drop_first().map_values(|p: Seq<char>| sway_candidate(p))
                =~= prefix.push(sway_candidate(piece@)));
        } else {
            assert(old_done.push(piece@).drop_first() =~= Seq::<Seq<char>>::empty());
            assert(old_done.push(piece@).drop_first().map_values(|p: Seq<char>| sway_candidate(p))
                =~= Seq::<Option<Seq<char>>>::empty());
        }
        proof {
            done = old_done.push(piece@);
        }
        first = false;
        if k >= cs.len() {
            proof {
                assert(name_pieces(cs@) =~= done);
            }
            return out;
        }
        proof {
            assert(old_done + (seq![piece@] + name_pieces(cs@.subrange(k + 6, cs@.len() as int)))
                =~= done + name_pieces(cs@.subrange(k + 6, cs@.len() as int)));
        }
        pos = k + 6;
    }
}

/// The output of ddcutil display `display_num` (1-based): the name at that
/// position of the external output list (position 0 for display 0).
pub open spec fn output_for_display_of(outputs: Seq<String>, display_num: u32) -> Option<String> {
    let idx: int = if display_num == 0 {
        0
    } else {
        display_num - 1
    };
    if idx < outputs.len() {
        Some(outputs[idx])
    } else {
        None
    }
}

/// Maps a ddcutil display number to its X11 / Wayland output name.
pub fn output_for_display(outputs: &[String], display_num: u32) -> (res: Option<String>)
    ensures
        match output_for_display_of(outputs@, display_num) {
            Some(s) => res matches Some(r) && r@ == s@,
            None => res is None,
        },
{
    let idx: u32 = if display_num == 0 {
        0
    } else {
        display_num - 1
    };
    if (idx as usize) < outputs.len() {
        Some(outputs[idx as usize].clone())
    } else {
        None
    }
}

/// Parser state over `ddcutil detect --brief` lines: the displays finished
/// so far, the number of the display being read, and its name.
pub type DetectState = (Seq<(u32, Seq<char>)>, Option<u32>, Seq<char>);

/// One line of `ddcutil detect --brief`: a "Display N" line finishes the
/// display being read and starts display N, named "External Display N"
/// until a "Monitor:" or "Model:" line names it.
pub open spec fn detect_step(st: DetectState, line: Seq<char>) -> DetectState {
    let l = trim(line);
    let st1: DetectState = if has_prefix(l, "Display "@) {
        let rest = trim(l.subrange(8, l.len() as int));
        let done = match st.1 {
            Some(n) => st.0.push((n, st.2)),
            None => st.0,
        };
        (done, parse_u32_spec(rest), "External Display "@ + rest)
    } else {
        st
    };
    if has_prefix(l, "Monitor:"@) || has_prefix(l, "Model:"@) {
        let name = trim(l.subrange(find_char(l, ':') + 1, l.len() as int));
        if name.len() > 0 {
            (st1.0, st1.1, name)
        } else {
            st1
        }
    } else {
        st1
    }
}

/// The parser state after these lines.
pub open spec fn detect_fold(ls: Seq<Seq<char>>) -> DetectState
    decreases ls.len(),
{
    if ls.len() == 0 {
        (Seq::empty(), None, Seq::empty())
    } else {
        detect_step(detect_fold(ls.drop_last()), ls.last())
    }
}

/// The displays `ddcutil detect --brief` lists: number and name of each.
pub open spec fn ddcutil_displays_of(text: Seq<char>) -> Seq<(u32, Seq<char>)> {
    let st = detect_fold(lines(text));
    match st.1 {
        Some(n) => st.0.push((n, st.2)),
        None => st.0,
    }
}

/// Views of (number, name) pairs.
pub open spec fn display_views(v: Seq<(u32, String)>) -> Seq<(u32, Seq<char>)> {
    v.map_values(|d: (u32, String)| (d.0, d.1@))
}

/// Reads the displays out of `ddcutil detect --brief` output.
pub fn parse_ddcutil_detect(stdout: &[u8]) -> (res: Vec<(u32, String)>)
    ensures
        display_views(res@) == ddcutil_displays_of(utf8_lossy(stdout@)),
{
    proof {
        reveal_strlit("Display ");
        reveal_strlit("Monitor:");
        reveal_strlit("Model:");
        reveal_strlit("External Display ");
    }
    let text = decode_utf8_lossy(stdout);
    let cs = chars_of(text.as_str());
    let ls = lines_of(cs.as_slice());
    let ghost lv = ls@.map_values(|l: Vec<char>| l@);
    let display_prefix = chars_of("Display ");
    let monitor_prefix = chars_of("Monitor:");
    let model_prefix = chars_of("Model:");
    let mut monitors: Vec<(u32, String)> = Vec::new();
    let mut current_num: Option<u32> = None;
    let mut current_name: Vec<char> = Vec::new();
    let mut i: usize = 0;
    assert(lv.subrange(0, 0) =~= Seq::<Seq<char>>::empty());
    while i < ls.len()
        invariant
            lv == ls@.map_values(|l: Vec<char>| l@),
            display_prefix@ == "Display "@,
            monitor_prefix@ == "Monitor:"@,
            model_prefix@ == "Model:"@,
            i <= lv.len(),
            detect_fold(lv.subrange(0, i as int)) == (
                display_views(monitors@),
                current_num,
                current_name@,
            ),
        decreases ls.len() - i,
    {
        proof {
            reveal_strlit("Display ");
            reveal_strlit("Monitor:");
            reveal_strlit("Model:");
            reveal_strlit("External Display ");
        }
        assert(lv.subrange(0, i + 1).drop_last() =~= lv.subrange(0, i as int));
        assert(lv.subrange(0, i + 1).last() == lv[i as int]);
        let l = trim_chars(ls[i].as_slice());
        if starts_with(l.as_slice(), display_prefix.as_slice()) {
            let tail = slice_range(l.as_slice(), 8, l.len());
            let rest = trim_chars(tail.as_slice());
            match current_num {
                Some(n) => {
                    let ghost before = display_views(monitors@);
                    monitors.push((n, string_from_chars(current_name.as_slice())));
                    assert(display_views(monitors@) =~= before.push((n, current_name@)));
                },
                None => {},
            }
            current_num = parse_u32_chars(rest.as_slice());
            let rs = string_from_chars(rest.as_slice());
            let full = String::from_str("External Display ").concat(rs.as_str());
            current_name = chars_of(full.as_str());
        }
        if starts_with(l.as_slice(), monitor_prefix.as_slice()) || starts_with(
            l.as_slice(),
            model_prefix.as_slice(),
        ) {
            proof {
                lemma_find_char(l@, ':');
                if has_prefix(l@, "Monitor:"@) {
                    assert(l@[7] == "Monitor:"@[7]);
                } else {
                    assert(l@[5] == "Model:"@[5]);
                }
            }
            let colon = find_char_from(l.as_slice(), 0, ':');
            assert(l@.subrange(0, l@.len() as int) =~= l@);
            let after = slice_range(l.as_slice(), colon + 1, l.len());
            let name = trim_chars(after.as_slice());
            if name.len() > 0 {
                current_name = name;
            }
        }
        i = i + 1;
    }
    assert(lv.subrange(0, lv.len() as int) =~= lv);
    match current_num {
        Some(n) => {
            let ghost before = display_views(monitors@);
            monitors.push((n, string_from_chars(current_name.as_slice())));
            assert(display_views(monitors@) =~= before.push((n, current_name@)));
        },
        None => {},
    }
    monitors
}

/// The display info of an external monitor found by ddcutil: its number as
/// id, brightness and contrast as read, DDC supported when brightness read.
pub fn external_display_info(display_num: u32, name: &str, brightness: Option<u32>, contrast: Option<u32>) -> (res: DisplayInfo)
    ensures
        res.id@ == decimal(display_num as nat),
        res.name@ == name@,
        res.display_type@ == "external"@,
        res.brightness == brightness,
        res.contrast == contrast,
        res.ddc_supported == brightness is Some,
        res.monitor_rect is None,
{
    DisplayInfo {
        id: u64_to_decimal(display_num as u64),
        name: String::from_str(name),
        display_type: String::from_str("external"),
        brightness,
        contrast,
        ddc_supported: brightness.is_some(),
        monitor_rect: None,
    }
}

/// The display info of the built-in panel behind backlight `device`.
pub fn builtin_display_info(device: &str, brightness: Option<u32>) -> (res: DisplayInfo)
    ensures
        res.id@ == BUILTIN_ID@,
        res.name@ == "Built-in Display ("@ + device@ + ")"@,
        res.display_type@ == "builtin"@,
        res.brightness == brightness,
        res.contrast is None,
        !res.ddc_supported,
        res.monitor_rect is None,
{
    DisplayInfo {
        id: String::from_str(BUILTIN_ID),
        name: String::from_str("Built-in Display (").concat(device).concat(")"),
        display_type: String::from_str("builtin"),
        brightness,
        contrast: None,
        ddc_supported: false,
        monitor_rect: None,
    }
}

/// The largest raw value of a backlight device: its `max_brightness` file
/// read as a number, when positive.
pub open spec fn backlight_max_of(text: Seq<char>) -> Option<u32> {
    match parse_u32_spec(trim(text)) {
        Some(m) => if m > 0 {
            Some(m)
        } else {
            None
        },
        None => None,
    }
}

/// Reads a backlight's `max_brightness` file content.
pub fn parse_backlight_max(text: &str) -> (res: Option<u32>)
    ensures
        res == backlight_max_of(text@),
{
    let cs = chars_of(text);
    let t = trim_chars(cs.as_slice());
    match parse_u32_chars(t.as_slice()) {
        Some(m) => if m > 0 {
            Some(m)
        } else {
            None
        },
        None => None,
    }
}

/// Which paths an external monitor's brightness change takes: DDC for the
/// ddc and force modes and for auto on a DDC monitor (only when DDC works),
/// gamma for the gamma and force modes and for auto on a monitor without DDC.
pub open spec fn external_paths_of(mode: Seq<char>, ddc_supported: bool) -> (bool, bool) {
    let use_ddc = mode == "ddc"@ || mode == "force"@ || (mode == "auto"@ && ddc_supported);
    let use_gamma = mode == "gamma"@ || mode == "force"@ || (mode == "auto"@ && !ddc_supported);
    (use_ddc && ddc_supported, use_gamma)
}

/// An external brightness change never talks DDC to a monitor without it;
/// "ddc" uses DDC alone, "gamma" gamma alone, "force" both (DDC when the
/// monitor has it), "auto" exactly one of them (DDC when the monitor has
/// it, gamma otherwise), and any other mode neither.
pub proof fn lemma_external_paths(mode: Seq<char>, ddc_supported: bool)
    ensures
        !ddc_supported ==> !external_paths_of(mode, ddc_supported).0,
        mode == "ddc"@ ==> external_paths_of(mode, ddc_supported) == (ddc_supported, false),
        mode == "gamma"@ ==> external_paths_of(mode, ddc_supported) == (false, true),
        mode == "force"@ ==> external_paths_of(mode, ddc_supported) == (ddc_supported, true),
        mode == "auto"@ ==> external_paths_of(mode, ddc_supported) == (ddc_supported, !ddc_supported),
        mode != "ddc"@ && mode != "gamma"@ && mode != "force"@ && mode != "auto"@
            ==> external_paths_of(mode, ddc_supported) == (false, false),
{
    reveal_strlit("ddc");
    reveal_strlit("gamma");
    reveal_strlit("force");
    reveal_strlit("auto");
    assert("ddc"@.len() != "gamma"@.len() && "ddc"@.len() != "force"@.len() && "ddc"@.len()
        != "auto"@.len());
    assert("gamma"@[0] != "force"@[0] && "gamma"@.len() != "auto"@.len());
    assert("force"@.len() != "auto"@.len());
}

/// Decides the DDC and gamma calls of an external brightness change.
pub fn external_brightness_paths(mode: &str, ddc_supported: bool) -> (res: (bool, bool))
    ensures
        res == external_paths_of(mode@, ddc_supported),
{
    let is_ddc = str_eq(mode, "ddc");
    let is_gamma = str_eq(mode, "gamma");
    let is_force = str_eq(mode, "force");
    let is_auto = str_eq(mode, "auto");
    let use_ddc = is_ddc || is_force || (is_auto && ddc_supported);
    let use_gamma = is_gamma || is_force || (is_auto && !ddc_supported);
    (use_ddc && ddc_supported, use_gamma)
}

/// The DDC brightness written for a level: 0 is sent as 1, so the panel
/// does not switch off.
pub fn ddc_brightness_value(value: u16) -> (res: u16)
    ensures
        res == if value == 0 {
            1
        } else {
            value
        },
{
    if value == 0 {
        1
    } else {
        value
    }
}

/// The two-decimal gamma multiplier of a brightness (capped at 100%):
/// "0.50" for 50, "1.00" for 100.
pub open spec fn gamma_text(brightness: u32) -> Seq<char> {
    let b: int = if brightness > 100 {
        100
    } else {
        brightness as int
    };
    decimal((b / 100) as nat) + seq!['.'] + decimal(((b % 100) / 10) as nat) + decimal(
        (b % 10) as nat,
    )
}

/// The gamma multiplier argument of xrandr and wlr-randr.
pub fn gamma_arg(brightness: u32) -> (res: String)
    ensures
        res@ == gamma_text(brightness),
{
    let b: u64 = if brightness > 100 {
        100
    } else {
        brightness as u64
    };
    proof {
        reveal_strlit(".");
    }
    let whole = u64_to_decimal(b / 100);
    let tenths = u64_to_decimal((b % 100) / 10);
    let hundredths = u64_to_decimal(b % 10);
    let r = whole.concat(".").concat(tenths.as_str()).concat(hundredths.as_str());
    assert(r@ =~= gamma_text(brightness));
    r
}

} // verus!
