//! Wallpaper: fit modes and their encodings for each desktop backend, reading
//! back the current wallpaper from backend output, and the folder slideshow
//! (parameter checks, image order, shuffle, state).
use vstd::prelude::*;

use crate::json::{json_quote, json_string};
use crate::text::{
    chars_less, chars_lt, copy_string, copy_strings, decimal, lemma_chars_lt_irreflexive,
    lemma_chars_lt_transitive, lowercase, to_lowercase, u64_to_decimal, views,
    chars_eq, chars_of, concat3, contains_chars, contains_seq, first_occurrence_from, find_from,
    has_prefix, lines, lines_of, occurs_at, slice_range, str_eq, strip_prefix_chars,
    strip_prefix_or_keep, string_from_chars, trim, trim_char, trim_char_chars, trim_chars,
};
use std::sync::atomic::{AtomicBool, Ordering};
use std::sync::Arc;
use std::time::{Duration, SystemTime};

verus! {

/// The five fit modes: fill, fit, stretch, center, tile.
pub open spec fn is_valid_fit(fit: Seq<char>) -> bool {
    fit == "fill"@ || fit == "fit"@ || fit == "stretch"@ || fit == "center"@ || fit == "tile"@
}

/// Returns true if `fit` is one of fill/fit/stretch/center/tile.
pub fn validate_fit(fit: &str) -> (res: bool)
    ensures
        res == is_valid_fit(fit@),
{
    str_eq(fit, "fill") || str_eq(fit, "fit") || str_eq(fit, "stretch") || str_eq(fit, "center")
        || str_eq(fit, "tile")
}

/// Current wallpaper: path and fit mode.
#[derive(Clone, Debug)]
pub struct WallpaperInfo {
    pub path: Option<String>,
    pub fit: Option<String>,
}

/// View of an optional wallpaper info: its path and fit, by views.
pub open spec fn info_views(i: Option<WallpaperInfo>) -> Option<(Option<Seq<char>>, Option<Seq<char>>)> {
    match i {
        Some(info) => Some(
            (
                match info.path {
                    Some(p) => Some(p@),
                    None => None,
                },
                match info.fit {
                    Some(f) => Some(f@),
                    None => None,
                },
            ),
        ),
        None => None,
    }
}

/// The info reported for a found (path, fit) pair.
pub open spec fn found_info(x: Option<(Seq<char>, Seq<char>)>) -> Option<(Option<Seq<char>>, Option<Seq<char>>)> {
    match x {
        Some((p, f)) => Some((Some(p), Some(f))),
        None => None,
    }
}

// --------------------------------------------------------------- GNOME

/// GNOME `picture-options` value for a fit mode (unknown fits as fill).
pub open spec fn gnome_mode_of(fit: Seq<char>) -> Seq<char> {
    if fit == "fit"@ {
        "scaled"@
    } else if fit == "stretch"@ {
        "stretched"@
    } else if fit == "center"@ {
        "centered"@
    } else if fit == "tile"@ {
        "wallpaper"@
    } else {
        "zoom"@
    }
}

/// The GNOME `picture-options` value that shows a wallpaper with `fit`.
pub fn gnome_mode_for_fit(fit: &str) -> (res: String)
    ensures
        res@ == gnome_mode_of(fit@),
{
    if str_eq(fit, "fit") {
        String::from_str("scaled")
    } else if str_eq(fit, "stretch") {
        String::from_str("stretched")
    } else if str_eq(fit, "center") {
        String::from_str("centered")
    } else if str_eq(fit, "tile") {
        String::from_str("wallpaper")
    } else {
        String::from_str("zoom")
    }
}

/// Fit mode of a GNOME `picture-options` value (unknown values read as fill).
pub open spec fn fit_of_gnome_mode(mode: Seq<char>) -> Seq<char> {
    if mode == "scaled"@ {
        "fit"@
    } else if mode == "stretched"@ {
        "stretch"@
    } else if mode == "centered"@ {
        "center"@
    } else if mode == "wallpaper"@ {
        "tile"@
    } else {
        "fill"@
    }
}

/// The fit mode a GNOME `picture-options` value shows.
pub fn fit_for_gnome_mode(mode: &str) -> (res: String)
    ensures
        res@ == fit_of_gnome_mode(mode@),
{
    if str_eq(mode, "scaled") {
        String::from_str("fit")
    } else if str_eq(mode, "stretched") {
        String::from_str("stretch")
    } else if str_eq(mode, "centered") {
        String::from_str("center")
    } else if str_eq(mode, "wallpaper") {
        String::from_str("tile")
    } else {
        String::from_str("fill")
    }
}

/// The `feh` flag for a fit mode (unknown fits as fill).
pub open spec fn feh_flag_of(fit: Seq<char>) -> Seq<char> {
    if fit == "fit"@ {
        "--bg-max"@
    } else if fit == "stretch"@ {
        "--bg-scale"@
    } else if fit == "center"@ {
        "--bg-center"@
    } else if fit == "tile"@ {
        "--bg-tile"@
    } else {
        "--bg-fill"@
    }
}

/// The `feh` option that shows a wallpaper with `fit`.
pub fn feh_flag_for_fit(fit: &str) -> (res: String)
    ensures
        res@ == feh_flag_of(fit@),
{
    if str_eq(fit, "fit") {
        String::from_str("--bg-max")
    } else if str_eq(fit, "stretch") {
        String::from_str("--bg-scale")
    } else if str_eq(fit, "center") {
        String::from_str("--bg-center")
    } else if str_eq(fit, "tile") {
        String::from_str("--bg-tile")
    } else {
        String::from_str("--bg-fill")
    }
}

/// A GNOME `gsettings get` value: output trimmed of whitespace, then of the
/// single quotes around it.
pub open spec fn gsettings_value_of(stdout: Seq<char>) -> Seq<char> {
    trim_char(trim(stdout), '\'')
}

/// Extracts the value from `gsettings get` output.
pub fn gsettings_value(stdout: &str) -> (res: Vec<char>)
    ensures
        res@ == gsettings_value_of(stdout@),
{
    let cs = chars_of(stdout);
    let t = trim_chars(cs.as_slice());
    trim_char_chars(t.as_slice(), '\'')
}

/// The wallpaper GNOME reports, from the `picture-uri` and (when it could be
/// read) `picture-options` outputs: the uri without a `file://` prefix, and
/// the fit of the picture options (fill when they could not be read). No
/// wallpaper when the path is empty.
pub open spec fn gnome_wallpaper_of(uri_stdout: Seq<char>, mode_stdout: Option<Seq<char>>) -> Option<
    (Seq<char>, Seq<char>),
> {
    let path = strip_prefix_or_keep(gsettings_value_of(uri_stdout), "file://"@);
    if path.len() == 0 {
        None
    } else {
        let mode = match mode_stdout {
            Some(m) => gsettings_value_of(m),
            None => Seq::empty(),
        };
        Some((path, fit_of_gnome_mode(mode)))
    }
}

/// The wallpaper described by GNOME's `gsettings` output.
pub fn gnome_wallpaper_info(uri_stdout: &str, mode_stdout: Option<&str>) -> (res: Option<WallpaperInfo>)
    ensures
        info_views(res) == found_info(gnome_wallpaper_of(uri_stdout@, opt_view(mode_stdout))),
{
    proof {
        reveal_strlit("file://");
    }
    let uri = gsettings_value(uri_stdout);
    let prefix = chars_of("file://");
    let path = strip_prefix_chars(uri.as_slice(), prefix.as_slice());
    if path.len() == 0 {
        return None;
    }
    let mode = match mode_stdout {
        Some(m) => gsettings_value(m),
        None => Vec::new(),
    };
    let fit = fit_for_gnome_mode(string_from_chars(mode.as_slice()).as_str());
    Some(WallpaperInfo { path: Some(string_from_chars(path.as_slice())), fit: Some(fit) })
}

/// View of an optional string slice.
pub open spec fn opt_view(s: Option<&str>) -> Option<Seq<char>> {
    match s {
        Some(v) => Some(v@),
        None => None,
    }
}

// --------------------------------------------------------------- Windows

/// Registry `WallpaperStyle` and `TileWallpaper` values for a fit mode
/// (unknown fits as fill).
pub open spec fn windows_style_of(fit: Seq<char>) -> (Seq<char>, Seq<char>) {
    if fit == "fit"@ {
        ("6"@, "0"@)
    } else if fit == "stretch"@ {
        ("2"@, "0"@)
    } else if fit == "center"@ {
        ("0"@, "0"@)
    } else if fit == "tile"@ {
        ("0"@, "1"@)
    } else {
        ("10"@, "0"@)
    }
}

/// The `WallpaperStyle` / `TileWallpaper` registry values for `fit`.
pub fn windows_style_for_fit(fit: &str) -> (res: (String, String))
    ensures
        (res.0@, res.1@) == windows_style_of(fit@),
{
    if str_eq(fit, "fit") {
        (String::from_str("6"), String::from_str("0"))
    } else if str_eq(fit, "stretch") {
        (String::from_str("2"), String::from_str("0"))
    } else if str_eq(fit, "center") {
        (String::from_str("0"), String::from_str("0"))
    } else if str_eq(fit, "tile") {
        (String::from_str("0"), String::from_str("1"))
    } else {
        (String::from_str("10"), String::from_str("0"))
    }
}

/// Fit mode of registry `WallpaperStyle` / `TileWallpaper` values (anything
/// unrecognised reads as fill).
pub open spec fn fit_of_windows_style(style: Seq<char>, tile: Seq<char>) -> Seq<char> {
    if style == "10"@ && tile == "0"@ {
        "fill"@
    } else if style == "6"@ && tile == "0"@ {
        "fit"@
    } else if style == "2"@ && tile == "0"@ {
        "stretch"@
    } else if style == "0"@ && tile == "1"@ {
        "tile"@
    } else if style == "0"@ && tile == "0"@ {
        "center"@
    } else {
        "fill"@
    }
}

/// The fit mode the registry values describe.
pub fn fit_for_windows_style(style: &str, tile: &str) -> (res: String)
    ensures
        res@ == fit_of_windows_style(style@, tile@),
{
    let t0 = str_eq(tile, "0");
    if str_eq(style, "10") && t0 {
        String::from_str("fill")
    } else if str_eq(style, "6") && t0 {
        String::from_str("fit")
    } else if str_eq(style, "2") && t0 {
        String::from_str("stretch")
    } else if str_eq(style, "0") && str_eq(tile, "1") {
        String::from_str("tile")
    } else if str_eq(style, "0") && t0 {
        String::from_str("center")
    } else {
        String::from_str("fill")
    }
}

/// `IDesktopWallpaper` position for a fit mode (unknown fits as fill).
pub open spec fn windows_position_of(fit: Seq<char>) -> Seq<char> {
    if fit == "fit"@ {
        "3"@
    } else if fit == "stretch"@ {
        "2"@
    } else if fit == "center"@ {
        "0"@
    } else if fit == "tile"@ {
        "1"@
    } else {
        "4"@
    }
}

/// The `IDesktopWallpaper::SetPosition` value for `fit`.
pub fn windows_position_for_fit(fit: &str) -> (res: String)
    ensures
        res@ == windows_position_of(fit@),
{
    if str_eq(fit, "fit") {
        String::from_str("3")
    } else if str_eq(fit, "stretch") {
        String::from_str("2")
    } else if str_eq(fit, "center") {
        String::from_str("0")
    } else if str_eq(fit, "tile") {
        String::from_str("1")
    } else {
        String::from_str("4")
    }
}

/// `i` is the first line that contains `name`.
pub open spec fn first_line_with(ls: Seq<Seq<char>>, name: Seq<char>, i: int) -> bool {
    0 <= i < ls.len() && contains_seq(ls[i], name) && forall|j: int|
        0 <= j < i ==> !contains_seq(#[trigger] ls[j], name)
}

/// The text after the first "REG_SZ" of a line, up to the next "REG_SZ"
/// (what `line.split("REG_SZ").nth(1)` gives), trimmed.
pub open spec fn reg_sz_piece(line: Seq<char>, a: int, b: int) -> bool {
    first_occurrence_from(line, "REG_SZ"@, 0, a) && a < line.len() && first_occurrence_from(
        line,
        "REG_SZ"@,
        a + 6,
        b,
    )
}

/// The value `reg query` prints for `name`: on the first output line that
/// mentions `name`, the trimmed text between the first "REG_SZ" and the next
/// one (or the line's end); `None` when no line mentions `name` or that line
/// has no "REG_SZ".
pub open spec fn reg_sz_value_of(stdout: Seq<char>, name: Seq<char>) -> Option<Seq<char>> {
    let ls = lines(stdout);
    if exists|i: int| first_line_with(ls, name, i) {
        let i = choose|i: int| first_line_with(ls, name, i);
        if exists|a: int, b: int| reg_sz_piece(ls[i], a, b) {
            let (a, b) = choose|a: int, b: int| reg_sz_piece(ls[i], a, b);
            Some(trim(ls[i].subrange(a + 6, b)))
        } else {
            None
        }
    } else {
        None
    }
}

proof fn lemma_first_occurrence_unique(hay: Seq<char>, needle: Seq<char>, from: int, a: int, b: int)
    requires
        needle.len() > 0,
        first_occurrence_from(hay, needle, from, a),
        first_occurrence_from(hay, needle, from, b),
    ensures
        a == b,
{
    if occurs_at(hay, needle, a) && occurs_at(hay, needle, b) {
        if a < b {
            assert(!occurs_at(hay, needle, a));
        }
        if b < a {
            assert(!occurs_at(hay, needle, b));
        }
    } else if occurs_at(hay, needle, a) {
        assert(!occurs_at(hay, needle, a));
    } else if occurs_at(hay, needle, b) {
        assert(!occurs_at(hay, needle, b));
    }
}

/// Extracts a `REG_SZ` value from `reg query` output.
pub fn reg_sz_value(stdout: &str, name: &str) -> (res: Option<String>)
    ensures
        match reg_sz_value_of(stdout@, name@) {
            Some(v) => res matches Some(s) && s@ == v,
            None => res is None,
        },
{
    proof {
        reveal_strlit("REG_SZ");
    }
    let cs = chars_of(stdout);
    let ls = lines_of(cs.as_slice());
    let ghost lv = ls@.map_values(|l: Vec<char>| l@);
    let nm = chars_of(name);
    let tag = chars_of("REG_SZ");
    assert(tag@.len() == 6);
    let mut i: usize = 0;
    while i < ls.len()
        invariant
            lv == ls@.map_values(|l: Vec<char>| l@),
            lv == lines(stdout@),
            nm@ == name@,
            tag@ == "REG_SZ"@,
            tag@.len() == 6,
            i <= ls@.len(),
            forall|j: int| 0 <= j < i ==> !contains_seq(#[trigger] lv[j], name@),
        decreases ls.len() - i,
    {
        let line = ls[i].as_slice();
        assert(lv[i as int] == line@);
        if contains_chars(line, nm.as_slice()) {
            proof {
                assert(first_line_with(lv, name@, i as int));
                assert forall|k: int| first_line_with(lv, name@, k) implies k == i by {
                    if k < i {
                    }
                    if i < k {
                        assert(!contains_seq(lv[i as int], name@));
                    }
                }
            }
            let a = find_from(line, tag.as_slice(), 0);
            if a >= line.len() {
                proof {
                    assert forall|x: int, y: int| !reg_sz_piece(line@, x, y) by {
                        if reg_sz_piece(line@, x, y) {
                            lemma_first_occurrence_unique(line@, "REG_SZ"@, 0, a as int, x);
                        }
                    }
                }
                return None;
            }
            assert(occurs_at(line@, "REG_SZ"@, a as int));
            let b = find_from(line, tag.as_slice(), a + 6);
            proof {
                assert(reg_sz_piece(line@, a as int, b as int));
                assert forall|x: int, y: int| reg_sz_piece(line@, x, y) implies x == a && y == b by {
                    lemma_first_occurrence_unique(line@, "REG_SZ"@, 0, a as int, x);
                    lemma_first_occurrence_unique(line@, "REG_SZ"@, a + 6, b as int, y);
                }
            }
            let piece = slice_range(line, a + 6, b);
            let t = trim_chars(piece.as_slice());
            let out = string_from_chars(t.as_slice());
            proof {
                let ci = choose|k: int| first_line_with(lines(stdout@), name@, k);
                assert(first_line_with(lines(stdout@), name@, ci));
                assert(ci == i);
                assert(lines(stdout@)[ci] == line@);
                assert(exists|x: int, y: int| reg_sz_piece(line@, x, y));
                let (x, y) = choose|x: int, y: int| reg_sz_piece(line@, x, y);
                assert(reg_sz_piece(line@, x, y));
                assert(x == a && y == b);
                assert(reg_sz_value_of(stdout@, name@) == Some(trim(line@.subrange(a + 6, b as int))));
            }
            return Some(out);
        }
        i = i + 1;
    }
    None
}

/// The wallpaper the Windows registry describes, from the `reg query`
/// outputs for `Wallpaper` and (when readable) `WallpaperStyle` and
/// `TileWallpaper`: no wallpaper when the path is missing or empty; the fit
/// from the two style values, a missing one reading as empty.
pub open spec fn windows_wallpaper_of(
    path_stdout: Seq<char>,
    style_stdout: Option<Seq<char>>,
    tile_stdout: Option<Seq<char>>,
) -> Option<(Seq<char>, Seq<char>)> {
    match reg_sz_value_of(path_stdout, "Wallpaper"@) {
        Some(path) => if path.len() == 0 {
            None
        } else {
            let style = match style_stdout {
                Some(o) => match reg_sz_value_of(o, "WallpaperStyle"@) {
                    Some(v) => v,
                    None => Seq::empty(),
                },
                None => Seq::empty(),
            };
            let tile = match tile_stdout {
                Some(o) => match reg_sz_value_of(o, "TileWallpaper"@) {
                    Some(v) => v,
                    None => Seq::empty(),
                },
                None => Seq::empty(),
            };
            Some((path, fit_of_windows_style(style, tile)))
        },
        None => None,
    }
}

fn reg_or_empty(out: Option<&str>, name: &str) -> (res: String)
    ensures
        res@ == match out {
            Some(o) => match reg_sz_value_of(o@, name@) {
                Some(v) => v,
                None => Seq::empty(),
            },
            None => Seq::<char>::empty(),
        },
{
    match out {
        Some(o) => match reg_sz_value(o, name) {
            Some(v) => v,
            None => String::new(),
        },
        None => String::new(),
    }
}

/// The wallpaper described by the Windows registry query outputs.
pub fn windows_wallpaper_info(path_stdout: &str, style_stdout: Option<&str>, tile_stdout: Option<&str>) -> (res: Option<WallpaperInfo>)
    ensures
        info_views(res) == found_info(
            windows_wallpaper_of(path_stdout@, opt_view(style_stdout), opt_view(tile_stdout)),
        ),
{
    let path = match reg_sz_value(path_stdout, "Wallpaper") {
        Some(p) => p,
        None => {
            return None;
        },
    };
    if path.as_str().unicode_len() == 0 {
        return None;
    }
    let style = reg_or_empty(style_stdout, "WallpaperStyle");
    let tile = reg_or_empty(tile_stdout, "TileWallpaper");
    let fit = fit_for_windows_style(style.as_str(), tile.as_str());
    Some(WallpaperInfo { path: Some(path), fit: Some(fit) })
}

// --------------------------------------------------------------- round trips

/// Reading back the GNOME picture options that a fit mode was set with gives
/// that fit mode.
pub proof fn lemma_gnome_fit_round_trip(fit: Seq<char>)
    requires
        is_valid_fit(fit),
    ensures
        fit_of_gnome_mode(gnome_mode_of(fit)) == fit,
{
    reveal_strlit("fill");
    assert("fill"@ =~= seq!['f', 'i', 'l', 'l']);
    reveal_strlit("fit");
    assert("fit"@ =~= seq!['f', 'i', 't']);
    reveal_strlit("stretch");
    assert("stretch"@ =~= seq!['s', 't', 'r', 'e', 't', 'c', 'h']);
    reveal_strlit("center");
    assert("center"@ =~= seq!['c', 'e', 'n', 't', 'e', 'r']);
    reveal_strlit("tile");
    assert("tile"@ =~= seq!['t', 'i', 'l', 'e']);
    reveal_strlit("zoom");
    assert("zoom"@ =~= seq!['z', 'o', 'o', 'm']);
    reveal_strlit("scaled");
    assert("scaled"@ =~= seq!['s', 'c', 'a', 'l', 'e', 'd']);
    reveal_strlit("stretched");
    assert("stretched"@ =~= seq!['s', 't', 'r', 'e', 't', 'c', 'h', 'e', 'd']);
    reveal_strlit("centered");
    assert("centered"@ =~= seq!['c', 'e', 'n', 't', 'e', 'r', 'e', 'd']);
    reveal_strlit("wallpaper");
    assert("wallpaper"@ =~= seq!['w', 'a', 'l', 'l', 'p', 'a', 'p', 'e', 'r']);
}

/// Reading back the registry style values that a fit mode was set with gives
/// that fit mode.
pub proof fn lemma_windows_fit_round_trip(fit: Seq<char>)
    requires
        is_valid_fit(fit),
    ensures
        fit_of_windows_style(windows_style_of(fit).0, windows_style_of(fit).1) == fit,
{
    lemma_windows_style_literals();
}

proof fn lemma_fit_names_distinct()
    ensures
        "fill"@ != "fit"@,
        "fill"@ != "stretch"@,
        "fill"@ != "center"@,
        "fill"@ != "tile"@,
        "fit"@ != "stretch"@,
        "fit"@ != "center"@,
        "fit"@ != "tile"@,
        "stretch"@ != "center"@,
        "stretch"@ != "tile"@,
        "center"@ != "tile"@,
{
    reveal_strlit("fill");
    reveal_strlit("fit");
    reveal_strlit("stretch");
    reveal_strlit("center");
    reveal_strlit("tile");
    assert("fill"@.len() != "fit"@.len());
    assert("fill"@[0] != "tile"@[0]);
    assert("fill"@.len() != "stretch"@.len());
    assert("fill"@.len() != "center"@.len());
    assert("fit"@.len() != "stretch"@.len());
    assert("fit"@.len() != "center"@.len());
    assert("fit"@.len() != "tile"@.len());
    assert("stretch"@.len() != "center"@.len());
    assert("stretch"@.len() != "tile"@.len());
    assert("center"@.len() != "tile"@.len());
}

/// What each fit mode is on each platform. GNOME `picture-options`: fill
/// zoom, fit scaled, stretch stretched, center centered, tile wallpaper.
/// `feh`: --bg-fill, --bg-max, --bg-scale, --bg-center, --bg-tile. Registry
/// `WallpaperStyle`/`TileWallpaper`: 10/0, 6/0, 2/0, 0/0, 0/1.
/// `IDesktopWallpaper` position (`DWPOS_*`): fill 4, fit 3, stretch 2,
/// center 0, tile 1, so no two fit modes share a position. Any other fit
/// is shown as fill.
pub proof fn lemma_fit_encodings(fit: Seq<char>)
    ensures
        fit == "fill"@ ==> gnome_mode_of(fit) == "zoom"@ && feh_flag_of(fit) == "--bg-fill"@
            && windows_style_of(fit) == ("10"@, "0"@) && windows_position_of(fit) == "4"@,
        fit == "fit"@ ==> gnome_mode_of(fit) == "scaled"@ && feh_flag_of(fit) == "--bg-max"@
            && windows_style_of(fit) == ("6"@, "0"@) && windows_position_of(fit) == "3"@,
        fit == "stretch"@ ==> gnome_mode_of(fit) == "stretched"@ && feh_flag_of(fit)
            == "--bg-scale"@ && windows_style_of(fit) == ("2"@, "0"@) && windows_position_of(fit)
            == "2"@,
        fit == "center"@ ==> gnome_mode_of(fit) == "centered"@ && feh_flag_of(fit)
            == "--bg-center"@ && windows_style_of(fit) == ("0"@, "0"@) && windows_position_of(fit)
            == "0"@,
        fit == "tile"@ ==> gnome_mode_of(fit) == "wallpaper"@ && feh_flag_of(fit) == "--bg-tile"@
            && windows_style_of(fit) == ("0"@, "1"@) && windows_position_of(fit) == "1"@,
        !is_valid_fit(fit) ==> gnome_mode_of(fit) == "zoom"@ && feh_flag_of(fit) == "--bg-fill"@
            && windows_style_of(fit) == ("10"@, "0"@) && windows_position_of(fit) == "4"@,
        forall|g: Seq<char>|
            is_valid_fit(fit) && is_valid_fit(g) && fit != g ==> windows_position_of(fit)
                != #[trigger] windows_position_of(g),
{
    lemma_fit_names_distinct();
    reveal_strlit("4");
    reveal_strlit("3");
    reveal_strlit("2");
    reveal_strlit("1");
    reveal_strlit("0");
    assert("4"@[0] != "3"@[0] && "4"@[0] != "2"@[0] && "4"@[0] != "1"@[0] && "4"@[0] != "0"@[0]);
    assert("3"@[0] != "2"@[0] && "3"@[0] != "1"@[0] && "3"@[0] != "0"@[0]);
    assert("2"@[0] != "1"@[0] && "2"@[0] != "0"@[0] && "1"@[0] != "0"@[0]);
}

proof fn lemma_windows_style_literals()
    ensures
        fit_of_windows_style("10"@, "0"@) == "fill"@,
        fit_of_windows_style("6"@, "0"@) == "fit"@,
        fit_of_windows_style("2"@, "0"@) == "stretch"@,
        fit_of_windows_style("0"@, "1"@) == "tile"@,
        fit_of_windows_style("0"@, "0"@) == "center"@,
        windows_style_of("fill"@) == ("10"@, "0"@),
        windows_style_of("fit"@) == ("6"@, "0"@),
        windows_style_of("stretch"@) == ("2"@, "0"@),
        windows_style_of("center"@) == ("0"@, "0"@),
        windows_style_of("tile"@) == ("0"@, "1"@),
{
    reveal_strlit("fill");
    assert("fill"@ =~= seq!['f', 'i', 'l', 'l']);
    reveal_strlit("fit");
    assert("fit"@ =~= seq!['f', 'i', 't']);
    reveal_strlit("stretch");
    assert("stretch"@ =~= seq!['s', 't', 'r', 'e', 't', 'c', 'h']);
    reveal_strlit("center");
    assert("center"@ =~= seq!['c', 'e', 'n', 't', 'e', 'r']);
    reveal_strlit("tile");
    assert("tile"@ =~= seq!['t', 'i', 'l', 'e']);
    reveal_strlit("10");
    assert("10"@ =~= seq!['1', '0']);
    reveal_strlit("6");
    assert("6"@ =~= seq!['6']);
    reveal_strlit("2");
    assert("2"@ =~= seq!['2']);
    reveal_strlit("1");
    assert("1"@ =~= seq!['1']);
    reveal_strlit("0");
    assert("0"@ =~= seq!['0']);
    assert("2"@ != "10"@ && "2"@ != "6"@) by {
        assert("2"@[0] != "6"@[0]);
        assert("2"@.len() != "10"@.len());
    }
    assert("0"@ != "10"@ && "0"@ != "6"@ && "0"@ != "2"@) by {
        assert("0"@[0] != "6"@[0]);
        assert("0"@[0] != "2"@[0]);
        assert("0"@.len() != "10"@.len());
    }
    assert("1"@ != "0"@) by {
        assert("1"@[0] != "0"@[0]);
    }
}

// --------------------------------------------------------------- slideshow

/// The slideshow image orders.
pub open spec fn is_valid_order(order: Seq<char>) -> bool {
    order == "forward"@ || order == "backward"@ || order == "random"@
}

/// The error a slideshow start reports for its parameters, checked in order:
/// an interval under 5 minutes, an unknown fit mode, an unknown order; `None`
/// when all three are acceptable.
pub open spec fn slideshow_params_error_of(interval: u64, order: Seq<char>, fit: Seq<char>) -> Option<Seq<char>> {
    if interval < 5 {
        Some("{\"error\":\"interval must be at least 5 minutes\"}"@)
    } else if !is_valid_fit(fit) {
        Some("{\"error\":\"invalid fit mode: '"@ + fit + "'. Valid: fill, fit, stretch, center, tile\"}"@)
    } else if !is_valid_order(order) {
        Some("{\"error\":\"invalid order: '"@ + order + "'. Valid: forward, backward, random\"}"@)
    } else {
        None
    }
}

/// Checks slideshow start parameters; returns the JSON error response for
/// the first problem found.
pub fn slideshow_params_error(interval: u64, order: &str, fit: &str) -> (res: Option<String>)
    ensures
        match slideshow_params_error_of(interval, order@, fit@) {
            Some(e) => res matches Some(r) && r@ == e,
            None => res is None,
        },
{
    if interval < 5 {
        return Some(String::from_str("{\"error\":\"interval must be at least 5 minutes\"}"));
    }
    if !validate_fit(fit) {
        return Some(
            concat3(
                "{\"error\":\"invalid fit mode: '",
                fit,
                "'. Valid: fill, fit, stretch, center, tile\"}",
            ),
        );
    }
    if !(str_eq(order, "forward") || str_eq(order, "backward") || str_eq(order, "random")) {
        return Some(
            concat3("{\"error\":\"invalid order: '", order, "'. Valid: forward, backward, random\"}"),
        );
    }
    None
}

/// Puts the scanned (alphabetically sorted) images in slideshow order:
/// unchanged for "forward", reversed for "backward", shuffled for "random".
/// An empty scan is the "no valid images" error response.
pub fn slideshow_images(images: Vec<String>, order: &str) -> (res: Result<Vec<String>, String>)
    ensures
        images@.len() == 0 ==> (res matches Err(e) && e@
            == "{\"error\":\"no valid images found in folder\"}"@),
        images@.len() > 0 ==> (res matches Ok(v) && (if order@ == "backward"@ {
            v@ == images@.reverse()
        } else if order@ == "random"@ {
            v@.to_multiset() == images@.to_multiset() && exists|seed: u64|
                v@ == #[trigger] seeded_shuffle(images@, seed)
        } else {
            v@ == images@
        })),
{
    if images.len() == 0 {
        return Err(String::from_str("{\"error\":\"no valid images found in folder\"}"));
    }
    if str_eq(order, "backward") {
        let mut out: Vec<String> = Vec::new();
        let mut i = images.len();
        while i > 0
            invariant
                i <= images@.len(),
                out@ == images@.subrange(i as int, images@.len() as int).reverse(),
            decreases i,
        {
            i = i - 1;
            out.push(images[i].clone());
            assert(out@ =~= images@.subrange(i as int, images@.len() as int).reverse());
        }
        assert(images@.subrange(0, images@.len() as int) =~= images@);
        return Ok(out);
    }
    if str_eq(order, "random") {
        let mut v = images;
        shuffle(&mut v);
        return Ok(v);
    }
    Ok(images)
}

/// The next slide position: one step forward, wrapping to the start past the end.
pub fn next_slide_index(idx: usize, len: usize) -> (res: usize)
    ensures
        res == if idx as int + 1 >= len {
            0
        } else {
            idx + 1
        },
{
    if idx >= len || idx + 1 >= len {
        0
    } else {
        idx + 1
    }
}

/// Swapping two entries keeps the multiset of entries.
proof fn lemma_swap_multiset(s: Seq<String>, i: int, j: int)
    requires
        0 <= i < s.len(),
        0 <= j < s.len(),
    ensures
        s.update(i, s[j]).update(j, s[i]).to_multiset() =~= s.to_multiset(),
{
    broadcast use vstd::seq_lib::group_to_multiset_ensures;

    let t = s.update(i, s[j]);
    vstd::seq_lib::to_multiset_update(s, i, s[j]);
    vstd::seq_lib::to_multiset_update(t, j, s[i]);
    assert(t[j] == s[j]);
}

/// One step of the 64-bit linear congruential generator behind the shuffle.
pub open spec fn lcg_step(r: u64) -> u64 {
    vstd::wrapping::u64_specs::wrapping_add(
        vstd::wrapping::u64_specs::wrapping_mul(r, 6364136223846793005u64),
        1442695040888963407u64,
    )
}

/// The position swapped with position `i`, drawn from the generator state `r`.
pub open spec fn swap_index(r: u64, i: int) -> int {
    ((r >> 33u64) as int) % (i + 1)
}

/// The Fisher–Yates passes from position `i` down to 1, with the generator
/// in state `rng`: each pass advances the generator and swaps position `i`
/// with the drawn position.
pub open spec fn shuffle_passes(s: Seq<String>, i: nat, rng: u64) -> Seq<String>
    decreases i,
{
    if i == 0 {
        s
    } else {
        let r = lcg_step(rng);
        let j = swap_index(r, i as int);
        shuffle_passes(s.update(i as int, s[j]).update(j, s[i as int]), (i - 1) as nat, r)
    }
}

/// The order the seeded shuffle gives: unchanged for at most one item,
/// otherwise the passes from the last position down, starting from `seed`.
pub open spec fn seeded_shuffle(s: Seq<String>, seed: u64) -> Seq<String> {
    if s.len() <= 1 {
        s
    } else {
        shuffle_passes(s, (s.len() - 1) as nat, seed)
    }
}

/// Fisher–Yates shuffle driven by a 64-bit LCG seeded with `seed`; the
/// result is exactly `seeded_shuffle` of the input, a permutation of it.
pub fn shuffle_with_seed(items: &mut Vec<String>, seed: u64)
    ensures
        final(items)@ == seeded_shuffle(old(items)@, seed),
        final(items)@.to_multiset() == old(items)@.to_multiset(),
        final(items)@.len() == old(items)@.len(),
{
    let len = items.len();
    if len <= 1 {
        return;
    }
    let mut rng = seed;
    let mut i = len - 1;
    while i >= 1
        invariant
            len == items@.len(),
            i < len,
            items@.to_multiset() == old(items)@.to_multiset(),
            items@.len() == old(items)@.len(),
            old(items)@.len() > 1,
            shuffle_passes(items@, i as nat, rng) == seeded_shuffle(old(items)@, seed),
        decreases i,
    {
        let ghost prev_rng = rng;
        rng = rng.wrapping_mul(6364136223846793005).wrapping_add(1442695040888963407);
        let j = ((rng >> 33u64) % ((i + 1) as u64)) as usize;
        let a = items[i].clone();
        let b = items[j].clone();
        let ghost before = items@;
        items.set(i, b);
        items.set(j, a);
        proof {
            lemma_swap_multiset(before, i as int, j as int);
            assert(items@ =~= before.update(i as int, before[j as int]).update(j as int, before[i as int]));
            assert(rng == lcg_step(prev_rng));
            assert(j as int == swap_index(rng, i as int));
            assert(shuffle_passes(before, i as nat, prev_rng) == shuffle_passes(
                items@,
                (i - 1) as nat,
                rng,
            ));
        }
        i = i - 1;
    }
}

#[verifier::external_type_specification]
#[verifier::external_body]
pub struct ExSystemTime(SystemTime);

/// std `SystemTime::now`: the current wall-clock time.
#[verifier::external_body]
fn system_time_now() -> (res: SystemTime) {
    SystemTime::now()
}

/// std `SystemTime::duration_since(UNIX_EPOCH)`, `None` for times before the epoch.
#[verifier::external_body]
fn since_unix_epoch(t: &SystemTime) -> (res: Option<Duration>) {
    t.duration_since(std::time::UNIX_EPOCH).ok()
}

/// std `Duration::as_nanos`: whole nanoseconds in `d`.
#[verifier::external_body]
fn duration_as_nanos(d: &Duration) -> (res: u128) {
    d.as_nanos()
}

/// Shuffles in place with a seed taken from the system clock's nanoseconds:
/// the result is the seeded shuffle of the input for some seed (which one
/// the clock decides), a permutation of the input.
pub fn shuffle(items: &mut Vec<String>)
    ensures
        exists|seed: u64| final(items)@ == #[trigger] seeded_shuffle(old(items)@, seed),
        final(items)@.to_multiset() == old(items)@.to_multiset(),
        final(items)@.len() == old(items)@.len(),
{
    if items.len() <= 1 {
        assert(seeded_shuffle(items@, 0) == items@);
        return;
    }
    let now = system_time_now();
    let nanos: u128 = match since_unix_epoch(&now) {
        Some(d) => duration_as_nanos(&d),
        None => 0,
    };
    let seed = (nanos % 0x1_0000_0000_0000_0000u128) as u64;
    shuffle_with_seed(items, seed);
}

/// State of the running slideshow.
pub struct SlideshowState {
    pub running: bool,
    pub cancel: Arc<AtomicBool>,
    pub folder: String,
    pub interval_minutes: u64,
    pub order: String,
    pub fit: String,
    pub images: Vec<String>,
    pub current_index: usize,
}

impl Default for SlideshowState {
    fn default() -> (res: Self)
        ensures
            !res.running,
            res.folder@.len() == 0,
            res.interval_minutes == 0,
            res.order@.len() == 0,
            res.fit@.len() == 0,
            res.images@.len() == 0,
            res.current_index == 0,
    {
        SlideshowState {
            running: false,
            cancel: Arc::new(AtomicBool::new(false)),
            folder: String::new(),
            interval_minutes: 0,
            order: String::new(),
            fit: String::new(),
            images: Vec::new(),
            current_index: 0,
        }
    }
}

/// Cancels the slideshow held in `slot`, if any: raises its cancel flag so
/// the timer thread exits, and clears the slot.
pub fn slideshow_cancel(slot: &mut Option<SlideshowState>)
    ensures
        *final(slot) is None,
{
    match slot {
        Some(state) => state.cancel.store(true, Ordering::SeqCst),
        None => {},
    }
    *slot = None;
}

/// Stops the slideshow held in `slot` and reports whether one was running.
pub fn slideshow_stop(slot: &mut Option<SlideshowState>) -> (res: String)
    ensures
        *final(slot) is None,
        res@ == "{\"ok\":true,\"was_running\":"@ + (if *old(slot) matches Some(s) && s.running {
            "true"@
        } else {
            "false"@
        }) + "}"@,
{
    let was_running = match slot {
        Some(s) => s.running,
        None => false,
    };
    slideshow_cancel(slot);
    if was_running {
        concat3("{\"ok\":true,\"was_running\":", "true", "}")
    } else {
        concat3("{\"ok\":true,\"was_running\":", "false", "}")
    }
}

// --------------------------------------------------------------- slideshow folder and responses

/// The image file extensions a slideshow folder scan keeps (lowercase).
pub open spec fn is_image_extension(ext: Seq<char>) -> bool {
    ext == "jpg"@ || ext == "jpeg"@ || ext == "png"@ || ext == "bmp"@ || ext == "tiff"@ || ext
        == "tif"@ || ext == "gif"@ || ext == "heic"@ || ext == "webp"@
}

/// Whether a file extension (any case) marks an image.
pub fn has_image_extension(ext: &str) -> (res: bool)
    ensures
        res == is_image_extension(lowercase(ext@)),
{
    let low = to_lowercase(ext);
    let e = low.as_str();
    str_eq(e, "jpg") || str_eq(e, "jpeg") || str_eq(e, "png") || str_eq(e, "bmp") || str_eq(
        e,
        "tiff",
    ) || str_eq(e, "tif") || str_eq(e, "gif") || str_eq(e, "heic") || str_eq(e, "webp")
}

/// The paths of the folder entries (path, extension) that are images, in
/// entry order.
pub open spec fn image_paths(entries: Seq<(String, Option<String>)>) -> Seq<Seq<char>>
    decreases entries.len(),
{
    if entries.len() == 0 {
        Seq::empty()
    } else {
        let p = image_paths(entries.drop_last());
        let e = entries.last();
        match e.1 {
            Some(x) => if is_image_extension(lowercase(x@)) {
                p.push(e.0@)
            } else {
                p
            },
            None => p,
        }
    }
}

/// Paths in ascending order (the order `Vec<String>::sort` gives).
pub open spec fn paths_sorted(s: Seq<Seq<char>>) -> bool {
    forall|i: int, j: int| 0 <= i < j < s.len() ==> !chars_lt(#[trigger] s[j], #[trigger] s[i])
}

/// Inserts `x` into the sorted `out`, after every path not above it.
fn insert_sorted(out: &mut Vec<String>, x: String)
    requires
        paths_sorted(views(old(out)@)),
    ensures
        paths_sorted(views(final(out)@)),
        views(final(out)@).to_multiset() == views(old(out)@).to_multiset().insert(x@),
{
    broadcast use vstd::seq_lib::group_to_multiset_ensures;

    let xs = chars_of(x.as_str());
    let mut k: usize = 0;
    while k < out.len()
        invariant
            k <= out@.len(),
            xs@ == x@,
            forall|m: int| 0 <= m < k ==> !chars_lt(x@, #[trigger] views(out@)[m]),
        ensures
            k <= out@.len(),
            forall|m: int| 0 <= m < k ==> !chars_lt(x@, #[trigger] views(out@)[m]),
            k < out@.len() ==> chars_lt(x@, views(out@)[k as int]),
        decreases out.len() - k,
    {
        let ys = chars_of(out[k].as_str());
        if chars_less(xs.as_slice(), ys.as_slice()) {
            break;
        }
        k = k + 1;
    }
    let ghost before = views(out@);
    proof {
        lemma_chars_lt_irreflexive(x@);
    }
    out.insert(k, x);
    proof {
        let after = views(out@);
        assert(after =~= before.insert(k as int, x@));
        vstd::seq_lib::to_multiset_insert(before, k as int, x@);
        assert forall|i: int, j: int| 0 <= i < j < after.len() implies !chars_lt(
            #[trigger] after[j],
            #[trigger] after[i],
        ) by {
            if j < k {
                assert(after[i] == before[i] && after[j] == before[j]);
            } else if j == k {
                assert(after[i] == before[i]);
            } else if i == k {
                assert(after[j] == before[j - 1]);
                if chars_lt(before[j - 1], x@) {
                    assert(chars_lt(x@, before[k as int]));
                    lemma_chars_lt_transitive(before[j - 1], x@, before[k as int]);
                    if j - 1 == k {
                        lemma_chars_lt_irreflexive(before[k as int]);
                    } else {
                        assert(!chars_lt(before[j - 1], before[k as int]));
                    }
                }
            } else if i < k {
                assert(after[i] == before[i] && after[j] == before[j - 1]);
            } else {
                assert(after[i] == before[i - 1] && after[j] == before[j - 1]);
            }
        }
    }
}

/// The images of a folder scan: the entries (path, extension) whose
/// extension names an image, as their paths in ascending order.
pub fn select_images(entries: Vec<(String, Option<String>)>) -> (res: Vec<String>)
    ensures
        paths_sorted(views(res@)),
        views(res@).to_multiset() == image_paths(entries@).to_multiset(),
{
    broadcast use vstd::seq_lib::group_to_multiset_ensures;

    let mut out: Vec<String> = Vec::new();
    let mut i: usize = 0;
    assert(views(out@).to_multiset() =~= image_paths(entries@.subrange(0, 0)).to_multiset());
    while i < entries.len()
        invariant
            i <= entries@.len(),
            paths_sorted(views(out@)),
            views(out@).to_multiset() == image_paths(entries@.subrange(0, i as int)).to_multiset(),
        decreases entries.len() - i,
    {
        let ghost prev = image_paths(entries@.subrange(0, i as int));
        proof {
            assert(entries@.subrange(0, i + 1).drop_last() =~= entries@.subrange(0, i as int));
            assert(entries@.subrange(0, i + 1).last() == entries@[i as int]);
        }
        let keep = match &entries[i].1 {
            Some(ext) => has_image_extension(ext.as_str()),
            None => false,
        };
        if keep {
            let path = copy_string(&entries[i].0);
            insert_sorted(&mut out, path);
            proof {
                assert(image_paths(entries@.subrange(0, i + 1)) == prev.push(entries@[i as int].0@));
                vstd::seq_lib::to_multiset_build(prev, entries@[i as int].0@);
            }
        } else {
            assert(image_paths(entries@.subrange(0, i + 1)) == prev);
        }
        i = i + 1;
    }
    assert(entries@.subrange(0, i as int) =~= entries@);
    out
}

/// The answer to a started slideshow: its image count and first image.
pub open spec fn slideshow_started_text(total: nat, first: Seq<char>) -> Seq<char> {
    "{\"current_image\":"@ + json_string(first) + ",\"ok\":true,\"total_images\":"@ + decimal(
        total,
    ) + "}"@
}

/// Builds the JSON answer to a started slideshow.
pub fn slideshow_started(total_images: usize, first_image: &str) -> (res: String)
    ensures
        res@ == slideshow_started_text(total_images as nat, first_image@),
{
    let q = json_quote(first_image);
    let n = u64_to_decimal(total_images as u64);
    String::from_str("{\"current_image\":").concat(q.as_str()).concat(
        ",\"ok\":true,\"total_images\":",
    ).concat(n.as_str()).concat("}")
}

/// The status of the slideshow in `slot`: its settings, current image and
/// position when one is running; `{"running":false}` otherwise.
pub open spec fn slideshow_status_text(slot: Option<SlideshowState>) -> Seq<char> {
    match slot {
        Some(st) if st.running => {
            let current = if st.current_index < st.images@.len() {
                st.images@[st.current_index as int]@
            } else {
                Seq::empty()
            };
            "{\"current_image\":"@ + json_string(current) + ",\"current_index\":"@ + decimal(
                st.current_index as nat,
            ) + ",\"fit\":"@ + json_string(st.fit@) + ",\"folder\":"@ + json_string(st.folder@)
                + ",\"interval_minutes\":"@ + decimal(st.interval_minutes as nat) + ",\"order\":"@
                + json_string(st.order@) + ",\"running\":true,\"total_images\":"@ + decimal(
                st.images@.len(),
            ) + "}"@
        },
        _ => "{\"running\":false}"@,
    }
}

/// Reports the slideshow held in `slot` as JSON.
pub fn slideshow_status(slot: &Option<SlideshowState>) -> (res: String)
    ensures
        res@ == slideshow_status_text(*slot),
{
    match slot {
        Some(st) => {
            if !st.running {
                return String::from_str("{\"running\":false}");
            }
            let current = if st.current_index < st.images.len() {
                copy_string(&st.images[st.current_index])
            } else {
                String::new()
            };
            let r = String::from_str("{\"current_image\":").concat(
                json_quote(current.as_str()).as_str(),
            ).concat(",\"current_index\":").concat(
                u64_to_decimal(st.current_index as u64).as_str(),
            ).concat(",\"fit\":").concat(json_quote(st.fit.as_str()).as_str()).concat(
                ",\"folder\":",
            ).concat(json_quote(st.folder.as_str()).as_str()).concat(
                ",\"interval_minutes\":",
            ).concat(u64_to_decimal(st.interval_minutes).as_str()).concat(",\"order\":").concat(
                json_quote(st.order.as_str()).as_str(),
            ).concat(",\"running\":true,\"total_images\":").concat(
                u64_to_decimal(st.images.len() as u64).as_str(),
            ).concat("}");
            r
        },
        None => String::from_str("{\"running\":false}"),
    }
}

/// The images a timer tick cycles through: the kept list for "random"; for
/// the other orders the fresh scan, reversed for "backward" — or none, to
/// stop the slideshow, when the scan found nothing.
pub open spec fn tick_images_of(order: Seq<char>, kept: Seq<String>, scanned: Seq<String>) -> Option<Seq<String>> {
    if order == "random"@ {
        Some(kept)
    } else if scanned.len() == 0 {
        None
    } else if order == "backward"@ {
        Some(scanned.reverse())
    } else {
        Some(scanned)
    }
}

/// Chooses the image list of a slideshow timer tick.
pub fn tick_images(order: &str, kept: &Vec<String>, scanned: Vec<String>) -> (res: Option<Vec<String>>)
    ensures
        match tick_images_of(order@, kept@, scanned@) {
            Some(v) => res matches Some(r) && r@ == v,
            None => res is None,
        },
{
    if str_eq(order, "random") {
        return Some(copy_strings(kept));
    }
    if scanned.len() == 0 {
        return None;
    }
    if str_eq(order, "backward") {
        let mut out: Vec<String> = Vec::new();
        let mut i = scanned.len();
        while i > 0
            invariant
                i <= scanned@.len(),
                out@ == scanned@.subrange(i as int, scanned@.len() as int).reverse(),
            decreases i,
        {
            i = i - 1;
            out.push(scanned[i].clone());
            assert(out@ =~= scanned@.subrange(i as int, scanned@.len() as int).reverse());
        }
        assert(scanned@.subrange(0, scanned@.len() as int) =~= scanned@);
        return Some(out);
    }
    Some(scanned)
}

/// The GNOME picture URI of a wallpaper file.
pub fn wallpaper_uri(path: &str) -> (res: String)
    ensures
        res@ == "file://"@ + path@,
{
    String::from_str("file://").concat(path)
}

} // verus!
