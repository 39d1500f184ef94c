//! The operating-system theme: reading dark mode out of the platform tools'
//! replies, and the values written to switch it.
use vstd::prelude::*;

use crate::text::{
    chars_of, contains_chars, contains_seq, decode_utf8_lossy, lowercase, str_eq, trim,
    trimmed_lowercase, utf8_lossy,
};

verus! {

/// A tool's reply, trimmed and lowercased.
pub open spec fn normalized(stdout: Seq<u8>) -> Seq<char> {
    lowercase(trim(utf8_lossy(stdout)))
}

fn normalized_chars(stdout: &[u8]) -> (res: Vec<char>)
    ensures
        res@ == normalized(stdout@),
{
    let text = decode_utf8_lossy(stdout);
    let low = trimmed_lowercase(text.as_str());
    chars_of(low.as_str())
}

/// A reply that reads "true" once trimmed and lowercased (AppleScript
/// booleans).
pub open spec fn says_true(stdout: Seq<u8>) -> bool {
    normalized(stdout) == "true"@
}

/// Whether an AppleScript reply is the boolean true.
pub fn reply_is_true(stdout: &[u8]) -> (res: bool)
    ensures
        res == says_true(stdout@),
{
    let text = decode_utf8_lossy(stdout);
    let low = trimmed_lowercase(text.as_str());
    str_eq(low.as_str(), "true")
}

/// The GNOME `color-scheme` setting read as dark mode: a value naming
/// "dark" is dark, one naming "light" or "default" is light, anything else
/// says nothing.
pub open spec fn color_scheme_dark_of(stdout: Seq<u8>) -> Option<bool> {
    let v = normalized(stdout);
    if contains_seq(v, "dark"@) {
        Some(true)
    } else if contains_seq(v, "light"@) || contains_seq(v, "default"@) {
        Some(false)
    } else {
        None
    }
}

/// Reads dark mode out of `gsettings get ... color-scheme` output.
pub fn color_scheme_is_dark(stdout: &[u8]) -> (res: Option<bool>)
    ensures
        res == color_scheme_dark_of(stdout@),
{
    let v = normalized_chars(stdout);
    let dark = chars_of("dark");
    let light = chars_of("light");
    let default = chars_of("default");
    if contains_chars(v.as_slice(), dark.as_slice()) {
        Some(true)
    } else if contains_chars(v.as_slice(), light.as_slice()) || contains_chars(
        v.as_slice(),
        default.as_slice(),
    ) {
        Some(false)
    } else {
        None
    }
}

/// A theme or color-scheme name read as dark mode: it names "dark".
pub open spec fn theme_name_dark_of(stdout: Seq<u8>) -> bool {
    contains_seq(normalized(stdout), "dark"@)
}

/// Reads dark mode out of a GTK theme or KDE color-scheme name.
pub fn theme_name_is_dark(stdout: &[u8]) -> (res: bool)
    ensures
        res == theme_name_dark_of(stdout@),
{
    let v = normalized_chars(stdout);
    let dark = chars_of("dark");
    contains_chars(v.as_slice(), dark.as_slice())
}

/// The `AppsUseLightTheme` registry value read as dark mode: 0 is dark, 1 is
/// light.
pub open spec fn windows_theme_dark_of(stdout: Seq<u8>) -> Option<bool> {
    let t = utf8_lossy(stdout);
    if contains_seq(t, "0x0"@) {
        Some(true)
    } else if contains_seq(t, "0x1"@) {
        Some(false)
    } else {
        None
    }
}

/// Reads dark mode out of `reg query ... AppsUseLightTheme` output.
pub fn windows_theme_is_dark(stdout: &[u8]) -> (res: Option<bool>)
    ensures
        res == windows_theme_dark_of(stdout@),
{
    let text = decode_utf8_lossy(stdout);
    let t = chars_of(text.as_str());
    let zero = chars_of("0x0");
    let one = chars_of("0x1");
    if contains_chars(t.as_slice(), zero.as_slice()) {
        Some(true)
    } else if contains_chars(t.as_slice(), one.as_slice()) {
        Some(false)
    } else {
        None
    }
}

/// The GTK theme set for a mode.
pub fn gtk_theme_for(dark: bool) -> (res: &'static str)
    ensures
        res@ == if dark {
            "Adwaita-dark"@
        } else {
            "Adwaita"@
        },
{
    if dark {
        "Adwaita-dark"
    } else {
        "Adwaita"
    }
}

/// The GNOME color scheme set for a mode.
pub fn color_scheme_for(dark: bool) -> (res: &'static str)
    ensures
        res@ == if dark {
            "prefer-dark"@
        } else {
            "prefer-light"@
        },
{
    if dark {
        "prefer-dark"
    } else {
        "prefer-light"
    }
}

/// The KDE Plasma color scheme set for a mode.
pub fn plasma_scheme_for(dark: bool) -> (res: &'static str)
    ensures
        res@ == if dark {
            "BreezeDark"@
        } else {
            "BreezeLight"@
        },
{
    if dark {
        "BreezeDark"
    } else {
        "BreezeLight"
    }
}

/// The Windows `AppsUseLightTheme` / `SystemUsesLightTheme` value for a
/// mode: 0 for dark, 1 for light.
pub fn windows_light_value(dark: bool) -> (res: &'static str)
    ensures
        res@ == if dark {
            "0"@
        } else {
            "1"@
        },
{
    if dark {
        "0"
    } else {
        "1"
    }
}

/// The AppleScript boolean for a flag.
pub fn applescript_bool(flag: bool) -> (res: &'static str)
    ensures
        res@ == if flag {
            "true"@
        } else {
            "false"@
        },
{
    if flag {
        "true"
    } else {
        "false"
    }
}

} // verus!
