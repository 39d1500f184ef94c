//! System audio volume: the volume state, and reading it out of the platform
//! tools' replies (pactl, amixer, AppleScript).
use vstd::prelude::*;

use crate::text::{
    before_char, before_char_chars, chars_of, contains_chars, contains_seq, decode_utf8_lossy,
    find_piece_containing, first_piece_containing, lowercase, parse_u32_chars, parse_u32_spec,
    to_lowercase, trim, trim_chars, trim_end_char, trim_end_char_chars, u64_to_decimal,
    utf8_lossy, decimal,
};
use crate::theme::{reply_is_true, says_true};

verus! {

/// System audio volume state.
#[derive(Clone, Copy, Debug, PartialEq, Eq, Structural)]
pub struct VolumeInfo {
    /// 0-100 percentage.
    pub volume: u32,
    /// Whether the default output is muted.
    pub muted: bool,
}

/// Whether the tray shows the muted icon: muted, or at volume 0.
pub fn shows_muted(info: &VolumeInfo) -> (res: bool)
    ensures
        res == (info.muted || info.volume == 0),
{
    info.muted || info.volume == 0
}

/// The volume in `pactl get-sink-volume` output ("Volume: front-left: 32768
/// /  50% / -17.50 dB"): the first '/'-separated piece holding a '%',
/// trimmed, without its trailing '%', read as a number.
pub open spec fn pactl_volume_of(text: Seq<char>) -> Option<u32> {
    match first_piece_containing(text, '/', seq!['%']) {
        Some(p) => parse_u32_spec(trim_end_char(trim(p), '%')),
        None => None,
    }
}

/// The mute state in `pactl get-sink-mute` output: it says "yes".
pub open spec fn pactl_muted_of(text: Seq<char>) -> bool {
    contains_seq(lowercase(text), "yes"@)
}

/// Reads the volume out of `pactl get-sink-volume` output.
pub fn parse_pactl_volume(stdout: &[u8]) -> (res: Option<u32>)
    ensures
        res == pactl_volume_of(utf8_lossy(stdout@)),
{
    let text = decode_utf8_lossy(stdout);
    let cs = chars_of(text.as_str());
    let pct = vec!['%'];
    assert(pct@ =~= seq!['%']);
    match find_piece_containing(cs.as_slice(), '/', pct.as_slice()) {
        Some(p) => {
            let t = trim_chars(p.as_slice());
            let u = trim_end_char_chars(t.as_slice(), '%');
            parse_u32_chars(u.as_slice())
        },
        None => None,
    }
}

/// Reads the mute state out of `pactl get-sink-mute` output.
pub fn parse_pactl_mute(stdout: &[u8]) -> (res: bool)
    ensures
        res == pactl_muted_of(utf8_lossy(stdout@)),
{
    let text = decode_utf8_lossy(stdout);
    let low = to_lowercase(text.as_str());
    let cs = chars_of(low.as_str());
    let yes = chars_of("yes");
    contains_chars(cs.as_slice(), yes.as_slice())
}

/// The volume state out of the two pactl replies: none when the volume reply
/// holds no volume.
pub fn pactl_volume_info(volume_stdout: &[u8], mute_stdout: &[u8]) -> (res: Option<VolumeInfo>)
    ensures
        match pactl_volume_of(utf8_lossy(volume_stdout@)) {
            Some(v) => res == Some(
                VolumeInfo { volume: v, muted: pactl_muted_of(utf8_lossy(mute_stdout@)) },
            ),
            None => res is None,
        },
{
    let volume = match parse_pactl_volume(volume_stdout) {
        Some(v) => v,
        None => {
            return None;
        },
    };
    let muted = parse_pactl_mute(mute_stdout);
    Some(VolumeInfo { volume, muted })
}

/// The volume in `amixer get Master` output: in the first '['-separated piece
/// holding "%]", the part before its first '%', read as a number.
pub open spec fn amixer_volume_of(text: Seq<char>) -> Option<u32> {
    match first_piece_containing(text, '[', "%]"@) {
        Some(p) => parse_u32_spec(before_char(p, '%')),
        None => None,
    }
}

/// The mute state in `amixer get Master` output: a channel reads "[off]".
pub open spec fn amixer_muted_of(text: Seq<char>) -> bool {
    contains_seq(text, "[off]"@)
}

/// Reads the volume state out of `amixer get Master` output: none when it
/// holds no volume.
pub fn parse_amixer_volume(stdout: &[u8]) -> (res: Option<VolumeInfo>)
    ensures
        match amixer_volume_of(utf8_lossy(stdout@)) {
            Some(v) => res == Some(
                VolumeInfo { volume: v, muted: amixer_muted_of(utf8_lossy(stdout@)) },
            ),
            None => res is None,
        },
{
    let text = decode_utf8_lossy(stdout);
    let cs = chars_of(text.as_str());
    let marker = chars_of("%]");
    let volume = match find_piece_containing(cs.as_slice(), '[', marker.as_slice()) {
        Some(p) => {
            let head = before_char_chars(p.as_slice(), '%');
            match parse_u32_chars(head.as_slice()) {
                Some(v) => v,
                None => {
                    return None;
                },
            }
        },
        None => {
            return None;
        },
    };
    let off = chars_of("[off]");
    let muted = contains_chars(cs.as_slice(), off.as_slice());
    Some(VolumeInfo { volume, muted })
}

/// The volume state out of the two AppleScript replies (`output volume` and
/// `output muted` of the volume settings): none when the first is not a
/// number once trimmed.
pub fn osascript_volume_info(volume_stdout: &[u8], muted_stdout: &[u8]) -> (res: Option<VolumeInfo>)
    ensures
        match parse_u32_spec(trim(utf8_lossy(volume_stdout@))) {
            Some(v) => res == Some(VolumeInfo { volume: v, muted: says_true(muted_stdout@) }),
            None => res is None,
        },
{
    let text = decode_utf8_lossy(volume_stdout);
    let cs = chars_of(text.as_str());
    let t = trim_chars(cs.as_slice());
    let volume = match parse_u32_chars(t.as_slice()) {
        Some(v) => v,
        None => {
            return None;
        },
    };
    let muted = reply_is_true(muted_stdout);
    Some(VolumeInfo { volume, muted })
}

/// The volume argument of pactl and amixer: the level followed by '%'.
pub fn percent_arg(level: u16) -> (res: String)
    ensures
        res@ == decimal(level as nat).push('%'),
{
    let s = u64_to_decimal(level as u64);
    proof {
        reveal_strlit("%");
    }
    let r = s.concat("%");
    assert(r@ =~= decimal(level as nat).push('%'));
    r
}

/// The mute flag of `pactl set-sink-mute` and of the AudioDeviceCmdlets
/// mute switch: 1 to mute, 0 to unmute.
pub fn mute_flag(mute: bool) -> (res: &'static str)
    ensures
        res@ == if mute {
            "1"@
        } else {
            "0"@
        },
{
    if mute {
        "1"
    } else {
        "0"
    }
}

/// The amixer switch word for a mute state.
pub fn amixer_mute_word(mute: bool) -> (res: &'static str)
    ensures
        res@ == if mute {
            "mute"@
        } else {
            "unmute"@
        },
{
    if mute {
        "mute"
    } else {
        "unmute"
    }
}

} // verus!
