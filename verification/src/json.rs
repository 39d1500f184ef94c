//! JSON text: string literals escaped the way `serde_json` writes them,
//! JSON values read with `serde_json`, field lookup, and compact rendering.
use vstd::prelude::*;

use crate::text::{
    all_digits, chars_of, digit_value, digits_value, is_digit, lemma_digits_value_monotone,
    lemma_digits_value_nonneg, push_char, str_eq,
};

verus! {

// ------------------------------------------------------------------ string literals

/// The lowercase hexadecimal digit for 0..15.
pub open spec fn hex_digit(n: int) -> char {
    if n < 10 {
        (n + 48) as char
    } else {
        (n + 87) as char
    }
}

/// How one character appears inside a JSON string literal: quote and
/// backslash escaped, \b \t \n \f \r by name, other control characters
/// below 0x20 as \u00XX, everything else as itself.
pub open spec fn escape_char(c: char) -> Seq<char> {
    if c == '"' {
        seq!['\\', '"']
    } else if c == '\\' {
        seq!['\\', '\\']
    } else if c == '\u{8}' {
        seq!['\\', 'b']
    } else if c == '\t' {
        seq!['\\', 't']
    } else if c == '\n' {
        seq!['\\', 'n']
    } else if c == '\u{c}' {
        seq!['\\', 'f']
    } else if c == '\r' {
        seq!['\\', 'r']
    } else if (c as int) < 32 {
        seq!['\\', 'u', '0', '0', hex_digit((c as int) / 16), hex_digit((c as int) % 16)]
    } else {
        seq![c]
    }
}

/// The escaped body of a JSON string literal.
pub open spec fn json_escaped(s: Seq<char>) -> Seq<char>
    decreases s.len(),
{
    if s.len() == 0 {
        Seq::empty()
    } else {
        json_escaped(s.drop_last()) + escape_char(s.last())
    }
}

/// The text of a string as a JSON string literal.
pub open spec fn json_string(s: Seq<char>) -> Seq<char> {
    seq!['"'] + json_escaped(s) + seq!['"']
}

fn hex_char(n: u32) -> (c: char)
    requires
        n < 16,
    ensures
        c == hex_digit(n as int),
{
    match n {
        0 => '0',
        1 => '1',
        2 => '2',
        3 => '3',
        4 => '4',
        5 => '5',
        6 => '6',
        7 => '7',
        8 => '8',
        9 => '9',
        10 => 'a',
        11 => 'b',
        12 => 'c',
        13 => 'd',
        14 => 'e',
        _ => 'f',
    }
}

fn push_escaped(out: &mut String, c: char)
    ensures
        final(out)@ == old(out)@ + escape_char(c),
{
    let code = c as u32;
    if c == '"' {
        push_char(out, '\\');
        push_char(out, '"');
    } else if c == '\\' {
        push_char(out, '\\');
        push_char(out, '\\');
    } else if c == '\u{8}' {
        push_char(out, '\\');
        push_char(out, 'b');
    } else if c == '\t' {
        push_char(out, '\\');
        push_char(out, 't');
    } else if c == '\n' {
        push_char(out, '\\');
        push_char(out, 'n');
    } else if c == '\u{c}' {
        push_char(out, '\\');
        push_char(out, 'f');
    } else if c == '\r' {
        push_char(out, '\\');
        push_char(out, 'r');
    } else if code < 32 {
        push_char(out, '\\');
        push_char(out, 'u');
        push_char(out, '0');
        push_char(out, '0');
        push_char(out, hex_char(code / 16));
        push_char(out, hex_char(code % 16));
    } else {
        push_char(out, c);
    }
    assert(out@ =~= old(out)@ + escape_char(c));
}

/// A string as a JSON string literal, quoted and escaped.
pub fn json_quote(s: &str) -> (res: String)
    ensures
        res@ == json_string(s@),
{
    let cs = chars_of(s);
    let mut out = String::new();
    push_char(&mut out, '"');
    let mut i: usize = 0;
    while i < cs.len()
        invariant
            i <= cs@.len(),
            out@ == seq!['"'] + json_escaped(cs@.subrange(0, i as int)),
        decreases cs.len() - i,
    {
        assert(cs@.subrange(0, i + 1).drop_last() =~= cs@.subrange(0, i as int));
        push_escaped(&mut out, cs[i]);
        i = i + 1;
        assert(out@ =~= seq!['"'] + json_escaped(cs@.subrange(0, i as int)));
    }
    assert(cs@.subrange(0, cs@.len() as int) =~= s@);
    push_char(&mut out, '"');
    assert(out@ =~= json_string(s@));
    out
}

// ------------------------------------------------------------------ values

/// A JSON value as `serde_json` reads it. A number keeps the text
/// `serde_json` writes for it; an object keeps its members in the order
/// `serde_json` holds them (by key).
pub enum JsonValue {
    Null,
    Bool(bool),
    Number(String),
    Str(String),
    Array(Vec<JsonValue>),
    Object(Vec<(String, JsonValue)>),
}

#[verifier::external_type_specification]
#[verifier::external_body]
pub struct ExSerdeJsonValue(serde_json::Value);

/// What `serde_json::from_str::<serde_json::Value>` reads from a text, as a
/// `JsonValue`; none when the text is not one JSON value.
pub uninterp spec fn parsed_json(text: Seq<char>) -> Option<JsonValue>;

/// `serde_json::Value` as a `JsonValue`, variant by variant (a number by
/// the text `serde_json` writes for it).
#[verifier::external_body]
fn json_tree(v: serde_json::Value) -> (res: JsonValue) {
    match v {
        serde_json::Value::Null => JsonValue::Null,
        serde_json::Value::Bool(b) => JsonValue::Bool(b),
        serde_json::Value::Number(n) => JsonValue::Number(n.to_string()),
        serde_json::Value::String(t) => JsonValue::Str(t),
        serde_json::Value::Array(a) => JsonValue::Array(a.into_iter().map(json_tree).collect()),
        serde_json::Value::Object(m) => JsonValue::Object(m.into_iter().map(|(k, x)| (k, json_tree(x))).collect()),
    }
}

/// `serde_json::from_str::<serde_json::Value>`: the JSON value a text holds,
/// none when it does not hold exactly one.
#[verifier::external_body]
pub(crate) fn parse_json(text: &str) -> (res: Option<JsonValue>)
    ensures
        res == parsed_json(text@),
{
    serde_json::from_str::<serde_json::Value>(text).ok().map(json_tree)
}

/// The member `key` of an object (the first with that key); none for a
/// missing key or a value that is not an object.
pub open spec fn field(v: JsonValue, key: Seq<char>) -> Option<JsonValue> {
    match v {
        JsonValue::Object(fs) => first_member(fs@, key),
        _ => None,
    }
}

/// The value of the first member named `key`.
pub open spec fn first_member(fs: Seq<(String, JsonValue)>, key: Seq<char>) -> Option<JsonValue>
    decreases fs.len(),
{
    if fs.len() == 0 {
        None
    } else if fs[0].0@ == key {
        Some(fs[0].1)
    } else {
        first_member(fs.drop_first(), key)
    }
}

/// The member `key` of an optional value.
pub open spec fn field_of(v: Option<JsonValue>, key: Seq<char>) -> Option<JsonValue> {
    match v {
        Some(x) => field(x, key),
        None => None,
    }
}

/// The text of a string value; none for anything else.
pub open spec fn str_view(v: Option<JsonValue>) -> Option<Seq<char>> {
    match v {
        Some(JsonValue::Str(s)) => Some(s@),
        _ => None,
    }
}

/// The value of a number text made only of decimal digits that fits in a
/// `u64` (a non-negative integer); none otherwise.
pub open spec fn number_u64(t: Seq<char>) -> Option<u64> {
    if t.len() > 0 && all_digits(t) && digits_value(t) <= u64::MAX {
        Some(digits_value(t) as u64)
    } else {
        None
    }
}

/// A value as an unsigned integer: a number that is a non-negative integer
/// within `u64`; none for anything else.
pub open spec fn u64_view(v: Option<JsonValue>) -> Option<u64> {
    match v {
        Some(JsonValue::Number(t)) => number_u64(t@),
        _ => None,
    }
}

/// Finds the member `key` of a value.
pub fn get_field<'a>(v: &'a JsonValue, key: &str) -> (res: Option<&'a JsonValue>)
    ensures
        match res {
            Some(r) => field(*v, key@) == Some(*r),
            None => field(*v, key@) is None,
        },
{
    match v {
        JsonValue::Object(fs) => {
            let mut i: usize = 0;
            assert(fs@.subrange(0, fs@.len() as int) =~= fs@);
            while i < fs.len()
                invariant
                    i <= fs@.len(),
                    field(*v, key@) == first_member(fs@, key@),
                    first_member(fs@, key@) == first_member(fs@.subrange(i as int, fs@.len() as int), key@),
                decreases fs.len() - i,
            {
                let ghost rest = fs@.subrange(i as int, fs@.len() as int);
                assert(rest[0] == fs@[i as int]);
                if str_eq(fs[i].0.as_str(), key) {
                    assert(first_member(rest, key@) == Some(fs@[i as int].1));
                    assert(field(*v, key@) == first_member(fs@, key@));
                    return Some(&fs[i].1);
                }
                assert(rest.drop_first() =~= fs@.subrange(i + 1, fs@.len() as int));
                i = i + 1;
            }
            assert(fs@.subrange(i as int, fs@.len() as int) =~= Seq::<(String, JsonValue)>::empty());
            None
        },
        _ => None,
    }
}

/// The text of the string member `key`.
pub fn field_text(v: &JsonValue, key: &str) -> (res: Option<String>)
    ensures
        match res {
            Some(s) => str_view(field(*v, key@)) == Some(s@),
            None => str_view(field(*v, key@)) is None,
        },
{
    match get_field(v, key) {
        Some(JsonValue::Str(s)) => Some(s.clone()),
        _ => None,
    }
}

/// Reads a number text as a `u64` when it is a non-negative integer that fits.
pub fn number_text_u64(t: &str) -> (res: Option<u64>)
    ensures
        res == number_u64(t@),
{
    let cs = chars_of(t);
    if cs.len() == 0 {
        return None;
    }
    let mut acc: u64 = 0;
    let mut i: usize = 0;
    while i < cs.len()
        invariant
            i <= cs@.len(),
            cs@ == t@,
            all_digits(cs@.subrange(0, i as int)),
            acc == digits_value(cs@.subrange(0, i as int)),
        decreases cs.len() - i,
    {
        assert(cs@.subrange(0, i + 1).drop_last() =~= cs@.subrange(0, i as int));
        let d = match digit_value(cs[i]) {
            Some(d) => d,
            None => {
                assert(!all_digits(cs@)) by {
                    assert(!is_digit(cs@[i as int]));
                }
                return None;
            },
        };
        if acc > (0xffff_ffff_ffff_ffffu64 - d as u64) / 10 {
            assert(digits_value(cs@.subrange(0, i + 1)) > u64::MAX) by (nonlinear_arith)
                requires
                    digits_value(cs@.subrange(0, i + 1)) == acc * 10 + d,
                    acc > (0xffff_ffff_ffff_ffffu64 - d as u64) / 10,
                    d <= 9,
            ;
            proof {
                if all_digits(cs@) {
                    lemma_digits_value_monotone(cs@, i + 1);
                }
            }
            return None;
        }
        assert(acc * 10 + d <= u64::MAX) by (nonlinear_arith)
            requires
                acc <= (0xffff_ffff_ffff_ffffu64 - d as u64) / 10,
                d <= 9,
        ;
        acc = acc * 10 + d as u64;
        i = i + 1;
        assert(all_digits(cs@.subrange(0, i as int))) by {
            assert forall|k: int| 0 <= k < i implies is_digit(#[trigger] cs@.subrange(0, i as int)[k]) by {
                if k < i - 1 {
                    assert(cs@.subrange(0, i as int)[k] == cs@.subrange(0, i - 1)[k]);
                }
            }
        }
    }
    assert(cs@.subrange(0, i as int) =~= cs@);
    Some(acc)
}

/// The unsigned integer member `key`.
pub fn field_u64(v: &JsonValue, key: &str) -> (res: Option<u64>)
    ensures
        res == u64_view(field(*v, key@)),
{
    match get_field(v, key) {
        Some(JsonValue::Number(t)) => number_text_u64(t.as_str()),
        _ => None,
    }
}

// ------------------------------------------------------------------ compact text

/// A value written as compact JSON (no spaces), members in their order.
pub open spec fn json_compact(v: JsonValue) -> Seq<char>
    decreases v,
{
    match v {
        JsonValue::Null => "null"@,
        JsonValue::Bool(b) => if b {
            "true"@
        } else {
            "false"@
        },
        JsonValue::Number(t) => t@,
        JsonValue::Str(s) => json_string(s@),
        JsonValue::Array(items) => "["@ + compact_items(items@) + "]"@,
        JsonValue::Object(fs) => "{"@ + compact_members(fs@) + "}"@,
    }
}

/// Array elements written compactly, separated by commas.
pub open spec fn compact_items(items: Seq<JsonValue>) -> Seq<char>
    decreases items,
{
    if items.len() == 0 {
        Seq::empty()
    } else if items.len() == 1 {
        json_compact(items[0])
    } else {
        compact_items(items.subrange(0, items.len() - 1)) + ","@ + json_compact(items[items.len() - 1])
    }
}

/// Object members written compactly as `"key":value`, separated by commas.
pub open spec fn compact_members(fs: Seq<(String, JsonValue)>) -> Seq<char>
    decreases fs,
{
    if fs.len() == 0 {
        Seq::empty()
    } else if fs.len() == 1 {
        json_string(fs[0].0@) + ":"@ + json_compact(fs[0].1)
    } else {
        compact_members(fs.subrange(0, fs.len() - 1)) + ","@ + json_string(fs[fs.len() - 1].0@)
            + ":"@ + json_compact(fs[fs.len() - 1].1)
    }
}

/// Writes a value as compact JSON.
pub fn compact_json(v: &JsonValue) -> (res: String)
    ensures
        res@ == json_compact(*v),
    decreases v,
{
    proof {
        reveal_strlit(",");
        reveal_strlit(":");
    }
    match v {
        JsonValue::Null => String::from_str("null"),
        JsonValue::Bool(b) => if *b {
            String::from_str("true")
        } else {
            String::from_str("false")
        },
        JsonValue::Number(t) => t.clone(),
        JsonValue::Str(s) => json_quote(s.as_str()),
        JsonValue::Array(items) => {
            let mut out = String::new();
            let mut i: usize = 0;
            assert(decreases_to!(*v => *items));
            assert(decreases_to!(*items => items@));
            while i < items.len()
                invariant
                    i <= items@.len(),
                    decreases_to!(*v => items@),
                    out@ == compact_items(items@.subrange(0, i as int)),
                decreases items.len() - i,
            {
                proof {
                    reveal_strlit(",");
                }
                if i > 0 {
                    push_char(&mut out, ',');
                }
                assert(decreases_to!(items@ => items@[i as int]));
                let part = compact_json(&items[i]);
                out = out.concat(part.as_str());
                let ghost sub = items@.subrange(0, i + 1);
                assert(sub.subrange(0, sub.len() - 1) =~= items@.subrange(0, i as int));
                assert(sub[sub.len() - 1] == items@[i as int]);
                if i == 0 {
                    assert(out@ =~= compact_items(sub));
                } else {
                    assert(out@ =~= compact_items(sub));
                }
                i = i + 1;
            }
            assert(items@.subrange(0, i as int) =~= items@);
            String::from_str("[").concat(out.as_str()).concat("]")
        },
        JsonValue::Object(fs) => {
            let mut out = String::new();
            let mut i: usize = 0;
            assert(decreases_to!(*v => *fs));
            assert(decreases_to!(*fs => fs@));
            while i < fs.len()
                invariant
                    i <= fs@.len(),
                    decreases_to!(*v => fs@),
                    out@ == compact_members(fs@.subrange(0, i as int)),
                decreases fs.len() - i,
            {
                proof {
                    reveal_strlit(",");
                    reveal_strlit(":");
                }
                if i > 0 {
                    push_char(&mut out, ',');
                }
                assert(decreases_to!(fs@ => fs@[i as int]));
                assert(decreases_to!(fs@[i as int] => fs@[i as int].1));
                let key = json_quote(fs[i].0.as_str());
                let part = compact_json(&fs[i].1);
                out = out.concat(key.as_str());
                push_char(&mut out, ':');
                out = out.concat(part.as_str());
                let ghost sub = fs@.subrange(0, i + 1);
                assert(sub.subrange(0, sub.len() - 1) =~= fs@.subrange(0, i as int));
                assert(sub[sub.len() - 1] == fs@[i as int]);
                assert(out@ =~= compact_members(sub));
                i = i + 1;
            }
            assert(fs@.subrange(0, i as int) =~= fs@);
            String::from_str("{").concat(out.as_str()).concat("}")
        },
    }
}

} // verus!
