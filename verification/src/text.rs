//! Text helpers over `Seq<char>`: conversion, comparison, trimming, line
//! splitting and decimal parsing, each with the meaning std gives the
//! corresponding `str` operation.
use vstd::prelude::*;

verus! {

// ---------------------------------------------------------------- conversion

/// The characters of `s`, in order.
pub fn chars_of(s: &str) -> (res: Vec<char>)
    ensures
        res@ == s@,
{
    let n = s.unicode_len();
    let mut out: Vec<char> = Vec::new();
    let mut i: usize = 0;
    while i < n
        invariant
            n == s@.len(),
            i <= n,
            out@ == s@.subrange(0, i as int),
        decreases n - i,
    {
        let c = s.get_char(i);
        out.push(c);
        i = i + 1;
        assert(out@ =~= s@.subrange(0, i as int));
    }
    assert(out@ =~= s@);
    out
}

/// Appends one character to a `String` (std `String::push`).
#[verifier::external_body]
pub(crate) fn push_char(s: &mut String, c: char)
    ensures
        final(s)@ == old(s)@.push(c),
{
    s.push(c);
}

/// A `String` holding exactly the characters of `cs`.
pub fn string_from_chars(cs: &[char]) -> (res: String)
    ensures
        res@ == cs@,
{
    let mut out = String::new();
    let mut i: usize = 0;
    while i < cs.len()
        invariant
            i <= cs@.len(),
            out@ == cs@.subrange(0, i as int),
        decreases cs.len() - i,
    {
        push_char(&mut out, cs[i]);
        i = i + 1;
        assert(out@ =~= cs@.subrange(0, i as int));
    }
    assert(out@ =~= cs@);
    out
}

/// A copy of `s` as an owned `String`.
pub fn owned(s: &str) -> (res: String)
    ensures
        res@ == s@,
{
    String::from_str(s)
}

/// Copy of a `String`.
pub fn copy_string(s: &String) -> (res: String)
    ensures
        res@ == s@,
{
    s.clone()
}

/// Copy of an optional `String`.
pub fn copy_opt_string(s: &Option<String>) -> (res: Option<String>)
    ensures
        res == *s,
{
    match s {
        Some(v) => Some(v.clone()),
        None => None,
    }
}

/// Copy of a list of `String`s.
pub fn copy_strings(v: &Vec<String>) -> (res: Vec<String>)
    ensures
        res@ == v@,
{
    let mut out: Vec<String> = Vec::new();
    let mut i: usize = 0;
    while i < v.len()
        invariant
            i <= v@.len(),
            out@ == v@.subrange(0, i as int),
        decreases v.len() - i,
    {
        out.push(v[i].clone());
        i = i + 1;
        assert(out@ =~= v@.subrange(0, i as int));
    }
    assert(out@ =~= v@);
    out
}

/// Views of a list of strings.
pub open spec fn views(v: Seq<String>) -> Seq<Seq<char>> {
    v.map_values(|s: String| s@)
}

// ---------------------------------------------------------------- equality

/// Character-wise equality of two character slices.
pub fn chars_eq(a: &[char], b: &[char]) -> (res: bool)
    ensures
        res == (a@ == b@),
{
    if a.len() != b.len() {
        return false;
    }
    let mut i: usize = 0;
    while i < a.len()
        invariant
            a@.len() == b@.len(),
            i <= a@.len(),
            forall|k: int| 0 <= k < i ==> a@[k] == b@[k],
        decreases a.len() - i,
    {
        if a[i] != b[i] {
            return false;
        }
        i = i + 1;
    }
    assert(a@ =~= b@);
    true
}

/// `a == b` on string slices.
pub fn str_eq(a: &str, b: &str) -> (res: bool)
    ensures
        res == (a@ == b@),
{
    let ca = chars_of(a);
    let cb = chars_of(b);
    chars_eq(ca.as_slice(), cb.as_slice())
}

// ---------------------------------------------------------------- ordering

/// Strict lexicographic order on character sequences (code point order, which
/// is the order `String`'s `Ord` gives, UTF-8 preserving code point order).
pub open spec fn chars_lt(a: Seq<char>, b: Seq<char>) -> bool
    decreases a.len(),
{
    if b.len() == 0 {
        false
    } else if a.len() == 0 {
        true
    } else if (a[0] as int) < (b[0] as int) {
        true
    } else if (a[0] as int) > (b[0] as int) {
        false
    } else {
        chars_lt(a.drop_first(), b.drop_first())
    }
}

pub proof fn lemma_chars_lt_irreflexive(a: Seq<char>)
    ensures
        !chars_lt(a, a),
    decreases a.len(),
{
    if a.len() > 0 {
        lemma_chars_lt_irreflexive(a.drop_first());
    }
}

pub proof fn lemma_chars_lt_transitive(a: Seq<char>, b: Seq<char>, c: Seq<char>)
    requires
        chars_lt(a, b),
        chars_lt(b, c),
    ensures
        chars_lt(a, c),
    decreases a.len(),
{
    if a.len() > 0 && b.len() > 0 && c.len() > 0 {
        if a[0] == b[0] && b[0] == c[0] {
            lemma_chars_lt_transitive(a.drop_first(), b.drop_first(), c.drop_first());
        }
    }
}

pub proof fn lemma_chars_lt_total(a: Seq<char>, b: Seq<char>)
    ensures
        a != b ==> (chars_lt(a, b) || chars_lt(b, a)),
    decreases a.len(),
{
    if a.len() > 0 && b.len() > 0 {
        lemma_chars_lt_total(a.drop_first(), b.drop_first());
        if a[0] == b[0] && a.drop_first() == b.drop_first() {
            assert forall|k: int| 0 <= k < a.len() implies a[k] == b[k] by {
                if k > 0 {
                    assert(a[k] == a.drop_first()[k - 1]);
                    assert(b[k] == b.drop_first()[k - 1]);
                }
            }
            assert(a =~= b);
        }
    } else if a.len() == 0 && b.len() == 0 {
        assert(a =~= b);
    }
}

/// `a < b` in lexicographic code point order.
pub fn chars_less(a: &[char], b: &[char]) -> (res: bool)
    ensures
        res == chars_lt(a@, b@),
{
    let mut i: usize = 0;
    assert(a@.subrange(0, a@.len() as int) =~= a@);
    assert(b@.subrange(0, b@.len() as int) =~= b@);
    while i < a.len() && i < b.len()
        invariant
            i <= a@.len(),
            i <= b@.len(),
            forall|k: int| 0 <= k < i ==> a@[k] == b@[k],
            chars_lt(a@, b@) == chars_lt(a@.subrange(i as int, a@.len() as int), b@.subrange(
                i as int,
                b@.len() as int,
            )),
        decreases a.len() - i,
    {
        let ghost sa = a@.subrange(i as int, a@.len() as int);
        let ghost sb = b@.subrange(i as int, b@.len() as int);
        let ca = a[i];
        let cb = b[i];
        assert(sa[0] == ca && sb[0] == cb);
        if ca < cb {
            return true;
        }
        if ca > cb {
            return false;
        }
        assert(sa.drop_first() =~= a@.subrange(i + 1, a@.len() as int));
        assert(sb.drop_first() =~= b@.subrange(i + 1, b@.len() as int));
        assert(ca == cb);
        i = i + 1;
    }
    proof {
        let sa = a@.subrange(i as int, a@.len() as int);
        let sb = b@.subrange(i as int, b@.len() as int);
        assert(i == a@.len() ==> sa.len() == 0);
        assert(i == b@.len() ==> sb.len() == 0);
    }
    i < b.len()
}

// ---------------------------------------------------------------- lowercase

/// Unicode lowercase mapping of a string, as std's `str::to_lowercase` computes it.
pub uninterp spec fn lowercase(s: Seq<char>) -> Seq<char>;

/// std `str::to_lowercase`.
#[verifier::external_body]
pub(crate) fn to_lowercase(s: &str) -> (res: String)
    ensures
        res@ == lowercase(s@),
{
    s.to_lowercase()
}

// ---------------------------------------------------------------- search

/// `needle` occurs in `hay` starting at `at`.
pub open spec fn occurs_at(hay: Seq<char>, needle: Seq<char>, at: int) -> bool {
    0 <= at && at + needle.len() <= hay.len() && hay.subrange(at, at + needle.len()) == needle
}

/// `needle` occurs somewhere in `hay` (std `str::contains` with a string pattern).
pub open spec fn contains_seq(hay: Seq<char>, needle: Seq<char>) -> bool {
    exists|at: int| occurs_at(hay, needle, at)
}

/// Whether `needle` occurs at position `at` of `hay`.
fn occurs_at_exec(hay: &[char], needle: &[char], at: usize) -> (res: bool)
    requires
        at + needle@.len() <= hay@.len(),
    ensures
        res == occurs_at(hay@, needle@, at as int),
{
    let mut k: usize = 0;
    assert(hay.len() == hay@.len());
    while k < needle.len()
        invariant
            at + needle@.len() <= hay@.len(),
            hay@.len() == hay.len(),
            k <= needle@.len(),
            forall|m: int| 0 <= m < k ==> hay@[at + m] == needle@[m],
        decreases needle.len() - k,
    {
        if hay[at + k] != needle[k] {
            assert(hay@.subrange(at as int, at + needle@.len())[k as int] != needle@[k as int]);
            return false;
        }
        k = k + 1;
    }
    assert(hay@.subrange(at as int, at + needle@.len()) =~= needle@);
    true
}

/// Whether `needle` occurs in `hay`.
pub fn contains_chars(hay: &[char], needle: &[char]) -> (res: bool)
    ensures
        res == contains_seq(hay@, needle@),
{
    if needle.len() > hay.len() {
        assert forall|at: int| !occurs_at(hay@, needle@, at) by {}
        return false;
    }
    let last = hay.len() - needle.len();
    let mut at: usize = 0;
    while at < last
        invariant
            last == hay@.len() - needle@.len(),
            at <= last,
            forall|p: int| 0 <= p < at ==> !occurs_at(hay@, needle@, p),
        decreases last - at,
    {
        if occurs_at_exec(hay, needle, at) {
            return true;
        }
        at = at + 1;
    }
    if occurs_at_exec(hay, needle, last) {
        return true;
    }
    assert forall|p: int| !occurs_at(hay@, needle@, p) by {
        if 0 <= p <= last {
        }
    }
    false
}

/// `c` occurs in `s`.
pub fn has_char(s: &[char], c: char) -> (res: bool)
    ensures
        res == s@.contains(c),
{
    let mut i: usize = 0;
    while i < s.len()
        invariant
            i <= s@.len(),
            forall|k: int| 0 <= k < i ==> s@[k] != c,
        decreases s.len() - i,
    {
        if s[i] == c {
            assert(s@[i as int] == c);
            return true;
        }
        i = i + 1;
    }
    false
}

// ---------------------------------------------------------------- whitespace

/// Unicode `White_Space`, the set `char::is_whitespace` tests.
pub open spec fn is_ws(c: char) -> bool {
    let u = c as u32;
    (0x9 <= u <= 0xD) || u == 0x20 || u == 0x85 || u == 0xA0 || u == 0x1680 || (0x2000 <= u
        <= 0x200A) || u == 0x2028 || u == 0x2029 || u == 0x202F || u == 0x205F || u == 0x3000
}

/// `char::is_whitespace`.
pub fn is_whitespace(c: char) -> (res: bool)
    ensures
        res == is_ws(c),
{
    let u = c as u32;
    (0x9 <= u && u <= 0xD) || u == 0x20 || u == 0x85 || u == 0xA0 || u == 0x1680 || (0x2000 <= u
        && u <= 0x200A) || u == 0x2028 || u == 0x2029 || u == 0x202F || u == 0x205F || u == 0x3000
}

/// Number of leading whitespace characters.
pub open spec fn leading_ws(s: Seq<char>) -> int
    decreases s.len(),
{
    if s.len() > 0 && is_ws(s[0]) {
        1 + leading_ws(s.drop_first())
    } else {
        0
    }
}

/// Number of trailing whitespace characters.
pub open spec fn trailing_ws(s: Seq<char>) -> int
    decreases s.len(),
{
    if s.len() > 0 && is_ws(s.last()) {
        1 + trailing_ws(s.drop_last())
    } else {
        0
    }
}

/// `s` without leading and trailing whitespace (std `str::trim`).
pub open spec fn trim(s: Seq<char>) -> Seq<char> {
    let a = leading_ws(s);
    if a == s.len() {
        Seq::empty()
    } else {
        s.subrange(a, s.len() - trailing_ws(s))
    }
}

proof fn lemma_leading_ws(s: Seq<char>)
    ensures
        0 <= leading_ws(s) <= s.len(),
        forall|k: int| 0 <= k < leading_ws(s) ==> is_ws(#[trigger] s[k]),
        leading_ws(s) < s.len() ==> !is_ws(s[leading_ws(s)]),
    decreases s.len(),
{
    if s.len() > 0 && is_ws(s[0]) {
        lemma_leading_ws(s.drop_first());
        assert forall|k: int| 0 <= k < leading_ws(s) implies is_ws(#[trigger] s[k]) by {
            if k > 0 {
                assert(s[k] == s.drop_first()[k - 1]);
            }
        }
    }
}

proof fn lemma_trailing_ws(s: Seq<char>)
    ensures
        0 <= trailing_ws(s) <= s.len(),
        forall|k: int| s.len() - trailing_ws(s) <= k < s.len() ==> is_ws(#[trigger] s[k]),
        trailing_ws(s) < s.len() ==> !is_ws(s[s.len() - 1 - trailing_ws(s)]),
    decreases s.len(),
{
    if s.len() > 0 && is_ws(s.last()) {
        lemma_trailing_ws(s.drop_last());
        assert forall|k: int| s.len() - trailing_ws(s) <= k < s.len() implies is_ws(
            #[trigger] s[k],
        ) by {
            if k < s.len() - 1 {
                assert(s[k] == s.drop_last()[k]);
            }
        }
    }
}

/// Characterises `leading_ws` by the first non-whitespace position.
pub(crate) proof fn lemma_leading_ws_unique(s: Seq<char>, a: int)
    requires
        0 <= a <= s.len(),
        forall|k: int| 0 <= k < a ==> is_ws(#[trigger] s[k]),
        a < s.len() ==> !is_ws(s[a]),
    ensures
        leading_ws(s) == a,
    decreases s.len(),
{
    if a > 0 {
        assert(is_ws(s[0]));
        assert forall|k: int| 0 <= k < a - 1 implies is_ws(#[trigger] s.drop_first()[k]) by {
            assert(s.drop_first()[k] == s[k + 1]);
        }
        if a - 1 < s.len() - 1 {
            assert(s.drop_first()[a - 1] == s[a]);
        }
        lemma_leading_ws_unique(s.drop_first(), a - 1);
    } else if s.len() > 0 {
        assert(!is_ws(s[0]));
    }
}

/// Characterises `trailing_ws` by the last non-whitespace position.
pub(crate) proof fn lemma_trailing_ws_unique(s: Seq<char>, b: int)
    requires
        0 <= b <= s.len(),
        forall|k: int| s.len() - b <= k < s.len() ==> is_ws(#[trigger] s[k]),
        b < s.len() ==> !is_ws(s[s.len() - 1 - b]),
    ensures
        trailing_ws(s) == b,
    decreases s.len(),
{
    if b > 0 {
        assert(is_ws(s[s.len() - 1]));
        let t = s.drop_last();
        assert forall|k: int| t.len() - (b - 1) <= k < t.len() implies is_ws(#[trigger] t[k]) by {
            assert(t[k] == s[k]);
        }
        if b - 1 < t.len() {
            assert(t[t.len() - 1 - (b - 1)] == s[s.len() - 1 - b]);
        }
        lemma_trailing_ws_unique(t, b - 1);
    } else if s.len() > 0 {
        assert(!is_ws(s.last()));
    }
}

/// Bounds `[start, end)` of the trimmed part of `s`.
pub fn trim_bounds(s: &[char]) -> (res: (usize, usize))
    ensures
        res.0 <= res.1 <= s@.len(),
        s@.subrange(res.0 as int, res.1 as int) == trim(s@),
{
    proof {
        lemma_leading_ws(s@);
        lemma_trailing_ws(s@);
    }
    let mut a: usize = 0;
    while a < s.len() && is_whitespace(s[a])
        invariant
            a <= s@.len(),
            forall|k: int| 0 <= k < a ==> is_ws(#[trigger] s@[k]),
        decreases s.len() - a,
    {
        a = a + 1;
    }
    proof {
        lemma_leading_ws_unique(s@, a as int);
    }
    if a == s.len() {
        assert(s@.subrange(a as int, a as int) =~= trim(s@));
        return (a, a);
    }
    let mut b: usize = s.len();
    while b > a && is_whitespace(s[b - 1])
        invariant
            a < s@.len(),
            a <= b <= s@.len(),
            !is_ws(s@[a as int]),
            forall|k: int| b <= k < s@.len() ==> is_ws(#[trigger] s@[k]),
        decreases b,
    {
        b = b - 1;
    }
    proof {
        lemma_trailing_ws_unique(s@, s@.len() - b);
    }
    (a, b)
}

/// std `str::trim` on characters.
pub fn trim_chars(s: &[char]) -> (res: Vec<char>)
    ensures
        res@ == trim(s@),
{
    let (a, b) = trim_bounds(s);
    slice_range(s, a, b)
}

/// Copy of `s[from..to]`.
pub fn slice_range(s: &[char], from: usize, to: usize) -> (res: Vec<char>)
    requires
        from <= to <= s@.len(),
    ensures
        res@ == s@.subrange(from as int, to as int),
{
    let mut out: Vec<char> = Vec::new();
    let mut i = from;
    while i < to
        invariant
            from <= i <= to,
            to <= s@.len(),
            out@ == s@.subrange(from as int, i as int),
        decreases to - i,
    {
        out.push(s[i]);
        i = i + 1;
        assert(out@ =~= s@.subrange(from as int, i as int));
    }
    out
}

/// `s` consists of whitespace only (so trimming it leaves nothing).
pub fn is_blank(s: &str) -> (res: bool)
    ensures
        res == (trim(s@).len() == 0),
{
    let cs = chars_of(s);
    let (a, b) = trim_bounds(cs.as_slice());
    a == b
}

// ---------------------------------------------------------------- lines

/// Index of the first `c` in `s`, or `s.len()` when there is none.
pub open spec fn find_char(s: Seq<char>, c: char) -> int
    decreases s.len(),
{
    if s.len() == 0 {
        0
    } else if s[0] == c {
        0
    } else {
        1 + find_char(s.drop_first(), c)
    }
}

pub proof fn lemma_find_char(s: Seq<char>, c: char)
    ensures
        0 <= find_char(s, c) <= s.len(),
        forall|k: int| 0 <= k < find_char(s, c) ==> #[trigger] s[k] != c,
        find_char(s, c) < s.len() ==> s[find_char(s, c)] == c,
    decreases s.len(),
{
    if s.len() > 0 && s[0] != c {
        lemma_find_char(s.drop_first(), c);
        assert forall|k: int| 0 <= k < find_char(s, c) implies #[trigger] s[k] != c by {
            if k > 0 {
                assert(s[k] == s.drop_first()[k - 1]);
            }
        }
    }
}

/// The lines of `s` as std `str::lines` yields them: pieces between `'\n'`
/// characters, a `'\r'` just before a `'\n'` removed, and no final empty piece
/// after a trailing `'\n'`.
pub open spec fn lines(s: Seq<char>) -> Seq<Seq<char>>
    decreases s.len(),
{
    if s.len() == 0 {
        Seq::empty()
    } else {
        let k = find_char(s, '\n');
        proof {
            lemma_find_char(s, '\n');
        }
        if k >= s.len() {
            seq![s]
        } else {
            let piece = s.subrange(0, k);
            let line = if piece.len() > 0 && piece.last() == '\r' {
                piece.drop_last()
            } else {
                piece
            };
            seq![line] + lines(s.subrange(k + 1, s.len() as int))
        }
    }
}

/// Index of the first `c` in `s[from..]`, or `s.len()`.
pub fn find_char_from(s: &[char], from: usize, c: char) -> (res: usize)
    requires
        from <= s@.len(),
    ensures
        res == from + find_char(s@.subrange(from as int, s@.len() as int), c),
{
    proof {
        lemma_find_char(s@.subrange(from as int, s@.len() as int), c);
    }
    let mut i = from;
    while i < s.len() && s[i] != c
        invariant
            from <= i <= s@.len(),
            forall|k: int| from <= k < i ==> s@[k] != c,
        decreases s.len() - i,
    {
        i = i + 1;
    }
    proof {
        let t = s@.subrange(from as int, s@.len() as int);
        let f = find_char(t, c);
        if f < i - from {
            assert(t[f] == s@[from + f]);
        }
        if i - from < f {
            assert(t[i - from] == s@[i as int]);
        }
    }
    i
}

/// std `str::lines` on characters.
pub fn lines_of(s: &[char]) -> (res: Vec<Vec<char>>)
    ensures
        res@.map_values(|l: Vec<char>| l@) == lines(s@),
{
    let mut out: Vec<Vec<char>> = Vec::new();
    let mut pos: usize = 0;
    assert(s@.subrange(0, s@.len() as int) =~= s@);
    assert(out@.map_values(|l: Vec<char>| l@) + lines(s@) =~= lines(s@));
    while pos < s.len()
        invariant
            pos <= s@.len(),
            out@.map_values(|l: Vec<char>| l@) + lines(s@.subrange(pos as int, s@.len() as int))
                == lines(s@),
        decreases s.len() - pos,
    {
        let ghost rest = s@.subrange(pos as int, s@.len() as int);
        let k = find_char_from(s, pos, '\n');
        proof {
            lemma_find_char(rest, '\n');
        }
        let mut end = k;
        if k < s.len() && end > pos && s[end - 1] == '\r' {
            end = end - 1;
        }
        let line = slice_range(s, pos, end);
        let ghost old_out = out@.map_values(|l: Vec<char>| l@);
        out.push(line);
        proof {
            let piece = rest.subrange(0, k - pos);
            if k >= s.len() {
                assert(line@ =~= rest);
                assert(lines(rest) == seq![rest]);
            } else {
                if piece.len() > 0 && piece.last() == '\r' {
                    assert(line@ =~= piece.drop_last());
                } else {
                    assert(line@ =~= piece);
                }
                assert(rest.subrange(k - pos + 1, rest.len() as int) =~= s@.subrange(
                    k + 1,
                    s@.len() as int,
                ));
            }
            assert(out@.map_values(|l: Vec<char>| l@) =~= old_out.push(line@));
        }
        if k >= s.len() {
            pos = s.len();
            proof {
                assert(s@.subrange(pos as int, s@.len() as int) =~= Seq::<char>::empty());
                assert(out@.map_values(|l: Vec<char>| l@) + lines(
                    s@.subrange(pos as int, s@.len() as int),
                ) =~= out@.map_values(|l: Vec<char>| l@));
                assert(old_out + seq![rest] =~= out@.map_values(|l: Vec<char>| l@));
            }
        } else {
            pos = k + 1;
            proof {
                let nl = out@.map_values(|l: Vec<char>| l@);
                assert(nl =~= old_out + seq![line@]);
                assert(old_out + (seq![line@] + lines(s@.subrange(pos as int, s@.len() as int)))
                    =~= nl + lines(s@.subrange(pos as int, s@.len() as int)));
            }
        }
    }
    proof {
        assert(s@.subrange(pos as int, s@.len() as int) =~= Seq::<char>::empty());
        assert(out@.map_values(|l: Vec<char>| l@) + lines(Seq::<char>::empty()) =~= out@.map_values(
            |l: Vec<char>| l@,
        ));
    }
    out
}

// ---------------------------------------------------------------- decimal parsing

/// `c` is an ASCII decimal digit.
pub open spec fn is_digit(c: char) -> bool {
    48 <= c as int <= 57
}

/// Value of an ASCII decimal digit.
pub fn digit_value(c: char) -> (res: Option<u32>)
    ensures
        res is Some <==> is_digit(c),
        res matches Some(v) ==> v == c as int - 48,
{
    match c {
        '0' => Some(0),
        '1' => Some(1),
        '2' => Some(2),
        '3' => Some(3),
        '4' => Some(4),
        '5' => Some(5),
        '6' => Some(6),
        '7' => Some(7),
        '8' => Some(8),
        '9' => Some(9),
        _ => {
            assert(!is_digit(c)) by {
                if is_digit(c) {
                    let k = c as int;
                    assert(k == 48 || k == 49 || k == 50 || k == 51 || k == 52 || k == 53 || k
                        == 54 || k == 55 || k == 56 || k == 57);
                }
            }
            None
        },
    }
}

/// Decimal value of a digit string (most significant digit first).
pub open spec fn digits_value(s: Seq<char>) -> int
    decreases s.len(),
{
    if s.len() == 0 {
        0
    } else {
        digits_value(s.drop_last()) * 10 + (s.last() as int - 48)
    }
}

/// Every character of `t` is an ASCII decimal digit.
pub open spec fn all_digits(t: Seq<char>) -> bool {
    forall|k: int| 0 <= k < t.len() ==> is_digit(#[trigger] t[k])
}

/// `s` without one leading `+` sign, if it has one.
pub open spec fn unsigned_body(s: Seq<char>) -> Seq<char> {
    if s.len() > 0 && s[0] == '+' {
        s.drop_first()
    } else {
        s
    }
}

/// What `str::parse::<u32>` returns: an optional `+` sign, then one or more
/// ASCII digits whose value fits in a `u32`; anything else is an error.
pub open spec fn parse_u32_spec(s: Seq<char>) -> Option<u32> {
    let body = unsigned_body(s);
    if body.len() > 0 && all_digits(body) && digits_value(body) <= u32::MAX {
        Some(digits_value(body) as u32)
    } else {
        None
    }
}

pub(crate) proof fn lemma_digits_value_nonneg(s: Seq<char>)
    requires
        forall|k: int| 0 <= k < s.len() ==> is_digit(#[trigger] s[k]),
    ensures
        digits_value(s) >= 0,
    decreases s.len(),
{
    if s.len() > 0 {
        assert forall|k: int| 0 <= k < s.drop_last().len() implies is_digit(
            #[trigger] s.drop_last()[k],
        ) by {
            assert(s.drop_last()[k] == s[k]);
        }
        lemma_digits_value_nonneg(s.drop_last());
        assert(is_digit(s[s.len() - 1]));
    }
}

pub(crate) proof fn lemma_digits_value_monotone(s: Seq<char>, i: int)
    requires
        0 <= i <= s.len(),
        forall|k: int| 0 <= k < s.len() ==> is_digit(#[trigger] s[k]),
    ensures
        digits_value(s.subrange(0, i)) <= digits_value(s),
    decreases s.len() - i,
{
    if i == s.len() {
        assert(s.subrange(0, i) =~= s);
    }
    if i < s.len() {
        assert(s.drop_last() =~= s.subrange(0, s.len() - 1));
        assert forall|k: int| 0 <= k < s.drop_last().len() implies is_digit(
            #[trigger] s.drop_last()[k],
        ) by {
            assert(s.drop_last()[k] == s[k]);
        }
        assert(s.subrange(0, i) =~= s.drop_last().subrange(0, i));
        lemma_digits_value_monotone(s.drop_last(), i);
        lemma_digits_value_nonneg(s.drop_last());
        assert(is_digit(s[s.len() - 1]));
    }
}

/// `str::parse::<u32>` on characters.
pub fn parse_u32_chars(s: &[char]) -> (res: Option<u32>)
    ensures
        res == parse_u32_spec(s@),
{
    let start: usize = if s.len() > 0 && s[0] == '+' {
        1
    } else {
        0
    };
    let ghost body = unsigned_body(s@);
    assert(body =~= s@.subrange(start as int, s@.len() as int));
    if start == s.len() {
        return None;
    }
    let mut value: u64 = 0;
    let mut i = start;
    while i < s.len()
        invariant
            start <= i <= s@.len(),
            start < s@.len(),
            body == s@.subrange(start as int, s@.len() as int),
            body == unsigned_body(s@),
            forall|k: int| start <= k < i ==> is_digit(#[trigger] s@[k]),
            value == digits_value(s@.subrange(start as int, i as int)),
            value <= u32::MAX,
        decreases s.len() - i,
    {
        let c = s[i];
        let dv = digit_value(c);
        assert(c == s@[i as int]);
        if dv.is_none() {
            proof {
                assert(body[i - start] == c);
                assert(!is_digit(body[i - start]));
            }
            return None;
        }
        let d = dv.unwrap() as u64;
        assert(is_digit(s@[i as int]));
        assert(s@.subrange(start as int, i + 1).drop_last() =~= s@.subrange(start as int, i as int));
        assert(s@.subrange(start as int, i + 1).last() == c);
        let next = value * 10 + d;
        if next > 0xFFFF_FFFF {
            proof {
                assert(digits_value(s@.subrange(start as int, i + 1)) == next);
                if all_digits(body) {
                    assert(body.subrange(0, i + 1 - start) =~= s@.subrange(start as int, i + 1));
                    lemma_digits_value_monotone(body, i + 1 - start);
                }
            }
            return None;
        }
        value = next;
        i = i + 1;
    }
    proof {
        assert(s@.subrange(start as int, s@.len() as int) =~= body);
        assert forall|k: int| 0 <= k < body.len() implies is_digit(#[trigger] body[k]) by {
            assert(body[k] == s@[start + k]);
        }
    }
    Some(value as u32)
}

/// `str::parse::<u32>`.
pub fn parse_u32(s: &str) -> (res: Option<u32>)
    ensures
        res == parse_u32_spec(s@),
{
    let cs = chars_of(s);
    parse_u32_chars(cs.as_slice())
}

// ---------------------------------------------------------------- decimal formatting

/// The character of a decimal digit.
pub open spec fn digit_char(d: int) -> char {
    ((48 + d) as u32) as char
}

/// Decimal representation of `n` (no leading zeros; "0" for zero), as
/// `Display` writes an unsigned integer.
pub open spec fn decimal(n: nat) -> Seq<char>
    decreases n,
{
    if n < 10 {
        seq![digit_char(n as int)]
    } else {
        decimal(n / 10).push(digit_char((n % 10) as int))
    }
}

/// Decimal representation of a signed integer, with '-' for negatives.
pub open spec fn signed_decimal(n: int) -> Seq<char> {
    if n < 0 {
        seq!['-'] + decimal((-n) as nat)
    } else {
        decimal(n as nat)
    }
}

fn digit_to_char(d: u64) -> (res: char)
    requires
        d < 10,
    ensures
        res == digit_char(d as int),
{
    match d {
        0 => '0',
        1 => '1',
        2 => '2',
        3 => '3',
        4 => '4',
        5 => '5',
        6 => '6',
        7 => '7',
        8 => '8',
        _ => '9',
    }
}

/// Writes `n` in decimal (what `n.to_string()` gives).
pub fn u64_to_decimal(n: u64) -> (res: String)
    ensures
        res@ == decimal(n as nat),
    decreases n,
{
    if n < 10 {
        let mut s = String::new();
        push_char(&mut s, digit_to_char(n));
        assert(s@ =~= decimal(n as nat));
        s
    } else {
        let mut s = u64_to_decimal(n / 10);
        push_char(&mut s, digit_to_char(n % 10));
        s
    }
}

/// Writes a signed `n` in decimal.
pub fn i64_to_decimal(n: i64) -> (res: String)
    ensures
        res@ == signed_decimal(n as int),
{
    if n < 0 {
        let mag: u64 = if n == i64::MIN {
            0x8000_0000_0000_0000
        } else {
            (-n) as u64
        };
        let s = String::from_str("-");
        proof {
            reveal_strlit("-");
        }
        let t = s.concat(u64_to_decimal(mag).as_str());
        assert(t@ =~= seq!['-'] + decimal((-n) as nat));
        t
    } else {
        u64_to_decimal(n as u64)
    }
}

// ---------------------------------------------------------------- prefixes and repeated characters

/// `p` is a prefix of `s`.
pub open spec fn has_prefix(s: Seq<char>, p: Seq<char>) -> bool {
    p.len() <= s.len() && s.subrange(0, p.len() as int) == p
}

/// `s` without the prefix `p` when it has it, otherwise `s` (what
/// `s.strip_prefix(p).unwrap_or(s)` gives).
pub open spec fn strip_prefix_or_keep(s: Seq<char>, p: Seq<char>) -> Seq<char> {
    if has_prefix(s, p) {
        s.subrange(p.len() as int, s.len() as int)
    } else {
        s
    }
}

/// `s.strip_prefix(p).unwrap_or(s)` on characters.
pub fn strip_prefix_chars(s: &[char], p: &[char]) -> (res: Vec<char>)
    ensures
        res@ == strip_prefix_or_keep(s@, p@),
{
    if p.len() <= s.len() {
        let head = slice_range(s, 0, p.len());
        if chars_eq(head.as_slice(), p) {
            return slice_range(s, p.len(), s.len());
        }
    }
    slice_range(s, 0, s.len())
}

/// Number of leading `c` characters.
pub open spec fn leading_count(s: Seq<char>, c: char) -> int
    decreases s.len(),
{
    if s.len() > 0 && s[0] == c {
        1 + leading_count(s.drop_first(), c)
    } else {
        0
    }
}

/// Number of trailing `c` characters.
pub open spec fn trailing_count(s: Seq<char>, c: char) -> int
    decreases s.len(),
{
    if s.len() > 0 && s.last() == c {
        1 + trailing_count(s.drop_last(), c)
    } else {
        0
    }
}

/// `s` without leading and trailing `c` characters (std `str::trim_matches`
/// with a `char` pattern).
pub open spec fn trim_char(s: Seq<char>, c: char) -> Seq<char> {
    let a = leading_count(s, c);
    if a == s.len() {
        Seq::empty()
    } else {
        s.subrange(a, s.len() - trailing_count(s, c))
    }
}

proof fn lemma_leading_count(s: Seq<char>, c: char)
    ensures
        0 <= leading_count(s, c) <= s.len(),
    decreases s.len(),
{
    if s.len() > 0 && s[0] == c {
        lemma_leading_count(s.drop_first(), c);
    }
}

proof fn lemma_leading_count_unique(s: Seq<char>, c: char, a: int)
    requires
        0 <= a <= s.len(),
        forall|k: int| 0 <= k < a ==> #[trigger] s[k] == c,
        a < s.len() ==> s[a] != c,
    ensures
        leading_count(s, c) == a,
    decreases s.len(),
{
    if a > 0 {
        assert forall|k: int| 0 <= k < a - 1 implies #[trigger] s.drop_first()[k] == c by {
            assert(s.drop_first()[k] == s[k + 1]);
        }
        if a - 1 < s.len() - 1 {
            assert(s.drop_first()[a - 1] == s[a]);
        }
        assert(s[0] == c);
        lemma_leading_count_unique(s.drop_first(), c, a - 1);
    }
}

proof fn lemma_trailing_count_unique(s: Seq<char>, c: char, b: int)
    requires
        0 <= b <= s.len(),
        forall|k: int| s.len() - b <= k < s.len() ==> #[trigger] s[k] == c,
        b < s.len() ==> s[s.len() - 1 - b] != c,
    ensures
        trailing_count(s, c) == b,
    decreases s.len(),
{
    if b > 0 {
        let t = s.drop_last();
        assert forall|k: int| t.len() - (b - 1) <= k < t.len() implies #[trigger] t[k] == c by {
            assert(t[k] == s[k]);
        }
        if b - 1 < t.len() {
            assert(t[t.len() - 1 - (b - 1)] == s[s.len() - 1 - b]);
        }
        assert(s[s.len() - 1] == c);
        lemma_trailing_count_unique(t, c, b - 1);
    }
}

/// `str::trim_matches(c)` on characters.
pub fn trim_char_chars(s: &[char], c: char) -> (res: Vec<char>)
    ensures
        res@ == trim_char(s@, c),
{
    let mut a: usize = 0;
    while a < s.len() && s[a] == c
        invariant
            a <= s@.len(),
            forall|k: int| 0 <= k < a ==> #[trigger] s@[k] == c,
        decreases s.len() - a,
    {
        a = a + 1;
    }
    proof {
        lemma_leading_count_unique(s@, c, a as int);
    }
    if a == s.len() {
        return Vec::new();
    }
    let mut b: usize = s.len();
    while b > a && s[b - 1] == c
        invariant
            a < s@.len(),
            a <= b <= s@.len(),
            s@[a as int] != c,
            forall|k: int| b <= k < s@.len() ==> #[trigger] s@[k] == c,
        decreases b,
    {
        b = b - 1;
    }
    proof {
        lemma_trailing_count_unique(s@, c, s@.len() - b);
    }
    slice_range(s, a, b)
}

// ---------------------------------------------------------------- substring search

/// Index of the first occurrence of `needle` in `hay` at or after `from`, or
/// `hay.len()` when there is none.
pub open spec fn first_occurrence_from(hay: Seq<char>, needle: Seq<char>, from: int, at: int) -> bool {
    (from <= at && occurs_at(hay, needle, at) && forall|q: int|
        from <= q < at ==> !occurs_at(hay, needle, q)) || (at == hay.len() && forall|q: int|
        from <= q ==> !occurs_at(hay, needle, q))
}

/// Finds the first occurrence of `needle` in `hay` at or after `from`.
pub fn find_from(hay: &[char], needle: &[char], from: usize) -> (res: usize)
    requires
        from <= hay@.len(),
        needle@.len() > 0,
    ensures
        first_occurrence_from(hay@, needle@, from as int, res as int),
        res <= hay@.len(),
{
    if needle.len() > hay.len() - from {
        assert forall|q: int| from <= q implies !occurs_at(hay@, needle@, q) by {}
        return hay.len();
    }
    let last = hay.len() - needle.len();
    let mut at = from;
    while at < last
        invariant
            last == hay@.len() - needle@.len(),
            from <= at <= last,
            forall|q: int| from <= q < at ==> !occurs_at(hay@, needle@, q),
        decreases last - at,
    {
        if occurs_at_exec(hay, needle, at) {
            return at;
        }
        at = at + 1;
    }
    if occurs_at_exec(hay, needle, last) {
        return last;
    }
    assert forall|q: int| from <= q implies !occurs_at(hay@, needle@, q) by {
        if q <= last {
        }
    }
    hay.len()
}

/// Builds a `String` from the concatenation of string slices.
pub fn concat3(a: &str, b: &str, c: &str) -> (res: String)
    ensures
        res@ == a@ + b@ + c@,
{
    String::from_str(a).concat(b).concat(c)
}

// ---------------------------------------------------------------- pieces between separators

/// Text decoded from bytes as std `String::from_utf8_lossy` decodes it.
pub uninterp spec fn utf8_lossy(bytes: Seq<u8>) -> Seq<char>;

/// std `String::from_utf8_lossy`, taken as an owned `String`.
#[verifier::external_body]
pub(crate) fn decode_utf8_lossy(bytes: &[u8]) -> (res: String)
    ensures
        res@ == utf8_lossy(bytes@),
{
    String::from_utf8_lossy(bytes).into_owned()
}

/// The first of the pieces of `s` between `sep` characters (what
/// `s.split(sep)` yields) that contains `needle`.
pub open spec fn first_piece_containing(s: Seq<char>, sep: char, needle: Seq<char>) -> Option<Seq<char>>
    decreases s.len(),
{
    let k = find_char(s, sep);
    proof {
        lemma_find_char(s, sep);
    }
    let piece = s.subrange(0, k);
    if contains_seq(piece, needle) {
        Some(piece)
    } else if k >= s.len() {
        None
    } else {
        first_piece_containing(s.subrange(k + 1, s.len() as int), sep, needle)
    }
}

/// `s.split(sep).find(|p| p.contains(needle))` on characters.
pub fn find_piece_containing(s: &[char], sep: char, needle: &[char]) -> (res: Option<Vec<char>>)
    ensures
        match first_piece_containing(s@, sep, needle@) {
            Some(p) => res matches Some(v) && v@ == p,
            None => res is None,
        },
{
    let mut pos: usize = 0;
    assert(s@.subrange(0, s@.len() as int) =~= s@);
    loop
        invariant
            pos <= s@.len(),
            first_piece_containing(s@, sep, needle@) == first_piece_containing(
                s@.subrange(pos as int, s@.len() as int),
                sep,
                needle@,
            ),
        decreases s@.len() + 1 - pos,
    {
        let ghost rest = s@.subrange(pos as int, s@.len() as int);
        proof {
            lemma_find_char(rest, sep);
        }
        let k = find_char_from(s, pos, sep);
        let piece = slice_range(s, pos, k);
        assert(piece@ =~= rest.subrange(0, k - pos));
        if contains_chars(piece.as_slice(), needle) {
            return Some(piece);
        }
        if k >= s.len() {
            return None;
        }
        assert(rest.subrange(k - pos + 1, rest.len() as int) =~= s@.subrange(
            k + 1,
            s@.len() as int,
        ));
        pos = k + 1;
    }
}

/// The part of `s` before the first `c` (what `s.split(c).next()` yields).
pub open spec fn before_char(s: Seq<char>, c: char) -> Seq<char> {
    s.subrange(0, find_char(s, c))
}

/// `s.split(c).next()` on characters.
pub fn before_char_chars(s: &[char], c: char) -> (res: Vec<char>)
    ensures
        res@ == before_char(s@, c),
{
    proof {
        lemma_find_char(s@, c);
    }
    assert(s@.subrange(0, s@.len() as int) =~= s@);
    let k = find_char_from(s, 0, c);
    slice_range(s, 0, k)
}

/// `s` without trailing `c` characters (std `str::trim_end_matches` with a
/// `char` pattern).
pub open spec fn trim_end_char(s: Seq<char>, c: char) -> Seq<char> {
    s.subrange(0, s.len() - trailing_count(s, c))
}

/// `str::trim_end_matches(c)` on characters.
pub fn trim_end_char_chars(s: &[char], c: char) -> (res: Vec<char>)
    ensures
        res@ == trim_end_char(s@, c),
{
    let mut b: usize = s.len();
    while b > 0 && s[b - 1] == c
        invariant
            b <= s@.len(),
            forall|k: int| b <= k < s@.len() ==> #[trigger] s@[k] == c,
        decreases b,
    {
        b = b - 1;
    }
    proof {
        lemma_trailing_count_unique(s@, c, s@.len() - b);
    }
    slice_range(s, 0, b)
}

/// Whether `needle` occurs in `hay` (std `str::contains`).
pub fn str_contains(hay: &str, needle: &str) -> (res: bool)
    ensures
        res == contains_seq(hay@, needle@),
{
    let h = chars_of(hay);
    let n = chars_of(needle);
    contains_chars(h.as_slice(), n.as_slice())
}

/// The lowercase form of `s` trimmed first (`s.trim().to_lowercase()`).
pub fn trimmed_lowercase(s: &str) -> (res: String)
    ensures
        res@ == lowercase(trim(s@)),
{
    let cs = chars_of(s);
    let t = trim_chars(cs.as_slice());
    let ts = string_from_chars(t.as_slice());
    to_lowercase(ts.as_str())
}

// ---------------------------------------------------------------- tokens

/// The first whitespace-separated token of a line (`split_whitespace().next()`).
pub open spec fn first_token(line: Seq<char>) -> Option<Seq<char>> {
    let rest = line.subrange(leading_ws(line), line.len() as int);
    if rest.len() == 0 {
        None
    } else {
        Some(rest.subrange(0, first_ws(rest)))
    }
}

/// Index of the first whitespace character, or the length.
pub open spec fn first_ws(s: Seq<char>) -> int
    decreases s.len(),
{
    if s.len() == 0 {
        0
    } else if is_ws(s[0]) {
        0
    } else {
        1 + first_ws(s.drop_first())
    }
}

proof fn lemma_first_ws(s: Seq<char>)
    ensures
        0 <= first_ws(s) <= s.len(),
        forall|k: int| 0 <= k < first_ws(s) ==> !is_ws(#[trigger] s[k]),
        first_ws(s) < s.len() ==> is_ws(s[first_ws(s)]),
    decreases s.len(),
{
    if s.len() > 0 && !is_ws(s[0]) {
        lemma_first_ws(s.drop_first());
        assert forall|k: int| 0 <= k < first_ws(s) implies !is_ws(#[trigger] s[k]) by {
            if k > 0 {
                assert(s[k] == s.drop_first()[k - 1]);
            }
        }
    }
}

proof fn lemma_first_ws_unique(s: Seq<char>, e: int)
    requires
        0 <= e <= s.len(),
        forall|k: int| 0 <= k < e ==> !is_ws(#[trigger] s[k]),
        e < s.len() ==> is_ws(s[e]),
    ensures
        first_ws(s) == e,
    decreases s.len(),
{
    if e > 0 {
        assert(!is_ws(s[0]));
        assert forall|k: int| 0 <= k < e - 1 implies !is_ws(#[trigger] s.drop_first()[k]) by {
            assert(s.drop_first()[k] == s[k + 1]);
        }
        if e - 1 < s.len() - 1 {
            assert(s.drop_first()[e - 1] == s[e]);
        }
        lemma_first_ws_unique(s.drop_first(), e - 1);
    } else if s.len() > 0 {
        assert(is_ws(s[0]));
    }
}

/// `split_whitespace().next()` of a line.
pub fn first_token_of(line: &[char]) -> (res: Option<Vec<char>>)
    ensures
        match first_token(line@) {
            Some(t) => res matches Some(v) && v@ == t,
            None => res is None,
        },
{
    let mut a: usize = 0;
    while a < line.len() && is_whitespace(line[a])
        invariant
            a <= line@.len(),
            forall|k: int| 0 <= k < a ==> is_ws(#[trigger] line@[k]),
        decreases line.len() - a,
    {
        a = a + 1;
    }
    proof {
        lemma_leading_ws_unique(line@, a as int);
    }
    if a == line.len() {
        return None;
    }
    let mut e = a;
    while e < line.len() && !is_whitespace(line[e])
        invariant
            a <= e <= line@.len(),
            forall|k: int| a <= k < e ==> !is_ws(#[trigger] line@[k]),
        decreases line.len() - e,
    {
        e = e + 1;
    }
    proof {
        let rest = line@.subrange(a as int, line@.len() as int);
        assert forall|k: int| 0 <= k < e - a implies !is_ws(#[trigger] rest[k]) by {
            assert(rest[k] == line@[a + k]);
        }
        if e < line@.len() {
            assert(rest[e - a] == line@[e as int]);
        }
        lemma_first_ws_unique(rest, e - a);
        assert(rest.subrange(0, e - a) =~= line@.subrange(a as int, e as int));
    }
    Some(slice_range(line, a, e))
}


/// Number of trailing characters that are not whitespace.
pub open spec fn trailing_non_ws(s: Seq<char>) -> int
    decreases s.len(),
{
    if s.len() > 0 && !is_ws(s.last()) {
        1 + trailing_non_ws(s.drop_last())
    } else {
        0
    }
}

proof fn lemma_trailing_non_ws_unique(s: Seq<char>, b: int)
    requires
        0 <= b <= s.len(),
        forall|k: int| s.len() - b <= k < s.len() ==> !is_ws(#[trigger] s[k]),
        b < s.len() ==> is_ws(s[s.len() - 1 - b]),
    ensures
        trailing_non_ws(s) == b,
    decreases s.len(),
{
    if b > 0 {
        assert(!is_ws(s[s.len() - 1]));
        let t = s.drop_last();
        assert forall|k: int| t.len() - (b - 1) <= k < t.len() implies !is_ws(#[trigger] t[k]) by {
            assert(t[k] == s[k]);
        }
        if b - 1 < t.len() {
            assert(t[t.len() - 1 - (b - 1)] == s[s.len() - 1 - b]);
        }
        lemma_trailing_non_ws_unique(t, b - 1);
    } else if s.len() > 0 {
        assert(is_ws(s.last()));
    }
}

/// The last whitespace-separated token of a line (`split_whitespace().last()`).
pub open spec fn last_token(line: Seq<char>) -> Option<Seq<char>> {
    let end = line.len() - trailing_ws(line);
    let head = line.subrange(0, end);
    if end <= 0 {
        None
    } else {
        Some(head.subrange(end - trailing_non_ws(head), end))
    }
}

/// `split_whitespace().last()` of a line.
pub fn last_token_of(line: &[char]) -> (res: Option<Vec<char>>)
    ensures
        match last_token(line@) {
            Some(t) => res matches Some(v) && v@ == t,
            None => res is None,
        },
{
    let mut b: usize = line.len();
    while b > 0 && is_whitespace(line[b - 1])
        invariant
            b <= line@.len(),
            forall|k: int| b <= k < line@.len() ==> is_ws(#[trigger] line@[k]),
        decreases b,
    {
        b = b - 1;
    }
    proof {
        lemma_trailing_ws_unique(line@, line@.len() - b);
    }
    if b == 0 {
        return None;
    }
    let mut a: usize = b;
    while a > 0 && !is_whitespace(line[a - 1])
        invariant
            a <= b <= line@.len(),
            forall|k: int| a <= k < b ==> !is_ws(#[trigger] line@[k]),
        decreases a,
    {
        a = a - 1;
    }
    proof {
        let head = line@.subrange(0, b as int);
        assert forall|k: int| head.len() - (b - a) <= k < head.len() implies !is_ws(
            #[trigger] head[k],
        ) by {
            assert(head[k] == line@[k]);
        }
        if b - a < head.len() {
            assert(head[head.len() - 1 - (b - a)] == line@[a - 1]);
        }
        lemma_trailing_non_ws_unique(head, (b - a) as int);
        assert(head.subrange(a as int, b as int) =~= line@.subrange(a as int, b as int));
    }
    Some(slice_range(line, a, b))
}


/// `s` without leading `c` characters (std `str::trim_start_matches` with a
/// `char` pattern).
pub open spec fn trim_start_char(s: Seq<char>, c: char) -> Seq<char> {
    s.subrange(leading_count(s, c), s.len() as int)
}

/// `str::trim_start_matches(c)` on characters.
pub fn trim_start_char_chars(s: &[char], c: char) -> (res: Vec<char>)
    ensures
        res@ == trim_start_char(s@, c),
{
    let mut a: usize = 0;
    while a < s.len() && s[a] == c
        invariant
            a <= s@.len(),
            forall|k: int| 0 <= k < a ==> #[trigger] s@[k] == c,
        decreases s.len() - a,
    {
        a = a + 1;
    }
    proof {
        lemma_leading_count_unique(s@, c, a as int);
    }
    slice_range(s, a, s.len())
}

/// `needle` occurs at `at` and nowhere before.
pub open spec fn first_hit(hay: Seq<char>, needle: Seq<char>, at: int) -> bool {
    occurs_at(hay, needle, at) && forall|q: int| 0 <= q < at ==> !occurs_at(hay, needle, q)
}

/// Occurrences in a suffix are the occurrences in the whole shifted by the
/// suffix's start.
pub proof fn lemma_occurs_in_suffix(hay: Seq<char>, needle: Seq<char>, from: int, q: int)
    requires
        0 <= from <= hay.len(),
        0 <= q,
    ensures
        occurs_at(hay.subrange(from, hay.len() as int), needle, q) == occurs_at(
            hay,
            needle,
            from + q,
        ),
{
    let rest = hay.subrange(from, hay.len() as int);
    if q + needle.len() <= rest.len() {
        assert(rest.subrange(q, q + needle.len()) =~= hay.subrange(
            from + q,
            from + q + needle.len(),
        ));
    }
}

/// What `find_from` reports, stated on the suffix it searches.
pub proof fn lemma_find_from_suffix(hay: Seq<char>, needle: Seq<char>, from: int, res: int)
    requires
        0 <= from <= hay.len(),
        needle.len() > 0,
        first_occurrence_from(hay, needle, from, res),
        res <= hay.len(),
    ensures
        res < hay.len() ==> first_hit(hay.subrange(from, hay.len() as int), needle, res - from),
        res < hay.len() ==> res + needle.len() <= hay.len(),
        res >= hay.len() ==> forall|at: int|
            !first_hit(#[trigger] hay.subrange(from, hay.len() as int), needle, at),
{
    let rest = hay.subrange(from, hay.len() as int);
    if res < hay.len() {
        assert(occurs_at(hay, needle, res));
        lemma_occurs_in_suffix(hay, needle, from, res - from);
        assert forall|q: int| 0 <= q < res - from implies !occurs_at(rest, needle, q) by {
            lemma_occurs_in_suffix(hay, needle, from, q);
        }
    } else {
        assert forall|at: int| !first_hit(rest, needle, at) by {
            if 0 <= at {
                lemma_occurs_in_suffix(hay, needle, from, at);
                if occurs_at(hay, needle, from + at) {
                    assert(from + at + needle.len() <= hay.len());
                }
            }
        }
    }
}

/// At most one position is the first occurrence.
pub proof fn lemma_first_hit_unique(hay: Seq<char>, needle: Seq<char>, a: int, b: int)
    requires
        first_hit(hay, needle, a),
        first_hit(hay, needle, b),
    ensures
        a == b,
{
    if a < b {
        assert(occurs_at(hay, needle, a));
    }
    if b < a {
        assert(occurs_at(hay, needle, b));
    }
}

} // verus!
