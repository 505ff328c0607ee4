//! Character-level helpers shared by the parsers.
use vstd::prelude::*;

verus! {

/// Unicode `White_Space`, the set that `char::is_whitespace` and `str::trim` use.
pub open spec fn is_ws(c: char) -> bool {
    c == ' ' || c == '\t' || c == '\n' || c == '\x0B' || c == '\x0C' || c == '\r'
        || c == '\u{85}' || c == '\u{A0}' || c == '\u{1680}'
        || ('\u{2000}' <= c && c <= '\u{200A}')
        || c == '\u{2028}' || c == '\u{2029}' || c == '\u{202F}' || c == '\u{205F}'
        || c == '\u{3000}'
}

/// Whitespace test on one character.
pub fn char_is_ws(c: char) -> (r: bool)
    ensures
        r == is_ws(c),
{
    c == ' ' || c == '\t' || c == '\n' || c == '\x0B' || c == '\x0C' || c == '\r'
        || c == '\u{85}' || c == '\u{A0}' || c == '\u{1680}'
        || ('\u{2000}' <= c && c <= '\u{200A}')
        || c == '\u{2028}' || c == '\u{2029}' || c == '\u{202F}' || c == '\u{205F}'
        || c == '\u{3000}'
}

/// Index of the first character of `s[lo..hi]` that is not whitespace (`hi` if none).
pub open spec fn skip_ws_fwd(s: Seq<char>, lo: int, hi: int) -> int
    decreases hi - lo,
{
    if lo >= hi {
        hi
    } else if is_ws(s[lo]) {
        skip_ws_fwd(s, lo + 1, hi)
    } else {
        lo
    }
}

/// One past the last character of `s[lo..hi]` that is not whitespace (`lo` if none).
pub open spec fn skip_ws_back(s: Seq<char>, lo: int, hi: int) -> int
    decreases hi - lo,
{
    if lo >= hi {
        lo
    } else if is_ws(s[hi - 1]) {
        skip_ws_back(s, lo, hi - 1)
    } else {
        hi
    }
}

/// `s` with leading and trailing whitespace removed.
pub open spec fn trim(s: Seq<char>) -> Seq<char> {
    let a = skip_ws_fwd(s, 0, s.len() as int);
    s.subrange(a, skip_ws_back(s, a, s.len() as int))
}

proof fn lemma_skip_fwd_bounds(s: Seq<char>, lo: int, hi: int)
    requires
        lo <= hi,
    ensures
        lo <= skip_ws_fwd(s, lo, hi) <= hi,
    decreases hi - lo,
{
    if lo < hi && is_ws(s[lo]) {
        lemma_skip_fwd_bounds(s, lo + 1, hi);
    }
}

proof fn lemma_skip_back_bounds(s: Seq<char>, lo: int, hi: int)
    requires
        lo <= hi,
    ensures
        lo <= skip_ws_back(s, lo, hi) <= hi,
    decreases hi - lo,
{
    if lo < hi && is_ws(s[hi - 1]) {
        lemma_skip_back_bounds(s, lo, hi - 1);
    }
}

/// The bounds `(a, b)` of `s[lo..hi]` without surrounding whitespace.
pub fn trim_bounds(s: &[char], lo: usize, hi: usize) -> (r: (usize, usize))
    requires
        lo <= hi <= s@.len(),
    ensures
        r.0 == skip_ws_fwd(s@, lo as int, hi as int),
        r.1 == skip_ws_back(s@, r.0 as int, hi as int),
        lo <= r.0 <= r.1 <= hi,
{
    let mut a = lo;
    while a < hi && char_is_ws(s[a])
        invariant
            lo <= a <= hi <= s@.len(),
            skip_ws_fwd(s@, a as int, hi as int) == skip_ws_fwd(s@, lo as int, hi as int),
        decreases hi - a,
    {
        a = a + 1;
    }
    let b = trim_end_bound(s, a, hi);
    (a, b)
}

/// One past the last non-whitespace character of `s[lo..hi]` (`lo` if none).
pub fn trim_end_bound(s: &[char], lo: usize, hi: usize) -> (r: usize)
    requires
        lo <= hi <= s@.len(),
    ensures
        r == skip_ws_back(s@, lo as int, hi as int),
        lo <= r <= hi,
{
    let mut b = hi;
    while b > lo && char_is_ws(s[b - 1])
        invariant
            lo <= b <= hi <= s@.len(),
            skip_ws_back(s@, lo as int, b as int) == skip_ws_back(s@, lo as int, hi as int),
        decreases b - lo,
    {
        b = b - 1;
    }
    b
}

/// `s` without trailing whitespace.
pub open spec fn trim_end(s: Seq<char>) -> Seq<char> {
    s.subrange(0, skip_ws_back(s, 0, s.len() as int))
}

/// The characters of a string slice, in order.
pub fn chars_of(s: &str) -> (r: Vec<char>)
    ensures
        r@ == s@,
{
    let n = s.unicode_len();
    let mut out: Vec<char> = Vec::new();
    let mut i: usize = 0;
    while i < n
        invariant
            n == s@.len(),
            i <= n,
            out@ == s@.subrange(0, i as int),
        decreases n - i,
    {
        out.push(s.get_char(i));
        i = i + 1;
    }
    assert(out@ == s@);
    out
}

/// Relies on `String::push`: appends one character.
#[verifier::external_body]
pub(crate) fn push_char(s: &mut String, c: char)
    ensures
        final(s)@ == old(s)@.push(c),
{
    s.push(c);
}

/// The string made of `s[lo..hi]`.
pub fn string_of_range(s: &[char], lo: usize, hi: usize) -> (r: String)
    requires
        lo <= hi <= s@.len(),
    ensures
        r@ == s@.subrange(lo as int, hi as int),
{
    let mut out = String::new();
    let mut i = lo;
    while i < hi
        invariant
            lo <= i <= hi <= s@.len(),
            out@ == s@.subrange(lo as int, i as int),
        decreases hi - i,
    {
        push_char(&mut out, s[i]);
        assert(s@.subrange(lo as int, i + 1) == s@.subrange(lo as int, i as int).push(s@[i as int]));
        i = i + 1;
    }
    out
}

/// Appends a character sequence held in a string slice.
pub fn push_str(out: &mut String, t: &str)
    ensures
        final(out)@ == old(out)@ + t@,
{
    out.append(t);
}

/// Whether `s[i..]` starts with `m`.
pub open spec fn match_at(s: Seq<char>, i: int, m: Seq<char>) -> bool {
    0 <= i && i + m.len() <= s.len() && s.subrange(i, i + m.len()) == m
}

/// Exec form of [`match_at`].
pub fn matches_at(s: &[char], i: usize, m: &[char]) -> (r: bool)
    ensures
        r == match_at(s@, i as int, m@),
{
    if i > s.len() || m.len() > s.len() - i {
        return false;
    }
    let mut k: usize = 0;
    while k < m.len()
        invariant
            i + m@.len() <= s@.len(),
            k <= m@.len(),
            m@.len() == m.len(),
            s@.len() == s.len(),
            forall|j: int| 0 <= j < k ==> s@[i + j] == m@[j],
        decreases m.len() - k,
    {
        if s[i + k] != m[k] {
            assert(s@.subrange(i as int, i + m@.len())[k as int] != m@[k as int]);
            return false;
        }
        k = k + 1;
    }
    assert(s@.subrange(i as int, i + m@.len()) =~= m@);
    true
}

/// Whether `t` starts with `m`.
pub open spec fn has_prefix(t: Seq<char>, m: Seq<char>) -> bool {
    m.len() <= t.len() && t.subrange(0, m.len() as int) == m
}

/// Whether `s[lo..hi]` starts with `m`.
pub fn range_has_prefix(s: &[char], lo: usize, hi: usize, m: &str) -> (r: bool)
    requires
        lo <= hi <= s@.len(),
    ensures
        r == has_prefix(s@.subrange(lo as int, hi as int), m@),
{
    let mc = chars_of(m);
    if mc.len() > hi - lo {
        return false;
    }
    let r = matches_at(s, lo, mc.as_slice());
    assert(s@.subrange(lo as int, hi as int).subrange(0, m@.len() as int) =~= s@.subrange(
        lo as int,
        lo + m@.len(),
    ));
    r
}

/// A copy of `s[lo..hi]`.
pub fn vec_of_range(s: &[char], lo: usize, hi: usize) -> (r: Vec<char>)
    requires
        lo <= hi <= s@.len(),
    ensures
        r@ == s@.subrange(lo as int, hi as int),
{
    let mut out: Vec<char> = Vec::new();
    let mut i = lo;
    while i < hi
        invariant
            lo <= i <= hi <= s@.len(),
            out@ == s@.subrange(lo as int, i as int),
        decreases hi - i,
    {
        out.push(s[i]);
        i = i + 1;
    }
    out
}

/// `l` without one trailing carriage return.
pub open spec fn strip_cr(l: Seq<char>) -> Seq<char> {
    if l.len() > 0 && l.last() == '\r' {
        l.drop_last()
    } else {
        l
    }
}

/// Index of the line feed that ends the line starting at `i`, or the length.
pub open spec fn line_end(s: Seq<char>, i: int) -> int {
    match crate::inline::first_char(s, '\n', i) {
        Some(k) => i + k,
        None => s.len() as int,
    }
}

/// The lines of `s[i..]`, split at line feeds, each without a trailing carriage
/// return; a final line feed ends the last line and starts none.
pub open spec fn lines_from(s: Seq<char>, i: int) -> Seq<Seq<char>>
    decreases s.len() + 1 - i,
{
    if i < 0 || i >= s.len() {
        seq![]
    } else {
        let e = line_end(s, i);
        proof {
            crate::inline::lemma_first_char_found(s, '\n', i);
        }
        seq![strip_cr(s.subrange(i, e))] + lines_from(s, e + 1)
    }
}

/// The lines of `s`, as `str::lines` yields them.
pub open spec fn lines(s: Seq<char>) -> Seq<Seq<char>> {
    lines_from(s, 0)
}

/// The line starting at `i`: its bounds `(lo, hi)` and where the next begins.
pub fn next_line(s: &[char], i: usize) -> (r: (usize, usize, usize))
    requires
        i < s@.len(),
    ensures
        r.0 == i,
        i <= r.1 <= s@.len(),
        i < r.2 <= s@.len(),
        lines_from(s@, i as int) == seq![s@.subrange(i as int, r.1 as int)] + lines_from(s@, r.2 as int),
{
    proof {
        crate::inline::lemma_first_char_found(s@, '\n', i as int);
    }
    let e = match crate::inline::find_char(s, '\n', i) {
        Some(k) => k,
        None => s.len(),
    };
    let hi = if e > i && s[e - 1] == '\r' {
        e - 1
    } else {
        e
    };
    assert(strip_cr(s@.subrange(i as int, e as int)) =~= s@.subrange(i as int, hi as int));
    assert(line_end(s@, i as int) == e);
    assert(lines_from(s@, i as int) == seq![strip_cr(s@.subrange(i as int, e as int))] + lines_from(s@, e + 1));
    if e < s.len() {
        (i, hi, e + 1)
    } else {
        assert(lines_from(s@, e + 1) == Seq::<Seq<char>>::empty());
        assert(lines_from(s@, e as int) == Seq::<Seq<char>>::empty());
        (i, hi, e)
    }
}

/// `t` without its first `m.len()` characters.
pub open spec fn drop_prefix(t: Seq<char>, m: Seq<char>) -> Seq<char> {
    t.subrange(m.len() as int, t.len() as int)
}

/// A copy of `s[lo..hi]` without surrounding whitespace.
pub fn trimmed(s: &[char], lo: usize, hi: usize) -> (r: Vec<char>)
    requires
        lo <= hi <= s@.len(),
    ensures
        r@ == trim(s@.subrange(lo as int, hi as int)),
{
    let v = vec_of_range(s, lo, hi);
    let (a, b) = trim_bounds(v.as_slice(), 0, v.len());
    vec_of_range(v.as_slice(), a, b)
}

/// What follows the prefix `m` of `v`, trimmed.
pub fn after_prefix(v: &[char], m: &str) -> (r: Vec<char>)
    requires
        has_prefix(v@, m@),
    ensures
        r@ == trim(drop_prefix(v@, m@)),
{
    let n = m.unicode_len();
    trimmed(v, n, v.len())
}

/// Whether `v` is exactly `m`.
pub fn eq_str(v: &[char], m: &str) -> (r: bool)
    ensures
        r == (v@ == m@),
{
    let mc = chars_of(m);
    if mc.len() != v.len() {
        return false;
    }
    let r = matches_at(v, 0, mc.as_slice());
    assert(v@.subrange(0, v@.len() as int) =~= v@);
    r
}

/// The string holding `v`.
pub fn string_of(v: &[char]) -> (r: String)
    ensures
        r@ == v@,
{
    let r = string_of_range(v, 0, v.len());
    assert(v@.subrange(0, v@.len() as int) =~= v@);
    r
}

/// `buf`, then `sep` if `buf` is non-empty, then `t`.
pub open spec fn join(buf: Seq<char>, sep: char, t: Seq<char>) -> Seq<char> {
    if buf.len() > 0 { buf.push(sep) + t } else { t }
}

} // verus!
