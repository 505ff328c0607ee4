//! Inline span parser: one logical line of markdown to styled runs.
use vstd::prelude::*;
use crate::text::{push_char, push_str, string_of_range, matches_at, match_at, chars_of};

verus! {

/// An inline markdown span.
#[derive(Debug, PartialEq)]
pub enum MdSpan {
    Plain(String),
    Bold(String),
    Italic(String),
    BoldItalic(String),
    Code(String),
    /// `(display, url)`
    Link(String, String),
    /// `(alt text, file path)`
    Image(String, String),
}

/// The mathematical value of an [`MdSpan`].
pub enum Span {
    Plain(Seq<char>),
    Bold(Seq<char>),
    Italic(Seq<char>),
    BoldItalic(Seq<char>),
    Code(Seq<char>),
    Link(Seq<char>, Seq<char>),
    Image(Seq<char>, Seq<char>),
}

impl View for MdSpan {
    type V = Span;

    open spec fn view(&self) -> Span {
        match self {
            MdSpan::Plain(t) => Span::Plain(t@),
            MdSpan::Bold(t) => Span::Bold(t@),
            MdSpan::Italic(t) => Span::Italic(t@),
            MdSpan::BoldItalic(t) => Span::BoldItalic(t@),
            MdSpan::Code(t) => Span::Code(t@),
            MdSpan::Link(d, u) => Span::Link(d@, u@),
            MdSpan::Image(a, p) => Span::Image(a@, p@),
        }
    }
}

pub open spec fn spans_view(v: Seq<MdSpan>) -> Seq<Span> {
    v.map_values(|x: MdSpan| x@)
}

/// Distance from `from` to the first `c` in `s` at or after `from`.
pub open spec fn first_char(s: Seq<char>, c: char, from: int) -> Option<nat>
    decreases s.len() - from,
{
    if from < 0 || from >= s.len() {
        None
    } else if s[from] == c {
        Some(0)
    } else {
        match first_char(s, c, from + 1) {
            Some(k) => Some(k + 1),
            None => None,
        }
    }
}

/// Distance from `from` to the first occurrence of `m` in `s` at or after `from`.
pub open spec fn first_marker(s: Seq<char>, m: Seq<char>, from: int) -> Option<nat>
    decreases s.len() + 1 - from,
{
    if from < 0 || from + m.len() > s.len() {
        None
    } else if s.subrange(from, from + m.len()) == m {
        Some(0)
    } else {
        match first_marker(s, m, from + 1) {
            Some(k) => Some(k + 1),
            None => None,
        }
    }
}

/// `[display](url)` whose `[` stands at `start`: display, url and the index past `)`.
pub open spec fn link_at(s: Seq<char>, start: int) -> Option<(Seq<char>, Seq<char>, int)> {
    match first_char(s, ']', start + 1) {
        None => None,
        Some(d1) => {
            let close = start + 1 + d1;
            if close + 1 < s.len() && s[close + 1] == '(' {
                match first_char(s, ')', close + 2) {
                    None => None,
                    Some(d2) => Some(
                        (s.subrange(start + 1, close), s.subrange(close + 2, close + 2 + d2), close + 2 + d2 + 1),
                    ),
                }
            } else {
                None
            }
        },
    }
}

/// Non-empty text between the delimiter at `start` and the next `d`, and the index past it.
pub open spec fn delimited_at(s: Seq<char>, start: int, d: char) -> Option<(Seq<char>, int)> {
    match first_char(s, d, start + 1) {
        None => None,
        Some(k) => if k == 0 {
            None
        } else {
            Some((s.subrange(start + 1, start + 1 + k), start + 1 + k + 1))
        },
    }
}

/// Non-empty text from `start` up to the next `m`, and the index past `m`.
pub open spec fn between_at(s: Seq<char>, start: int, m: Seq<char>) -> Option<(Seq<char>, int)> {
    match first_marker(s, m, start) {
        None => None,
        Some(k) => if k == 0 {
            None
        } else {
            Some((s.subrange(start, start + k), start + k + m.len()))
        },
    }
}

/// The pending plain text as at most one span.
pub open spec fn flush(plain: Seq<char>) -> Seq<Span> {
    if plain.len() == 0 {
        seq![]
    } else {
        seq![Span::Plain(plain)]
    }
}

/// The span that markup starting at `s[i]` forms, with the index past it, tried
/// in priority order: image, link, inline code, bold italic, bold, italic.
pub open spec fn markup_at(s: Seq<char>, i: int) -> Option<(Span, int)> {
    if s[i] == '!' && i + 1 < s.len() && s[i + 1] == '[' && link_at(s, i + 1) is Some {
        let (a, p, e) = link_at(s, i + 1)->0;
        Some((Span::Image(a, p), e))
    } else if s[i] == '[' && link_at(s, i) is Some {
        let (d, u, e) = link_at(s, i)->0;
        Some((Span::Link(d, u), e))
    } else if s[i] == '`' && delimited_at(s, i, '`') is Some {
        let (c, e) = delimited_at(s, i, '`')->0;
        Some((Span::Code(c), e))
    } else if i + 2 < s.len() && s[i] == '*' && s[i + 1] == '*' && s[i + 2] == '*'
        && between_at(s, i + 3, seq!['*', '*', '*']) is Some {
        let (c, e) = between_at(s, i + 3, seq!['*', '*', '*'])->0;
        Some((Span::BoldItalic(c), e))
    } else if i + 1 < s.len() && s[i] == '*' && s[i + 1] == '*' && between_at(s, i + 2, seq!['*', '*']) is Some {
        let (c, e) = between_at(s, i + 2, seq!['*', '*'])->0;
        Some((Span::Bold(c), e))
    } else if s[i] == '*' && between_at(s, i + 1, seq!['*']) is Some {
        let (c, e) = between_at(s, i + 1, seq!['*'])->0;
        Some((Span::Italic(c), e))
    } else {
        None
    }
}

pub proof fn lemma_markup_end(s: Seq<char>, i: int)
    requires
        0 <= i < s.len(),
    ensures
        match markup_at(s, i) {
            Some((_, e)) => i < e <= s.len(),
            None => true,
        },
{
    lemma_link_end(s, i + 1);
    lemma_link_end(s, i);
    lemma_delimited_end(s, i, '`');
    lemma_between_end(s, i + 3, seq!['*', '*', '*']);
    lemma_between_end(s, i + 2, seq!['*', '*']);
    lemma_between_end(s, i + 1, seq!['*']);
}

/// Spans of `s[i..]`, with `plain` the plain text gathered before `i`.
pub open spec fn inline_from(s: Seq<char>, i: int, plain: Seq<char>) -> Seq<Span>
    decreases s.len() - i,
{
    if i < 0 || i >= s.len() {
        flush(plain)
    } else {
        match markup_at(s, i) {
            Some((sp, e)) => {
                proof {
                    lemma_markup_end(s, i);
                }
                flush(plain) + seq![sp] + inline_from(s, e, seq![])
            },
            None => inline_from(s, i + 1, plain.push(s[i])),
        }
    }
}

pub proof fn lemma_first_char_found(s: Seq<char>, c: char, from: int)
    ensures
        match first_char(s, c, from) {
            Some(k) => 0 <= from && from + k < s.len() && s[from + k] == c,
            None => true,
        },
    decreases s.len() - from,
{
    if 0 <= from < s.len() && s[from] != c {
        lemma_first_char_found(s, c, from + 1);
    }
}

pub proof fn lemma_first_marker_found(s: Seq<char>, m: Seq<char>, from: int)
    ensures
        match first_marker(s, m, from) {
            Some(k) => match_at(s, from + k, m),
            None => true,
        },
    decreases s.len() + 1 - from,
{
    if 0 <= from && from + m.len() <= s.len() && s.subrange(from, from + m.len()) != m {
        lemma_first_marker_found(s, m, from + 1);
    }
}

pub proof fn lemma_link_end(s: Seq<char>, start: int)
    ensures
        match link_at(s, start) {
            Some((_, _, e)) => start < e <= s.len(),
            None => true,
        },
{
    lemma_first_char_found(s, ']', start + 1);
    if let Some(d1) = first_char(s, ']', start + 1) {
        lemma_first_char_found(s, ')', start + 1 + d1 + 2);
    }
}

pub proof fn lemma_delimited_end(s: Seq<char>, start: int, d: char)
    ensures
        match delimited_at(s, start, d) {
            Some((_, e)) => start < e <= s.len(),
            None => true,
        },
{
    lemma_first_char_found(s, d, start + 1);
}

pub proof fn lemma_between_end(s: Seq<char>, start: int, m: Seq<char>)
    ensures
        match between_at(s, start, m) {
            Some((_, e)) => start < e <= s.len(),
            None => true,
        },
{
    lemma_first_marker_found(s, m, start);
}

/// The spans of one line of markdown.
pub open spec fn inline_spans(s: Seq<char>) -> Seq<Span> {
    inline_from(s, 0, seq![])
}

/// The visible text of a span: its text, a link's display text, an image's alt text.
pub open spec fn span_text(sp: Span) -> Seq<char> {
    match sp {
        Span::Plain(t) => t,
        Span::Bold(t) => t,
        Span::Italic(t) => t,
        Span::BoldItalic(t) => t,
        Span::Code(t) => t,
        Span::Link(d, _) => d,
        Span::Image(a, _) => a,
    }
}

/// The visible text of a span sequence.
pub open spec fn plain_of(v: Seq<Span>) -> Seq<char>
    decreases v.len(),
{
    if v.len() == 0 {
        seq![]
    } else {
        plain_of(v.drop_last()) + span_text(v.last())
    }
}

proof fn lemma_first_char_skip(s: Seq<char>, c: char, from: int, i: int)
    requires
        0 <= from <= i <= s.len(),
        forall|j: int| from <= j < i ==> s[j] != c,
    ensures
        first_char(s, c, from) == (match first_char(s, c, i) {
            Some(k) => Some((k + (i - from)) as nat),
            None => None::<nat>,
        }),
    decreases i - from,
{
    if from < i {
        lemma_first_char_skip(s, c, from + 1, i);
    }
}

proof fn lemma_first_marker_skip(s: Seq<char>, m: Seq<char>, from: int, i: int)
    requires
        0 <= from <= i,
        forall|j: int| from <= j < i ==> !match_at(s, j, m),
    ensures
        first_marker(s, m, from) == (match first_marker(s, m, i) {
            Some(k) => Some((k + (i - from)) as nat),
            None => None::<nat>,
        }),
    decreases i - from,
{
    if from < i && from + m.len() <= s.len() {
        assert(!match_at(s, from, m));
        lemma_first_marker_skip(s, m, from + 1, i);
    }
}

/// Index of the first `c` in `s` at or after `from`.
pub(crate) fn find_char(s: &[char], c: char, from: usize) -> (r: Option<usize>)
    ensures
        match first_char(s@, c, from as int) {
            Some(k) => r is Some && r->0 == from + k,
            None => r is None,
        },
        match r {
            Some(j) => from <= j < s@.len() && s@[j as int] == c,
            None => true,
        },
{
    if from >= s.len() {
        return None;
    }
    let mut i = from;
    while i < s.len()
        invariant
            from <= i <= s@.len(),
            forall|j: int| from <= j < i ==> s@[j] != c,
        decreases s.len() - i,
    {
        if s[i] == c {
            proof {
                lemma_first_char_skip(s@, c, from as int, i as int);
            }
            return Some(i);
        }
        i = i + 1;
    }
    proof {
        lemma_first_char_skip(s@, c, from as int, i as int);
    }
    None
}

/// Try to parse `[display](url)` whose `[` stands at `start`; returns the display
/// text, the url and the index just past the closing `)`.
pub fn try_parse_link(chars: &[char], start: usize) -> (r: Option<(String, String, usize)>)
    ensures
        link_at(chars@, start as int) == match r {
            Some((d, u, e)) => Some((d@, u@, e as int)),
            None => None,
        },
{
    if start >= chars.len() {
        return None;
    }
    let close = match find_char(chars, ']', start + 1) {
        Some(k) => k,
        None => return None,
    };
    if close + 1 >= chars.len() || chars[close + 1] != '(' {
        return None;
    }
    let end = match find_char(chars, ')', close + 2) {
        Some(k) => k,
        None => return None,
    };
    let display = string_of_range(chars, start + 1, close);
    let url = string_of_range(chars, close + 2, end);
    Some((display, url, end + 1))
}

/// Extract the non-empty text between the delimiter at `start` and the next
/// `delim`; returns it with the index just past the closing delimiter.
pub fn extract_delimited(chars: &[char], start: usize, delim: char) -> (r: Option<(String, usize)>)
    ensures
        delimited_at(chars@, start as int, delim) == match r {
            Some((c, e)) => Some((c@, e as int)),
            None => None,
        },
{
    if start >= chars.len() {
        return None;
    }
    match find_char(chars, delim, start + 1) {
        Some(k) => {
            if k == start + 1 {
                None
            } else {
                Some((string_of_range(chars, start + 1, k), k + 1))
            }
        },
        None => None,
    }
}

/// Index of the first occurrence of `m` in `s` at or after `from`.
fn find_marker(s: &[char], m: &[char], from: usize) -> (r: Option<usize>)
    ensures
        match first_marker(s@, m@, from as int) {
            Some(k) => r is Some && r->0 == from + k,
            None => r is None,
        },
        match r {
            Some(j) => from <= j && j + m@.len() <= s@.len(),
            None => true,
        },
{
    if from > s.len() || m.len() > s.len() - from {
        return None;
    }
    if m.len() == 0 {
        assert(s@.subrange(from as int, from as int) =~= m@);
        return Some(from);
    }
    let mut i = from;
    while m.len() <= s.len() - i
        invariant
            from <= i <= s@.len(),
            from + m@.len() <= s@.len(),
            m@.len() > 0,
            i <= s@.len() - m@.len() + 1,
            forall|j: int| from <= j < i ==> !match_at(s@, j, m@),
        decreases s.len() - i,
    {
        if matches_at(s, i, m) {
            proof {
                lemma_first_marker_skip(s@, m@, from as int, i as int);
            }
            return Some(i);
        }
        i = i + 1;
    }
    proof {
        lemma_first_marker_skip(s@, m@, from as int, i as int);
    }
    None
}

/// Extract the non-empty text from `start` up to the next `end_marker`; returns
/// it with the index just past the marker.
pub fn extract_between(chars: &[char], start: usize, end_marker: &str) -> (r: Option<(String, usize)>)
    ensures
        between_at(chars@, start as int, end_marker@) == match r {
            Some((c, e)) => Some((c@, e as int)),
            None => None,
        },
{
    let marker = chars_of(end_marker);
    let ms = marker.as_slice();
    assert(ms@ == end_marker@);
    let found = find_marker(chars, ms, start);
    match found {
        Some(k) => {
            assert(k + ms@.len() <= chars@.len());
            assert(chars@.len() == chars.len());
            if k == start {
                None
            } else {
                Some((string_of_range(chars, start, k), k + ms.len()))
            }
        },
        None => None,
    }
}

proof fn lemma_view_push(v: Seq<MdSpan>, x: MdSpan)
    ensures
        spans_view(v.push(x)) == spans_view(v).push(x@),
{
    assert(spans_view(v.push(x)) =~= spans_view(v).push(x@));
}

/// Moves the pending plain text, if any, into `out` as one `Plain` span.
fn flush_plain(p: &mut String, out: &mut Vec<MdSpan>)
    ensures
        spans_view(final(out)@) == spans_view(old(out)@) + flush(old(p)@),
        final(p)@ == Seq::<char>::empty(),
{
    if p.as_str().is_empty() {
        assert(spans_view(out@) =~= spans_view(out@) + flush(p@));
        *p = String::new();
    } else {
        let t = p.clone();
        proof {
            lemma_view_push(out@, MdSpan::Plain(t));
        }
        out.push(MdSpan::Plain(t));
        *p = String::new();
    }
}

/// Emits a matched span after the pending plain text.
fn emit(p: &mut String, out: &mut Vec<MdSpan>, sp: MdSpan)
    ensures
        spans_view(final(out)@) == spans_view(old(out)@) + flush(old(p)@) + seq![sp@],
        final(p)@ == Seq::<char>::empty(),
{
    flush_plain(p, out);
    proof {
        lemma_view_push(out@, sp);
    }
    out.push(sp);
}

/// Parse inline markdown spans from one logical line.
pub fn parse_inline_spans(text: &str) -> (r: Vec<MdSpan>)
    ensures
        spans_view(r@) == inline_spans(text@),
{
    let chars = chars_of(text);
    spans_of_chars(chars.as_slice())
}

/// The span that markup at `chars[i]` forms, if any, with the index past it.
fn markup_here(chars: &[char], i: usize) -> (r: Option<(MdSpan, usize)>)
    requires
        i < chars@.len(),
    ensures
        markup_at(chars@, i as int) == match r {
            Some((sp, e)) => Some((sp@, e as int)),
            None => None,
        },
{
    proof {
        reveal_strlit("***");
        reveal_strlit("**");
        reveal_strlit("*");
        assert("***"@ =~= seq!['*', '*', '*']);
        assert("**"@ =~= seq!['*', '*']);
        assert("*"@ =~= seq!['*']);
        assert(chars@.len() == chars.len());
    }
    let len = chars.len();
    if chars[i] == '!' && i + 1 < len && chars[i + 1] == '[' {
        if let Some((alt, path, end)) = try_parse_link(chars, i + 1) {
            return Some((MdSpan::Image(alt, path), end));
        }
    }
    if chars[i] == '[' {
        if let Some((display, url, end)) = try_parse_link(chars, i) {
            return Some((MdSpan::Link(display, url), end));
        }
    }
    if chars[i] == '`' {
        if let Some((content, end)) = extract_delimited(chars, i, '`') {
            return Some((MdSpan::Code(content), end));
        }
    }
    if i + 1 < len && i + 2 < len && chars[i] == '*' && chars[i + 1] == '*' && chars[i + 2] == '*' {
        if let Some((content, end)) = extract_between(chars, i + 3, "***") {
            return Some((MdSpan::BoldItalic(content), end));
        }
    }
    if i + 1 < len && chars[i] == '*' && chars[i + 1] == '*' {
        if let Some((content, end)) = extract_between(chars, i + 2, "**") {
            return Some((MdSpan::Bold(content), end));
        }
    }
    if chars[i] == '*' {
        if let Some((content, end)) = extract_between(chars, i + 1, "*") {
            return Some((MdSpan::Italic(content), end));
        }
    }
    None
}

/// [`parse_inline_spans`] on a character slice.
pub fn spans_of_chars(chars: &[char]) -> (r: Vec<MdSpan>)
    ensures
        spans_view(r@) == inline_spans(chars@),
{
    let len = chars.len();
    let ghost s = chars@;
    let mut spans: Vec<MdSpan> = Vec::new();
    let mut plain = String::new();
    let mut i: usize = 0;
    proof {
        assert(spans_view(spans@) =~= seq![]);
    }
    while i < len
        invariant
            s == chars@,
            len == s.len(),
            i <= len,
            spans_view(spans@) + inline_from(s, i as int, plain@) == inline_spans(s),
        decreases len - i,
    {
        let ghost old_plain = plain@;
        let ghost old_view = spans_view(spans@);
        proof {
            lemma_markup_end(s, i as int);
        }
        if let Some((sp, end)) = markup_here(chars, i) {
            emit(&mut plain, &mut spans, sp);
            assert(old_view + inline_from(s, i as int, old_plain) =~= spans_view(spans@) + inline_from(s, end as int, plain@));
            i = end;
            continue;
        }
        push_char(&mut plain, chars[i]);
        i = i + 1;
    }
    flush_plain(&mut plain, &mut spans);
    spans
}

/// Flatten spans to their visible text, dropping all formatting.
pub fn spans_to_plain(spans: &[MdSpan]) -> (r: String)
    ensures
        r@ == plain_of(spans_view(spans@)),
{
    let mut out = String::new();
    let mut k: usize = 0;
    while k < spans.len()
        invariant
            k <= spans@.len(),
            out@ == plain_of(spans_view(spans@.subrange(0, k as int))),
        decreases spans.len() - k,
    {
        match &spans[k] {
            MdSpan::Plain(t) | MdSpan::Bold(t) | MdSpan::Italic(t) | MdSpan::BoldItalic(t) | MdSpan::Code(
                t,
            ) => push_str(&mut out, t.as_str()),
            MdSpan::Link(d, _) => push_str(&mut out, d.as_str()),
            MdSpan::Image(a, _) => push_str(&mut out, a.as_str()),
        }
        assert(spans_view(spans@.subrange(0, k + 1)).drop_last() =~= spans_view(spans@.subrange(0, k as int)));
        k = k + 1;
    }
    assert(spans@.subrange(0, k as int) =~= spans@);
    out
}

/// `t` holds an occurrence of `m`.
pub open spec fn has_marker(t: Seq<char>, m: Seq<char>) -> bool {
    exists|j: int| match_at(t, j, m)
}

/// The text of a plain, emphasised or code span is non-empty, and an emphasised
/// or code body holds no copy of its own closing delimiter.
pub open spec fn text_nonempty(sp: Span) -> bool {
    match sp {
        Span::Plain(t) => t.len() > 0,
        Span::Bold(t) => t.len() > 0 && !has_marker(t, seq!['*', '*']),
        Span::Italic(t) => t.len() > 0 && !has_marker(t, seq!['*']),
        Span::BoldItalic(t) => t.len() > 0 && !has_marker(t, seq!['*', '*', '*']),
        Span::Code(t) => t.len() > 0 && !has_marker(t, seq!['`']),
        _ => true,
    }
}

proof fn lemma_first_marker_min(s: Seq<char>, m: Seq<char>, from: int)
    ensures
        match first_marker(s, m, from) {
            Some(k) => forall|j: int| from <= j < from + k ==> !match_at(s, j, m),
            None => true,
        },
    decreases s.len() + 1 - from,
{
    if 0 <= from && from + m.len() <= s.len() && s.subrange(from, from + m.len()) != m {
        lemma_first_marker_min(s, m, from + 1);
    }
}

proof fn lemma_first_char_min(s: Seq<char>, c: char, from: int)
    ensures
        match first_char(s, c, from) {
            Some(k) => forall|j: int| from <= j < from + k ==> s[j] != c,
            None => true,
        },
    decreases s.len() - from,
{
    if 0 <= from < s.len() && s[from] != c {
        lemma_first_char_min(s, c, from + 1);
    }
}

proof fn lemma_body_clean(s: Seq<char>, start: int, k: int, m: Seq<char>)
    requires
        0 <= start,
        0 <= k,
        start + k <= s.len(),
        m.len() > 0,
        forall|j: int| start <= j < start + k ==> !match_at(s, j, m),
    ensures
        !has_marker(s.subrange(start, start + k), m),
{
    let t = s.subrange(start, start + k);
    if has_marker(t, m) {
        let j = choose|j: int| match_at(t, j, m);
        assert(t.subrange(j, j + m.len()) =~= s.subrange(start + j, start + j + m.len()));
        assert(match_at(s, start + j, m));
    }
}

proof fn lemma_markup_nonempty(s: Seq<char>, i: int)
    requires
        0 <= i < s.len(),
    ensures
        match markup_at(s, i) {
            Some((sp, _)) => text_nonempty(sp),
            None => true,
        },
{
    lemma_first_char_found(s, '`', i + 1);
    lemma_first_marker_found(s, seq!['*', '*', '*'], i + 3);
    lemma_first_marker_found(s, seq!['*', '*'], i + 2);
    lemma_first_marker_found(s, seq!['*'], i + 1);
    lemma_first_char_min(s, '`', i + 1);
    lemma_first_marker_min(s, seq!['*', '*', '*'], i + 3);
    lemma_first_marker_min(s, seq!['*', '*'], i + 2);
    lemma_first_marker_min(s, seq!['*'], i + 1);
    if let Some(k) = first_char(s, '`', i + 1) {
        assert forall|j: int| i + 1 <= j < i + 1 + k implies !match_at(s, j, seq!['`']) by {
            if match_at(s, j, seq!['`']) {
                assert(s.subrange(j, j + 1)[0] == s[j]);
            }
        }
        lemma_body_clean(s, i + 1, k as int, seq!['`']);
    }
    if let Some(k) = first_marker(s, seq!['*', '*', '*'], i + 3) {
        lemma_body_clean(s, i + 3, k as int, seq!['*', '*', '*']);
    }
    if let Some(k) = first_marker(s, seq!['*', '*'], i + 2) {
        lemma_body_clean(s, i + 2, k as int, seq!['*', '*']);
    }
    if let Some(k) = first_marker(s, seq!['*'], i + 1) {
        lemma_body_clean(s, i + 1, k as int, seq!['*']);
    }
}

proof fn lemma_no_empty_from(s: Seq<char>, i: int, plain: Seq<char>)
    ensures
        forall|k: int| 0 <= k < inline_from(s, i, plain).len() ==> text_nonempty(#[trigger] inline_from(s, i, plain)[k]),
    decreases s.len() - i,
{
    if 0 <= i < s.len() {
        lemma_markup_end(s, i);
        match markup_at(s, i) {
            Some((sp, e)) => {
                lemma_no_empty_from(s, e, seq![]);
                lemma_markup_nonempty(s, i);
                let r = inline_from(s, e, seq![]);
                assert forall|k: int| 0 <= k < inline_from(s, i, plain).len() implies text_nonempty(
                    #[trigger] inline_from(s, i, plain)[k],
                ) by {
                    let f = flush(plain);
                    assert(inline_from(s, i, plain) == f + seq![sp] + r);
                    if k < f.len() {
                    } else if k == f.len() {
                    } else {
                        assert(inline_from(s, i, plain)[k] == r[k - f.len() - 1]);
                    }
                }
            },
            None => {
                lemma_no_empty_from(s, i + 1, plain.push(s[i]));
                assert(inline_from(s, i, plain) == inline_from(s, i + 1, plain.push(s[i])));
            },
        }
    } else {
        assert(inline_from(s, i, plain) == flush(plain));
    }
}

/// Empty delimiters never form a span: every plain, bold, italic, bold-italic
/// or code span that the parser yields has non-empty text, and no emphasised or
/// code body holds its own closing delimiter; so `` `` ``, `****` and an
/// unmatched `**` stay plain characters.
pub proof fn lemma_no_empty_spans(s: Seq<char>)
    ensures
        forall|k: int| 0 <= k < inline_spans(s).len() ==> text_nonempty(#[trigger] inline_spans(s)[k]),
{
    lemma_no_empty_from(s, 0, seq![]);
}

/// `s` holds none of the characters that open inline markup.
pub open spec fn markup_free(s: Seq<char>) -> bool {
    forall|j: int| 0 <= j < s.len() ==> s[j] != '*' && s[j] != '`' && s[j] != '['
}

proof fn lemma_markup_free_from(s: Seq<char>, i: int, plain: Seq<char>)
    requires
        markup_free(s),
        0 <= i <= s.len(),
    ensures
        inline_from(s, i, plain) == flush(plain + s.subrange(i, s.len() as int)),
    decreases s.len() - i,
{
    if i < s.len() {
        assert(markup_at(s, i) is None);
        lemma_markup_free_from(s, i + 1, plain.push(s[i]));
        assert(plain.push(s[i]) + s.subrange(i + 1, s.len() as int) =~= plain + s.subrange(i, s.len() as int));
    } else {
        assert(plain + s.subrange(i, s.len() as int) =~= plain);
    }
}

/// Text without markup characters parses to itself: at most one plain span,
/// whose visible text is the input.
pub proof fn lemma_plain_round_trip(s: Seq<char>)
    requires
        markup_free(s),
    ensures
        inline_spans(s) == flush(s),
        plain_of(inline_spans(s)) == s,
{
    lemma_markup_free_from(s, 0, seq![]);
    assert(Seq::<char>::empty() + s.subrange(0, s.len() as int) =~= s);
    if s.len() > 0 {
        let one = seq![Span::Plain(s)];
        assert(one.drop_last() =~= Seq::<Span>::empty());
        assert(plain_of(one) == plain_of(one.drop_last()) + s);
        assert(Seq::<char>::empty() + s =~= s);
    } else {
        assert(plain_of(Seq::<Span>::empty()) == Seq::<char>::empty());
        assert(s =~= Seq::<char>::empty());
    }
}

proof fn lemma_plain_of_concat(x: Seq<Span>, y: Seq<Span>)
    ensures
        plain_of(x + y) == plain_of(x) + plain_of(y),
    decreases y.len(),
{
    if y.len() == 0 {
        assert(x + y =~= x);
        assert(plain_of(x) + plain_of(y) =~= plain_of(x));
    } else {
        lemma_plain_of_concat(x, y.drop_last());
        assert((x + y).drop_last() =~= x + y.drop_last());
    }
}

proof fn lemma_plain_of_flush(p: Seq<char>)
    ensures
        plain_of(flush(p)) == p,
{
    if p.len() > 0 {
        let one = seq![Span::Plain(p)];
        assert(one.drop_last() =~= Seq::<Span>::empty());
        assert(plain_of(one) == plain_of(one.drop_last()) + p);
        assert(Seq::<char>::empty() + p =~= p);
    } else {
        assert(plain_of(Seq::<Span>::empty()) == Seq::<char>::empty());
        assert(p =~= Seq::<char>::empty());
    }
}

/// No `[` in `s`, and no `*` or backtick in `s[i..e]`.
pub open spec fn quiet_run(s: Seq<char>, i: int, e: int) -> bool {
    &&& 0 <= i <= e <= s.len()
    &&& forall|j: int| 0 <= j < s.len() ==> s[j] != '['
    &&& forall|j: int| i <= j < e ==> s[j] != '*' && s[j] != '`'
}

proof fn lemma_quiet_run(s: Seq<char>, i: int, e: int, plain: Seq<char>)
    requires
        quiet_run(s, i, e),
    ensures
        inline_from(s, i, plain) == inline_from(s, e, plain + s.subrange(i, e)),
    decreases e - i,
{
    if i < e {
        assert(markup_at(s, i) is None);
        lemma_quiet_run(s, i + 1, e, plain.push(s[i]));
        assert(plain.push(s[i]) + s.subrange(i + 1, e) =~= plain + s.subrange(i, e));
    } else {
        assert(plain + s.subrange(i, e) =~= plain);
    }
}

/// The visible text of `a`, then `b` between the delimiters `d`, then `c`.
pub open spec fn delimited_text(a: Seq<char>, d: Seq<char>, b: Seq<char>, c: Seq<char>) -> Seq<char> {
    a + d + b + d + c
}

/// Span round trip: text made of plain runs around one bold, italic or inline
/// code run (`a**b**c`, `a*b*c`, ``a`b`c``), with no markup characters in the
/// runs and a non-empty middle one, parses to spans whose visible text is the
/// text without its delimiters.
pub proof fn lemma_span_round_trip(a: Seq<char>, d: Seq<char>, b: Seq<char>, c: Seq<char>)
    requires
        markup_free(a),
        markup_free(b),
        markup_free(c),
        b.len() > 0,
        d == seq!['*', '*'] || d == seq!['*'] || d == seq!['`'],
    ensures
        plain_of(inline_spans(delimited_text(a, d, b, c))) == a + b + c,
{
    let s = delimited_text(a, d, b, c);
    let i = a.len() as int;
    let bs = i + d.len();
    let be = bs + b.len();
    let e = be + d.len();
    assert(s.len() == e + c.len());
    assert forall|j: int| 0 <= j < s.len() implies s[j] != '[' by {
        if j < i {
            assert(s[j] == a[j]);
        } else if j < bs {
            assert(s[j] == d[j - i]);
        } else if j < be {
            assert(s[j] == b[j - bs]);
        } else if j < e {
            assert(s[j] == d[j - be]);
        } else {
            assert(s[j] == c[j - e]);
        }
    }
    assert forall|j: int| 0 <= j < i implies s[j] != '*' && s[j] != '`' by {
        assert(s[j] == a[j]);
    }
    assert forall|j: int| bs <= j < be implies s[j] != '*' && s[j] != '`' && s[j] != '[' by {
        assert(s[j] == b[j - bs]);
    }
    assert forall|j: int| e <= j < s.len() implies s[j] != '*' && s[j] != '`' by {
        assert(s[j] == c[j - e]);
    }
    lemma_quiet_run(s, 0, i, seq![]);
    assert(s.subrange(0, i) =~= a);
    assert(Seq::<char>::empty() + a =~= a);
    // the delimited run
    assert(s.subrange(bs, be) =~= b);
    assert(s[bs] == b[0]);
    if d == seq!['`'] {
        assert(s[i] == '`');
        assert(forall|j: int| bs <= j < be ==> s[j] != '`');
        assert(s[be] == '`');
        lemma_first_char_skip(s, '`', bs, be);
        assert(first_char(s, '`', be) == Some(0nat));
        assert(delimited_at(s, i, '`') == Some((b, e)));
        assert(markup_at(s, i) == Some((Span::Code(b), e)));
    } else if d == seq!['*', '*'] {
        assert(s[i] == '*' && s[i + 1] == '*');
        assert(s[i + 2] != '*');
        assert forall|j: int| bs <= j < be implies !match_at(s, j, d) by {
            assert(s.subrange(j, j + 2)[0] == s[j]);
        }
        assert(s.subrange(be, be + 2) =~= d);
        lemma_first_marker_skip(s, d, bs, be);
        assert(first_marker(s, d, be) == Some(0nat));
        assert(between_at(s, bs, d) == Some((b, e)));
        assert(markup_at(s, i) == Some((Span::Bold(b), e)));
    } else {
        assert(s[i] == '*');
        assert(s[i + 1] != '*');
        assert forall|j: int| bs <= j < be implies !match_at(s, j, d) by {
            assert(s.subrange(j, j + 1)[0] == s[j]);
        }
        assert(s.subrange(be, be + 1) =~= d);
        lemma_first_marker_skip(s, d, bs, be);
        assert(first_marker(s, d, be) == Some(0nat));
        assert(between_at(s, bs, d) == Some((b, e)));
        assert(markup_at(s, i) == Some((Span::Italic(b), e)));
    }
    let (sp, _) = markup_at(s, i)->0;
    assert(span_text(sp) == b);
    assert(inline_from(s, i, a) == flush(a) + seq![sp] + inline_from(s, e, seq![]));
    lemma_quiet_run(s, e, s.len() as int, seq![]);
    assert(s.subrange(e, s.len() as int) =~= c);
    assert(Seq::<char>::empty() + c =~= c);
    assert(inline_from(s, s.len() as int, c) == flush(c));
    lemma_plain_of_concat(flush(a) + seq![sp], flush(c));
    lemma_plain_of_concat(flush(a), seq![sp]);
    lemma_plain_of_flush(a);
    lemma_plain_of_flush(c);
    assert(seq![sp].drop_last() =~= Seq::<Span>::empty());
    assert(plain_of(seq![sp]) == plain_of(Seq::<Span>::empty()) + b);
    assert(Seq::<char>::empty() + b =~= b);
}

/// `f` maps each character of `a` to a position of `b` holding it, positions
/// strictly increasing: `a` is `b` with some characters deleted.
pub open spec fn subseq_by(a: Seq<char>, b: Seq<char>, f: Seq<int>) -> bool {
    &&& f.len() == a.len()
    &&& forall|k: int| 0 <= k < f.len() ==> 0 <= #[trigger] f[k] < b.len() && a[k] == b[f[k]]
    &&& forall|k: int, l: int| 0 <= k < l < f.len() ==> #[trigger] f[k] < #[trigger] f[l]
}

/// `a` is `b` with some characters deleted.
pub open spec fn is_subseq(a: Seq<char>, b: Seq<char>) -> bool {
    exists|f: Seq<int>| subseq_by(a, b, f)
}

proof fn lemma_subrange_subseq(b: Seq<char>, x: int, y: int)
    requires
        0 <= x <= y <= b.len(),
    ensures
        is_subseq(b.subrange(x, y), b),
{
    let f = Seq::new((y - x) as nat, |k: int| x + k);
    assert(subseq_by(b.subrange(x, y), b, f));
}

proof fn lemma_subseq_concat(a1: Seq<char>, b1: Seq<char>, a2: Seq<char>, b2: Seq<char>)
    requires
        is_subseq(a1, b1),
        is_subseq(a2, b2),
    ensures
        is_subseq(a1 + a2, b1 + b2),
{
    let f1 = choose|f: Seq<int>| subseq_by(a1, b1, f);
    let f2 = choose|f: Seq<int>| subseq_by(a2, b2, f);
    let g = f1 + f2.map_values(|v: int| v + b1.len());
    let a = a1 + a2;
    let b = b1 + b2;
    assert forall|k: int| 0 <= k < g.len() implies 0 <= #[trigger] g[k] < b.len() && a[k] == b[g[k]] by {
        if k < f1.len() {
            assert(g[k] == f1[k]);
        } else {
            assert(g[k] == f2[k - f1.len()] + b1.len());
        }
    }
    assert forall|k: int, l: int| 0 <= k < l < g.len() implies #[trigger] g[k] < #[trigger] g[l] by {
        if l < f1.len() {
            assert(g[k] == f1[k] && g[l] == f1[l]);
        } else if k < f1.len() {
            assert(g[k] == f1[k]);
            assert(g[l] == f2[l - f1.len()] + b1.len());
        } else {
            assert(g[k] == f2[k - f1.len()] + b1.len());
            assert(g[l] == f2[l - f1.len()] + b1.len());
            assert(f2[k - f1.len()] < f2[l - f1.len()]);
        }
    }
    assert(subseq_by(a, b, g));
}

/// The visible text of the span that markup at `s[i]` forms, if any.
pub open spec fn markup_text(s: Seq<char>, i: int) -> Seq<char> {
    match markup_at(s, i) {
        Some((sp, _)) => span_text(sp),
        None => seq![],
    }
}

proof fn lemma_span_text_inside(s: Seq<char>, i: int)
    requires
        0 <= i < s.len(),
    ensures
        match markup_at(s, i) {
            Some((sp, e)) => exists|x: int, y: int| i <= x <= y <= e && span_text(sp) == s.subrange(x, y),
            None => true,
        },
{
    lemma_markup_end(s, i);
    lemma_first_char_found(s, ']', i + 2);
    lemma_first_char_found(s, ']', i + 1);
    lemma_first_char_found(s, '`', i + 1);
    lemma_first_marker_found(s, seq!['*', '*', '*'], i + 3);
    lemma_first_marker_found(s, seq!['*', '*'], i + 2);
    lemma_first_marker_found(s, seq!['*'], i + 1);
    if s[i] == '!' && i + 1 < s.len() && s[i + 1] == '[' && link_at(s, i + 1) is Some {
        let d1 = first_char(s, ']', i + 2)->0;
        assert(markup_text(s, i) == s.subrange(i + 2, i + 2 + d1));
    } else if s[i] == '[' && link_at(s, i) is Some {
        let d1 = first_char(s, ']', i + 1)->0;
        assert(markup_text(s, i) == s.subrange(i + 1, i + 1 + d1));
    } else if s[i] == '`' && delimited_at(s, i, '`') is Some {
        let k = first_char(s, '`', i + 1)->0;
        assert(markup_text(s, i) == s.subrange(i + 1, i + 1 + k));
    } else if i + 2 < s.len() && s[i] == '*' && s[i + 1] == '*' && s[i + 2] == '*' && between_at(
        s,
        i + 3,
        seq!['*', '*', '*'],
    ) is Some {
        let k = first_marker(s, seq!['*', '*', '*'], i + 3)->0;
        assert(markup_text(s, i) == s.subrange(i + 3, i + 3 + k));
    } else if i + 1 < s.len() && s[i] == '*' && s[i + 1] == '*' && between_at(s, i + 2, seq!['*', '*']) is Some {
        let k = first_marker(s, seq!['*', '*'], i + 2)->0;
        assert(markup_text(s, i) == s.subrange(i + 2, i + 2 + k));
    } else if s[i] == '*' && between_at(s, i + 1, seq!['*']) is Some {
        let k = first_marker(s, seq!['*'], i + 1)->0;
        assert(markup_text(s, i) == s.subrange(i + 1, i + 1 + k));
    }
}

proof fn lemma_visible_from(s: Seq<char>, i: int, p: Seq<char>)
    requires
        0 <= i <= s.len(),
    ensures
        is_subseq(plain_of(inline_from(s, i, p)), p + s.subrange(i, s.len() as int)),
    decreases s.len() - i,
{
    if i == s.len() {
        lemma_plain_of_flush(p);
        assert(p + s.subrange(i, s.len() as int) =~= p);
        lemma_subrange_subseq(p, 0, p.len() as int);
        assert(p.subrange(0, p.len() as int) =~= p);
    } else {
        lemma_markup_end(s, i);
        match markup_at(s, i) {
            Some((sp, e)) => {
                let r = inline_from(s, e, seq![]);
                lemma_visible_from(s, e, seq![]);
                assert(Seq::<char>::empty() + s.subrange(e, s.len() as int) =~= s.subrange(e, s.len() as int));
                lemma_span_text_inside(s, i);
                let (x, y) = choose|x: int, y: int| i <= x <= y <= e && span_text(sp) == s.subrange(x, y);
                let mid = s.subrange(i, e);
                assert(mid.subrange(x - i, y - i) =~= s.subrange(x, y));
                lemma_subrange_subseq(mid, x - i, y - i);
                lemma_subrange_subseq(p, 0, p.len() as int);
                assert(p.subrange(0, p.len() as int) =~= p);
                lemma_subseq_concat(p, p, span_text(sp), mid);
                lemma_subseq_concat(p + span_text(sp), p + mid, plain_of(r), s.subrange(e, s.len() as int));
                assert(p + mid + s.subrange(e, s.len() as int) =~= p + s.subrange(i, s.len() as int));
                assert(inline_from(s, i, p) == flush(p) + seq![sp] + r);
                lemma_plain_of_concat(flush(p) + seq![sp], r);
                lemma_plain_of_concat(flush(p), seq![sp]);
                lemma_plain_of_flush(p);
                assert(seq![sp].drop_last() =~= Seq::<Span>::empty());
                assert(plain_of(seq![sp]) == plain_of(Seq::<Span>::empty()) + span_text(sp));
                assert(Seq::<char>::empty() + span_text(sp) =~= span_text(sp));
            },
            None => {
                lemma_visible_from(s, i + 1, p.push(s[i]));
                assert(p.push(s[i]) + s.subrange(i + 1, s.len() as int) =~= p + s.subrange(i, s.len() as int));
            },
        }
    }
}

/// Span round trip: the visible text of the spans of any line is the line with
/// characters deleted, never added or reordered: what goes is markup (the
/// delimiters, and a link's or image's target).
pub proof fn lemma_visible_text_subseq(s: Seq<char>)
    ensures
        is_subseq(plain_of(inline_spans(s)), s),
{
    lemma_visible_from(s, 0, seq![]);
    assert(Seq::<char>::empty() + s.subrange(0, s.len() as int) =~= s);
}

} // verus!
