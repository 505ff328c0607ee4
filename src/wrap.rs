//! Styled words and the greedy word wrap shared by layout and painting.
use vstd::prelude::*;
use crate::inline::{MdSpan, Span, spans_view};
use crate::text::{chars_of, char_is_ws, is_ws, string_of_range};

verus! {

/// Text style of a word.
#[derive(Clone, Copy, PartialEq, Eq, Debug, Structural)]
pub enum Style {
    Regular,
    Bold,
    Italic,
    BoldItalic,
    Code,
    Link,
}

/// The unit of word wrap: one word with its style and, for a link, its target.
#[derive(Debug, PartialEq)]
pub struct StyledWord {
    pub text: String,
    pub style: Style,
    pub url: Option<String>,
}

/// The mathematical value of a [`StyledWord`].
pub struct Word {
    pub text: Seq<char>,
    pub style: Style,
    pub url: Option<Seq<char>>,
}

impl View for StyledWord {
    type V = Word;

    open spec fn view(&self) -> Word {
        Word {
            text: self.text@,
            style: self.style,
            url: match &self.url {
                Some(u) => Some(u@),
                None => None,
            },
        }
    }
}

pub open spec fn words_view(v: Seq<StyledWord>) -> Seq<Word> {
    v.map_values(|w: StyledWord| w@)
}

/// The whitespace-separated words of `s[i..]`, `cur` being the word begun before `i`.
pub open spec fn words_from(s: Seq<char>, i: int, cur: Seq<char>) -> Seq<Seq<char>>
    decreases s.len() - i,
{
    if i < 0 || i >= s.len() {
        if cur.len() > 0 { seq![cur] } else { seq![] }
    } else if is_ws(s[i]) {
        (if cur.len() > 0 { seq![cur] } else { seq![] }) + words_from(s, i + 1, seq![])
    } else {
        words_from(s, i + 1, cur.push(s[i]))
    }
}

/// The whitespace-separated words of `s`, as `str::split_whitespace` yields them.
pub open spec fn words(s: Seq<char>) -> Seq<Seq<char>> {
    words_from(s, 0, seq![])
}

/// `ws` as words of one style and link target.
pub open spec fn as_words(ws: Seq<Seq<char>>, style: Style, url: Option<Seq<char>>) -> Seq<Word> {
    ws.map_values(|t: Seq<char>| Word { text: t, style: style, url: url })
}

/// The styled words of one span; inline code stays one word.
pub open spec fn span_words(sp: Span) -> Seq<Word> {
    match sp {
        Span::Plain(t) => as_words(words(t), Style::Regular, None),
        Span::Bold(t) => as_words(words(t), Style::Bold, None),
        Span::Italic(t) => as_words(words(t), Style::Italic, None),
        Span::BoldItalic(t) => as_words(words(t), Style::BoldItalic, None),
        Span::Code(t) => seq![Word { text: t, style: Style::Code, url: None }],
        Span::Link(d, u) => as_words(words(d), Style::Link, Some(u)),
        Span::Image(a, _) => as_words(words(a), Style::Italic, None),
    }
}

/// The styled words of a span sequence, in order.
pub open spec fn styled_words(v: Seq<Span>) -> Seq<Word>
    decreases v.len(),
{
    if v.len() == 0 {
        seq![]
    } else {
        styled_words(v.drop_last()) + span_words(v.last())
    }
}

/// The words of `s`.
fn split_words(s: &str) -> (r: Vec<String>)
    ensures
        r@.map_values(|w: String| w@) == words(s@),
{
    let cs = chars_of(s);
    let ghost sq = cs@;
    let mut out: Vec<String> = Vec::new();
    let mut start: usize = 0;
    let mut i: usize = 0;
    assert(out@.map_values(|w: String| w@) =~= Seq::<Seq<char>>::empty());
    assert(sq.subrange(0, 0) =~= Seq::<char>::empty());
    assert(Seq::<Seq<char>>::empty() + words(sq) =~= words(sq));
    while i < cs.len()
        invariant
            sq == cs@,
            sq == s@,
            start <= i <= sq.len(),
            words(sq) == out@.map_values(|w: String| w@) + words_from(sq, i as int, sq.subrange(start as int, i as int)),
        decreases cs.len() - i,
    {
        let ghost before = out@.map_values(|w: String| w@);
        if char_is_ws(cs[i]) {
            if start < i {
                let w = string_of_range(cs.as_slice(), start, i);
                out.push(w);
                assert(out@.map_values(|w: String| w@) =~= before.push(sq.subrange(start as int, i as int)));
            } else {
                assert(out@.map_values(|w: String| w@) =~= before);
            }
            i = i + 1;
            start = i;
            assert(sq.subrange(start as int, i as int) =~= Seq::<char>::empty());
        } else {
            assert(sq.subrange(start as int, i + 1) =~= sq.subrange(start as int, i as int).push(sq[i as int]));
            i = i + 1;
        }
    }
    if start < i {
        let ghost before = out@.map_values(|w: String| w@);
        let w = string_of_range(cs.as_slice(), start, i);
        out.push(w);
        assert(out@.map_values(|w: String| w@) =~= before.push(sq.subrange(start as int, i as int)));
    } else {
        assert(out@.map_values(|w: String| w@) + seq![] =~= out@.map_values(|w: String| w@));
    }
    out
}

fn push_words(out: &mut Vec<StyledWord>, s: &str, style: Style, url: &Option<String>)
    ensures
        words_view(final(out)@) == words_view(old(out)@) + as_words(
            words(s@),
            style,
            match url {
                Some(u) => Some(u@),
                None => None,
            },
        ),
{
    let ws = split_words(s);
    let ghost u = match url {
        Some(u) => Some(u@),
        None => None,
    };
    let ghost start = words_view(out@);
    let mut k: usize = 0;
    while k < ws.len()
        invariant
            k <= ws@.len(),
            u == match url {
                Some(x) => Some(x@),
                None => None,
            },
            words_view(out@) == start + as_words(ws@.map_values(|w: String| w@).subrange(0, k as int), style, u),
        decreases ws.len() - k,
    {
        let url_copy: Option<String> = match url {
            Some(x) => {
                let c = x.clone();
                assert(c@ == x@);
                Some(c)
            },
            None => None,
        };
        assert(match url_copy {
            Some(c) => Some(c@),
            None => None::<Seq<char>>,
        } == u);
        let t = ws[k].clone();
        let ghost prev = words_view(out@);
        let nw = StyledWord { text: t, style, url: url_copy };
        assert(nw@.url == u);
        assert(nw@ == Word { text: ws@[k as int]@, style: style, url: u });
        out.push(nw);
        assert(words_view(out@) =~= prev.push(Word { text: ws@[k as int]@, style: style, url: u }));
        assert(as_words(ws@.map_values(|w: String| w@).subrange(0, k + 1), style, u) =~= as_words(
            ws@.map_values(|w: String| w@).subrange(0, k as int),
            style,
            u,
        ).push(Word { text: ws@[k as int]@, style: style, url: u }));
        k = k + 1;
    }
    assert(ws@.map_values(|w: String| w@).subrange(0, k as int) =~= words(s@));
}

/// Flatten spans to styled words: every span splits at whitespace, except inline
/// code, which stays one word.
pub fn spans_to_styled_words(spans: &[MdSpan]) -> (r: Vec<StyledWord>)
    ensures
        words_view(r@) == styled_words(spans_view(spans@)),
{
    let mut out: Vec<StyledWord> = Vec::new();
    let mut k: usize = 0;
    assert(words_view(out@) =~= Seq::<Word>::empty());
    while k < spans.len()
        invariant
            k <= spans@.len(),
            words_view(out@) == styled_words(spans_view(spans@.subrange(0, k as int))),
        decreases spans.len() - k,
    {
        let ghost pre = spans_view(spans@.subrange(0, k as int));
        let ghost cur = spans_view(spans@.subrange(0, k + 1));
        assert(cur.drop_last() =~= pre);
        assert(cur.last() == spans@[k as int]@);
        match &spans[k] {
            MdSpan::Plain(t) => push_words(&mut out, t.as_str(), Style::Regular, &None),
            MdSpan::Bold(t) => push_words(&mut out, t.as_str(), Style::Bold, &None),
            MdSpan::Italic(t) => push_words(&mut out, t.as_str(), Style::Italic, &None),
            MdSpan::BoldItalic(t) => push_words(&mut out, t.as_str(), Style::BoldItalic, &None),
            MdSpan::Code(t) => {
                let ghost prev = words_view(out@);
                let w = StyledWord { text: t.clone(), style: Style::Code, url: None };
                assert(w@ == Word { text: t@, style: Style::Code, url: None });
                out.push(w);
                assert(words_view(out@) =~= prev.push(w@));
            },
            MdSpan::Link(d, u) => {
                let uc = Some(u.clone());
                push_words(&mut out, d.as_str(), Style::Link, &uc);
            },
            MdSpan::Image(a, _) => push_words(&mut out, a.as_str(), Style::Italic, &None),
        }
        k = k + 1;
    }
    assert(spans@.subrange(0, k as int) =~= spans@);
    out
}

/// Length of a word in characters.
pub open spec fn word_len(w: Word) -> nat {
    w.text.len()
}

/// Rendered length of a line: its words and one space between neighbours.
pub open spec fn line_len(l: Seq<Word>) -> nat
    decreases l.len(),
{
    if l.len() == 0 {
        0
    } else if l.len() == 1 {
        word_len(l[0])
    } else {
        line_len(l.drop_last()) + 1 + word_len(l.last())
    }
}

/// Closed lines and the line being filled.
pub struct WrapState {
    pub lines: Seq<Seq<Word>>,
    pub cur: Seq<Word>,
}

/// Greedy placement of one word: on the current line if it still fits, else on a new one.
pub open spec fn wrap_step(st: WrapState, w: Word, max: nat) -> WrapState {
    if st.cur.len() == 0 {
        WrapState { lines: st.lines, cur: seq![w] }
    } else if line_len(st.cur) + 1 + word_len(w) <= max {
        WrapState { lines: st.lines, cur: st.cur.push(w) }
    } else {
        WrapState { lines: st.lines.push(st.cur), cur: seq![w] }
    }
}

pub open spec fn wrap_state(ws: Seq<Word>, max: nat) -> WrapState
    decreases ws.len(),
{
    if ws.len() == 0 {
        WrapState { lines: seq![], cur: seq![] }
    } else {
        wrap_step(wrap_state(ws.drop_last(), max), ws.last(), max)
    }
}

/// The lines that greedy wrapping of `ws` at `max` characters gives.
pub open spec fn wrap(ws: Seq<Word>, max: nat) -> Seq<Seq<Word>> {
    let st = wrap_state(ws, max);
    if st.cur.len() > 0 { st.lines.push(st.cur) } else { st.lines }
}

pub open spec fn lines_view(v: Seq<Vec<StyledWord>>) -> Seq<Seq<Word>> {
    v.map_values(|l: Vec<StyledWord>| words_view(l@))
}

/// A copy of a word.
fn copy_word(w: &StyledWord) -> (r: StyledWord)
    ensures
        r@ == w@,
{
    let url = match &w.url {
        Some(u) => Some(u.clone()),
        None => None,
    };
    StyledWord { text: w.text.clone(), style: w.style, url }
}

/// Greedy line fill: a word joins the current line if the line, a space and the
/// word fit in `max_chars`; otherwise it starts a new line. A word longer than
/// `max_chars` is never split and stands alone on its line.
pub fn wrap_styled_words(words: &[StyledWord], max_chars: usize) -> (r: Vec<Vec<StyledWord>>)
    ensures
        lines_view(r@) == wrap(words_view(words@), max_chars as nat),
{
    let ghost ws = words_view(words@);
    let mut lines: Vec<Vec<StyledWord>> = Vec::new();
    let mut cur: Vec<StyledWord> = Vec::new();
    let mut cur_len: usize = 0;
    let mut k: usize = 0;
    assert(lines_view(lines@) =~= Seq::<Seq<Word>>::empty());
    assert(words_view(cur@) =~= Seq::<Word>::empty());
    while k < words.len()
        invariant
            k <= words@.len(),
            ws == words_view(words@),
            wrap_state(ws.subrange(0, k as int), max_chars as nat) == (WrapState {
                lines: lines_view(lines@),
                cur: words_view(cur@),
            }),
            cur_len == line_len(words_view(cur@)),
        decreases words.len() - k,
    {
        let ghost pre = ws.subrange(0, k as int);
        assert(ws.subrange(0, k + 1).drop_last() =~= pre);
        let w = copy_word(&words[k]);
        let wl = w.text.as_str().unicode_len();
        let ghost wv = w@;
        assert(ws.subrange(0, k + 1).last() == wv);
        if cur.len() == 0 {
            cur.push(w);
            cur_len = wl;
            assert(words_view(cur@) =~= seq![wv]);
        } else if max_chars >= 1 && wl <= max_chars - 1 && cur_len <= max_chars - 1 - wl {
            let ghost prev = words_view(cur@);
            cur.push(w);
            cur_len = cur_len + 1 + wl;
            assert(words_view(cur@) =~= prev.push(wv));
            assert(words_view(cur@).drop_last() =~= prev);
        } else {
            let ghost prevl = lines_view(lines@);
            let ghost prevc = words_view(cur@);
            let mut fresh: Vec<StyledWord> = Vec::new();
            fresh.push(w);
            core::mem::swap(&mut cur, &mut fresh);
            lines.push(fresh);
            cur_len = wl;
            assert(lines_view(lines@) =~= prevl.push(prevc));
            assert(words_view(cur@) =~= seq![wv]);
        }
        k = k + 1;
    }
    assert(ws.subrange(0, k as int) =~= ws);
    if cur.len() > 0 {
        let ghost prevl = lines_view(lines@);
        let ghost c = words_view(cur@);
        lines.push(cur);
        assert(lines_view(lines@) =~= prevl.push(c));
    }
    lines
}

/// A line that fits in `max` characters or holds a single word.
pub open spec fn line_ok(l: Seq<Word>, max: nat) -> bool {
    l.len() > 0 && (line_len(l) <= max || l.len() == 1)
}

/// The words of a sequence of lines, in order.
pub open spec fn flatten(ls: Seq<Seq<Word>>) -> Seq<Word>
    decreases ls.len(),
{
    if ls.len() == 0 {
        seq![]
    } else {
        flatten(ls.drop_last()) + ls.last()
    }
}

proof fn lemma_wrap_state(ws: Seq<Word>, max: nat)
    ensures
        forall|i: int| 0 <= i < wrap_state(ws, max).lines.len() ==> line_ok(#[trigger] wrap_state(ws, max).lines[i], max),
        wrap_state(ws, max).cur.len() == 0 ==> ws.len() == 0,
        wrap_state(ws, max).cur.len() > 0 ==> line_ok(wrap_state(ws, max).cur, max),
        flatten(wrap_state(ws, max).lines) + wrap_state(ws, max).cur == ws,
    decreases ws.len(),
{
    if ws.len() == 0 {
        assert(flatten(Seq::<Seq<Word>>::empty()) + Seq::<Word>::empty() =~= ws);
    } else {
        let prev = ws.drop_last();
        lemma_wrap_state(prev, max);
        let st = wrap_state(prev, max);
        let w = ws.last();
        assert(ws =~= prev.push(w));
        if st.cur.len() == 0 {
            assert(flatten(st.lines) + seq![w] =~= ws);
        } else if line_len(st.cur) + 1 + word_len(w) <= max {
            assert(st.cur.push(w).drop_last() =~= st.cur);
            assert(flatten(st.lines) + st.cur.push(w) =~= ws);
        } else {
            let nl = st.lines.push(st.cur);
            assert(nl.drop_last() =~= st.lines);
            assert(flatten(nl) + seq![w] =~= ws);
            assert forall|i: int| 0 <= i < nl.len() implies line_ok(#[trigger] nl[i], max) by {
                if i < st.lines.len() {
                    assert(nl[i] == st.lines[i]);
                }
            }
        }
    }
}

/// Word-wrap bound: every wrapped line is non-empty and its rendered length
/// (words plus single separating spaces) is at most `max`, except a line that
/// holds one word longer than `max`; and the lines hold the words in order,
/// none lost or repeated.
pub proof fn lemma_wrap_bound(ws: Seq<Word>, max: nat)
    ensures
        forall|i: int| 0 <= i < wrap(ws, max).len() ==> line_ok(#[trigger] wrap(ws, max)[i], max),
        flatten(wrap(ws, max)) == ws,
{
    lemma_wrap_state(ws, max);
    let st = wrap_state(ws, max);
    if st.cur.len() > 0 {
        let r = st.lines.push(st.cur);
        assert(r.drop_last() =~= st.lines);
        assert forall|i: int| 0 <= i < r.len() implies line_ok(#[trigger] r[i], max) by {
            if i < st.lines.len() {
                assert(r[i] == st.lines[i]);
            }
        }
    } else {
        assert(flatten(st.lines) + st.cur =~= flatten(st.lines));
    }
}

} // verus!
