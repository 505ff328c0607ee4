//! Directive block parser: rendered template text to a sequence of report blocks.
use vstd::prelude::*;
use crate::inline::{first_char, find_char, lemma_first_char_found};
use crate::text::{
    after_prefix, chars_of, drop_prefix, eq_str, has_prefix, lines, lines_from, next_line,
    push_char, push_str, range_has_prefix, string_of, string_of_range, trim, trim_bounds,
    trim_end, trim_end_bound, trimmed, vec_of_range, join,
};

verus! {

/// Largest spacer length accepted, in hundredths of a millimetre (one kilometre).
pub const MAX_SPACER: u64 = 100_000_000;

/// One semantic unit of report content.
#[derive(Debug, PartialEq)]
pub enum Block {
    Title(String),
    Subtitle(String),
    Section(String),
    /// Finding card: (severity label, heading text).
    Finding(String, String),
    Meta(String, String),
    /// Table rows; the first row is the header.
    Table(Vec<Vec<String>>),
    /// Free-form markdown content.
    Text(String),
    /// Raw LaTeX, passed through verbatim.
    Latex(String),
    /// Table of contents.
    Index,
    /// Vertical space, in hundredths of a millimetre.
    Spacer(u64),
    PageBreak,
    HRule,
}

/// The mathematical value of a [`Block`].
pub enum Node {
    Title(Seq<char>),
    Subtitle(Seq<char>),
    Section(Seq<char>),
    Finding(Seq<char>, Seq<char>),
    Meta(Seq<char>, Seq<char>),
    Table(Seq<Seq<Seq<char>>>),
    Text(Seq<char>),
    Latex(Seq<char>),
    Index,
    Spacer(nat),
    PageBreak,
    HRule,
}

pub open spec fn row_view(r: Seq<String>) -> Seq<Seq<char>> {
    r.map_values(|c: String| c@)
}

pub open spec fn rows_view(rows: Seq<Vec<String>>) -> Seq<Seq<Seq<char>>> {
    rows.map_values(|r: Vec<String>| row_view(r@))
}

impl View for Block {
    type V = Node;

    open spec fn view(&self) -> Node {
        match self {
            Block::Title(t) => Node::Title(t@),
            Block::Subtitle(t) => Node::Subtitle(t@),
            Block::Section(t) => Node::Section(t@),
            Block::Finding(s, h) => Node::Finding(s@, h@),
            Block::Meta(k, v) => Node::Meta(k@, v@),
            Block::Table(rows) => Node::Table(rows_view(rows@)),
            Block::Text(t) => Node::Text(t@),
            Block::Latex(t) => Node::Latex(t@),
            Block::Index => Node::Index,
            Block::Spacer(mm) => Node::Spacer(*mm as nat),
            Block::PageBreak => Node::PageBreak,
            Block::HRule => Node::HRule,
        }
    }
}

pub open spec fn blocks_view(v: Seq<Block>) -> Seq<Node> {
    v.map_values(|b: Block| b@)
}

pub open spec fn is_digit(c: char) -> bool {
    '0' <= c && c <= '9'
}

pub open spec fn digit_val(c: char) -> nat {
    (c as u32 - '0' as u32) as nat
}

pub open spec fn all_digits(s: Seq<char>) -> bool {
    forall|i: int| 0 <= i < s.len() ==> is_digit(s[i])
}

/// The number that a string of decimal digits spells.
pub open spec fn digits_val(s: Seq<char>) -> nat
    decreases s.len(),
{
    if s.len() == 0 {
        0
    } else {
        digits_val(s.drop_last()) * 10 + digit_val(s.last())
    }
}

/// Hundredths that the first two fraction digits give.
pub open spec fn frac_val(f: Seq<char>) -> nat {
    (if f.len() >= 1 { digit_val(f[0]) * 10 } else { 0 }) + (if f.len() >= 2 { digit_val(f[1]) } else { 0 })
}

/// A length in millimetres written `digits[.digits]` (at least one digit in all),
/// in hundredths of a millimetre; further fraction digits are dropped. `None` for
/// any other text and above [`MAX_SPACER`].
pub open spec fn mm_value(t: Seq<char>) -> Option<nat> {
    let dot = match first_char(t, '.', 0) {
        Some(k) => k as int,
        None => t.len() as int,
    };
    let ip = t.subrange(0, dot);
    let fp = if dot < t.len() { t.subrange(dot + 1, t.len() as int) } else { seq![] };
    if all_digits(ip) && all_digits(fp) && ip.len() + fp.len() > 0
        && digits_val(ip) * 100 + frac_val(fp) <= MAX_SPACER {
        Some(digits_val(ip) * 100 + frac_val(fp))
    } else {
        None
    }
}

/// `t` cut at every `|`.
pub open spec fn split_bars(t: Seq<char>) -> Seq<Seq<char>>
    decreases t.len(),
{
    match first_char(t, '|', 0) {
        None => seq![t],
        Some(k) => {
            proof {
                lemma_first_char_found(t, '|', 0);
            }
            seq![t.subrange(0, k as int)] + split_bars(t.subrange(k as int + 1, t.len() as int))
        },
    }
}

/// The cells of a table line: the trimmed pieces between bars, without an empty
/// first or last piece.
pub open spec fn table_cells(t: Seq<char>) -> Seq<Seq<char>> {
    let c0 = split_bars(t).map_values(|c: Seq<char>| trim(c));
    let c1 = if c0.len() > 0 && c0[0].len() == 0 { c0.drop_first() } else { c0 };
    if c1.len() > 0 && c1.last().len() == 0 { c1.drop_last() } else { c1 }
}

/// A cell of a markdown alignment line: non-empty, of `-` and `:` only.
pub open spec fn is_rule_cell(c: Seq<char>) -> bool {
    c.len() > 0 && forall|i: int| 0 <= i < c.len() ==> (c[i] == '-' || c[i] == ':')
}

/// A markdown alignment line such as `|---|:--:|`.
pub open spec fn is_rule_row(cells: Seq<Seq<char>>) -> bool {
    cells.len() > 0 && forall|i: int| 0 <= i < cells.len() ==> is_rule_cell(#[trigger] cells[i])
}

/// Parser state between lines.
pub struct BState {
    pub out: Seq<Node>,
    pub rows: Seq<Seq<Seq<char>>>,
    pub text: Seq<char>,
    pub in_latex: bool,
    pub latex: Seq<char>,
}

pub open spec fn flush_text(st: BState) -> BState {
    let p = trim(st.text);
    BState {
        out: if p.len() > 0 { st.out.push(Node::Text(p)) } else { st.out },
        rows: st.rows,
        text: seq![],
        in_latex: st.in_latex,
        latex: st.latex,
    }
}

pub open spec fn flush_table(st: BState) -> BState {
    BState {
        out: if st.rows.len() > 0 { st.out.push(Node::Table(st.rows)) } else { st.out },
        rows: seq![],
        text: st.text,
        in_latex: st.in_latex,
        latex: st.latex,
    }
}

/// `st` after flushing the table and, if `b` is given, emitting it.
pub open spec fn emit_after_table(st: BState, b: Option<Node>) -> BState {
    let f = flush_table(st);
    BState {
        out: match b {
            Some(n) => f.out.push(n),
            None => f.out,
        },
        rows: f.rows,
        text: f.text,
        in_latex: f.in_latex,
        latex: f.latex,
    }
}

/// The block that a `finding <severity> <heading>` argument gives.
pub open spec fn finding_of(arg: Seq<char>) -> Option<Node> {
    match first_char(arg, ' ', 0) {
        Some(k) => Some(Node::Finding(arg.subrange(0, k as int), trim(arg.subrange(k as int + 1, arg.len() as int)))),
        None => None,
    }
}

/// The block that a `meta <key>: <value>` argument gives.
pub open spec fn meta_of(arg: Seq<char>) -> Option<Node> {
    match first_char(arg, ':', 0) {
        Some(k) => Some(Node::Meta(trim(arg.subrange(0, k as int)), trim(arg.subrange(k as int + 1, arg.len() as int)))),
        None => None,
    }
}

/// The effect of a directive line whose text after `#!`, trimmed, is `rest`
/// (pending text already flushed).
pub open spec fn directive_step(st: BState, rest: Seq<char>) -> BState {
    if has_prefix(rest, "title "@) {
        emit_after_table(st, Some(Node::Title(trim(drop_prefix(rest, "title "@)))))
    } else if has_prefix(rest, "subtitle "@) {
        emit_after_table(st, Some(Node::Subtitle(trim(drop_prefix(rest, "subtitle "@)))))
    } else if has_prefix(rest, "section "@) {
        emit_after_table(st, Some(Node::Section(trim(drop_prefix(rest, "section "@)))))
    } else if has_prefix(rest, "finding "@) {
        emit_after_table(st, finding_of(trim(drop_prefix(rest, "finding "@))))
    } else if has_prefix(rest, "meta "@) {
        emit_after_table(st, meta_of(drop_prefix(rest, "meta "@)))
    } else if rest == "index"@ {
        emit_after_table(st, Some(Node::Index))
    } else if has_prefix(rest, "spacer "@) {
        emit_after_table(
            st,
            match mm_value(trim(drop_prefix(rest, "spacer "@))) {
                Some(v) => Some(Node::Spacer(v)),
                None => None,
            },
        )
    } else if rest == "pagebreak"@ {
        emit_after_table(st, Some(Node::PageBreak))
    } else if rest == "hr"@ {
        emit_after_table(st, Some(Node::HRule))
    } else if rest == "latex"@ {
        let f = flush_table(st);
        BState { out: f.out, rows: f.rows, text: f.text, in_latex: true, latex: seq![] }
    } else if has_prefix(rest, "latex "@) {
        emit_after_table(st, Some(Node::Latex(drop_prefix(rest, "latex "@))))
    } else {
        st
    }
}

/// The effect of one line on the parser state.
pub open spec fn block_step(st: BState, line: Seq<char>) -> BState {
    let t = trim(line);
    if st.in_latex {
        if t == "#! endlatex"@ {
            BState {
                out: if st.latex.len() > 0 { st.out.push(Node::Latex(trim_end(st.latex))) } else { st.out },
                rows: st.rows,
                text: st.text,
                in_latex: false,
                latex: seq![],
            }
        } else {
            BState {
                out: st.out,
                rows: st.rows,
                text: st.text,
                in_latex: true,
                latex: join(st.latex, '\n', line),
            }
        }
    } else if t.len() == 0 {
        flush_text(st)
    } else if has_prefix(t, "#!"@) {
        directive_step(flush_text(st), trim(drop_prefix(t, "#!"@)))
    } else if first_char(t, '|', 0) is Some && !has_prefix(t, "-"@) {
        let cells = table_cells(t);
        if is_rule_row(cells) {
            if st.rows.len() == 0 { flush_text(st) } else { st }
        } else if cells.len() == 0 {
            st
        } else {
            let f = flush_text(st);
            BState { out: f.out, rows: f.rows.push(cells), text: f.text, in_latex: false, latex: f.latex }
        }
    } else {
        let f = flush_table(st);
        BState {
            out: f.out,
            rows: f.rows,
            text: join(f.text, '\n', t),
            in_latex: false,
            latex: f.latex,
        }
    }
}

/// The state after a sequence of lines.
pub open spec fn block_fold(st: BState, ls: Seq<Seq<char>>) -> BState
    decreases ls.len(),
{
    if ls.len() == 0 {
        st
    } else {
        block_fold(block_step(st, ls[0]), ls.drop_first())
    }
}

pub open spec fn block_init() -> BState {
    BState { out: seq![], rows: seq![], text: seq![], in_latex: false, latex: seq![] }
}

/// The blocks of a rendered report text.
pub open spec fn blocks_of(s: Seq<char>) -> Seq<Node> {
    flush_table(flush_text(block_fold(block_init(), lines(s)))).out
}

proof fn lemma_digits_grow(s: Seq<char>, i: int, j: int)
    requires
        0 <= i <= j <= s.len(),
    ensures
        digits_val(s.subrange(0, i)) <= digits_val(s.subrange(0, j)),
    decreases j - i,
{
    if i < j {
        lemma_digits_grow(s, i, j - 1);
        assert(s.subrange(0, j).drop_last() =~= s.subrange(0, j - 1));
    }
}

proof fn lemma_first_char_shift(s: Seq<char>, c: char, p: int, j: int)
    requires
        0 <= p <= s.len(),
        0 <= j,
    ensures
        first_char(s.subrange(p, s.len() as int), c, j) == first_char(s, c, p + j),
    decreases s.len() - (p + j),
{
    if p + j < s.len() {
        lemma_first_char_shift(s, c, p, j + 1);
    }
}

fn char_is_digit(c: char) -> (r: bool)
    ensures
        r == is_digit(c),
{
    '0' <= c && c <= '9'
}

/// Reads a spacer length; see [`mm_value`].
pub fn parse_mm(t: &[char]) -> (r: Option<u64>)
    ensures
        mm_value(t@) == match r {
            Some(v) => Some(v as nat),
            None => None,
        },
{
    proof {
        lemma_first_char_found(t@, '.', 0);
    }
    let dot = match find_char(t, '.', 0) {
        Some(k) => k,
        None => t.len(),
    };
    let ghost ip = t@.subrange(0, dot as int);
    let ghost fp = if dot < t@.len() { t@.subrange(dot + 1, t@.len() as int) } else { seq![] };
    assert(mm_value(t@) == (if all_digits(ip) && all_digits(fp) && ip.len() + fp.len() > 0
        && digits_val(ip) * 100 + frac_val(fp) <= MAX_SPACER {
        Some(digits_val(ip) * 100 + frac_val(fp))
    } else {
        None
    }));
    let mut v: u64 = 0;
    let mut i: usize = 0;
    while i < dot
        invariant
            dot <= t@.len(),
            i <= dot,
            ip == t@.subrange(0, dot as int),
            mm_value(t@) == (if all_digits(ip) && all_digits(fp) && ip.len() + fp.len() > 0
                && digits_val(ip) * 100 + frac_val(fp) <= MAX_SPACER {
                Some(digits_val(ip) * 100 + frac_val(fp))
            } else {
                None
            }),
            v as nat == digits_val(t@.subrange(0, i as int)),
            v <= MAX_SPACER,
            forall|j: int| 0 <= j < i ==> is_digit(t@[j]),
        decreases dot - i,
    {
        if !char_is_digit(t[i]) {
            assert(mm_value(t@) is None) by {
                assert(!is_digit(ip[i as int]));
                assert(!all_digits(ip));
            }
            return None;
        }
        let d = (t[i] as u32 - '0' as u32) as u64;
        assert(t@.subrange(0, i + 1).drop_last() =~= t@.subrange(0, i as int));
        v = v * 10 + d;
        i = i + 1;
        if v > MAX_SPACER {
            assert(mm_value(t@) is None) by {
                lemma_digits_grow(t@, i as int, dot as int);
                assert(digits_val(ip) > MAX_SPACER);
            }
            return None;
        }
    }
    assert(t@.subrange(0, i as int) == ip);
    let mut f: u64 = 0;
    if dot < t.len() {
        let mut k = dot + 1;
        while k < t.len()
            invariant
                dot < k <= t@.len(),
                fp == t@.subrange(dot + 1, t@.len() as int),
                mm_value(t@) == (if all_digits(ip) && all_digits(fp) && ip.len() + fp.len() > 0
                    && digits_val(ip) * 100 + frac_val(fp) <= MAX_SPACER {
                    Some(digits_val(ip) * 100 + frac_val(fp))
                } else {
                    None
                }),
                forall|j: int| dot + 1 <= j < k ==> is_digit(t@[j]),
            decreases t.len() - k,
        {
            if !char_is_digit(t[k]) {
                assert(mm_value(t@) is None) by {
                    assert(!is_digit(fp[k - dot - 1]));
                    assert(!all_digits(fp));
                }
                return None;
            }
            k = k + 1;
        }
        if dot + 1 < t.len() {
            f = ((t[dot + 1] as u32 - '0' as u32) * 10) as u64;
        }
        if t.len() - dot > 2 {
            f = f + ((t[dot + 2] as u32 - '0' as u32) as u64);
        }
    }
    assert(f as nat == frac_val(fp));
    if dot == 0 && t.len() <= 1 {
        return None;
    }
    if v * 100 + f > MAX_SPACER {
        return None;
    }
    Some(v * 100 + f)
}

/// Where the pieces of `t` between bars start and end.
fn split_bounds(t: &[char]) -> (r: Vec<(usize, usize)>)
    ensures
        r@.len() == split_bars(t@).len(),
        forall|i: int| 0 <= i < r@.len() ==> (#[trigger] r@[i]).0 <= r@[i].1 <= t@.len()
 && split_bars(t@)[i] == t@.subrange(r@[i].0 as int, r@[i].1 as int),
{
    let mut out: Vec<(usize, usize)> = Vec::new();
    let mut pos: usize = 0;
    assert(t@.subrange(0, t@.len() as int) =~= t@);
    assert(out@.map_values(|b: (usize, usize)| t@.subrange(b.0 as int, b.1 as int)) =~= Seq::<Seq<char>>::empty());
    loop
        invariant
            pos <= t@.len(),
            split_bars(t@) == out@.map_values(|b: (usize, usize)| t@.subrange(b.0 as int, b.1 as int))
                + split_bars(t@.subrange(pos as int, t@.len() as int)),
            forall|i: int| 0 <= i < out@.len() ==> (#[trigger] out@[i]).0 <= out@[i].1 <= t@.len(),
        decreases t@.len() - pos,
    {
        let ghost rest = t@.subrange(pos as int, t@.len() as int);
        proof {
            lemma_first_char_shift(t@, '|', pos as int, 0);
            lemma_first_char_found(rest, '|', 0);
        }
        match find_char(t, '|', pos) {
            Some(k) => {
                assert(t@.len() == t.len());
                assert(rest.subrange(0, k - pos) =~= t@.subrange(pos as int, k as int));
                assert(rest.subrange(k - pos + 1, rest.len() as int) =~= t@.subrange(k + 1, t@.len() as int));
                let ghost before = out@.map_values(|b: (usize, usize)| t@.subrange(b.0 as int, b.1 as int));
                out.push((pos, k));
                assert(out@.map_values(|b: (usize, usize)| t@.subrange(b.0 as int, b.1 as int)) =~= before.push(
                    t@.subrange(pos as int, k as int),
                ));
                pos = k + 1;
            },
            None => {
                let ghost before = out@.map_values(|b: (usize, usize)| t@.subrange(b.0 as int, b.1 as int));
                out.push((pos, t.len()));
                assert(out@.map_values(|b: (usize, usize)| t@.subrange(b.0 as int, b.1 as int)) =~= before.push(
                    rest,
                ));
                assert(split_bars(t@) =~= out@.map_values(|b: (usize, usize)| t@.subrange(b.0 as int, b.1 as int)));
                return out;
            },
        }
    }
}

pub open spec fn cells_view(v: Seq<Vec<char>>) -> Seq<Seq<char>> {
    v.map_values(|x: Vec<char>| x@)
}

/// The cells of a table line; see [`table_cells`].
fn table_cells_of(t: &[char]) -> (r: Vec<Vec<char>>)
    ensures
        cells_view(r@) == table_cells(t@),
{
    let bounds = split_bounds(t);
    let ghost c0 = split_bars(t@).map_values(|c: Seq<char>| trim(c));
    let mut c: Vec<Vec<char>> = Vec::new();
    let mut i: usize = 0;
    while i < bounds.len()
        invariant
            i <= bounds@.len(),
            bounds@.len() == split_bars(t@).len(),
            forall|j: int| 0 <= j < bounds@.len() ==> (#[trigger] bounds@[j]).0 <= bounds@[j].1 <= t@.len()
                && split_bars(t@)[j] == t@.subrange(bounds@[j].0 as int, bounds@[j].1 as int),
            c0 == split_bars(t@).map_values(|c: Seq<char>| trim(c)),
            cells_view(c@) == c0.subrange(0, i as int),
        decreases bounds.len() - i,
    {
        let (lo, hi) = bounds[i];
        assert(split_bars(t@)[i as int] == t@.subrange(lo as int, hi as int));
        let cell = trimmed(t, lo, hi);
        assert(c0[i as int] == cell@);
        let ghost prev = c@;
        c.push(cell);
        assert(cells_view(c@) =~= cells_view(prev).push(cell@));
        assert(cells_view(c@) =~= c0.subrange(0, i + 1));
        i = i + 1;
    }
    assert(c0.subrange(0, i as int) =~= c0);
    let ghost c1 = if c0.len() > 0 && c0[0].len() == 0 { c0.drop_first() } else { c0 };
    if c.len() > 0 && c[0].len() == 0 {
        c.remove(0);
        assert(cells_view(c@) =~= c1);
    }
    if c.len() > 0 && c[c.len() - 1].len() == 0 {
        c.pop();
        assert(cells_view(c@) =~= c1.drop_last());
    }
    c
}

/// Whether table cells form a markdown alignment line.
fn rule_row(cells: &Vec<Vec<char>>) -> (r: bool)
    ensures
        r == is_rule_row(cells_view(cells@)),
{
    if cells.len() == 0 {
        return false;
    }
    let mut i: usize = 0;
    while i < cells.len()
        invariant
            i <= cells@.len(),
            forall|j: int| 0 <= j < i ==> is_rule_cell(#[trigger] cells_view(cells@)[j]),
        decreases cells.len() - i,
    {
        let c = &cells[i];
        assert(c@ == cells_view(cells@)[i as int]);
        if c.len() == 0 {
            assert(!is_rule_cell(cells_view(cells@)[i as int]));
            return false;
        }
        let mut k: usize = 0;
        while k < c.len()
            invariant
                k <= c@.len(),
                i < cells@.len(),
                c@ == cells_view(cells@)[i as int],
                forall|j: int| 0 <= j < k ==> (c@[j] == '-' || c@[j] == ':'),
            decreases c.len() - k,
        {
            if c[k] != '-' && c[k] != ':' {
                assert(!(c@[k as int] == '-' || c@[k as int] == ':'));
                assert(!is_rule_cell(cells_view(cells@)[i as int]));
                return false;
            }
            k = k + 1;
        }
        i = i + 1;
    }
    true
}

/// The row of strings that a row of cells spells.
fn row_strings(cells: &Vec<Vec<char>>) -> (r: Vec<String>)
    ensures
        row_view(r@) == cells_view(cells@),
{
    let mut out: Vec<String> = Vec::new();
    let mut i: usize = 0;
    while i < cells.len()
        invariant
            i <= cells@.len(),
            row_view(out@) == cells_view(cells@).subrange(0, i as int),
        decreases cells.len() - i,
    {
        let cs = string_of(cells[i].as_slice());
        assert(cs@ == cells_view(cells@)[i as int]);
        let ghost prev = out@;
        out.push(cs);
        assert(row_view(out@) =~= row_view(prev).push(cs@));
        assert(row_view(out@) =~= cells_view(cells@).subrange(0, i + 1));
        i = i + 1;
    }
    assert(cells_view(cells@).subrange(0, i as int) =~= cells_view(cells@));
    out
}

struct BlockParser {
    out: Vec<Block>,
    rows: Vec<Vec<String>>,
    text: String,
    in_latex: bool,
    latex: String,
}

impl View for BlockParser {
    type V = BState;

    closed spec fn view(&self) -> BState {
        BState {
            out: blocks_view(self.out@),
            rows: rows_view(self.rows@),
            text: self.text@,
            in_latex: self.in_latex,
            latex: self.latex@,
        }
    }
}

proof fn lemma_blocks_push(v: Seq<Block>, b: Block)
    ensures
        blocks_view(v.push(b)) == blocks_view(v).push(b@),
{
    assert(blocks_view(v.push(b)) =~= blocks_view(v).push(b@));
}

impl BlockParser {
    fn flush_text(&mut self)
        ensures
            final(self)@ == flush_text(old(self)@),
    {
        let tc = chars_of(self.text.as_str());
        let t = trimmed(tc.as_slice(), 0, tc.len());
        assert(tc@.subrange(0, tc@.len() as int) =~= tc@);
        if t.len() > 0 {
            let b = Block::Text(string_of(t.as_slice()));
            proof {
                lemma_blocks_push(self.out@, b);
            }
            self.out.push(b);
        }
        self.text = String::new();
    }

    fn flush_table(&mut self)
        ensures
            final(self)@ == flush_table(old(self)@),
    {
        if self.rows.len() > 0 {
            let mut rows: Vec<Vec<String>> = Vec::new();
            core::mem::swap(&mut rows, &mut self.rows);
            let b = Block::Table(rows);
            proof {
                lemma_blocks_push(self.out@, b);
            }
            self.out.push(b);
        }
        assert(rows_view(self.rows@) =~= Seq::<Seq<Seq<char>>>::empty());
    }

    fn emit(&mut self, b: Option<Block>)
        ensures
            final(self)@ == emit_after_table(
                old(self)@,
                match b {
                    Some(x) => Some(x@),
                    None => None,
                },
            ),
    {
        self.flush_table();
        if let Some(x) = b {
            proof {
                lemma_blocks_push(self.out@, x);
            }
            self.out.push(x);
        }
    }

    fn directive(&mut self, rest: &[char])
        ensures
            final(self)@ == directive_step(old(self)@, rest@),
    {
        let len = rest.len();
        if range_has_prefix(rest, 0, len, "title ") {
            assert(rest@.subrange(0, len as int) =~= rest@);
            let arg = after_prefix(rest, "title ");
            self.emit(Some(Block::Title(string_of(arg.as_slice()))));
        } else if range_has_prefix(rest, 0, len, "subtitle ") {
            assert(rest@.subrange(0, len as int) =~= rest@);
            let arg = after_prefix(rest, "subtitle ");
            self.emit(Some(Block::Subtitle(string_of(arg.as_slice()))));
        } else if range_has_prefix(rest, 0, len, "section ") {
            assert(rest@.subrange(0, len as int) =~= rest@);
            let arg = after_prefix(rest, "section ");
            self.emit(Some(Block::Section(string_of(arg.as_slice()))));
        } else if range_has_prefix(rest, 0, len, "finding ") {
            assert(rest@.subrange(0, len as int) =~= rest@);
            let arg = after_prefix(rest, "finding ");
            self.emit(finding_block(arg.as_slice()));
        } else if range_has_prefix(rest, 0, len, "meta ") {
            assert(rest@.subrange(0, len as int) =~= rest@);
            let n = "meta ".unicode_len();
            let arg = vec_of_range(rest, n, len);
            self.emit(meta_block(arg.as_slice()));
        } else if eq_str(rest, "index") {
            assert(rest@.subrange(0, len as int) =~= rest@);
            self.emit(Some(Block::Index));
        } else if range_has_prefix(rest, 0, len, "spacer ") {
            assert(rest@.subrange(0, len as int) =~= rest@);
            let arg = after_prefix(rest, "spacer ");
            match parse_mm(arg.as_slice()) {
                Some(v) => self.emit(Some(Block::Spacer(v))),
                None => self.emit(None),
            }
        } else if eq_str(rest, "pagebreak") {
            assert(rest@.subrange(0, len as int) =~= rest@);
            self.emit(Some(Block::PageBreak));
        } else if eq_str(rest, "hr") {
            assert(rest@.subrange(0, len as int) =~= rest@);
            self.emit(Some(Block::HRule));
        } else if eq_str(rest, "latex") {
            assert(rest@.subrange(0, len as int) =~= rest@);
            self.flush_table();
            self.in_latex = true;
            self.latex = String::new();
        } else if range_has_prefix(rest, 0, len, "latex ") {
            assert(rest@.subrange(0, len as int) =~= rest@);
            let n = "latex ".unicode_len();
            let raw = string_of_range(rest, n, len);
            self.emit(Some(Block::Latex(raw)));
        } else {
            assert(rest@.subrange(0, len as int) =~= rest@);
        }
    }

    fn step(&mut self, line: &[char])
        ensures
            final(self)@ == block_step(old(self)@, line@),
    {
        let (a, b) = trim_bounds(line, 0, line.len());
        let ghost t = trim(line@);
        assert(t == line@.subrange(a as int, b as int));
        let tv = vec_of_range(line, a, b);
        let ts = tv.as_slice();
        if self.in_latex {
            if eq_str(ts, "#! endlatex") {
                if !self.latex.as_str().is_empty() {
                    let lc = chars_of(self.latex.as_str());
                    let e = trim_end_bound(lc.as_slice(), 0, lc.len());
                    let b = Block::Latex(string_of_range(lc.as_slice(), 0, e));
                    proof {
                        lemma_blocks_push(self.out@, b);
                    }
                    self.out.push(b);
                }
                self.latex = String::new();
                self.in_latex = false;
            } else {
                if !self.latex.as_str().is_empty() {
                    push_char(&mut self.latex, '\n');
                }
                let l = string_of(line);
                push_str(&mut self.latex, l.as_str());
            }
            return;
        }
        if a == b {
            self.flush_text();
            return;
        }
        let tl = ts.len();
        assert(ts@.subrange(0, tl as int) =~= ts@);
        if range_has_prefix(ts, 0, tl, "#!") {
            proof {
                reveal_strlit("#!");
            }
            let rest = trimmed(ts, 2, tl);
            self.flush_text();
            self.directive(rest.as_slice());
            return;
        }
        let bar = find_char(ts, '|', 0);
        if bar.is_some() && !range_has_prefix(ts, 0, tl, "-") {
            let cells = table_cells_of(ts);
            if rule_row(&cells) {
                if self.rows.len() == 0 {
                    self.flush_text();
                }
            } else if cells.len() == 0 {
            } else {
                self.flush_text();
                let row = row_strings(&cells);
                assert(rows_view(self.rows@.push(row)) =~= rows_view(self.rows@).push(row_view(row@)));
                self.rows.push(row);
            }
            return;
        }
        self.flush_table();
        if !self.text.as_str().is_empty() {
            push_char(&mut self.text, '\n');
        }
        let tstr = string_of(ts);
        push_str(&mut self.text, tstr.as_str());

    }
}

/// The finding block of a `finding` argument; see [`finding_of`].
fn finding_block(arg: &[char]) -> (r: Option<Block>)
    ensures
        finding_of(arg@) == match r {
            Some(b) => Some(b@),
            None => None,
        },
{
    assert(arg@.len() == arg.len());
    match find_char(arg, ' ', 0) {
        Some(k) => {
            let sev = string_of_range(arg, 0, k);
            let heading = trimmed(arg, k + 1, arg.len());
            Some(Block::Finding(sev, string_of(heading.as_slice())))
        },
        None => None,
    }
}

/// The meta block of a `meta` argument; see [`meta_of`].
fn meta_block(arg: &[char]) -> (r: Option<Block>)
    ensures
        meta_of(arg@) == match r {
            Some(b) => Some(b@),
            None => None,
        },
{
    assert(arg@.len() == arg.len());
    match find_char(arg, ':', 0) {
        Some(k) => {
            let key = trimmed(arg, 0, k);
            let val = trimmed(arg, k + 1, arg.len());
            Some(Block::Meta(string_of(key.as_slice()), string_of(val.as_slice())))
        },
        None => None,
    }
}

/// Parse rendered report text into a sequence of blocks.
pub fn parse_blocks(text: &str) -> (r: Vec<Block>)
    ensures
        blocks_view(r@) == blocks_of(text@),
{
    let chars = chars_of(text);
    let s = chars.as_slice();
    let mut st = BlockParser {
        out: Vec::new(),
        rows: Vec::new(),
        text: String::new(),
        in_latex: false,
        latex: String::new(),
    };
    assert(blocks_view(st.out@) =~= seq![]);
    assert(rows_view(st.rows@) =~= seq![]);
    let mut i: usize = 0;
    while i < s.len()
        invariant
            i <= s@.len(),
            s@ == text@,
            block_fold(block_init(), lines(s@)) == block_fold(st@, lines_from(s@, i as int)),
        decreases s.len() - i,
    {
        let (lo, hi, next) = next_line(s, i);
        let line = vec_of_range(s, lo, hi);
        let ghost ls = lines_from(s@, i as int);
        assert(ls.drop_first() =~= lines_from(s@, next as int));
        st.step(line.as_slice());
        i = next;
    }
    assert(lines_from(s@, i as int) =~= Seq::<Seq<char>>::empty());
    st.flush_text();
    st.flush_table();
    st.out
}

/// Parsing is a function of the text alone: the same rendered text always
/// yields the same block sequence.
pub proof fn lemma_parse_deterministic(a: Seq<char>, b: Seq<char>)
    requires
        a == b,
    ensures
        blocks_of(a) == blocks_of(b),
{
}

} // verus!
