//! Page layout: block heights, pagination, the dry-run pass that finds the page
//! of every section and finding, the paint pass, and the closing decoration.
use vstd::prelude::*;
use crate::blocks::{Block, Node, blocks_view};
use crate::markdown::{MdBlock, MdNode, md_view, markdown, parse_markdown};
use crate::text::{chars_of, lines, lines_from, next_line};
use crate::wrap::{spans_to_styled_words, styled_words, wrap, wrap_styled_words, lines_view};
use crate::inline::spans_view;
use crate::latex::{decimal, push_decimal};
use crate::text::push_str;
use crate::model::{lower_of, lowercase};

verus! {

/// Top of the printable area, in hundredths of a millimetre from the page top.
pub const PAGE_TOP: u64 = 2500;
/// Bottom of the printable area.
pub const PAGE_BOTTOM: u64 = 26700;
/// Where a title starts at the latest: a fixed anchor 40 mm below the top of the
/// printable area, whatever stands above it.
pub const TITLE_TOP: u64 = 6500;
/// Height of one line of body text.
pub const LINE_HEIGHT: u64 = 500;
/// Characters on a line of body text.
pub const TEXT_CHARS: usize = 90;
/// Characters on a line of a bullet item.
pub const BULLET_CHARS: usize = 85;
/// Characters on a line of a markdown heading.
pub const HEADING_CHARS: usize = 60;

pub open spec fn sat_add(a: u64, b: u64) -> u64 {
    if a + b > u64::MAX { u64::MAX } else { (a + b) as u64 }
}

pub open spec fn sat_mul(a: u64, b: u64) -> u64 {
    if a * b > u64::MAX { u64::MAX } else { (a * b) as u64 }
}

fn add_sat(a: u64, b: u64) -> (r: u64)
    ensures
        r == sat_add(a, b),
{
    a.saturating_add(b)
}

fn mul_sat(a: u64, b: u64) -> (r: u64)
    ensures
        r == sat_mul(a, b),
{
    if b != 0 && a > u64::MAX / b {
        assert(a * b > u64::MAX) by (nonlinear_arith)
            requires
                b != 0,
                a > u64::MAX / b,
        ;
        u64::MAX
    } else {
        assert(a * b <= u64::MAX) by (nonlinear_arith)
            requires
                b == 0 || a <= u64::MAX / b,
        ;
        a * b
    }
}

/// A count as a `u64`, saturating.
pub open spec fn count(n: nat) -> u64 {
    if n > u64::MAX { u64::MAX } else { n as u64 }
}

/// Height of one markdown block.
pub open spec fn md_height(b: MdNode) -> u64 {
    match b {
        MdNode::Paragraph(sp) => sat_add(sat_mul(count(wrap(styled_words(sp), TEXT_CHARS as nat).len()), LINE_HEIGHT), 300),
        MdNode::Heading(_, sp) => sat_add(sat_mul(count(wrap(styled_words(sp), HEADING_CHARS as nat).len()), 700), 400),
        MdNode::BulletItem(sp) => sat_add(sat_mul(count(wrap(styled_words(sp), BULLET_CHARS as nat).len()), LINE_HEIGHT), 100),
        MdNode::CodeBlock(c) => sat_add(sat_mul(count(lines(c).len()), 450), 600),
    }
}

/// Total height of markdown blocks.
pub open spec fn md_total(v: Seq<MdNode>) -> u64
    decreases v.len(),
{
    if v.len() == 0 {
        0
    } else {
        sat_add(md_total(v.drop_last()), md_height(v.last()))
    }
}

/// Height of a block; an index lists `toc_len` entries.
pub open spec fn block_height(b: Node, toc_len: nat) -> u64 {
    match b {
        Node::Title(_) => 6000,
        Node::Subtitle(_) => 1600,
        Node::Section(_) => 3700,
        Node::Finding(_, _) => 3000,
        Node::Meta(_, _) => 600,
        Node::Table(rows) => if rows.len() == 0 {
            0
        } else {
            sat_add(1200, sat_mul(count((rows.len() - 1) as nat), 700))
        },
        Node::Text(t) => md_total(markdown(t)),
        Node::Latex(_) => 0,
        Node::Index => sat_add(1500, sat_mul(count(toc_len), 700)),
        Node::Spacer(h) => count(h),
        Node::PageBreak => 0,
        Node::HRule => 400,
    }
}

fn line_count(s: &str) -> (r: u64)
    ensures
        r == count(lines(s@).len()),
{
    let cs = chars_of(s);
    let sl = cs.as_slice();
    let mut n: u64 = 0;
    let mut i: usize = 0;
    while i < sl.len()
        invariant
            i <= sl@.len(),
            sl@ == s@,
            count(lines(sl@).len()) == sat_add(n, count(lines_from(sl@, i as int).len())),
        decreases sl.len() - i,
    {
        let (_lo, _hi, next) = next_line(sl, i);
        n = add_sat(n, 1);
        i = next;
    }
    assert(lines_from(sl@, i as int).len() == 0);
    n
}

fn wrapped_lines(spans: &Vec<crate::inline::MdSpan>, width: usize) -> (r: u64)
    ensures
        r == count(wrap(styled_words(spans_view(spans@)), width as nat).len()),
{
    let words = spans_to_styled_words(spans.as_slice());
    let ls = wrap_styled_words(words.as_slice(), width);
    assert(lines_view(ls@).len() == ls@.len());
    ls.len() as u64
}

fn md_block_height(b: &MdBlock) -> (r: u64)
    ensures
        r == md_height(b@),
{
    match b {
        MdBlock::Paragraph(sp) => add_sat(mul_sat(wrapped_lines(sp, TEXT_CHARS), LINE_HEIGHT), 300),
        MdBlock::Heading(_, sp) => add_sat(mul_sat(wrapped_lines(sp, HEADING_CHARS), 700), 400),
        MdBlock::BulletItem(sp) => add_sat(mul_sat(wrapped_lines(sp, BULLET_CHARS), LINE_HEIGHT), 100),
        MdBlock::CodeBlock(c) => add_sat(mul_sat(line_count(c.as_str()), 450), 600),
    }
}

/// Height of markdown text laid out in the body column.
pub fn text_height(t: &str) -> (r: u64)
    ensures
        r == md_total(markdown(t@)),
{
    let mds = parse_markdown(t);
    let mut total: u64 = 0;
    let mut k: usize = 0;
    while k < mds.len()
        invariant
            k <= mds@.len(),
            md_view(mds@) == markdown(t@),
            total == md_total(md_view(mds@).subrange(0, k as int)),
        decreases mds.len() - k,
    {
        let ghost pre = md_view(mds@).subrange(0, k as int);
        assert(md_view(mds@).subrange(0, k + 1).drop_last() =~= pre);
        total = add_sat(total, md_block_height(&mds[k]));
        k = k + 1;
    }
    assert(md_view(mds@).subrange(0, k as int) =~= md_view(mds@));
    total
}

/// Height of a block; an index lists `toc_len` entries. Both passes use it.
pub fn height_of(b: &Block, toc_len: u64) -> (r: u64)
    ensures
        r == block_height(b@, toc_len as nat),
{
    match b {
        Block::Title(_) => 6000,
        Block::Subtitle(_) => 1600,
        Block::Section(_) => 3700,
        Block::Finding(_, _) => 3000,
        Block::Meta(_, _) => 600,
        Block::Table(rows) => {
            if rows.len() == 0 {
                0
            } else {
                assert(crate::blocks::rows_view(rows@).len() == rows@.len());
                add_sat(1200, mul_sat((rows.len() - 1) as u64, 700))
            }
        },
        Block::Text(t) => text_height(t.as_str()),
        Block::Latex(_) => 0,
        Block::Index => add_sat(1500, mul_sat(toc_len, 700)),
        Block::Spacer(h) => *h,
        Block::PageBreak => 0,
        Block::HRule => 400,
    }
}

/// Where the paint position stands: vertical offset on the current page, the
/// page number, and how many findings have been placed.
#[derive(Clone, Copy, PartialEq, Eq, Debug, Structural)]
pub struct Cursor {
    pub y: u64,
    pub page: u64,
    pub findings: u64,
}

pub open spec fn start_cursor() -> Cursor {
    Cursor { y: PAGE_TOP, page: 1, findings: 0 }
}

pub open spec fn fresh_page(c: Cursor) -> Cursor {
    Cursor { y: PAGE_TOP, page: sat_add(c.page, 1), findings: c.findings }
}

/// A forced page break; none on a page that nothing has been placed on yet.
pub open spec fn break_page(c: Cursor) -> Cursor {
    if c.y > PAGE_TOP { fresh_page(c) } else { c }
}

/// A new page when `h` no longer fits below the position on a used page.
pub open spec fn ensure_space(c: Cursor, h: u64) -> Cursor {
    if c.y > PAGE_TOP && sat_add(c.y, h) > PAGE_BOTTOM { fresh_page(c) } else { c }
}

pub open spec fn advance(c: Cursor, h: u64) -> Cursor {
    Cursor { y: sat_add(c.y, h), page: c.page, findings: c.findings }
}

/// Where a block is drawn, after its page checks; every finding but the first
/// starts a page of its own.
pub open spec fn drawn_at(c: Cursor, b: Node, toc_len: nat) -> Cursor {
    let h = block_height(b, toc_len);
    match b {
        Node::PageBreak => break_page(c),
        Node::Finding(_, _) => {
            let c1 = if c.findings > 0 { break_page(c) } else { c };
            ensure_space(Cursor { y: c1.y, page: c1.page, findings: sat_add(c1.findings, 1) }, h)
        },
        Node::Title(_) => {
            let c1 = ensure_space(c, h);
            Cursor { y: if c1.y < TITLE_TOP { TITLE_TOP } else { c1.y }, page: c1.page, findings: c1.findings }
        },
        _ => ensure_space(c, h),
    }
}

/// The position after a block.
pub open spec fn after_block(c: Cursor, b: Node, toc_len: nat) -> Cursor {
    advance(drawn_at(c, b, toc_len), block_height(b, toc_len))
}

/// The position after a block sequence.
pub open spec fn cursor_after(v: Seq<Node>, toc_len: nat) -> Cursor
    decreases v.len(),
{
    if v.len() == 0 {
        start_cursor()
    } else {
        after_block(cursor_after(v.drop_last(), toc_len), v.last(), toc_len)
    }
}

fn fresh_page_of(c: Cursor) -> (r: Cursor)
    ensures
        r == fresh_page(c),
{
    Cursor { y: PAGE_TOP, page: add_sat(c.page, 1), findings: c.findings }
}

fn break_page_of(c: Cursor) -> (r: Cursor)
    ensures
        r == break_page(c),
{
    if c.y > PAGE_TOP { fresh_page_of(c) } else { c }
}

/// Starts a new page when `h` does not fit below the position on a used page.
pub fn ensure_space_of(c: Cursor, h: u64) -> (r: Cursor)
    ensures
        r == ensure_space(c, h),
{
    if c.y > PAGE_TOP && add_sat(c.y, h) > PAGE_BOTTOM { fresh_page_of(c) } else { c }
}

/// Moves the position down by `h`.
pub fn advance_of(c: Cursor, h: u64) -> (r: Cursor)
    ensures
        r == advance(c, h),
{
    Cursor { y: add_sat(c.y, h), page: c.page, findings: c.findings }
}

fn drawn_at_of(c: Cursor, b: &Block, h: u64, Ghost(toc_len): Ghost<nat>) -> (r: Cursor)
    requires
        h == block_height(b@, toc_len),
    ensures
        r == drawn_at(c, b@, toc_len),
{
    match b {
        Block::PageBreak => break_page_of(c),
        Block::Finding(_, _) => {
            let c1 = if c.findings > 0 { break_page_of(c) } else { c };
            ensure_space_of(Cursor { y: c1.y, page: c1.page, findings: add_sat(c1.findings, 1) }, h)
        },
        Block::Title(_) => {
            let c1 = ensure_space_of(c, h);
            Cursor { y: if c1.y < TITLE_TOP { TITLE_TOP } else { c1.y }, page: c1.page, findings: c1.findings }
        },
        _ => ensure_space_of(c, h),
    }
}

/// A table-of-contents line: a section, or a finding with its severity.
#[derive(Debug, PartialEq)]
pub struct TocEntry {
    pub is_section: bool,
    pub label: String,
    /// Empty for a section.
    pub severity: String,
    pub page_num: u64,
}

/// The mathematical value of a [`TocEntry`].
pub struct TocItem {
    pub is_section: bool,
    pub label: Seq<char>,
    pub severity: Seq<char>,
    pub page: u64,
}

impl View for TocEntry {
    type V = TocItem;

    open spec fn view(&self) -> TocItem {
        TocItem { is_section: self.is_section, label: self.label@, severity: self.severity@, page: self.page_num }
    }
}

pub open spec fn toc_view(v: Seq<TocEntry>) -> Seq<TocItem> {
    v.map_values(|e: TocEntry| e@)
}

/// Sections and findings are what the contents list and bookmarks point at.
pub open spec fn is_anchor(b: Node) -> bool {
    b is Section || b is Finding
}

/// The number of sections and findings.
pub open spec fn anchor_count(v: Seq<Node>) -> nat
    decreases v.len(),
{
    if v.len() == 0 {
        0
    } else {
        anchor_count(v.drop_last()) + if is_anchor(v.last()) { 1nat } else { 0nat }
    }
}

/// The contents entry of a block drawn on `page`, if it is a section or finding.
pub open spec fn toc_item(b: Node, page: u64) -> Seq<TocItem> {
    match b {
        Node::Section(t) => seq![TocItem { is_section: true, label: t, severity: seq![], page: page }],
        Node::Finding(sev, h) => seq![TocItem { is_section: false, label: h, severity: sev, page: page }],
        _ => seq![],
    }
}

/// The contents entries that laying out `v` gives, an index listing `toc_len` of them.
pub open spec fn toc_of(v: Seq<Node>, toc_len: nat) -> Seq<TocItem>
    decreases v.len(),
{
    if v.len() == 0 {
        seq![]
    } else {
        toc_of(v.drop_last(), toc_len) + toc_item(
            v.last(),
            drawn_at(cursor_after(v.drop_last(), toc_len), v.last(), toc_len).page,
        )
    }
}

/// The contents entries of a document.
pub open spec fn table_of_contents(v: Seq<Node>) -> Seq<TocItem> {
    toc_of(v, anchor_count(v))
}

fn count_anchors(blocks: &[Block]) -> (r: u64)
    ensures
        r == count(anchor_count(blocks_view(blocks@))),
{
    let mut n: u64 = 0;
    let mut k: usize = 0;
    while k < blocks.len()
        invariant
            k <= blocks@.len(),
            n == count(anchor_count(blocks_view(blocks@).subrange(0, k as int))),
        decreases blocks.len() - k,
    {
        assert(blocks_view(blocks@).subrange(0, k + 1).drop_last() =~= blocks_view(blocks@).subrange(0, k as int));
        match &blocks[k] {
            Block::Section(_) | Block::Finding(_, _) => {
                n = add_sat(n, 1);
            },
            _ => {},
        }
        k = k + 1;
    }
    assert(blocks_view(blocks@).subrange(0, k as int) =~= blocks_view(blocks@));
    n
}

/// The dry-run pass: lays the blocks out without drawing and records the page of
/// every section and finding, in order.
pub fn simulate_layout(blocks: &[Block]) -> (r: Vec<TocEntry>)
    requires
        blocks@.len() < u64::MAX,
    ensures
        toc_view(r@) == table_of_contents(blocks_view(blocks@)),
{
    let ghost v = blocks_view(blocks@);
    let toc_len = count_anchors(blocks);
    proof {
        lemma_anchor_count_bound(v);
    }
    let ghost tl = anchor_count(v);
    assert(toc_len as nat == tl);
    let mut c = Cursor { y: PAGE_TOP, page: 1, findings: 0 };
    let mut out: Vec<TocEntry> = Vec::new();
    let mut k: usize = 0;
    assert(toc_view(out@) =~= Seq::<TocItem>::empty());
    while k < blocks.len()
        invariant
            k <= blocks@.len(),
            v == blocks_view(blocks@),
            toc_len as nat == tl,
            c == cursor_after(v.subrange(0, k as int), tl),
            toc_view(out@) == toc_of(v.subrange(0, k as int), tl),
        decreases blocks.len() - k,
    {
        let ghost pre = v.subrange(0, k as int);
        assert(v.subrange(0, k + 1).drop_last() =~= pre);
        assert(v.subrange(0, k + 1).last() == blocks@[k as int]@);
        let b = &blocks[k];
        let h = height_of(b, toc_len);
        let at = drawn_at_of(c, b, h, Ghost(tl));
        let ghost prev = toc_view(out@);
        match b {
            Block::Section(t) => {
                out.push(TocEntry { is_section: true, label: t.clone(), severity: String::new(), page_num: at.page });
                assert(toc_view(out@) =~= prev + toc_item(b@, at.page));
            },
            Block::Finding(sev, heading) => {
                out.push(TocEntry { is_section: false, label: heading.clone(), severity: sev.clone(), page_num: at.page });
                assert(toc_view(out@) =~= prev + toc_item(b@, at.page));
            },
            _ => {
                assert(toc_view(out@) =~= prev + toc_item(b@, at.page));
            },
        }
        c = advance_of(at, h);
        k = k + 1;
    }
    assert(v.subrange(0, k as int) =~= v);
    out
}

proof fn lemma_anchor_count_bound(v: Seq<Node>)
    ensures
        anchor_count(v) <= v.len(),
    decreases v.len(),
{
    if v.len() > 0 {
        lemma_anchor_count_bound(v.drop_last());
    }
}

/// What a drawing command paints.
#[derive(Clone, Copy, PartialEq, Eq, Debug, Structural)]
pub enum OpKind {
    /// Accent bar and large heading.
    Title,
    Subtitle,
    /// Rule, bold heading and accent underline of a section.
    SectionHeading,
    /// Accent bar, card, severity pill and heading of a finding.
    FindingCard,
    /// Bullet marker, bold key and value.
    Meta,
    /// Header band and rows of a table.
    Table,
    /// Wrapped markdown text.
    Text,
    /// One contents line, pointing at a page.
    IndexEntry,
    /// Horizontal rule.
    Rule,
}

/// Paint colour of a drawing command.
#[derive(Clone, Copy, PartialEq, Eq, Debug, Structural)]
pub enum Colour {
    /// Body text and rules.
    Ink,
    Red,
    Orange,
    Amber,
    Green,
    Blue,
    /// A severity label that names no known severity.
    Neutral,
}

/// The colour of a severity label already in lower case.
pub open spec fn severity_colour(l: Seq<char>) -> Colour {
    if l == "critical"@ {
        Colour::Red
    } else if l == "high"@ {
        Colour::Orange
    } else if l == "medium"@ {
        Colour::Amber
    } else if l == "low"@ {
        Colour::Green
    } else if l == "info"@ {
        Colour::Blue
    } else {
        Colour::Neutral
    }
}

/// The colour of a severity label already in lower case.
pub fn colour_for_lowercase(l: &str) -> (r: Colour)
    ensures
        r == severity_colour(l@),
{
    let cs = chars_of(l);
    let s = cs.as_slice();
    if crate::text::eq_str(s, "critical") {
        Colour::Red
    } else if crate::text::eq_str(s, "high") {
        Colour::Orange
    } else if crate::text::eq_str(s, "medium") {
        Colour::Amber
    } else if crate::text::eq_str(s, "low") {
        Colour::Green
    } else if crate::text::eq_str(s, "info") {
        Colour::Blue
    } else {
        Colour::Neutral
    }
}

/// The colour of a severity label in any case.
pub fn severity_colour_of(label: &str) -> (r: Colour)
    ensures
        r == severity_colour(lower_of(label@)),
{
    let l = lowercase(label);
    colour_for_lowercase(l.as_str())
}

/// One absolutely placed drawing command.
#[derive(Debug, PartialEq)]
pub struct DrawOp {
    pub page: u64,
    pub y: u64,
    pub kind: OpKind,
    pub text: String,
    /// A finding's or contents line's severity label, a meta line's value;
    /// empty for other commands.
    pub detail: String,
    pub colour: Colour,
    /// The page a contents line cites; 0 for other commands.
    pub target: u64,
}

/// The mathematical value of a [`DrawOp`].
pub struct Op {
    pub page: u64,
    pub y: u64,
    pub kind: OpKind,
    pub text: Seq<char>,
    pub detail: Seq<char>,
    pub colour: Colour,
    pub target: u64,
}

impl View for DrawOp {
    type V = Op;

    open spec fn view(&self) -> Op {
        Op {
            page: self.page,
            y: self.y,
            kind: self.kind,
            text: self.text@,
            detail: self.detail@,
            colour: self.colour,
            target: self.target,
        }
    }
}

pub open spec fn ops_view(v: Seq<DrawOp>) -> Seq<Op> {
    v.map_values(|o: DrawOp| o@)
}

pub open spec fn op_at(at: Cursor, kind: OpKind, text: Seq<char>) -> Op {
    Op { page: at.page, y: at.y, kind: kind, text: text, detail: seq![], colour: Colour::Ink, target: 0 }
}

/// A finding card: heading, severity pill and card in the severity's colour.
pub open spec fn finding_op(at: Cursor, sev: Seq<char>, heading: Seq<char>) -> Op {
    Op {
        page: at.page,
        y: at.y,
        kind: OpKind::FindingCard,
        text: heading,
        detail: sev,
        colour: severity_colour(lower_of(sev)),
        target: 0,
    }
}

/// A meta line: bold key and its value.
pub open spec fn meta_op(at: Cursor, key: Seq<char>, value: Seq<char>) -> Op {
    Op { page: at.page, y: at.y, kind: OpKind::Meta, text: key, detail: value, colour: Colour::Ink, target: 0 }
}

/// The marker colour of a contents line: ink for a section, the severity's for a finding.
pub open spec fn entry_colour(e: TocItem) -> Colour {
    if e.is_section { Colour::Ink } else { severity_colour(lower_of(e.severity)) }
}

/// The contents lines, one below the other from `at`.
pub open spec fn index_ops(at: Cursor, toc: Seq<TocItem>) -> Seq<Op> {
    toc.map(
        |i: int, e: TocItem|
            Op {
                page: at.page,
                y: sat_add(sat_add(at.y, 1500), sat_mul(count(i as nat), 700)),
                kind: OpKind::IndexEntry,
                text: e.label,
                detail: e.severity,
                colour: entry_colour(e),
                target: e.page,
            },
    )
}

/// The commands that paint a block drawn at `at`.
pub open spec fn block_ops(b: Node, at: Cursor, toc: Seq<TocItem>) -> Seq<Op> {
    match b {
        Node::Title(t) => seq![op_at(at, OpKind::Title, t)],
        Node::Subtitle(t) => seq![op_at(at, OpKind::Subtitle, t)],
        Node::Section(t) => seq![op_at(at, OpKind::SectionHeading, t)],
        Node::Finding(sev, h) => seq![finding_op(at, sev, h)],
        Node::Meta(k, v) => seq![meta_op(at, k, v)],
        Node::Table(rows) => if rows.len() == 0 { seq![] } else { seq![op_at(at, OpKind::Table, seq![])] },
        Node::Text(t) => seq![op_at(at, OpKind::Text, t)],
        Node::Index => index_ops(at, toc),
        Node::HRule => seq![op_at(at, OpKind::Rule, seq![])],
        _ => seq![],
    }
}

/// The commands that painting `v` gives, an index listing `toc`.
pub open spec fn paint_ops(v: Seq<Node>, toc: Seq<TocItem>) -> Seq<Op>
    decreases v.len(),
{
    if v.len() == 0 {
        seq![]
    } else {
        paint_ops(v.drop_last(), toc) + block_ops(
            v.last(),
            drawn_at(cursor_after(v.drop_last(), toc.len()), v.last(), toc.len()),
            toc,
        )
    }
}

/// The result of the paint pass.
pub struct Painted {
    pub ops: Vec<DrawOp>,
    /// Number of pages; pages are numbered from 1.
    pub pages: u64,
}

fn op_of(at: Cursor, kind: OpKind, text: &String) -> (r: DrawOp)
    ensures
        r@ == op_at(at, kind, text@),
{
    DrawOp { page: at.page, y: at.y, kind, text: text.clone(), detail: String::new(), colour: Colour::Ink, target: 0 }
}

fn push_block_ops(out: &mut Vec<DrawOp>, b: &Block, at: Cursor, toc: &[TocEntry])
    ensures
        ops_view(final(out)@) == ops_view(old(out)@) + block_ops(b@, at, toc_view(toc@)),
{
    let ghost prev = ops_view(out@);
    match b {
        Block::Title(t) => out.push(op_of(at, OpKind::Title, t)),
        Block::Subtitle(t) => out.push(op_of(at, OpKind::Subtitle, t)),
        Block::Section(t) => out.push(op_of(at, OpKind::SectionHeading, t)),
        Block::Finding(sev, h) => {
            let colour = severity_colour_of(sev.as_str());
            out.push(
                DrawOp {
                    page: at.page,
                    y: at.y,
                    kind: OpKind::FindingCard,
                    text: h.clone(),
                    detail: sev.clone(),
                    colour,
                    target: 0,
                },
            );
        },
        Block::Meta(k, v) => out.push(
            DrawOp {
                page: at.page,
                y: at.y,
                kind: OpKind::Meta,
                text: k.clone(),
                detail: v.clone(),
                colour: Colour::Ink,
                target: 0,
            },
        ),
        Block::Table(rows) => {
            if rows.len() > 0 {
                out.push(op_of(at, OpKind::Table, &String::new()));
            }
        },
        Block::Text(t) => out.push(op_of(at, OpKind::Text, t)),
        Block::Index => {
            let ghost tv = toc_view(toc@);
            let base = add_sat(at.y, 1500);
            let mut i: usize = 0;
            while i < toc.len()
                invariant
                    i <= toc@.len(),
                    tv == toc_view(toc@),
                    base == sat_add(at.y, 1500),
                    ops_view(out@) == prev + index_ops(at, tv).subrange(0, i as int),
                decreases toc.len() - i,
            {
                let e = &toc[i];
                let ghost before = ops_view(out@);
                let colour = if e.is_section { Colour::Ink } else { severity_colour_of(e.severity.as_str()) };
                out.push(
                    DrawOp {
                        page: at.page,
                        y: add_sat(base, mul_sat(i as u64, 700)),
                        kind: OpKind::IndexEntry,
                        text: e.label.clone(),
                        detail: e.severity.clone(),
                        colour,
                        target: e.page_num,
                    },
                );
                assert(ops_view(out@) =~= before.push(index_ops(at, tv)[i as int]));
                assert(index_ops(at, tv).subrange(0, i + 1) =~= index_ops(at, tv).subrange(0, i as int).push(
                    index_ops(at, tv)[i as int],
                ));
                i = i + 1;
            }
            assert(index_ops(at, tv).subrange(0, i as int) =~= index_ops(at, tv));
        },
        Block::HRule => out.push(op_of(at, OpKind::Rule, &String::new())),
        _ => {},
    }
    assert(ops_view(out@) =~= prev + block_ops(b@, at, toc_view(toc@)));
}

/// The paint pass: places every block with the same height and page rules as
/// the dry run, opening pages as needed, and emits its drawing commands; the
/// index block lists `toc`.
pub fn paint(blocks: &[Block], toc: &[TocEntry]) -> (r: Painted)
    requires
        toc@.len() < u64::MAX,
    ensures
        ops_view(r.ops@) == paint_ops(blocks_view(blocks@), toc_view(toc@)),
        r.pages == cursor_after(blocks_view(blocks@), toc@.len()).page,
{
    let ghost v = blocks_view(blocks@);
    let ghost tv = toc_view(toc@);
    let toc_len = toc.len() as u64;
    let mut c = Cursor { y: PAGE_TOP, page: 1, findings: 0 };
    let mut ops: Vec<DrawOp> = Vec::new();
    let mut k: usize = 0;
    assert(ops_view(ops@) =~= Seq::<Op>::empty());
    while k < blocks.len()
        invariant
            k <= blocks@.len(),
            v == blocks_view(blocks@),
            tv == toc_view(toc@),
            toc_len as nat == tv.len(),
            c == cursor_after(v.subrange(0, k as int), tv.len()),
            ops_view(ops@) == paint_ops(v.subrange(0, k as int), tv),
        decreases blocks.len() - k,
    {
        let ghost pre = v.subrange(0, k as int);
        assert(v.subrange(0, k + 1).drop_last() =~= pre);
        assert(v.subrange(0, k + 1).last() == blocks@[k as int]@);
        let b = &blocks[k];
        let h = height_of(b, toc_len);
        let at = drawn_at_of(c, b, h, Ghost(tv.len()));
        push_block_ops(&mut ops, b, at, toc);
        c = advance_of(at, h);
        k = k + 1;
    }
    assert(v.subrange(0, k as int) =~= v);
    Painted { ops, pages: c.page }
}

/// Pages of the commands that paint section headings and finding cards, in order.
pub open spec fn anchor_pages(ops: Seq<Op>) -> Seq<u64>
    decreases ops.len(),
{
    if ops.len() == 0 {
        seq![]
    } else {
        anchor_pages(ops.drop_last()) + if ops.last().kind is SectionHeading || ops.last().kind is FindingCard {
            seq![ops.last().page]
        } else {
            seq![]
        }
    }
}

proof fn lemma_anchor_pages_concat(a: Seq<Op>, b: Seq<Op>)
    ensures
        anchor_pages(a + b) == anchor_pages(a) + anchor_pages(b),
    decreases b.len(),
{
    if b.len() == 0 {
        assert(a + b =~= a);
        assert(anchor_pages(a) + anchor_pages(b) =~= anchor_pages(a));
    } else {
        lemma_anchor_pages_concat(a, b.drop_last());
        assert((a + b).drop_last() =~= a + b.drop_last());
    }
}

proof fn lemma_index_no_anchor(at: Cursor, toc: Seq<TocItem>, n: int)
    requires
        0 <= n <= toc.len(),
    ensures
        anchor_pages(index_ops(at, toc).subrange(0, n)) == Seq::<u64>::empty(),
    decreases n,
{
    if n > 0 {
        lemma_index_no_anchor(at, toc, n - 1);
        assert(index_ops(at, toc).subrange(0, n).drop_last() =~= index_ops(at, toc).subrange(0, n - 1));
    }
}

pub open spec fn toc_pages(toc: Seq<TocItem>) -> Seq<u64> {
    toc.map_values(|e: TocItem| e.page)
}

/// Two-pass consistency: the pages that the dry run records for the sections and
/// findings, in order, are the pages on which the paint pass draws them.
pub proof fn lemma_two_pass_consistency(v: Seq<Node>)
    ensures
        anchor_pages(paint_ops(v, table_of_contents(v))) == toc_pages(table_of_contents(v)),
{
    let toc = table_of_contents(v);
    lemma_toc_len(v, anchor_count(v));
    lemma_consistent_prefix(v, toc, anchor_count(v));
}

proof fn lemma_toc_len(v: Seq<Node>, tl: nat)
    ensures
        toc_of(v, tl).len() == anchor_count(v),
    decreases v.len(),
{
    if v.len() > 0 {
        lemma_toc_len(v.drop_last(), tl);
    }
}

proof fn lemma_consistent_prefix(v: Seq<Node>, toc: Seq<TocItem>, tl: nat)
    requires
        toc.len() == tl,
    ensures
        anchor_pages(paint_ops(v, toc)) == toc_pages(toc_of(v, tl)),
    decreases v.len(),
{
    if v.len() == 0 {
        assert(toc_pages(toc_of(v, tl)) =~= Seq::<u64>::empty());
    } else {
        let pre = v.drop_last();
        lemma_consistent_prefix(pre, toc, tl);
        let at = drawn_at(cursor_after(pre, tl), v.last(), tl);
        let bo = block_ops(v.last(), at, toc);
        lemma_anchor_pages_concat(paint_ops(pre, toc), bo);
        if v.last() is Index {
            lemma_index_no_anchor(at, toc, toc.len() as int);
            assert(index_ops(at, toc).subrange(0, toc.len() as int) =~= index_ops(at, toc));
        } else {
            assert(bo.len() <= 1);
            if bo.len() == 1 {
                assert(bo.drop_last() =~= Seq::<Op>::empty());
                assert(anchor_pages(bo.drop_last()) == Seq::<u64>::empty());
            } else {
                assert(bo =~= Seq::<Op>::empty());
            }
            assert(anchor_pages(bo) =~= toc_pages(toc_item(v.last(), at.page)));
        }
        assert(anchor_pages(bo) =~= toc_pages(toc_item(v.last(), at.page)));
        assert(toc_pages(toc_of(v, tl)) =~= toc_pages(toc_of(pre, tl)) + toc_pages(toc_item(v.last(), at.page)));
    }
}

/// The number of findings.
pub open spec fn finding_count(v: Seq<Node>) -> nat
    decreases v.len(),
{
    if v.len() == 0 {
        0
    } else {
        finding_count(v.drop_last()) + if v.last() is Finding { 1nat } else { 0nat }
    }
}

/// What holds of the position after `n` blocks of which `f` were findings.
pub open spec fn paging_inv(c: Cursor, n: nat, f: nat) -> bool {
    &&& c.findings == f
    &&& f <= n
    &&& 1 <= c.page <= 1 + n
    &&& c.page >= f
    &&& c.y >= PAGE_TOP
    &&& (f == 0 || c.y > PAGE_TOP || c.page > f)
}

proof fn lemma_paging_step(c: Cursor, b: Node, tl: nat, n: nat, f: nat)
    requires
        paging_inv(c, n, f),
        n + 2 < u64::MAX,
    ensures
        paging_inv(after_block(c, b, tl), n + 1, f + if b is Finding { 1nat } else { 0nat }),
{
    let h = block_height(b, tl);
    let at = drawn_at(c, b, tl);
    if b is Finding {
        let c1 = if c.findings > 0 { break_page(c) } else { c };
        assert(c1.page >= f + 1);
        assert(at.page >= c1.page);
        assert(h == 3000);
    }
}

proof fn lemma_paging(v: Seq<Node>, tl: nat)
    requires
        v.len() + 2 < u64::MAX,
    ensures
        paging_inv(cursor_after(v, tl), v.len(), finding_count(v)),
    decreases v.len(),
{
    if v.len() > 0 {
        lemma_paging(v.drop_last(), tl);
        lemma_paging_step(cursor_after(v.drop_last(), tl), v.last(), tl, v.drop_last().len(), finding_count(v.drop_last()));
    }
}

/// Finding pagination: every finding after the first opens a page of its own, so
/// a document with `n` findings spans at least `n` pages; the first finding is
/// never pushed to a new page for being a finding, so one right after a section
/// heading shares its page unless it does not fit.
pub proof fn lemma_finding_pagination(v: Seq<Node>, tl: nat, c: Cursor, sev: Seq<char>, heading: Seq<char>)
    requires
        v.len() + 2 < u64::MAX,
    ensures
        cursor_after(v, tl).page >= finding_count(v),
        c.findings == 0 ==> drawn_at(c, Node::Finding(sev, heading), tl) == ensure_space(
            Cursor { y: c.y, page: c.page, findings: 1 },
            block_height(Node::Finding(sev, heading), tl),
        ),
{
    lemma_paging(v, tl);
}

/// A navigation bookmark.
#[derive(Debug, PartialEq)]
pub struct Bookmark {
    pub page: u64,
    pub label: String,
}

/// The running footer of page `p` of `n`.
pub open spec fn footer_text(p: nat, n: nat) -> Seq<char> {
    "Page "@ + decimal(p) + " of "@ + decimal(n)
}

/// One bookmark per page that a contents entry points at: the first entry there.
pub open spec fn bookmarks_of(toc: Seq<TocItem>) -> Seq<(u64, Seq<char>)>
    decreases toc.len(),
{
    if toc.len() == 0 {
        seq![]
    } else {
        let prev = bookmarks_of(toc.drop_last());
        if prev.len() == 0 || prev.last().0 != toc.last().page {
            prev.push((toc.last().page, toc.last().label))
        } else {
            prev
        }
    }
}

/// What the closing pass adds once the page count is known.
pub struct Decoration {
    /// The footer of each page, first page first.
    pub footers: Vec<String>,
    pub bookmarks: Vec<Bookmark>,
}

/// The closing pass: a "page X of Y" footer for each of `pages` pages and one
/// bookmark per page that the contents entries point at.
pub fn decorate(toc: &[TocEntry], pages: u64) -> (r: Decoration)
    ensures
        r.footers@.len() == pages,
        forall|i: int| 0 <= i < pages ==> (#[trigger] r.footers@[i])@ == footer_text((i + 1) as nat, pages as nat),
        r.bookmarks@.map_values(|b: Bookmark| (b.page, b.label@)) == bookmarks_of(toc_view(toc@)),
{
    let mut footers: Vec<String> = Vec::new();
    let mut p: u64 = 0;
    while p < pages
        invariant
            p <= pages,
            footers@.len() == p,
            forall|i: int| 0 <= i < p ==> (#[trigger] footers@[i])@ == footer_text((i + 1) as nat, pages as nat),
        decreases pages - p,
    {
        let mut f = String::new();
        push_str(&mut f, "Page ");
        push_decimal(&mut f, p + 1);
        push_str(&mut f, " of ");
        push_decimal(&mut f, pages);
        footers.push(f);
        p = p + 1;
    }
    let ghost tv = toc_view(toc@);
    let mut marks: Vec<Bookmark> = Vec::new();
    let mut k: usize = 0;
    assert(marks@.map_values(|b: Bookmark| (b.page, b.label@)) =~= Seq::<(u64, Seq<char>)>::empty());
    while k < toc.len()
        invariant
            k <= toc@.len(),
            tv == toc_view(toc@),
            marks@.map_values(|b: Bookmark| (b.page, b.label@)) == bookmarks_of(tv.subrange(0, k as int)),
        decreases toc.len() - k,
    {
        let ghost pre = tv.subrange(0, k as int);
        assert(tv.subrange(0, k + 1).drop_last() =~= pre);
        let ghost mv = marks@.map_values(|b: Bookmark| (b.page, b.label@));
        let e = &toc[k];
        if marks.len() == 0 || marks[marks.len() - 1].page != e.page_num {
            marks.push(Bookmark { page: e.page_num, label: e.label.clone() });
            assert(marks@.map_values(|b: Bookmark| (b.page, b.label@)) =~= mv.push((e.page_num, e.label@)));
        }
        k = k + 1;
    }
    assert(tv.subrange(0, k as int) =~= tv);
    Decoration { footers, bookmarks: marks }
}

/// A laid-out report: its blocks, its contents entries, the drawing commands and
/// the closing decoration.
pub struct Document {
    pub blocks: Vec<Block>,
    pub toc: Vec<TocEntry>,
    pub painted: Painted,
    pub decoration: Decoration,
}

/// Parses rendered report text and runs the three passes in order: the dry run
/// that finds the contents pages, the paint pass, and the closing decoration.
/// `None` only for a text of `u64::MAX` blocks or more.
pub fn lay_out(text: &str) -> (r: Option<Document>)
    ensures
        match r {
            Some(d) => {
                let v = blocks_view(d.blocks@);
                &&& v == crate::blocks::blocks_of(text@)
                &&& toc_view(d.toc@) == table_of_contents(v)
                &&& ops_view(d.painted.ops@) == paint_ops(v, table_of_contents(v))
                &&& d.painted.pages == cursor_after(v, anchor_count(v)).page
                &&& d.decoration.footers@.len() == d.painted.pages
                &&& forall|i: int|
                    0 <= i < d.painted.pages ==> (#[trigger] d.decoration.footers@[i])@ == footer_text(
                        (i + 1) as nat,
                        d.painted.pages as nat,
                    )
                &&& d.decoration.bookmarks@.map_values(|b: Bookmark| (b.page, b.label@)) == bookmarks_of(
                    table_of_contents(v),
                )
            },
            None => crate::blocks::blocks_of(text@).len() >= u64::MAX,
        },
{
    let blocks = crate::blocks::parse_blocks(text);
    if blocks.len() as u64 == u64::MAX {
        return None;
    }
    assert(blocks_view(blocks@).len() == blocks@.len());
    let toc = simulate_layout(blocks.as_slice());
    proof {
        lemma_toc_len(blocks_view(blocks@), anchor_count(blocks_view(blocks@)));
        lemma_anchor_count_bound(blocks_view(blocks@));
    }
    let painted = paint(blocks.as_slice(), toc.as_slice());
    let decoration = decorate(toc.as_slice(), painted.pages);
    Some(Document { blocks, toc, painted, decoration })
}

} // verus!
