//! Markdown block parser: paragraphs, headings, bullet items and fenced code.
use vstd::prelude::*;
use crate::inline::{MdSpan, Span, spans_view, inline_spans, spans_of_chars};
use crate::text::{
    chars_of, has_prefix, join, lines, lines_from, next_line, push_char, push_str, range_has_prefix,
    string_of_range, trim, trim_bounds, trim_end, trim_end_bound, vec_of_range,
};

verus! {

/// A block-level markdown element.
#[derive(Debug, PartialEq)]
pub enum MdBlock {
    Paragraph(Vec<MdSpan>),
    /// Level 1 to 3, with its spans.
    Heading(u8, Vec<MdSpan>),
    BulletItem(Vec<MdSpan>),
    CodeBlock(String),
}

/// The mathematical value of an [`MdBlock`].
pub enum MdNode {
    Paragraph(Seq<Span>),
    Heading(u8, Seq<Span>),
    BulletItem(Seq<Span>),
    CodeBlock(Seq<char>),
}

impl View for MdBlock {
    type V = MdNode;

    open spec fn view(&self) -> MdNode {
        match self {
            MdBlock::Paragraph(v) => MdNode::Paragraph(spans_view(v@)),
            MdBlock::Heading(l, v) => MdNode::Heading(*l, spans_view(v@)),
            MdBlock::BulletItem(v) => MdNode::BulletItem(spans_view(v@)),
            MdBlock::CodeBlock(c) => MdNode::CodeBlock(c@),
        }
    }
}

pub open spec fn md_view(v: Seq<MdBlock>) -> Seq<MdNode> {
    v.map_values(|b: MdBlock| b@)
}

/// Parser state between lines.
pub struct MdState {
    pub out: Seq<MdNode>,
    pub in_code: bool,
    pub code: Seq<char>,
    pub para: Seq<char>,
}

/// The pending paragraph, if any, is emitted.
pub open spec fn flush_para(st: MdState) -> MdState {
    let p = trim(st.para);
    MdState {
        out: if p.len() > 0 { st.out.push(MdNode::Paragraph(inline_spans(p))) } else { st.out },
        in_code: st.in_code,
        code: st.code,
        para: seq![],
    }
}

/// `st` after flushing the paragraph and emitting `b`.
pub open spec fn emit_after_para(st: MdState, b: MdNode) -> MdState {
    let f = flush_para(st);
    MdState { out: f.out.push(b), in_code: f.in_code, code: f.code, para: f.para }
}


/// The effect of one line on the parser state.
pub open spec fn md_step(st: MdState, line: Seq<char>) -> MdState {
    let t = trim(line);
    if has_prefix(t, "```"@) || has_prefix(t, "~~~"@) {
        if st.in_code {
            MdState {
                out: st.out.push(MdNode::CodeBlock(trim_end(st.code))),
                in_code: false,
                code: seq![],
                para: st.para,
            }
        } else {
            let f = flush_para(st);
            MdState { out: f.out, in_code: true, code: f.code, para: f.para }
        }
    } else if st.in_code {
        MdState { out: st.out, in_code: true, code: join(st.code, '\n', line), para: st.para }
    } else if t.len() == 0 {
        flush_para(st)
    } else if has_prefix(t, "### "@) {
        emit_after_para(st, MdNode::Heading(3, inline_spans(t.subrange(4, t.len() as int))))
    } else if has_prefix(t, "## "@) {
        emit_after_para(st, MdNode::Heading(2, inline_spans(t.subrange(3, t.len() as int))))
    } else if has_prefix(t, "# "@) {
        emit_after_para(st, MdNode::Heading(1, inline_spans(t.subrange(2, t.len() as int))))
    } else if has_prefix(t, "- "@) || has_prefix(t, "* "@) {
        emit_after_para(st, MdNode::BulletItem(inline_spans(t.subrange(2, t.len() as int))))
    } else {
        MdState { out: st.out, in_code: false, code: st.code, para: join(st.para, ' ', t) }
    }
}

/// The state after a sequence of lines.
pub open spec fn md_fold(st: MdState, ls: Seq<Seq<char>>) -> MdState
    decreases ls.len(),
{
    if ls.len() == 0 {
        st
    } else {
        md_fold(md_step(st, ls[0]), ls.drop_first())
    }
}

pub open spec fn md_init() -> MdState {
    MdState { out: seq![], in_code: false, code: seq![], para: seq![] }
}

/// The blocks of a markdown text; a code fence still open at the end emits nothing.
pub open spec fn markdown(s: Seq<char>) -> Seq<MdNode> {
    flush_para(md_fold(md_init(), lines(s))).out
}

struct MdParser {
    out: Vec<MdBlock>,
    in_code: bool,
    code: String,
    para: String,
}

impl View for MdParser {
    type V = MdState;

    closed spec fn view(&self) -> MdState {
        MdState { out: md_view(self.out@), in_code: self.in_code, code: self.code@, para: self.para@ }
    }
}

proof fn lemma_md_push(v: Seq<MdBlock>, b: MdBlock)
    ensures
        md_view(v.push(b)) == md_view(v).push(b@),
{
    assert(md_view(v.push(b)) =~= md_view(v).push(b@));
}

impl MdParser {
    fn flush_para(&mut self)
        ensures
            final(self)@ == flush_para(old(self)@),
    {
        let pc = chars_of(self.para.as_str());
        let (a, b) = trim_bounds(pc.as_slice(), 0, pc.len());
        if a < b {
            let t = vec_of_range(pc.as_slice(), a, b);
            let spans = spans_of_chars(t.as_slice());
            proof {
                lemma_md_push(self.out@, MdBlock::Paragraph(spans));
            }
            self.out.push(MdBlock::Paragraph(spans));
        }
        self.para = String::new();
    }

    fn emit(&mut self, b: MdBlock)
        ensures
            final(self)@ == emit_after_para(old(self)@, b@),
    {
        self.flush_para();
        proof {
            lemma_md_push(self.out@, b);
        }
        self.out.push(b);
    }

    fn step(&mut self, line: &[char])
        ensures
            final(self)@ == md_step(old(self)@, line@),
    {
        let (a, b) = trim_bounds(line, 0, line.len());
        let ghost t = trim(line@);
        assert(t == line@.subrange(a as int, b as int));
        if range_has_prefix(line, a, b, "```") || range_has_prefix(line, a, b, "~~~") {
            if self.in_code {
                let cc = chars_of(self.code.as_str());
                let e = trim_end_bound(cc.as_slice(), 0, cc.len());
                let code = string_of_range(cc.as_slice(), 0, e);
                proof {
                    lemma_md_push(self.out@, MdBlock::CodeBlock(code));
                }
                self.out.push(MdBlock::CodeBlock(code));
                self.in_code = false;
                self.code = String::new();
            } else {
                self.flush_para();
                self.in_code = true;
            }
            return;
        }
        if self.in_code {
            if !self.code.as_str().is_empty() {
                push_char(&mut self.code, '\n');
            }
            let l = string_of_range(line, 0, line.len());
            push_str(&mut self.code, l.as_str());
            assert(line@.subrange(0, line@.len() as int) =~= line@);
            return;
        }
        if a == b {
            self.flush_para();
            return;
        }
        if range_has_prefix(line, a, b, "### ") {
            proof {
                reveal_strlit("### ");
                assert(t.subrange(4, t.len() as int) =~= line@.subrange(a + 4, b as int));
            }
            let v = vec_of_range(line, a + 4, b);
            self.emit(MdBlock::Heading(3, spans_of_chars(v.as_slice())));
        } else if range_has_prefix(line, a, b, "## ") {
            proof {
                reveal_strlit("## ");
                assert(t.subrange(3, t.len() as int) =~= line@.subrange(a + 3, b as int));
            }
            let v = vec_of_range(line, a + 3, b);
            self.emit(MdBlock::Heading(2, spans_of_chars(v.as_slice())));
        } else if range_has_prefix(line, a, b, "# ") {
            proof {
                reveal_strlit("# ");
                assert(t.subrange(2, t.len() as int) =~= line@.subrange(a + 2, b as int));
            }
            let v = vec_of_range(line, a + 2, b);
            self.emit(MdBlock::Heading(1, spans_of_chars(v.as_slice())));
        } else if range_has_prefix(line, a, b, "- ") || range_has_prefix(line, a, b, "* ") {
            proof {
                reveal_strlit("- ");
                reveal_strlit("* ");
                assert(t.subrange(2, t.len() as int) =~= line@.subrange(a + 2, b as int));
            }
            let v = vec_of_range(line, a + 2, b);
            self.emit(MdBlock::BulletItem(spans_of_chars(v.as_slice())));
        } else {
            if !self.para.as_str().is_empty() {
                push_char(&mut self.para, ' ');
            }
            let ts = string_of_range(line, a, b);
            push_str(&mut self.para, ts.as_str());
        }
    }
}

/// Parse multi-line markdown text into block-level elements.
pub fn parse_markdown(text: &str) -> (r: Vec<MdBlock>)
    ensures
        md_view(r@) == markdown(text@),
{
    let chars = chars_of(text);
    let s = chars.as_slice();
    let mut st = MdParser { out: Vec::new(), in_code: false, code: String::new(), para: String::new() };
    assert(md_view(st.out@) =~= seq![]);
    let mut i: usize = 0;
    while i < s.len()
        invariant
            i <= s@.len(),
            s@ == text@,
            md_fold(md_init(), lines(s@)) == md_fold(st@, lines_from(s@, i as int)),
        decreases s.len() - i,
    {
        let (lo, hi, next) = next_line(s, i);
        let line = vec_of_range(s, lo, hi);
        let ghost ls = lines_from(s@, i as int);
        assert(ls.drop_first() =~= lines_from(s@, next as int));
        st.step(line.as_slice());
        i = next;
    }
    assert(lines_from(s@, i as int) =~= Seq::<Seq<char>>::empty());
    st.flush_para();
    st.out
}

} // verus!
