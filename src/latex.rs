//! LaTeX back end: escaping, inline and block markup, and the document.
use vstd::prelude::*;
use crate::blocks::{Block, Node, blocks_view, rows_view};
use crate::inline::{MdSpan, Span, spans_view};
use crate::markdown::{MdBlock, MdNode, md_view, markdown, parse_markdown};
use crate::model::{lower_of, lowercase};
use crate::text::{chars_of, push_char, push_str};

verus! {

/// The LaTeX text that stands for one character.
pub open spec fn escape_char(c: char) -> Seq<char> {
    match c {
        '\\' => "\\textbackslash{}"@,
        '&' => "\\&"@,
        '%' => "\\%"@,
        '$' => "\\$"@,
        '#' => "\\#"@,
        '_' => "\\_"@,
        '{' => "\\{"@,
        '}' => "\\}"@,
        '~' => "\\textasciitilde{}"@,
        '^' => "\\textasciicircum{}"@,
        '\u{2013}' => "--"@,
        '\u{2014}' => "---"@,
        '\u{2018}' => "`"@,
        '\u{2019}' => "'"@,
        '\u{201C}' => "``"@,
        '\u{201D}' => "''"@,
        '\u{20AC}' => "\\texteuro{}"@,
        '\u{00A3}' => "\\textsterling{}"@,
        '\u{00A9}' => "\\textcopyright{}"@,
        '\u{00AE}' => "\\textregistered{}"@,
        '\u{2122}' => "\\texttrademark{}"@,
        '\u{00B0}' => "\\textdegree{}"@,
        '\u{00D7}' => "$\\times$"@,
        '\u{00F7}' => "$\\div$"@,
        '\u{2264}' => "$\\leq$"@,
        '\u{2265}' => "$\\geq$"@,
        '\u{2248}' => "$\\approx$"@,
        '\u{2260}' => "$\\neq$"@,
        '\u{2192}' => "$\\rightarrow$"@,
        '\u{2190}' => "$\\leftarrow$"@,
        '\u{2022}' => "\\textbullet{}"@,
        '\u{2026}' => "\\ldots{}"@,
        '\u{00AB}' => "\\guillemotleft{}"@,
        '\u{00BB}' => "\\guillemotright{}"@,
        _ => seq![c],
    }
}

/// `s` with every character special to LaTeX replaced by its escape.
pub open spec fn escape(s: Seq<char>) -> Seq<char>
    decreases s.len(),
{
    if s.len() == 0 {
        seq![]
    } else {
        escape(s.drop_last()) + escape_char(s.last())
    }
}

fn push_escaped_char(out: &mut String, c: char)
    ensures
        final(out)@ == old(out)@ + escape_char(c),
{
    match c {
            '\\' => push_str(out, "\\textbackslash{}"),
            '&' => push_str(out, "\\&"),
            '%' => push_str(out, "\\%"),
            '$' => push_str(out, "\\$"),
            '#' => push_str(out, "\\#"),
            '_' => push_str(out, "\\_"),
            '{' => push_str(out, "\\{"),
            '}' => push_str(out, "\\}"),
            '~' => push_str(out, "\\textasciitilde{}"),
            '^' => push_str(out, "\\textasciicircum{}"),
            '\u{2013}' => push_str(out, "--"),
            '\u{2014}' => push_str(out, "---"),
            '\u{2018}' => push_str(out, "`"),
            '\u{2019}' => push_str(out, "'"),
            '\u{201C}' => push_str(out, "``"),
            '\u{201D}' => push_str(out, "''"),
            '\u{20AC}' => push_str(out, "\\texteuro{}"),
            '\u{00A3}' => push_str(out, "\\textsterling{}"),
            '\u{00A9}' => push_str(out, "\\textcopyright{}"),
            '\u{00AE}' => push_str(out, "\\textregistered{}"),
            '\u{2122}' => push_str(out, "\\texttrademark{}"),
            '\u{00B0}' => push_str(out, "\\textdegree{}"),
            '\u{00D7}' => push_str(out, "$\\times$"),
            '\u{00F7}' => push_str(out, "$\\div$"),
            '\u{2264}' => push_str(out, "$\\leq$"),
            '\u{2265}' => push_str(out, "$\\geq$"),
            '\u{2248}' => push_str(out, "$\\approx$"),
            '\u{2260}' => push_str(out, "$\\neq$"),
            '\u{2192}' => push_str(out, "$\\rightarrow$"),
            '\u{2190}' => push_str(out, "$\\leftarrow$"),
            '\u{2022}' => push_str(out, "\\textbullet{}"),
            '\u{2026}' => push_str(out, "\\ldots{}"),
            '\u{00AB}' => push_str(out, "\\guillemotleft{}"),
            '\u{00BB}' => push_str(out, "\\guillemotright{}"),
            _ => push_char(out, c),
    }
}

/// Appends `t` escaped for LaTeX.
fn push_escaped(out: &mut String, t: &str)
    ensures
        final(out)@ == old(out)@ + escape(t@),
{
    let cs = chars_of(t);
    let ghost start = out@;
    let mut i: usize = 0;
    while i < cs.len()
        invariant
            i <= cs@.len(),
            cs@ == t@,
            out@ == start + escape(cs@.subrange(0, i as int)),
        decreases cs.len() - i,
    {
        push_escaped_char(out, cs[i]);
        assert(cs@.subrange(0, i + 1).drop_last() =~= cs@.subrange(0, i as int));
        i = i + 1;
    }
    assert(cs@.subrange(0, i as int) =~= cs@);
}

/// Escape characters that are special in LaTeX.
pub fn latex_escape(text: &str) -> (r: String)
    ensures
        r@ == escape(text@),
{
    let mut out = String::new();
    push_escaped(&mut out, text);
    out
}

/// The xcolor name for a severity label already in lower case.
pub open spec fn color_of_lower(l: Seq<char>) -> Seq<char> {
    if l == "critical"@ {
        "SevCritical"@
    } else if l == "high"@ {
        "SevHigh"@
    } else if l == "medium"@ {
        "SevMedium"@
    } else if l == "low"@ {
        "SevLow"@
    } else if l == "info"@ {
        "SevInfo"@
    } else {
        "black"@
    }
}

/// The xcolor name for a severity label already in lower case.
pub fn color_for_lowercase(l: &str) -> (r: &'static str)
    ensures
        r@ == color_of_lower(l@),
{
    let cs = chars_of(l);
    if crate::text::eq_str(cs.as_slice(), "critical") {
        "SevCritical"
    } else if crate::text::eq_str(cs.as_slice(), "high") {
        "SevHigh"
    } else if crate::text::eq_str(cs.as_slice(), "medium") {
        "SevMedium"
    } else if crate::text::eq_str(cs.as_slice(), "low") {
        "SevLow"
    } else if crate::text::eq_str(cs.as_slice(), "info") {
        "SevInfo"
    } else {
        "black"
    }
}

/// Convert a severity label, in any case, to a LaTeX xcolor name.
pub fn severity_latex_color(sev: &str) -> (r: &'static str)
    ensures
        r@ == color_of_lower(lower_of(sev@)),
{
    let l = lowercase(sev);
    color_for_lowercase(l.as_str())
}

/// LaTeX for one inline span.
pub open spec fn span_latex(sp: Span) -> Seq<char> {
    match sp {
        Span::Plain(t) => escape(t),
        Span::Bold(t) => "\\textbf{"@ + escape(t) + "}"@,
        Span::Italic(t) => "\\textit{"@ + escape(t) + "}"@,
        Span::BoldItalic(t) => "\\textbf{\\textit{"@ + escape(t) + "}}"@,
        Span::Code(t) => "\\code{"@ + escape(t) + "}"@,
        Span::Link(d, u) => "\\href{"@ + escape(u) + "}{"@ + escape(d) + "}"@,
        Span::Image(a, p) => "\n\n\\begin{center}\n\\IfFileExists{"@ + p + "}{"@
            + "\\includegraphics[width=0.9\\linewidth]{"@ + p + "}\\\\[2mm]\n"@
            + (if a.len() > 0 { "{\\small\\color{CorpGray}\\textit{"@ + escape(a) + "}}\n"@ } else { seq![] })
            + "}{}"@ + "\\end{center}\n\n"@,
    }
}

/// LaTeX for a span sequence.
pub open spec fn spans_latex(v: Seq<Span>) -> Seq<char>
    decreases v.len(),
{
    if v.len() == 0 {
        seq![]
    } else {
        spans_latex(v.drop_last()) + span_latex(v.last())
    }
}

fn push_span_latex(out: &mut String, sp: &MdSpan)
    ensures
        final(out)@ == old(out)@ + span_latex(sp@),
{
    let ghost start = out@;
    match sp {
        MdSpan::Plain(t) => push_escaped(out, t.as_str()),
        MdSpan::Bold(t) => {
            push_str(out, "\\textbf{");
            push_escaped(out, t.as_str());
            push_str(out, "}");
        },
        MdSpan::Italic(t) => {
            push_str(out, "\\textit{");
            push_escaped(out, t.as_str());
            push_str(out, "}");
        },
        MdSpan::BoldItalic(t) => {
            push_str(out, "\\textbf{\\textit{");
            push_escaped(out, t.as_str());
            push_str(out, "}}");
        },
        MdSpan::Code(t) => {
            push_str(out, "\\code{");
            push_escaped(out, t.as_str());
            push_str(out, "}");
        },
        MdSpan::Link(d, u) => {
            push_str(out, "\\href{");
            push_escaped(out, u.as_str());
            push_str(out, "}{");
            push_escaped(out, d.as_str());
            push_str(out, "}");
        },
        MdSpan::Image(a, p) => {
            push_str(out, "\n\n\\begin{center}\n\\IfFileExists{");
            push_str(out, p.as_str());
            push_str(out, "}{");
            push_str(out, "\\includegraphics[width=0.9\\linewidth]{");
            push_str(out, p.as_str());
            push_str(out, "}\\\\[2mm]\n");
            let ghost mid = out@;
            if !a.as_str().is_empty() {
                push_str(out, "{\\small\\color{CorpGray}\\textit{");
                push_escaped(out, a.as_str());
                push_str(out, "}}\n");
            }
            push_str(out, "}{}");
            push_str(out, "\\end{center}\n\n");
        },
    }
    assert(out@ =~= start + span_latex(sp@));
}

/// Render spans to LaTeX inline markup.
pub fn spans_to_latex(spans: &[MdSpan]) -> (r: String)
    ensures
        r@ == spans_latex(spans_view(spans@)),
{
    let mut out = String::new();
    let mut k: usize = 0;
    while k < spans.len()
        invariant
            k <= spans@.len(),
            out@ == spans_latex(spans_view(spans@.subrange(0, k as int))),
        decreases spans.len() - k,
    {
        push_span_latex(&mut out, &spans[k]);
        assert(spans_view(spans@.subrange(0, k + 1)).drop_last() =~= spans_view(spans@.subrange(0, k as int)));
        k = k + 1;
    }
    assert(spans@.subrange(0, k as int) =~= spans@);
    out
}

/// The heading command for a markdown heading level.
pub open spec fn heading_cmd(level: u8) -> Seq<char> {
    if level == 1 {
        "subsection*"@
    } else if level == 2 {
        "subsubsection*"@
    } else {
        "paragraph*"@
    }
}

/// `\end{itemize}` if a list is open.
pub open spec fn close_list(open: bool) -> Seq<char> {
    if open { "\\end{itemize}\n"@ } else { seq![] }
}

/// LaTeX text and whether a list is open after rendering `v`.
pub open spec fn md_latex_state(v: Seq<MdNode>) -> (Seq<char>, bool)
    decreases v.len(),
{
    if v.len() == 0 {
        (seq![], false)
    } else {
        let (out, open) = md_latex_state(v.drop_last());
        match v.last() {
            MdNode::Paragraph(sp) => (out + close_list(open) + spans_latex(sp) + "\n\n"@, false),
            MdNode::Heading(l, sp) => (
                out + close_list(open) + "\\"@ + heading_cmd(l) + "{"@ + spans_latex(sp) + "}\n\n"@,
                false,
            ),
            MdNode::BulletItem(sp) => (
                out + (if open { seq![] } else { "\\begin{itemize}\n"@ }) + "  \\item "@ + spans_latex(sp) + "\n"@,
                true,
            ),
            MdNode::CodeBlock(c) => (
                out + close_list(open) + "\\begin{lstlisting}\n"@ + c + "\n\\end{lstlisting}\n\n"@,
                false,
            ),
        }
    }
}

/// LaTeX for a sequence of markdown blocks; consecutive bullet items share one list.
pub open spec fn md_latex(v: Seq<MdNode>) -> Seq<char> {
    md_latex_state(v).0 + close_list(md_latex_state(v).1)
}

fn push_md_block(out: &mut String, open: bool, b: &MdBlock) -> (r: bool)
    ensures
        (final(out)@, r) == ({
            match b@ {
                MdNode::BulletItem(sp) => (
                    old(out)@ + (if open { seq![] } else { "\\begin{itemize}\n"@ }) + "  \\item "@ + spans_latex(sp) + "\n"@,
                    true,
                ),
                MdNode::Paragraph(sp) => (old(out)@ + close_list(open) + spans_latex(sp) + "\n\n"@, false),
                MdNode::Heading(l, sp) => (
                    old(out)@ + close_list(open) + "\\"@ + heading_cmd(l) + "{"@ + spans_latex(sp) + "}\n\n"@,
                    false,
                ),
                MdNode::CodeBlock(c) => (
                    old(out)@ + close_list(open) + "\\begin{lstlisting}\n"@ + c + "\n\\end{lstlisting}\n\n"@,
                    false,
                ),
            }
        }),
{
    let ghost start = out@;
    match b {
        MdBlock::BulletItem(spans) => {
            if !open {
                push_str(out, "\\begin{itemize}\n");
            }
            push_str(out, "  \\item ");
            let t = spans_to_latex(spans.as_slice());
            push_str(out, t.as_str());
            push_str(out, "\n");
            assert(out@ =~= start + (if open { seq![] } else { "\\begin{itemize}\n"@ }) + "  \\item "@
                + spans_latex(spans_view(spans@)) + "\n"@);
            true
        },
        MdBlock::Paragraph(spans) => {
            if open {
                push_str(out, "\\end{itemize}\n");
            }
            let t = spans_to_latex(spans.as_slice());
            push_str(out, t.as_str());
            push_str(out, "\n\n");
            assert(out@ =~= start + close_list(open) + spans_latex(spans_view(spans@)) + "\n\n"@);
            false
        },
        MdBlock::Heading(level, spans) => {
            if open {
                push_str(out, "\\end{itemize}\n");
            }
            push_str(out, "\\");
            if *level == 1 {
                push_str(out, "subsection*");
            } else if *level == 2 {
                push_str(out, "subsubsection*");
            } else {
                push_str(out, "paragraph*");
            }
            push_str(out, "{");
            let t = spans_to_latex(spans.as_slice());
            push_str(out, t.as_str());
            push_str(out, "}\n\n");
            assert(out@ =~= start + close_list(open) + "\\"@ + heading_cmd(*level) + "{"@ + spans_latex(
                spans_view(spans@),
            ) + "}\n\n"@);
            false
        },
        MdBlock::CodeBlock(code) => {
            if open {
                push_str(out, "\\end{itemize}\n");
            }
            push_str(out, "\\begin{lstlisting}\n");
            push_str(out, code.as_str());
            push_str(out, "\n\\end{lstlisting}\n\n");
            assert(out@ =~= start + close_list(open) + "\\begin{lstlisting}\n"@ + code@ + "\n\\end{lstlisting}\n\n"@);
            false
        },
    }
}

/// LaTeX for parsed markdown blocks.
pub fn md_blocks_to_latex(blocks: &[MdBlock]) -> (r: String)
    ensures
        r@ == md_latex(md_view(blocks@)),
{
    let mut out = String::new();
    let mut open = false;
    let mut k: usize = 0;
    while k < blocks.len()
        invariant
            k <= blocks@.len(),
            (out@, open) == md_latex_state(md_view(blocks@.subrange(0, k as int))),
        decreases blocks.len() - k,
    {
        let ghost pre = md_view(blocks@.subrange(0, k as int));
        let ghost cur = md_view(blocks@.subrange(0, k + 1));
        assert(cur.drop_last() =~= pre);
        assert(cur.last() == blocks@[k as int]@);
        open = push_md_block(&mut out, open, &blocks[k]);
        k = k + 1;
    }
    assert(blocks@.subrange(0, k as int) =~= blocks@);
    if open {
        push_str(&mut out, "\\end{itemize}\n");
    }
    out
}

/// Render markdown text to LaTeX markup.
pub fn md_to_latex(text: &str) -> (r: String)
    ensures
        r@ == md_latex(markdown(text@)),
{
    let blocks = parse_markdown(text);
    md_blocks_to_latex(blocks.as_slice())
}

/// The preamble text before the escaped asset name.
pub open spec fn preamble_head() -> Seq<char> {
    r#"\documentclass[11pt,a4paper]{article}

% ── geometry ──
\usepackage[top=25mm,bottom=30mm,left=25mm,right=25mm]{geometry}

% ── encoding & fonts ──
\usepackage[utf8]{inputenc}
\usepackage[T1]{fontenc}
\usepackage[scaled=0.92]{helvet}
\usepackage{courier}
\usepackage{microtype}
\renewcommand{\familydefault}{\sfdefault}

% ── packages ──
\usepackage{xcolor}
\usepackage{hyperref}
\usepackage{booktabs}
\usepackage{tabularx}
\usepackage{listings}
\usepackage{parskip}
\usepackage{fancyhdr}
\usepackage{graphicx}
\usepackage{etoolbox}
\usepackage{colortbl}
\usepackage{textcomp}

% ── corporate colours ──
\definecolor{CorpDark}{HTML}{1E293B}
\definecolor{CorpAccent}{HTML}{334155}
\definecolor{CorpRule}{HTML}{CBD5E1}
\definecolor{CorpGray}{HTML}{64748B}
\definecolor{CodeBg}{HTML}{F1F5F9}

% ── severity colours ──
\definecolor{SevCritical}{HTML}{991B1B}
\definecolor{SevHigh}{HTML}{C2410C}
\definecolor{SevMedium}{HTML}{B45309}
\definecolor{SevLow}{HTML}{15803D}
\definecolor{SevInfo}{HTML}{1D4ED8}

% ── hyperlinks ──
\hypersetup{
  colorlinks=true,
  linkcolor=CorpDark,
  urlcolor=SevInfo,
  bookmarks=true,
  bookmarksnumbered=true,
}

% ── listings (code blocks) ──
\lstset{
  basicstyle=\small\ttfamily,
  backgroundcolor=\color{CodeBg},
  frame=single,
  rulecolor=\color{CorpRule},
  framerule=0.4pt,
  breaklines=true,
  breakatwhitespace=false,
  postbreak=\mbox{\textcolor{CorpGray}{$\hookrightarrow$}\space},
  xleftmargin=6mm,
  xrightmargin=6mm,
  aboveskip=8pt,
  belowskip=8pt,
}

% ── section styling ──
\makeatletter
\renewcommand{\section}{%
  \@startsection{section}{1}{0pt}{-2ex plus -1ex minus -0.2ex}{1.2ex plus 0.2ex}{%
    \large\bfseries\color{CorpDark}}}
\makeatother

% ── TOC styling ──
\setcounter{tocdepth}{1}
\setcounter{secnumdepth}{2}
\makeatletter
\renewcommand{\l@section}[2]{%
  \addpenalty{-\@highpenalty}%
  \vskip 8pt plus 2pt
  \setlength\@tempdima{2em}%
  \begingroup
    \parindent\z@ \rightskip\@tocrmarg
    \parfillskip -\rightskip
    \leavevmode\large\bfseries\color{CorpDark}
    #1\nobreak
    \leaders\hbox{$\m@th\mkern 4mu\cdot\mkern 4mu$}\hfill
    \nobreak\hb@xt@\@pnumwidth{\hss #2}%
    \par
  \endgroup
  \penalty\@highpenalty}
\renewcommand{\l@subsection}[2]{%
  \vskip 2pt
  \setlength\@tempdima{3em}%
  \begingroup
    \parindent 1.5em \rightskip\@tocrmarg
    \parfillskip -\rightskip
    \leavevmode\normalsize\color{CorpAccent}
    #1\nobreak
    \leaders\hbox{$\m@th\mkern 4mu\cdot\mkern 4mu$}\hfill
    \nobreak\hb@xt@\@pnumwidth{\hss #2}%
    \par
  \endgroup}
\makeatother

% ── breakable inline code ──
\makeatletter
\newcommand{\code}[1]{{%
  \ttfamily\hyphenpenalty=10000\exhyphenpenalty=10000
  \@code@loop#1\@nil
}}
\def\@code@loop{\@ifnextchar\@nil{\@gobble}{\@code@char}}
\def\@code@char#1{#1\discretionary{}{}{}\@code@loop}
\makeatother

% ── headers / footers ──
\pagestyle{fancy}
\fancyhf{}
\renewcommand{\headrulewidth}{0.4pt}
\renewcommand{\headrule}{\hbox to\headwidth{\color{CorpRule}\leaders\hrule height \headrulewidth\hfill}}
\fancyhead[L]{\small\color{CorpGray}\textit{Security Assessment Report -- "#@
}

/// The preamble text after the escaped asset name.
pub open spec fn preamble_tail() -> Seq<char> {
    r#"}}
\fancyhead[R]{\small\color{CorpGray}\thepage}
\fancyfoot[C]{}
\renewcommand{\footrulewidth}{0pt}
"#@
}

/// The LaTeX preamble: document class, packages, colours and page style, with
/// the asset name in the running header.
pub fn latex_preamble(asset: &str) -> (r: String)
    ensures
        r@ == preamble_head() + escape(asset@) + preamble_tail(),
{
    let mut out = String::new();
    push_str(&mut out, r#"\documentclass[11pt,a4paper]{article}

% ── geometry ──
\usepackage[top=25mm,bottom=30mm,left=25mm,right=25mm]{geometry}

% ── encoding & fonts ──
\usepackage[utf8]{inputenc}
\usepackage[T1]{fontenc}
\usepackage[scaled=0.92]{helvet}
\usepackage{courier}
\usepackage{microtype}
\renewcommand{\familydefault}{\sfdefault}

% ── packages ──
\usepackage{xcolor}
\usepackage{hyperref}
\usepackage{booktabs}
\usepackage{tabularx}
\usepackage{listings}
\usepackage{parskip}
\usepackage{fancyhdr}
\usepackage{graphicx}
\usepackage{etoolbox}
\usepackage{colortbl}
\usepackage{textcomp}

% ── corporate colours ──
\definecolor{CorpDark}{HTML}{1E293B}
\definecolor{CorpAccent}{HTML}{334155}
\definecolor{CorpRule}{HTML}{CBD5E1}
\definecolor{CorpGray}{HTML}{64748B}
\definecolor{CodeBg}{HTML}{F1F5F9}

% ── severity colours ──
\definecolor{SevCritical}{HTML}{991B1B}
\definecolor{SevHigh}{HTML}{C2410C}
\definecolor{SevMedium}{HTML}{B45309}
\definecolor{SevLow}{HTML}{15803D}
\definecolor{SevInfo}{HTML}{1D4ED8}

% ── hyperlinks ──
\hypersetup{
  colorlinks=true,
  linkcolor=CorpDark,
  urlcolor=SevInfo,
  bookmarks=true,
  bookmarksnumbered=true,
}

% ── listings (code blocks) ──
\lstset{
  basicstyle=\small\ttfamily,
  backgroundcolor=\color{CodeBg},
  frame=single,
  rulecolor=\color{CorpRule},
  framerule=0.4pt,
  breaklines=true,
  breakatwhitespace=false,
  postbreak=\mbox{\textcolor{CorpGray}{$\hookrightarrow$}\space},
  xleftmargin=6mm,
  xrightmargin=6mm,
  aboveskip=8pt,
  belowskip=8pt,
}

% ── section styling ──
\makeatletter
\renewcommand{\section}{%
  \@startsection{section}{1}{0pt}{-2ex plus -1ex minus -0.2ex}{1.2ex plus 0.2ex}{%
    \large\bfseries\color{CorpDark}}}
\makeatother

% ── TOC styling ──
\setcounter{tocdepth}{1}
\setcounter{secnumdepth}{2}
\makeatletter
\renewcommand{\l@section}[2]{%
  \addpenalty{-\@highpenalty}%
  \vskip 8pt plus 2pt
  \setlength\@tempdima{2em}%
  \begingroup
    \parindent\z@ \rightskip\@tocrmarg
    \parfillskip -\rightskip
    \leavevmode\large\bfseries\color{CorpDark}
    #1\nobreak
    \leaders\hbox{$\m@th\mkern 4mu\cdot\mkern 4mu$}\hfill
    \nobreak\hb@xt@\@pnumwidth{\hss #2}%
    \par
  \endgroup
  \penalty\@highpenalty}
\renewcommand{\l@subsection}[2]{%
  \vskip 2pt
  \setlength\@tempdima{3em}%
  \begingroup
    \parindent 1.5em \rightskip\@tocrmarg
    \parfillskip -\rightskip
    \leavevmode\normalsize\color{CorpAccent}
    #1\nobreak
    \leaders\hbox{$\m@th\mkern 4mu\cdot\mkern 4mu$}\hfill
    \nobreak\hb@xt@\@pnumwidth{\hss #2}%
    \par
  \endgroup}
\makeatother

% ── breakable inline code ──
\makeatletter
\newcommand{\code}[1]{{%
  \ttfamily\hyphenpenalty=10000\exhyphenpenalty=10000
  \@code@loop#1\@nil
}}
\def\@code@loop{\@ifnextchar\@nil{\@gobble}{\@code@char}}
\def\@code@char#1{#1\discretionary{}{}{}\@code@loop}
\makeatother

% ── headers / footers ──
\pagestyle{fancy}
\fancyhf{}
\renewcommand{\headrulewidth}{0.4pt}
\renewcommand{\headrule}{\hbox to\headwidth{\color{CorpRule}\leaders\hrule height \headrulewidth\hfill}}
\fancyhead[L]{\small\color{CorpGray}\textit{Security Assessment Report -- "#);
    push_escaped(&mut out, asset);
    push_str(&mut out, r#"}}
\fancyhead[R]{\small\color{CorpGray}\thepage}
\fancyfoot[C]{}
\renewcommand{\footrulewidth}{0pt}
"#);
    out
}

/// The decimal digit for `d < 10`.
pub open spec fn digit_char(d: nat) -> char {
    seq!['0', '1', '2', '3', '4', '5', '6', '7', '8', '9'][d as int]
}

/// Decimal notation of `n`, without leading zeros.
pub open spec fn decimal(n: nat) -> Seq<char>
    decreases n,
{
    if n < 10 {
        seq![digit_char(n)]
    } else {
        decimal(n / 10).push(digit_char(n % 10))
    }
}

fn digit_of(d: u64) -> (r: char)
    requires
        d < 10,
    ensures
        r == digit_char(d as nat),
{
    let ds = ['0', '1', '2', '3', '4', '5', '6', '7', '8', '9'];
    assert(ds@ == seq!['0', '1', '2', '3', '4', '5', '6', '7', '8', '9']);
    ds[d as usize]
}

/// Appends the decimal notation of `n`.
pub fn push_decimal(out: &mut String, n: u64)
    ensures
        final(out)@ == old(out)@ + decimal(n as nat),
    decreases n,
{
    if n >= 10 {
        push_decimal(out, n / 10);
    }
    push_char(out, digit_of(n % 10));
    assert(out@ =~= old(out)@ + decimal(n as nat));
}

/// A length in hundredths of a millimetre as a millimetre figure: `4`, `2.5`, `0.75`.
pub open spec fn mm_text(h: nat) -> Seq<char> {
    let whole = decimal(h / 100);
    let f = h % 100;
    if f == 0 {
        whole
    } else if f % 10 == 0 {
        whole + seq!['.', digit_char(f / 10)]
    } else {
        whole + seq!['.', digit_char(f / 10), digit_char(f % 10)]
    }
}

fn push_mm(out: &mut String, h: u64)
    ensures
        final(out)@ == old(out)@ + mm_text(h as nat),
{
    let ghost start = out@;
    push_decimal(out, h / 100);
    let f = h % 100;
    if f != 0 {
        push_char(out, '.');
        push_char(out, digit_of(f / 10));
        if f % 10 != 0 {
            push_char(out, digit_of(f % 10));
        }
    }
    assert(out@ =~= start + mm_text(h as nat));
}

/// Column layout of a table with `n` columns: a fixed first column and
/// expanding ones after it.
pub open spec fn col_spec(n: nat) -> Seq<char>
    decreases n,
{
    if n <= 2 {
        "l X"@
    } else {
        col_spec((n - 1) as nat) + " X"@
    }
}

/// A header cell.
pub open spec fn header_cell(c: Seq<char>) -> Seq<char> {
    "\\textbf{\\color{CorpDark}"@ + escape(c) + "}"@
}

/// Cells joined by ` & `, header cells bold.
pub open spec fn joined_cells(cells: Seq<Seq<char>>, header: bool) -> Seq<char>
    decreases cells.len(),
{
    if cells.len() == 0 {
        seq![]
    } else {
        let last = if header { header_cell(cells.last()) } else { escape(cells.last()) };
        if cells.len() == 1 {
            last
        } else {
            joined_cells(cells.drop_last(), header) + " & "@ + last
        }
    }
}

/// The data rows of a table, from its second row on, every second one tinted.
pub open spec fn data_rows(rows: Seq<Seq<Seq<char>>>, upto: int) -> Seq<char>
    decreases upto,
{
    if upto <= 1 {
        seq![]
    } else {
        let idx = upto - 2;
        data_rows(rows, upto - 1) + (if idx % 2 == 1 { "\\rowcolor{CodeBg}\n"@ } else { seq![] })
            + joined_cells(rows[upto - 1], false) + " \\\\\n"@
    }
}

/// LaTeX for a non-empty table.
pub open spec fn table_latex(rows: Seq<Seq<Seq<char>>>) -> Seq<char> {
    "{\\renewcommand{\\arraystretch}{1.35}\n"@ + "\\noindent\n\\begin{tabularx}{\\textwidth}{"@
        + col_spec(rows[0].len()) + "}\n\\toprule\n"@ + "\\rowcolor{CorpRule!30}\n"@
        + joined_cells(rows[0], true) + " \\\\\n\\midrule\n"@ + data_rows(rows, rows.len() as int)
        + "\\bottomrule\n\\end{tabularx}\n}\n\\vspace{4mm}\n\n"@
}

fn push_cells(out: &mut String, cells: &Vec<String>, header: bool)
    ensures
        final(out)@ == old(out)@ + joined_cells(crate::blocks::row_view(cells@), header),
{
    let ghost start = out@;
    let mut k: usize = 0;
    while k < cells.len()
        invariant
            k <= cells@.len(),
            out@ == start + joined_cells(crate::blocks::row_view(cells@.subrange(0, k as int)), header),
        decreases cells.len() - k,
    {
        let ghost pre = crate::blocks::row_view(cells@.subrange(0, k as int));
        let ghost cur = crate::blocks::row_view(cells@.subrange(0, k + 1));
        assert(cur.drop_last() =~= pre);
        if k > 0 {
            push_str(out, " & ");
        }
        if header {
            push_str(out, "\\textbf{\\color{CorpDark}");
            push_escaped(out, cells[k].as_str());
            push_str(out, "}");
        } else {
            push_escaped(out, cells[k].as_str());
        }
        assert(k == 0 ==> pre =~= Seq::<Seq<char>>::empty());
        assert(out@ =~= start + joined_cells(cur, header));
        k = k + 1;
    }
    assert(cells@.subrange(0, k as int) =~= cells@);
}

fn push_table(out: &mut String, rows: &Vec<Vec<String>>)
    requires
        rows@.len() > 0,
    ensures
        final(out)@ == old(out)@ + table_latex(rows_view(rows@)),
{
    let ghost start = out@;
    let ghost rv = rows_view(rows@);
    let ncols = rows[0].len();
    push_str(out, "{\\renewcommand{\\arraystretch}{1.35}\n");
    push_str(out, "\\noindent\n\\begin{tabularx}{\\textwidth}{");
    let ghost before_spec = out@;
    push_str(out, "l X");
    let mut c: usize = 2;
    while c < ncols
        invariant
            2 <= c,
            c <= ncols || c == 2,
            out@ == before_spec + col_spec(c as nat),
        decreases ncols - c,
    {
        push_str(out, " X");
        c = c + 1;
    }
    if ncols <= 2 {
        assert(col_spec(ncols as nat) == "l X"@);
        assert(col_spec(c as nat) == "l X"@);
    }
    push_str(out, "}\n\\toprule\n");
    push_str(out, "\\rowcolor{CorpRule!30}\n");
    push_cells(out, &rows[0], true);
    push_str(out, " \\\\\n\\midrule\n");
    let ghost before_rows = out@;
    let mut k: usize = 1;
    while k < rows.len()
        invariant
            1 <= k <= rows@.len(),
            rv == rows_view(rows@),
            out@ == before_rows + data_rows(rv, k as int),
        decreases rows.len() - k,
    {
        if (k - 1) % 2 == 1 {
            push_str(out, "\\rowcolor{CodeBg}\n");
        }
        push_cells(out, &rows[k], false);
        push_str(out, " \\\\\n");
        assert(out@ =~= before_rows + data_rows(rv, k + 1));
        k = k + 1;
    }
    push_str(out, "\\bottomrule\n\\end{tabularx}\n}\n\\vspace{4mm}\n\n");
    assert(out@ =~= start + table_latex(rv));
}

pub open spec fn title_latex(t: Seq<char>) -> Seq<char> {
    "\\thispagestyle{empty}\n\\vspace*{40mm}\n\\begin{center}\n{\\color{CorpDark}\\rule{0.6\\textwidth}{2pt}}\\\\[6mm]\n{\\Huge\\bfseries\\color{CorpDark} "@
        + escape(t)
        + "}\\\\[6mm]\n{\\color{CorpDark}\\rule{0.6\\textwidth}{2pt}}\n\\end{center}\n\\vspace{10mm}\n\n"@
}

pub open spec fn subtitle_latex(t: Seq<char>) -> Seq<char> {
    "\\begin{center}\n{\\Large\\color{CorpGray} "@ + escape(t) + "}\n\\end{center}\n\\vspace{4mm}\n\n"@
}

/// The finding card, coloured `c`, with its line in the table of contents.
pub open spec fn finding_latex(c: Seq<char>, sev: Seq<char>, heading: Seq<char>) -> Seq<char> {
    "\\phantomsection\\addcontentsline{toc}{subsection}{"@ + escape(heading) + "}\n"@ + "\\noindent\\colorbox{"@ + c + "!10}{\\parbox{\\dimexpr\\textwidth-2\\fboxsep}{%\n\\large\\bfseries\\color{CorpDark} "@
        + escape(heading) + "\n\\hfill {\\normalsize\\colorbox{"@ + c + "}{\\color{white}\\textbf{\\,"@
        + escape(sev) + "\\,}}}\n}}\n\\vspace{0.5mm}\n{\\noindent\\color{"@ + c
        + "}\\rule{\\textwidth}{1.5pt}}\n\\nopagebreak\n\\vspace{1mm}\n\n"@
}

pub open spec fn meta_latex(k: Seq<char>, v: Seq<char>) -> Seq<char> {
    "\\noindent{\\color{CorpGray}\\textbf{"@ + escape(k) + ":}} "@ + escape(v) + "\\par\\vspace{-0.3\\parskip}\n"@
}

/// What the LaTeX body has seen so far that decides page breaks before findings.
#[derive(Clone, Copy, PartialEq, Eq, Debug, Structural)]
pub struct Flow {
    /// The last block that wrote text was a section heading.
    pub after_section: bool,
    /// A finding has been written.
    pub seen_finding: bool,
}

pub open spec fn start_flow() -> Flow {
    Flow { after_section: false, seen_finding: false }
}

/// A finding starts a new page unless it is the first finding and follows a
/// section heading directly.
pub open spec fn finding_breaks(f: Flow) -> bool {
    f.seen_finding || !f.after_section
}

/// The flow after a block that writes text other than a section or a finding.
pub open spec fn text_flow(f: Flow) -> Flow {
    Flow { after_section: false, seen_finding: f.seen_finding }
}

/// The effect of one block on the LaTeX body and on the flow.
pub open spec fn block_latex_step(body: Seq<char>, after: Flow, b: Node) -> (Seq<char>, Flow) {
    match b {
        Node::Title(t) => (body + title_latex(t), after),
        Node::Subtitle(t) => (body + subtitle_latex(t), after),
        Node::Section(t) => (
            body + "\\section{"@ + escape(t) + "}\n\n"@,
            Flow { after_section: true, seen_finding: after.seen_finding },
        ),
        Node::Finding(sev, h) => (
            body + (if finding_breaks(after) { "\\clearpage\n"@ } else { seq![] }) + finding_latex(
                color_of_lower(lower_of(sev)),
                sev,
                h,
            ),
            Flow { after_section: false, seen_finding: true },
        ),
        Node::Meta(k, val) => (body + meta_latex(k, val), text_flow(after)),
        Node::Table(rows) => if rows.len() == 0 {
            (body, after)
        } else {
            (body + table_latex(rows), after)
        },
        Node::Latex(raw) => (body + raw + "\n\n"@, text_flow(after)),
        Node::Text(t) => (body + md_latex(markdown(t)), text_flow(after)),
        Node::Index => (body + "\\tableofcontents\n\\vspace{6mm}\n\n"@, after),
        Node::Spacer(h) => (body + "\\vspace{"@ + mm_text(h) + "mm}\n\n"@, after),
        Node::PageBreak => (body + "\\clearpage\n\n"@, after),
        Node::HRule => (body + "\\noindent{\\color{CorpRule}\\rule{\\textwidth}{0.4pt}}\n\\vspace{2mm}\n\n"@, after),
    }
}

/// The LaTeX body of a block sequence, and the flow after it.
pub open spec fn body_state(v: Seq<Node>) -> (Seq<char>, Flow)
    decreases v.len(),
{
    if v.len() == 0 {
        (seq![], start_flow())
    } else {
        block_latex_step(body_state(v.drop_last()).0, body_state(v.drop_last()).1, v.last())
    }
}

/// The whole LaTeX document for a block sequence.
pub open spec fn document(v: Seq<Node>, asset: Seq<char>) -> Seq<char> {
    preamble_head() + escape(asset) + preamble_tail() + "\n\\begin{document}\n\n"@ + body_state(v).0
        + "\\end{document}\n"@
}

fn push_block(out: &mut String, after: Flow, b: &Block) -> (r: Flow)
    ensures
        (final(out)@, r) == block_latex_step(old(out)@, after, b@),
{
    let ghost start = out@;
    match b {
        Block::Title(t) => {
            push_str(out, "\\thispagestyle{empty}\n\\vspace*{40mm}\n\\begin{center}\n{\\color{CorpDark}\\rule{0.6\\textwidth}{2pt}}\\\\[6mm]\n{\\Huge\\bfseries\\color{CorpDark} ");
            push_escaped(out, t.as_str());
            push_str(out, "}\\\\[6mm]\n{\\color{CorpDark}\\rule{0.6\\textwidth}{2pt}}\n\\end{center}\n\\vspace{10mm}\n\n");
            assert(out@ =~= start + title_latex(t@));
            after
        },
        Block::Subtitle(t) => {
            push_str(out, "\\begin{center}\n{\\Large\\color{CorpGray} ");
            push_escaped(out, t.as_str());
            push_str(out, "}\n\\end{center}\n\\vspace{4mm}\n\n");
            assert(out@ =~= start + subtitle_latex(t@));
            after
        },
        Block::Section(t) => {
            push_str(out, "\\section{");
            push_escaped(out, t.as_str());
            push_str(out, "}\n\n");
            assert(out@ =~= start + "\\section{"@ + escape(t@) + "}\n\n"@);
            Flow { after_section: true, seen_finding: after.seen_finding }
        },
        Block::Finding(sev, h) => {
            let c = severity_latex_color(sev.as_str());
            let brk = after.seen_finding || !after.after_section;
            if brk {
                push_str(out, "\\clearpage\n");
            }
            let ghost mid = out@;
            push_str(out, "\\phantomsection\\addcontentsline{toc}{subsection}{");
            push_escaped(out, h.as_str());
            push_str(out, "}\n");
            push_str(out, "\\noindent\\colorbox{");
            push_str(out, c);
            push_str(out, "!10}{\\parbox{\\dimexpr\\textwidth-2\\fboxsep}{%\n\\large\\bfseries\\color{CorpDark} ");
            push_escaped(out, h.as_str());
            push_str(out, "\n\\hfill {\\normalsize\\colorbox{");
            push_str(out, c);
            push_str(out, "}{\\color{white}\\textbf{\\,");
            push_escaped(out, sev.as_str());
            push_str(out, "\\,}}}\n}}\n\\vspace{0.5mm}\n{\\noindent\\color{");
            push_str(out, c);
            push_str(out, "}\\rule{\\textwidth}{1.5pt}}\n\\nopagebreak\n\\vspace{1mm}\n\n");
            assert(out@ =~= mid + finding_latex(c@, sev@, h@));
            assert(out@ =~= start + (if brk { "\\clearpage\n"@ } else { seq![] }) + finding_latex(c@, sev@, h@));
            Flow { after_section: false, seen_finding: true }
        },
        Block::Meta(k, v) => {
            push_str(out, "\\noindent{\\color{CorpGray}\\textbf{");
            push_escaped(out, k.as_str());
            push_str(out, ":}} ");
            push_escaped(out, v.as_str());
            push_str(out, "\\par\\vspace{-0.3\\parskip}\n");
            assert(out@ =~= start + meta_latex(k@, v@));
            Flow { after_section: false, seen_finding: after.seen_finding }
        },
        Block::Table(rows) => {
            if rows.len() == 0 {
                return after;
            }
            push_table(out, rows);
            after
        },
        Block::Latex(raw) => {
            push_str(out, raw.as_str());
            push_str(out, "\n\n");
            assert(out@ =~= start + raw@ + "\n\n"@);
            Flow { after_section: false, seen_finding: after.seen_finding }
        },
        Block::Text(t) => {
            let m = md_to_latex(t.as_str());
            push_str(out, m.as_str());
            Flow { after_section: false, seen_finding: after.seen_finding }
        },
        Block::Index => {
            push_str(out, "\\tableofcontents\n\\vspace{6mm}\n\n");
            after
        },
        Block::Spacer(h) => {
            push_str(out, "\\vspace{");
            push_mm(out, *h);
            push_str(out, "mm}\n\n");
            assert(out@ =~= start + "\\vspace{"@ + mm_text(*h as nat) + "mm}\n\n"@);
            after
        },
        Block::PageBreak => {
            push_str(out, "\\clearpage\n\n");
            after
        },
        Block::HRule => {
            push_str(out, "\\noindent{\\color{CorpRule}\\rule{\\textwidth}{0.4pt}}\n\\vspace{2mm}\n\n");
            after
        },
    }
}

proof fn lemma_seen_finding(v: Seq<Node>)
    ensures
        body_state(v).1.seen_finding == (crate::layout::finding_count(v) > 0),
    decreases v.len(),
{
    if v.len() > 0 {
        lemma_seen_finding(v.drop_last());
    }
}

/// Finding pagination in the document: every finding after the first is
/// preceded by a page break, so `n` findings span at least `n` pages; the
/// first finding shares the page of a section heading that directly precedes it.
pub proof fn lemma_latex_finding_pagination(v: Seq<Node>, sev: Seq<char>, heading: Seq<char>)
    ensures
        crate::layout::finding_count(v) > 0 ==> body_state(v.push(Node::Finding(sev, heading))).0 == body_state(v).0
            + "\\clearpage\n"@ + finding_latex(color_of_lower(lower_of(sev)), sev, heading),
        crate::layout::finding_count(v) == 0 && v.len() > 0 && v.last() is Section ==> body_state(
            v.push(Node::Finding(sev, heading)),
        ).0 == body_state(v).0 + finding_latex(color_of_lower(lower_of(sev)), sev, heading),
{
    lemma_seen_finding(v);
    let w = v.push(Node::Finding(sev, heading));
    assert(w.drop_last() =~= v);
    if v.len() > 0 {
        assert(v.drop_last().push(v.last()) =~= v);
        assert(body_state(v) == block_latex_step(body_state(v.drop_last()).0, body_state(v.drop_last()).1, v.last()));
    }
    assert(body_state(v).0 + seq![] =~= body_state(v).0);
}

/// `a` is a prefix of `b`.
pub open spec fn is_prefix(a: Seq<char>, b: Seq<char>) -> bool {
    a.len() <= b.len() && b.subrange(0, a.len() as int) == a
}

/// The card of a finding block; nothing for other blocks.
pub open spec fn finding_card(b: Node) -> Seq<char> {
    match b {
        Node::Finding(sev, h) => finding_latex(color_of_lower(lower_of(sev)), sev, h),
        _ => seq![],
    }
}

proof fn lemma_step_appends(body: Seq<char>, f: Flow, b: Node)
    ensures
        block_latex_step(body, f, b).0 == body + block_latex_step(seq![], f, b).0,
{
    let e = Seq::<char>::empty();
    match b {
        Node::Table(rows) => {
            assert(body =~= body + e);
            assert(body + table_latex(rows) =~= body + (e + table_latex(rows)));
        },
        Node::Finding(sev, h) => {
            let brk = if finding_breaks(f) { "\\clearpage\n"@ } else { seq![] };
            let card = finding_latex(color_of_lower(lower_of(sev)), sev, h);
            assert(body + brk + card =~= body + (e + brk + card));
        },
        Node::Section(t) => {
            assert(body + "\\section{"@ + escape(t) + "}\n\n"@ =~= body + (e + "\\section{"@ + escape(t) + "}\n\n"@));
        },
        Node::Meta(k, val) => {
            assert(body + meta_latex(k, val) =~= body + (e + meta_latex(k, val)));
        },
        Node::Latex(raw) => {
            assert(body + raw + "\n\n"@ =~= body + (e + raw + "\n\n"@));
        },
        Node::Spacer(h) => {
            assert(body + "\\vspace{"@ + mm_text(h) + "mm}\n\n"@ =~= body + (e + "\\vspace{"@ + mm_text(h) + "mm}\n\n"@));
        },
        _ => {
            assert(block_latex_step(body, f, b).0 =~= body + block_latex_step(e, f, b).0);
        },
    }
}

proof fn lemma_body_step(q: Seq<Node>)
    requires
        q.len() > 0,
    ensures
        body_state(q).0 == body_state(q.drop_last()).0 + block_latex_step(
            Seq::<char>::empty(),
            body_state(q.drop_last()).1,
            q.last(),
        ).0,
{
    lemma_step_appends(body_state(q.drop_last()).0, body_state(q.drop_last()).1, q.last());
}

proof fn lemma_prefix_extend(a: Seq<char>, t: Seq<char>, c: Seq<char>)
    requires
        is_prefix(a + t, c),
    ensures
        is_prefix(a, c),
{
    assert(c.subrange(0, a.len() as int) =~= (a + t).subrange(0, a.len() as int));
    assert((a + t).subrange(0, a.len() as int) =~= a);
}

proof fn lemma_body_prefix(v: Seq<Node>, j: int)
    requires
        0 <= j <= v.len(),
    ensures
        is_prefix(body_state(v.subrange(0, j)).0, body_state(v).0),
    decreases v.len() - j,
{
    if j < v.len() {
        lemma_body_prefix(v, j + 1);
        let p = v.subrange(0, j);
        let q = v.subrange(0, j + 1);
        assert(q.drop_last() =~= p);
        lemma_body_step(q);
        let t = block_latex_step(Seq::<char>::empty(), body_state(p).1, q.last()).0;
        assert(body_state(q).0 == body_state(p).0 + t);
        lemma_prefix_extend(body_state(p).0, t, body_state(v).0);
    } else {
        assert(v.subrange(0, j) =~= v);
        assert(body_state(v).0.subrange(0, body_state(v).0.len() as int) =~= body_state(v).0);
    }
}

/// Finding pagination over the whole document: for the block at `j`, a finding
/// with an earlier finding before it, the body up to and including it is the
/// body of the blocks before it, `\clearpage`, and its card; and that text
/// starts the body of the whole document. So the headings of any two successive
/// findings have a page break between them.
pub proof fn lemma_latex_findings_paginated(v: Seq<Node>, j: int)
    requires
        0 <= j < v.len(),
        v[j] is Finding,
        crate::layout::finding_count(v.subrange(0, j)) > 0,
    ensures
        body_state(v.subrange(0, j + 1)).0 == body_state(v.subrange(0, j)).0 + "\\clearpage\n"@ + finding_card(v[j]),
        is_prefix(body_state(v.subrange(0, j + 1)).0, body_state(v).0),
{
    let p = v.subrange(0, j);
    assert(v.subrange(0, j + 1) =~= p.push(v[j]));
    match v[j] {
        Node::Finding(sev, h) => {
            lemma_latex_finding_pagination(p, sev, h);
        },
        _ => {},
    }
    lemma_body_prefix(v, j + 1);
}

/// The heading command of a section block; nothing for other blocks.
pub open spec fn section_command(b: Node) -> Seq<char> {
    match b {
        Node::Section(t) => "\\section{"@ + escape(t) + "}\n\n"@,
        _ => seq![],
    }
}

/// Sections in the document: the body up to and including the section block at
/// `j` is the body of the blocks before it followed by its `\section{..}`
/// command, and that text starts the body of the whole document; so the section
/// commands stand in block order, one per section, and the contents that LaTeX
/// builds from them list the sections on the pages where they are set.
pub proof fn lemma_latex_sections_in_order(v: Seq<Node>, j: int)
    requires
        0 <= j < v.len(),
        v[j] is Section,
    ensures
        body_state(v.subrange(0, j + 1)).0 == body_state(v.subrange(0, j)).0 + section_command(v[j]),
        is_prefix(body_state(v.subrange(0, j + 1)).0, body_state(v).0),
{
    let p = v.subrange(0, j);
    let q = v.subrange(0, j + 1);
    assert(q.drop_last() =~= p);
    assert(q.last() == v[j]);
    lemma_body_prefix(v, j + 1);
}

/// Convert the parsed blocks into a complete LaTeX document.
pub fn blocks_to_latex(blocks: &[Block], asset: &str) -> (r: String)
    ensures
        r@ == document(blocks_view(blocks@), asset@),
{
    let mut body = String::new();
    let mut after = Flow { after_section: false, seen_finding: false };
    let mut k: usize = 0;
    while k < blocks.len()
        invariant
            k <= blocks@.len(),
            (body@, after) == body_state(blocks_view(blocks@.subrange(0, k as int))),
        decreases blocks.len() - k,
    {
        let ghost pre = blocks_view(blocks@.subrange(0, k as int));
        let ghost cur = blocks_view(blocks@.subrange(0, k + 1));
        assert(cur.drop_last() =~= pre);
        assert(cur.last() == blocks@[k as int]@);
        after = push_block(&mut body, after, &blocks[k]);
        k = k + 1;
    }
    assert(blocks@.subrange(0, k as int) =~= blocks@);
    let mut out = latex_preamble(asset);
    push_str(&mut out, "\n\\begin{document}\n\n");
    push_str(&mut out, body.as_str());
    push_str(&mut out, "\\end{document}\n");
    out
}

} // verus!
