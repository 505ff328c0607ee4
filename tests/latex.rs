use pog_report::blocks::{parse_blocks, Block};
use pog_report::inline::MdSpan;
use pog_report::latex::{
    blocks_to_latex, color_for_lowercase, latex_escape, latex_preamble, md_to_latex,
    severity_latex_color, spans_to_latex,
};

#[test]
fn latex_escape_basic() {
    assert_eq!(latex_escape("hello"), "hello");
}

#[test]
fn latex_escape_special_chars() {
    assert_eq!(latex_escape("a & b"), r"a \& b");
    assert_eq!(latex_escape("100%"), r"100\%");
    assert_eq!(latex_escape("$x$"), r"\$x\$");
    assert_eq!(latex_escape("item #1"), r"item \#1");
    assert_eq!(latex_escape("a_b"), r"a\_b");
    assert_eq!(latex_escape("{x}"), r"\{x\}");
}

#[test]
fn latex_escape_tilde_caret_backslash() {
    assert_eq!(latex_escape("~"), r"\textasciitilde{}");
    assert_eq!(latex_escape("^"), r"\textasciicircum{}");
    assert_eq!(latex_escape(r"\"), r"\textbackslash{}");
}

#[test]
fn latex_escape_unicode_chars() {
    assert_eq!(latex_escape("\u{2013}"), "--");
    assert_eq!(latex_escape("\u{2014}"), "---");
    assert_eq!(latex_escape("29.99\u{20AC}"), r"29.99\texteuro{}");
    assert_eq!(latex_escape("1.5\u{00D7}"), r"1.5$\times$");
    assert_eq!(latex_escape("\u{201C}hello\u{201D}"), "``hello''");
}

#[test]
fn latex_escape_empty() {
    assert_eq!(latex_escape(""), "");
}

#[test]
fn severity_latex_color_known() {
    assert_eq!(severity_latex_color("Critical"), "SevCritical");
    assert_eq!(severity_latex_color("high"), "SevHigh");
    assert_eq!(severity_latex_color("MEDIUM"), "SevMedium");
    assert_eq!(severity_latex_color("Low"), "SevLow");
    assert_eq!(severity_latex_color("Info"), "SevInfo");
}

#[test]
fn severity_latex_color_unknown() {
    assert_eq!(severity_latex_color("banana"), "black");
}

#[test]
fn color_for_lowercase_exact() {
    assert_eq!(color_for_lowercase("critical"), "SevCritical");
    assert_eq!(color_for_lowercase("Critical"), "black");
    assert_eq!(color_for_lowercase(""), "black");
}

#[test]
fn spans_to_latex_plain() {
    let spans = vec![MdSpan::Plain("hello".into())];
    assert_eq!(spans_to_latex(&spans), "hello");
}

#[test]
fn spans_to_latex_bold() {
    let spans = vec![MdSpan::Bold("strong".into())];
    assert_eq!(spans_to_latex(&spans), r"\textbf{strong}");
}

#[test]
fn spans_to_latex_italic() {
    let spans = vec![MdSpan::Italic("em".into())];
    assert_eq!(spans_to_latex(&spans), r"\textit{em}");
}

#[test]
fn spans_to_latex_bold_italic() {
    let spans = vec![MdSpan::BoldItalic("bi".into())];
    assert_eq!(spans_to_latex(&spans), r"\textbf{\textit{bi}}");
}

#[test]
fn spans_to_latex_code() {
    let spans = vec![MdSpan::Code("x()".into())];
    assert_eq!(spans_to_latex(&spans), r"\code{x()}");
}

#[test]
fn spans_to_latex_link() {
    let spans = vec![MdSpan::Link("site".into(), "https://x.com".into())];
    assert_eq!(spans_to_latex(&spans), r"\href{https://x.com}{site}");
}

#[test]
fn spans_to_latex_image() {
    let spans = vec![MdSpan::Image("proof".into(), "proof.png".into())];
    let latex = spans_to_latex(&spans);
    assert!(latex.contains(r"\includegraphics"));
    assert!(latex.contains("proof.png"));
    assert!(latex.contains("proof"));
}

#[test]
fn spans_to_latex_image_exact() {
    let spans = vec![MdSpan::Image("".into(), "a.png".into())];
    assert_eq!(
        spans_to_latex(&spans),
        "\n\n\\begin{center}\n\\IfFileExists{a.png}{\\includegraphics[width=0.9\\linewidth]{a.png}\\\\[2mm]\n}{}\\end{center}\n\n"
    );
}

#[test]
fn spans_to_latex_escapes_special() {
    let spans = vec![MdSpan::Plain("a & b".into())];
    assert_eq!(spans_to_latex(&spans), r"a \& b");
}

#[test]
fn md_to_latex_paragraph() {
    let result = md_to_latex("Hello world.");
    assert!(result.contains("Hello world."));
    assert_eq!(result, "Hello world.\n\n");
}

#[test]
fn md_to_latex_heading() {
    let result = md_to_latex("# Title");
    assert!(result.contains(r"\subsection*{Title}"));
}

#[test]
fn md_to_latex_heading_levels() {
    let result = md_to_latex("## Sub\n### SubSub");
    assert!(result.contains(r"\subsubsection*{Sub}"));
    assert!(result.contains(r"\paragraph*{SubSub}"));
}

#[test]
fn md_to_latex_bullets() {
    let result = md_to_latex("- one\n- two");
    assert!(result.contains(r"\begin{itemize}"));
    assert!(result.contains(r"\item one"));
    assert!(result.contains(r"\item two"));
    assert!(result.contains(r"\end{itemize}"));
    assert_eq!(result, "\\begin{itemize}\n  \\item one\n  \\item two\n\\end{itemize}\n");
}

#[test]
fn md_to_latex_code_block() {
    let result = md_to_latex("```\ncode here\n```");
    assert!(result.contains(r"\begin{lstlisting}"));
    assert!(result.contains("code here"));
    assert!(result.contains(r"\end{lstlisting}"));
}

#[test]
fn md_to_latex_inline_formatting() {
    let result = md_to_latex("Use **bold** and *italic* and `code` together.");
    assert!(result.contains(r"\textbf{bold}"));
    assert!(result.contains(r"\textit{italic}"));
    assert!(result.contains(r"\code{code}"));
}

#[test]
fn md_to_latex_image() {
    let result = md_to_latex("See below:\n\n![proof screenshot](proof.png)");
    assert!(result.contains(r"\includegraphics"));
    assert!(result.contains("proof.png"));
}

#[test]
fn latex_preamble_names_asset() {
    let p = latex_preamble("a_b");
    assert!(p.starts_with(r"\documentclass[11pt,a4paper]{article}"));
    assert!(p.contains(r"Security Assessment Report -- a\_b"));
}

#[test]
fn btl_title() {
    let latex = blocks_to_latex(&[Block::Title("My Report".into())], "test");
    assert!(latex.contains("My Report"));
}

#[test]
fn btl_subtitle() {
    let latex = blocks_to_latex(&[Block::Subtitle("acme.corp".into())], "test");
    assert!(latex.contains("acme.corp"));
}

#[test]
fn btl_section() {
    let latex = blocks_to_latex(&[Block::Section("Details".into())], "test");
    assert!(latex.contains(r"\section{Details}"));
}

#[test]
fn btl_finding() {
    let latex = blocks_to_latex(&[Block::Finding("Critical".into(), "SQLi".into())], "test");
    assert!(latex.contains("SQLi"));
    assert!(latex.contains("Critical"));
}

#[test]
fn btl_meta() {
    let latex = blocks_to_latex(&[Block::Meta("Asset".into(), "web.corp".into())], "test");
    assert!(latex.contains("Asset"));
    assert!(latex.contains("web.corp"));
}

#[test]
fn btl_table() {
    let rows = vec![vec!["A".into(), "B".into()], vec!["1".into(), "2".into()]];
    let latex = blocks_to_latex(&[Block::Table(rows)], "test");
    assert!(latex.contains(r"\begin{tabularx}"));
    assert!(latex.contains("1 & 2"));
}

#[test]
fn btl_table_three_cols() {
    let rows = vec![
        vec!["A".into(), "B".into(), "C".into()],
        vec!["1".into(), "2".into(), "3".into()],
    ];
    let latex = blocks_to_latex(&[Block::Table(rows)], "test");
    assert!(latex.contains(r"\begin{tabularx}"));
    assert!(latex.contains("1 & 2 & 3"));
    assert!(latex.contains("{l X X}"));
}

#[test]
fn btl_table_alternating_rows() {
    let rows = vec![
        vec!["H".into()],
        vec!["a".into()],
        vec!["b".into()],
        vec!["c".into()],
    ];
    let latex = blocks_to_latex(&[Block::Table(rows)], "test");
    assert_eq!(latex.matches(r"\rowcolor{CodeBg}").count(), 1);
    assert!(latex.contains("a \\\\\n\\rowcolor{CodeBg}\nb \\\\\nc \\\\\n"));
}

#[test]
fn btl_text_markdown() {
    let latex = blocks_to_latex(&[Block::Text("**bold** text".into())], "test");
    assert!(latex.contains(r"\textbf{bold}"));
}

#[test]
fn btl_latex() {
    let latex = blocks_to_latex(
        &[Block::Latex("\\begin{center}\n\\includegraphics{proof.png}\n\\end{center}".into())],
        "test",
    );
    assert!(latex.contains(r"\includegraphics{proof.png}"));
    assert!(latex.contains(r"\begin{center}"));
}

#[test]
fn btl_index() {
    let latex = blocks_to_latex(&[Block::Index], "test");
    assert!(latex.contains(r"\tableofcontents"));
}

#[test]
fn btl_spacer() {
    // 10 mm, in hundredths of a millimetre
    let latex = blocks_to_latex(&[Block::Spacer(1000)], "test");
    assert!(latex.contains(r"\vspace{10mm}"));
}

#[test]
fn btl_spacer_fractions() {
    assert!(blocks_to_latex(&[Block::Spacer(250)], "t").contains(r"\vspace{2.5mm}"));
    assert!(blocks_to_latex(&[Block::Spacer(75)], "t").contains(r"\vspace{0.75mm}"));
}

#[test]
fn btl_pagebreak() {
    let latex = blocks_to_latex(&[Block::PageBreak], "test");
    assert!(latex.contains(r"\clearpage"));
}

#[test]
fn btl_hrule() {
    let latex = blocks_to_latex(&[Block::HRule], "test");
    assert!(latex.contains(r"\rule"));
}

#[test]
fn btl_full_document_structure() {
    let latex = blocks_to_latex(&[Block::Title("T".into())], "test");
    assert!(latex.contains(r"\documentclass"));
    assert!(latex.contains(r"\begin{document}"));
    assert!(latex.contains(r"\end{document}"));
}

#[test]
fn integration_mixed_blocks() {
    let blocks = vec![
        Block::Title("Security Report".into()),
        Block::Subtitle("acme.corp".into()),
        Block::PageBreak,
        Block::Section("Executive Summary".into()),
        Block::Text("This is a **test** report.".into()),
        Block::Spacer(400),
        Block::Table(vec![vec!["Sev".into(), "Count".into()], vec!["Critical".into(), "2".into()]]),
        Block::PageBreak,
        Block::Section("Findings".into()),
        Block::Finding("Critical".into(), "1. SQL Injection".into()),
        Block::Meta("Asset".into(), "web.corp".into()),
        Block::Text("Description with `code` and **bold**.".into()),
        Block::HRule,
    ];
    let latex = blocks_to_latex(&blocks, "test");
    assert!(latex.contains(r"\documentclass"));
    assert!(latex.contains(r"\begin{document}"));
    assert!(latex.contains(r"\end{document}"));
    assert!(latex.contains("Security Report"));
    assert!(latex.contains("acme.corp"));
    assert!(latex.contains(r"\clearpage"));
    assert!(latex.contains(r"\section{Executive Summary}"));
    assert!(latex.contains(r"\textbf{test}"));
    assert!(latex.contains(r"\begin{tabularx}"));
    assert!(latex.contains(r"\section{Findings}"));
    assert!(latex.contains("SQL Injection"));
    assert!(latex.contains(r"\code{code}"));
}

#[test]
fn integration_full_parse_and_render() {
    let input = "\
#! title Test Report
#! subtitle target.local
#! spacer 8
#! meta Date: 2025/01/01
#! pagebreak
#! section Summary
This report has **bold** and *italic* content.
#! spacer 4
#! table
Severity | Count
Critical | 1
#! pagebreak
#! section Findings
#! finding High 1. XSS Attack
#! meta Severity: High
#! meta Asset: web.app
Reflected XSS in the `search` parameter.
- Step 1: inject payload
- Step 2: observe alert
#! hr
";
    let blocks = parse_blocks(input);
    let latex = blocks_to_latex(&blocks, "test");
    assert!(latex.contains(r"\documentclass"));
    assert!(latex.contains("Test Report"));
    assert!(latex.contains("target.local"));
    assert!(latex.contains(r"\section{Summary}"));
    assert!(latex.contains(r"\textbf{bold}"));
    assert!(latex.contains(r"\textit{italic}"));
    assert!(latex.contains(r"\begin{tabularx}"));
    assert!(latex.contains("SevHigh"));
    assert!(latex.contains("XSS Attack"));
    assert!(latex.contains(r"\code{search}"));
    assert!(latex.contains(r"\begin{itemize}"));
    assert!(latex.contains(r"\item"));
    assert!(latex.contains(r"\end{itemize}"));
    assert!(latex.contains(r"\clearpage"));
}

#[test]
fn finding_starts_on_new_page() {
    let blocks = vec![Block::Text("Some text.".into()), Block::Finding("High".into(), "1. Test".into())];
    let latex = blocks_to_latex(&blocks, "test");
    let finding_pos = latex.find("1. Test").unwrap();
    let clearpage_before = latex[..finding_pos].rfind(r"\clearpage");
    assert!(clearpage_before.is_some());
}

#[test]
fn first_finding_after_section_no_clearpage() {
    let blocks = vec![
        Block::Section("Detailed Findings".into()),
        Block::Finding("High".into(), "1. Test".into()),
    ];
    let latex = blocks_to_latex(&blocks, "test");
    let section_pos = latex.find(r"\section{Detailed Findings}").unwrap();
    let finding_pos = latex.find("1. Test").unwrap();
    let between = &latex[section_pos..finding_pos];
    assert!(!between.contains(r"\clearpage"));
}

#[test]
fn multiple_findings_each_on_own_page() {
    let blocks = vec![
        Block::Finding("Critical".into(), "1. First".into()),
        Block::Text("Description.".into()),
        Block::Finding("High".into(), "2. Second".into()),
    ];
    let latex = blocks_to_latex(&blocks, "test");
    let clearpage_count = latex.matches(r"\clearpage").count();
    assert!(clearpage_count >= 2);
}

#[test]
fn later_finding_after_section_starts_new_page() {
    let blocks = vec![
        Block::Finding("High".into(), "1. First".into()),
        Block::Section("More".into()),
        Block::Finding("Low".into(), "2. Second".into()),
    ];
    let latex = blocks_to_latex(&blocks, "test");
    let section_pos = latex.find(r"\section{More}").unwrap();
    let second_pos = latex.find("2. Second").unwrap();
    assert!(latex[section_pos..second_pos].contains(r"\clearpage"));
}

#[test]
fn findings_each_follow_a_page_break() {
    let blocks = vec![
        Block::Section("Findings".into()),
        Block::Finding("High".into(), "A".into()),
        Block::Finding("Low".into(), "B".into()),
        Block::Finding("Info".into(), "C".into()),
    ];
    let latex = blocks_to_latex(&blocks, "test");
    assert_eq!(latex.matches(r"\clearpage").count(), 2);
}

#[test]
fn findings_listed_in_contents() {
    let latex = blocks_to_latex(&[Block::Finding("High".into(), "XSS & more".into())], "test");
    assert!(latex.contains(r"\addcontentsline{toc}{subsection}{XSS \& more}"));
}

#[test]
fn md_to_latex_tilde_fence() {
    let result = md_to_latex("~~~\nlet x = 1;\n~~~");
    assert_eq!(result, "\\begin{lstlisting}\nlet x = 1;\n\\end{lstlisting}\n\n");
}
