use pog_report::blocks::{parse_blocks, Block};
use pog_report::inline::{
    extract_between, extract_delimited, parse_inline_spans, spans_to_plain, try_parse_link, MdSpan,
};
use pog_report::markdown::{parse_markdown, MdBlock};

fn s(x: &str) -> String {
    x.to_string()
}

#[test]
fn parse_blocks_title() {
    let blocks = parse_blocks("#! title My Report");
    assert_eq!(blocks, vec![Block::Title("My Report".into())]);
}

#[test]
fn parse_blocks_subtitle() {
    let blocks = parse_blocks("#! subtitle target.corp");
    assert_eq!(blocks, vec![Block::Subtitle("target.corp".into())]);
}

#[test]
fn parse_blocks_section() {
    let blocks = parse_blocks("#! section Executive Summary");
    assert_eq!(blocks, vec![Block::Section("Executive Summary".into())]);
}

#[test]
fn parse_blocks_finding() {
    let blocks = parse_blocks("#! finding Critical 1. SQL Injection");
    assert_eq!(blocks, vec![Block::Finding("Critical".into(), "1. SQL Injection".into())]);
}

#[test]
fn parse_blocks_meta() {
    let blocks = parse_blocks("#! meta Prepared for: ACME Corp");
    assert_eq!(blocks, vec![Block::Meta("Prepared for".into(), "ACME Corp".into())]);
}

#[test]
fn parse_blocks_index() {
    let blocks = parse_blocks("#! index");
    assert_eq!(blocks, vec![Block::Index]);
}

#[test]
fn parse_blocks_spacer() {
    // 8 mm, held in hundredths of a millimetre
    let blocks = parse_blocks("#! spacer 8");
    assert_eq!(blocks, vec![Block::Spacer(800)]);
}

#[test]
fn parse_blocks_spacer_fraction_and_garbage() {
    assert_eq!(parse_blocks("#! spacer 2.5"), vec![Block::Spacer(250)]);
    assert_eq!(parse_blocks("#! spacer .75"), vec![Block::Spacer(75)]);
    assert_eq!(parse_blocks("#! spacer 1.239"), vec![Block::Spacer(123)]);
    assert!(parse_blocks("#! spacer wide").is_empty());
    assert!(parse_blocks("#! spacer .").is_empty());
    assert!(parse_blocks("#! spacer 99999999").is_empty());
}

#[test]
fn parse_blocks_pagebreak() {
    let blocks = parse_blocks("#! pagebreak");
    assert_eq!(blocks, vec![Block::PageBreak]);
}

#[test]
fn parse_blocks_hr() {
    let blocks = parse_blocks("#! hr");
    assert_eq!(blocks, vec![Block::HRule]);
}

#[test]
fn parse_blocks_comment_ignored() {
    let blocks = parse_blocks("#! comment This should not appear");
    assert!(blocks.is_empty());
}

#[test]
fn parse_blocks_image_ignored() {
    assert!(parse_blocks("#! image logo.png").is_empty());
}

#[test]
fn parse_blocks_finding_without_heading_dropped() {
    assert!(parse_blocks("#! finding Critical").is_empty());
}

#[test]
fn parse_blocks_latex_inline() {
    let blocks = parse_blocks("#! latex \\vspace{20mm}");
    assert_eq!(blocks, vec![Block::Latex("\\vspace{20mm}".into())]);
}

#[test]
fn parse_blocks_latex_block() {
    let input = "#! latex\n\\begin{center}\n\\includegraphics{logo.png}\n\\end{center}\n#! endlatex";
    let blocks = parse_blocks(input);
    assert_eq!(
        blocks,
        vec![Block::Latex("\\begin{center}\n\\includegraphics{logo.png}\n\\end{center}".into())]
    );
}

#[test]
fn parse_blocks_plain_text() {
    let blocks = parse_blocks("Hello world.");
    assert_eq!(blocks, vec![Block::Text("Hello world.".into())]);
}

#[test]
fn parse_blocks_table() {
    let input = "Sev | Count\nCritical | 3\nHigh | 5";
    let blocks = parse_blocks(input);
    assert_eq!(
        blocks,
        vec![Block::Table(vec![
            vec!["Sev".into(), "Count".into()],
            vec!["Critical".into(), "3".into()],
            vec!["High".into(), "5".into()],
        ])]
    );
}

#[test]
fn parse_blocks_mixed_sequence() {
    let input = "\
#! title Report
#! spacer 4
Some text here.
#! pagebreak
#! section Details
";
    let blocks = parse_blocks(input);
    assert_eq!(blocks.len(), 5);
    assert_eq!(blocks[0], Block::Title("Report".into()));
    assert_eq!(blocks[1], Block::Spacer(400));
    assert_eq!(blocks[2], Block::Text("Some text here.".into()));
    assert_eq!(blocks[3], Block::PageBreak);
    assert_eq!(blocks[4], Block::Section("Details".into()));
}

#[test]
fn parse_blocks_directive_round_trip() {
    let input = "#! title T\n#! spacer 4\nSome text.\n#! pagebreak\n#! section S\n";
    assert_eq!(
        parse_blocks(input),
        vec![
            Block::Title(s("T")),
            Block::Spacer(400),
            Block::Text(s("Some text.")),
            Block::PageBreak,
            Block::Section(s("S")),
        ]
    );
}

#[test]
fn parse_blocks_same_text_same_blocks() {
    let input = "#! title T\nA | B\n1 | 2\n\nsome **text**\n#! finding High X\n";
    assert_eq!(parse_blocks(input), parse_blocks(input));
}

#[test]
fn parse_blocks_table_then_text() {
    let input = "A | B\n1 | 2\nSome paragraph after table.";
    let blocks = parse_blocks(input);
    assert_eq!(blocks.len(), 2);
    assert!(matches!(&blocks[0], Block::Table(_)));
    assert_eq!(blocks[1], Block::Text("Some paragraph after table.".into()));
}

#[test]
fn parse_blocks_table_pipe_delimited_markdown() {
    let input = "| A | B | C |\n|---|---|---|\n| 1 | 2 | 3 |\n| x | y | z |";
    let blocks = parse_blocks(input);
    assert_eq!(
        blocks,
        vec![Block::Table(vec![
            vec!["A".into(), "B".into(), "C".into()],
            vec!["1".into(), "2".into(), "3".into()],
            vec!["x".into(), "y".into(), "z".into()],
        ])]
    );
}

#[test]
fn parse_blocks_table_separator_only_skipped() {
    let input = "| A | B |\n|:---|---:|\n| 1 | 2 |";
    let blocks = parse_blocks(input);
    assert_eq!(
        blocks,
        vec![Block::Table(vec![vec!["A".into(), "B".into()], vec!["1".into(), "2".into()]])]
    );
}

#[test]
fn parse_blocks_empty_table_row_discarded() {
    assert!(parse_blocks("|").is_empty());
}

#[test]
fn parse_blocks_blank_line_ends_text() {
    assert_eq!(parse_blocks("one\nline\n\ntwo"), vec![Block::Text(s("one\nline")), Block::Text(s("two"))]);
}

#[test]
fn parse_blocks_empty_input() {
    assert!(parse_blocks("").is_empty());
}

#[test]
fn spans_plain() {
    let spans = parse_inline_spans("hello world");
    assert_eq!(spans, vec![MdSpan::Plain("hello world".into())]);
}

#[test]
fn spans_bold() {
    let spans = parse_inline_spans("a **bold** b");
    assert_eq!(spans.len(), 3);
    assert_eq!(spans[1], MdSpan::Bold("bold".into()));
}

#[test]
fn spans_italic() {
    let spans = parse_inline_spans("a *italic* b");
    assert_eq!(spans.len(), 3);
    assert_eq!(spans[1], MdSpan::Italic("italic".into()));
}

#[test]
fn spans_bold_italic() {
    let spans = parse_inline_spans("***both***");
    assert_eq!(spans, vec![MdSpan::BoldItalic("both".into())]);
}

#[test]
fn spans_code() {
    let spans = parse_inline_spans("use `foo()` here");
    assert_eq!(spans.len(), 3);
    assert_eq!(spans[1], MdSpan::Code("foo()".into()));
}

#[test]
fn spans_link() {
    let spans = parse_inline_spans("see [docs](https://example.com)");
    assert_eq!(spans.len(), 2);
    assert_eq!(spans[1], MdSpan::Link("docs".into(), "https://example.com".into()));
}

#[test]
fn spans_image() {
    let spans = parse_inline_spans("![screenshot](proof.png)");
    assert_eq!(spans, vec![MdSpan::Image("screenshot".into(), "proof.png".into())]);
}

#[test]
fn spans_image_with_text() {
    let spans = parse_inline_spans("see ![proof](img.jpg) here");
    assert_eq!(spans.len(), 3);
    assert_eq!(spans[0], MdSpan::Plain("see ".into()));
    assert_eq!(spans[1], MdSpan::Image("proof".into(), "img.jpg".into()));
    assert_eq!(spans[2], MdSpan::Plain(" here".into()));
}

#[test]
fn spans_image_not_confused_with_link() {
    let spans = parse_inline_spans("![alt](path.png)");
    assert_eq!(spans.len(), 1);
    assert!(matches!(&spans[0], MdSpan::Image(_, _)));
}

#[test]
fn spans_mixed() {
    let spans = parse_inline_spans("**bold** and *italic* and `code`");
    assert!(spans.len() >= 5);
    assert_eq!(spans[0], MdSpan::Bold("bold".into()));
    assert_eq!(spans[2], MdSpan::Italic("italic".into()));
    assert_eq!(spans[4], MdSpan::Code("code".into()));
}

#[test]
fn spans_empty_delimiters_stay_plain() {
    assert_eq!(parse_inline_spans("a ** b"), vec![MdSpan::Plain(s("a ** b"))]);
    assert_eq!(parse_inline_spans("x `` y"), vec![MdSpan::Plain(s("x `` y"))]);
    assert_eq!(parse_inline_spans("****"), vec![MdSpan::Plain(s("****"))]);
}

#[test]
fn spans_round_trip_visible_text() {
    let spans = parse_inline_spans("a **b** *c* `d e` [f](u) ![g](p) h");
    assert_eq!(spans_to_plain(&spans), "a b c d e f g h");
    assert_eq!(spans_to_plain(&parse_inline_spans("no markup at all")), "no markup at all");
}

#[test]
fn md_paragraph() {
    let blocks = parse_markdown("Hello world.");
    assert_eq!(blocks.len(), 1);
    assert!(matches!(&blocks[0], MdBlock::Paragraph(_)));
}

#[test]
fn md_heading() {
    let blocks = parse_markdown("# Title\n## Sub\n### Sub-sub");
    assert_eq!(blocks.len(), 3);
    assert!(matches!(&blocks[0], MdBlock::Heading(1, _)));
    assert!(matches!(&blocks[1], MdBlock::Heading(2, _)));
    assert!(matches!(&blocks[2], MdBlock::Heading(3, _)));
}

#[test]
fn md_four_hashes_is_paragraph() {
    let blocks = parse_markdown("#### deep");
    assert_eq!(blocks, vec![MdBlock::Paragraph(vec![MdSpan::Plain(s("#### deep"))])]);
}

#[test]
fn md_bullet_list() {
    let blocks = parse_markdown("- one\n- two\n- three");
    assert_eq!(blocks.len(), 3);
    for b in &blocks {
        assert!(matches!(b, MdBlock::BulletItem(_)));
    }
}

#[test]
fn md_code_block() {
    let input = "```\nfn main() {}\n```";
    let blocks = parse_markdown(input);
    assert_eq!(blocks.len(), 1);
    assert!(matches!(&blocks[0], MdBlock::CodeBlock(_)));
    if let MdBlock::CodeBlock(code) = &blocks[0] {
        assert_eq!(code, "fn main() {}");
    }
}

#[test]
fn md_unterminated_fence_dropped() {
    let blocks = parse_markdown("text\n```\nlet x = 1;");
    assert_eq!(blocks, vec![MdBlock::Paragraph(vec![MdSpan::Plain(s("text"))])]);
}

#[test]
fn md_paragraph_lines_joined() {
    let blocks = parse_markdown("one\n  two  \n\nthree");
    assert_eq!(
        blocks,
        vec![
            MdBlock::Paragraph(vec![MdSpan::Plain(s("one two"))]),
            MdBlock::Paragraph(vec![MdSpan::Plain(s("three"))]),
        ]
    );
}

#[test]
fn md_mixed() {
    let input = "Paragraph.\n\n# Heading\n\n- bullet\n\n```\ncode\n```";
    let blocks = parse_markdown(input);
    assert_eq!(blocks.len(), 4);
    assert!(matches!(&blocks[0], MdBlock::Paragraph(_)));
    assert!(matches!(&blocks[1], MdBlock::Heading(1, _)));
    assert!(matches!(&blocks[2], MdBlock::BulletItem(_)));
    assert!(matches!(&blocks[3], MdBlock::CodeBlock(_)));
}

#[test]
fn spans_to_plain_basic() {
    let spans = parse_inline_spans("**bold** and *italic*");
    let plain = spans_to_plain(&spans);
    assert_eq!(plain, "bold and italic");
}

#[test]
fn spans_to_plain_link() {
    let spans = vec![MdSpan::Link("click".into(), "https://x.com".into())];
    assert_eq!(spans_to_plain(&spans), "click");
}

#[test]
fn try_parse_link_valid() {
    let chars: Vec<char> = "[docs](https://x.com) rest".chars().collect();
    let result = try_parse_link(&chars, 0);
    assert!(result.is_some());
    let (display, url, end) = result.unwrap();
    assert_eq!(display, "docs");
    assert_eq!(url, "https://x.com");
    assert_eq!(end, 21);
}

#[test]
fn try_parse_link_invalid_no_paren() {
    let chars: Vec<char> = "[docs] rest".chars().collect();
    let result = try_parse_link(&chars, 0);
    assert!(result.is_none());
}

#[test]
fn extract_delimited_backtick() {
    let chars: Vec<char> = "`code` rest".chars().collect();
    let result = extract_delimited(&chars, 0, '`');
    assert!(result.is_some());
    let (content, end) = result.unwrap();
    assert_eq!(content, "code");
    assert_eq!(end, 6);
}

#[test]
fn extract_delimited_empty_returns_none() {
    let chars: Vec<char> = "`` rest".chars().collect();
    let result = extract_delimited(&chars, 0, '`');
    assert!(result.is_none());
}

#[test]
fn extract_between_double_star() {
    let chars: Vec<char> = "bold** rest".chars().collect();
    let result = extract_between(&chars, 0, "**");
    assert!(result.is_some());
    let (content, end) = result.unwrap();
    assert_eq!(content, "bold");
    assert_eq!(end, 6);
}

#[test]
fn extract_between_no_match() {
    let chars: Vec<char> = "no end marker".chars().collect();
    let result = extract_between(&chars, 0, "**");
    assert!(result.is_none());
}

#[test]
fn parse_blocks_bar_and_blank_lines_inside_fence() {
    // a bar line is a table row and a blank line ends the text, fence or not
    let blocks = parse_blocks("Intro\n```\nlet a = 1;\n\nx | y\n```");
    assert_eq!(
        blocks,
        vec![
            Block::Text(s("Intro\n```\nlet a = 1;")),
            Block::Table(vec![vec![s("x"), s("y")]]),
            Block::Text(s("```")),
        ]
    );
    let md = parse_markdown("```\nlet a = 1;\n\nx | y\n```");
    assert_eq!(md, vec![MdBlock::CodeBlock(s("let a = 1;\n\nx | y"))]);
}
