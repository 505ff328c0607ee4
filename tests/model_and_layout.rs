use pog_report::blocks::{parse_blocks, Block};
use pog_report::filters::{AssetFilter, CriticalityFilter, SeverityFilter};
use pog_report::inline::{parse_inline_spans, MdSpan};
use pog_report::layout::{
    decorate, height_of, lay_out, paint, simulate_layout, text_height, OpKind, PAGE_BOTTOM, PAGE_TOP, TITLE_TOP,
};
use pog_report::layout::Colour;
use pog_report::model::{count_severity, dash_spaces, Asset, Finding, Severity, Status, TabKind};
use pog_report::wrap::{spans_to_styled_words, wrap_styled_words, Style, StyledWord};

#[test]
fn severity_and_status_names() {
    assert_eq!(Severity::Critical.as_str(), "Critical");
    assert_eq!(Severity::Info.as_str(), "Info");
    assert_eq!(Status::InProgress.as_str(), "In Progress");
    assert_eq!(Status::FalsePositive.as_str(), "False Positive");
}

#[test]
fn asset_builders() {
    let a = Asset::new("db").with_description("d").with_contact("c").with_criticality("High").with_dns_or_ip("1.2.3.4");
    assert_eq!(a.name, "db");
    assert_eq!(a.description, "d");
    assert_eq!(a.contact, "c");
    assert_eq!(a.criticality, "High");
    assert_eq!(a.dns_or_ip, "1.2.3.4");
    assert!(a.id.is_none());
    assert_eq!(Asset::new("x").description, "-");
}

#[test]
fn sample_data() {
    let assets = Asset::sample_assets();
    assert_eq!(assets.len(), 3);
    assert_eq!(assets[0].name, "nexus_portal");
    let findings = Finding::sample_findings();
    assert_eq!(findings.len(), 45);
    assert_eq!(findings[0].slug, "exposed-admin-panel");
    assert_eq!(Finding::default_findings().len(), 13);
}

#[test]
fn finding_slug_and_images() {
    let f = Finding::new("SQL Injection Here", Severity::High, "a", "d", "l", "x", Status::Open)
        .with_images(vec!["img/a.png".to_string()]);
    assert_eq!(f.slug, "sql-injection-here");
    assert_eq!(f.images, vec!["img/a.png".to_string()]);
    assert_eq!(dash_spaces("a b  c"), "a-b--c");
}

#[test]
fn filters() {
    assert!(CriticalityFilter::All.matches("anything"));
    assert!(CriticalityFilter::High.matches("hIGH"));
    assert!(!CriticalityFilter::High.matches("Highest"));
    assert_eq!(CriticalityFilter::Medium.as_str(), "Medium");
    assert!(SeverityFilter::Only(Severity::Low).matches(Severity::Low));
    assert!(!SeverityFilter::Only(Severity::Low).matches(Severity::High));
    assert_eq!(SeverityFilter::Only(Severity::Info).as_str(), "Info");
    assert_eq!(SeverityFilter::All.as_str(), "All");
    assert!(AssetFilter::Only("web".into()).matches("web"));
    assert!(!AssetFilter::Only("web".into()).matches("Web"));
    assert_eq!(AssetFilter::Only("web".into()).as_str(), "web");
    assert!(AssetFilter::All.matches("x"));
    assert!(TabKind::Graph != TabKind::Search);
}

fn word(t: &str) -> StyledWord {
    StyledWord { text: t.to_string(), style: Style::Regular, url: None }
}

fn line_len(l: &[StyledWord]) -> usize {
    l.iter().map(|w| w.text.chars().count()).sum::<usize>() + l.len() - 1
}

#[test]
fn styled_words_keep_code_whole() {
    let words = spans_to_styled_words(&parse_inline_spans("a **b c** `d e` [f g](u)"));
    let texts: Vec<&str> = words.iter().map(|w| w.text.as_str()).collect();
    assert_eq!(texts, vec!["a", "b", "c", "d e", "f", "g"]);
    assert_eq!(words[3].style, Style::Code);
    assert_eq!(words[5].url, Some("u".to_string()));
    assert_eq!(words[1].style, Style::Bold);
}

#[test]
fn wrap_greedy_exact() {
    let words: Vec<StyledWord> = ["aa", "bb", "cc", "dddddddddd", "e"].iter().map(|t| word(t)).collect();
    let lines = wrap_styled_words(&words, 5);
    let texts: Vec<Vec<&str>> = lines.iter().map(|l| l.iter().map(|w| w.text.as_str()).collect()).collect();
    assert_eq!(texts, vec![vec!["aa", "bb"], vec!["cc"], vec!["dddddddddd"], vec!["e"]]);
}

#[test]
fn wrap_bound_holds() {
    let words: Vec<StyledWord> =
        "the quick brown fox jumps over the lazy dog extraordinarily".split(' ').map(word).collect();
    for max in 1..20 {
        let lines = wrap_styled_words(&words, max);
        let total: usize = lines.iter().map(|l| l.len()).sum();
        assert_eq!(total, words.len());
        for l in &lines {
            assert!(!l.is_empty());
            assert!(line_len(l) <= max || l.len() == 1);
        }
    }
}

#[test]
fn wrap_empty() {
    assert!(wrap_styled_words(&[], 10).is_empty());
}

#[test]
fn heights() {
    assert_eq!(height_of(&Block::Section("s".into()), 0), 3700);
    assert_eq!(height_of(&Block::Index, 3), 1500 + 3 * 700);
    assert_eq!(height_of(&Block::Spacer(1234), 0), 1234);
    assert_eq!(height_of(&Block::Table(vec![vec!["h".into()], vec!["r".into()]]), 0), 1900);
    assert_eq!(text_height("one line"), 800);
    assert_eq!(text_height("```\na\nb\n```"), 2 * 450 + 600);
}

#[test]
fn two_passes_agree() {
    let text = "#! title T\n#! index\n#! section Intro\nSome text.\n#! finding High A\nbody\n#! finding Low B\n#! section End\n#! spacer 250\n#! finding Info C\n";
    let blocks = parse_blocks(text);
    let toc = simulate_layout(&blocks);
    let painted = paint(&blocks, &toc);
    let painted_pages: Vec<u64> = painted
        .ops
        .iter()
        .filter(|o| o.kind == OpKind::SectionHeading || o.kind == OpKind::FindingCard)
        .map(|o| o.page)
        .collect();
    let toc_pages: Vec<u64> = toc.iter().map(|e| e.page_num).collect();
    assert_eq!(painted_pages, toc_pages);
    let index_targets: Vec<u64> =
        painted.ops.iter().filter(|o| o.kind == OpKind::IndexEntry).map(|o| o.target).collect();
    assert_eq!(index_targets, toc_pages);
    assert_eq!(toc.len(), 5);
    assert!(toc[0].is_section);
    assert_eq!(toc[1].severity, "High");
}

#[test]
fn title_stands_at_fixed_anchor() {
    let blocks = vec![Block::Title("T".into())];
    let painted = paint(&blocks, &[]);
    assert_eq!(painted.ops[0].y, TITLE_TOP);
    assert_eq!(painted.ops[0].kind, OpKind::Title);
}

#[test]
fn findings_paginate() {
    let blocks = vec![
        Block::Section("Findings".into()),
        Block::Finding("High".into(), "A".into()),
        Block::Finding("Low".into(), "B".into()),
        Block::Finding("Info".into(), "C".into()),
    ];
    let toc = simulate_layout(&blocks);
    let pages: Vec<u64> = toc.iter().map(|e| e.page_num).collect();
    // the first finding shares the section's page; each later one opens its own
    assert_eq!(pages, vec![1, 1, 2, 3]);
    assert_eq!(paint(&blocks, &toc).pages, 3);
}

#[test]
fn long_text_overflows_to_next_page() {
    let mut text = String::new();
    for i in 0..60 {
        text.push_str(&format!("Paragraph {} with enough words to fill a line or so.\n\n", i));
    }
    let blocks = vec![Block::Text(text), Block::Section("After".into())];
    let toc = simulate_layout(&blocks);
    assert!(toc[0].page_num > 1);
    assert!(PAGE_TOP < PAGE_BOTTOM);
}

#[test]
fn decoration_footers_and_bookmarks() {
    let blocks = parse_blocks("#! section A\n#! section B\n#! pagebreak\n#! section C\n");
    let toc = simulate_layout(&blocks);
    let d = decorate(&toc, 2);
    assert_eq!(d.footers, vec!["Page 1 of 2".to_string(), "Page 2 of 2".to_string()]);
    let marks: Vec<(u64, &str)> = d.bookmarks.iter().map(|b| (b.page, b.label.as_str())).collect();
    assert_eq!(marks, vec![(1, "A"), (2, "C")]);
}

#[test]
fn lay_out_runs_all_passes() {
    let doc = lay_out("#! title T\n#! section S\ntext\n#! finding High F\n").unwrap();
    assert_eq!(doc.toc.len(), 2);
    assert_eq!(doc.decoration.footers.len() as u64, doc.painted.pages);
    assert_eq!(doc.decoration.footers[0], format!("Page 1 of {}", doc.painted.pages));
    assert!(matches!(doc.blocks[0], Block::Title(_)));
    let _ = MdSpan::Plain(String::new());
}

#[test]
fn severity_counts() {
    let f = Finding::default_findings();
    assert_eq!(count_severity(&f, Severity::Critical), 4);
    assert_eq!(count_severity(&f, Severity::High), 3);
    assert_eq!(count_severity(&f, Severity::Medium), 4);
    assert_eq!(count_severity(&f, Severity::Low), 1);
    assert_eq!(count_severity(&f, Severity::Info), 1);
    assert_eq!(f[0].title, "SQL Injection");
    assert_eq!(count_severity(&[], Severity::Info), 0);
}

#[test]
fn sample_findings_in_date_order() {
    let f = Finding::sample_findings();
    for w in f.windows(2) {
        assert!(w[0].date < w[1].date);
    }
    let names: Vec<String> = Asset::sample_assets().into_iter().map(|a| a.name).collect();
    assert!(f.iter().all(|x| names.contains(&x.asset)));
}

#[test]
fn paint_carries_severity_and_meta_value() {
    let blocks = vec![
        Block::Finding("CRITICAL".into(), "A".into()),
        Block::Meta("Asset".into(), "web".into()),
        Block::Finding("Odd".into(), "B".into()),
    ];
    let toc = simulate_layout(&blocks);
    let ops = paint(&blocks, &toc).ops;
    assert_eq!(ops[0].detail, "CRITICAL");
    assert_eq!(ops[0].colour, Colour::Red);
    assert_eq!(ops[1].text, "Asset");
    assert_eq!(ops[1].detail, "web");
    assert_eq!(ops[2].colour, Colour::Neutral);
}
