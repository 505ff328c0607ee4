use pog_report::dates::{current_date, date_from_days, is_leap, month_days};
use pog_report::images::{parse_md_image, rewrite_description_images};
use pog_report::import::{
    extract_field, extract_field_lowered, FrontMatter, normalise_asset, normalise_lowered, parse_asset_md,
    parse_finding_md, render_asset_md, severity_from_label, status_from_label, ImportError,
};
use pog_report::model::{Asset, Severity, Status};

#[test]
fn leap_year_detection() {
    assert!(is_leap(2000));
    assert!(is_leap(2024));
    assert!(!is_leap(1900));
    assert!(!is_leap(2023));
}

#[test]
fn month_days_normal() {
    assert_eq!(month_days(2023, 1), 31);
    assert_eq!(month_days(2023, 2), 28);
    assert_eq!(month_days(2023, 4), 30);
}

#[test]
fn month_days_leap_feb() {
    assert_eq!(month_days(2024, 2), 29);
}

#[test]
fn current_date_format() {
    let d = current_date();
    assert_eq!(d.len(), 10);
    assert_eq!(&d[4..5], "/");
    assert_eq!(&d[7..8], "/");
}

#[test]
fn date_from_days_known() {
    assert_eq!(date_from_days(0), "1970/01/01");
    assert_eq!(date_from_days(59), "1970/03/01");
    assert_eq!(date_from_days(10957), "2000/01/01");
    assert_eq!(date_from_days(11016), "2000/02/29");
    assert_eq!(date_from_days(19723), "2024/01/01");
}

#[test]
fn rewrite_images_no_images() {
    let desc = "No images here.";
    assert_eq!(rewrite_description_images(desc, &[], "slug"), "No images here.");
}

#[test]
fn rewrite_images_matching_basename() {
    let desc = "See ![proof](../img/xss.jpg) for details.";
    let images = vec!["img/xss.jpg".to_string()];
    let result = rewrite_description_images(desc, &images, "stored-xss");
    assert_eq!(result, "See ![proof](stored-xss-xss.jpg) for details.");
}

#[test]
fn rewrite_images_no_match() {
    let desc = "See ![proof](../img/other.jpg) for details.";
    let images = vec!["img/xss.jpg".to_string()];
    let result = rewrite_description_images(desc, &images, "stored-xss");
    assert_eq!(result, "See ![proof](../img/other.jpg) for details.");
}

#[test]
fn rewrite_images_multiple() {
    let desc = "![a](img/one.png) and ![b](img/two.png)";
    let images = vec!["img/one.png".to_string(), "img/two.png".to_string()];
    let result = rewrite_description_images(desc, &images, "vuln");
    assert!(result.contains("vuln-one.png"));
    assert!(result.contains("vuln-two.png"));
}

#[test]
fn rewrite_images_backslash_path() {
    let images = vec!["img/x.png".to_string()];
    assert_eq!(rewrite_description_images("![x](C:\\shots\\x.png)", &images, "s"), "![x](s-x.png)");
}

#[test]
fn parse_md_image_counts_characters() {
    assert_eq!(parse_md_image("![a](b.png) rest"), Some(("a".to_string(), "b.png".to_string(), 11)));
    assert_eq!(parse_md_image("[a](b.png)"), None);
    assert_eq!(parse_md_image("![a] (b.png)"), None);
}

fn sample_md() -> &'static str {
    "---
title: SQL Injection
severity: Critical
asset: Web App
location: https://example.com/api/users?id=1
date: 2026/01/15
status: Open
---

User input is directly concatenated into SQL query without sanitization.
This allows an attacker to execute arbitrary SQL commands.
"
}

#[test]
fn test_parse_finding_md() {
    let f = parse_finding_md(sample_md(), "sql-injection").unwrap();
    assert_eq!(f.title, "SQL Injection");
    assert_eq!(f.severity, Severity::Critical);
    assert_eq!(f.asset, "web_app");
    assert_eq!(f.date, "2026/01/15");
    assert_eq!(f.location, "https://example.com/api/users?id=1");
    assert_eq!(f.status, Status::Open);
    assert!(f.description.contains("User input is directly concatenated"));
}

#[test]
fn test_parse_minimal_md() {
    let md = "---\ntitle: Buffer Overflow\n---\n\nStack smash.\n";
    let f = parse_finding_md(md, "buffer-overflow").unwrap();
    assert_eq!(f.title, "Buffer Overflow");
    assert_eq!(f.severity, Severity::Info);
    assert_eq!(f.asset, "unknown");
    assert_eq!(f.date, "");
    assert_eq!(f.status, Status::Open);
    assert!(f.description.contains("Stack smash"));
}

#[test]
fn test_parse_no_frontmatter() {
    let md = "Just a raw description.\n";
    let f = parse_finding_md(md, "raw-finding").unwrap();
    assert_eq!(f.title, "raw-finding");
    assert!(f.description.contains("Just a raw description"));
}

#[test]
fn parse_finding_unclosed_front_matter() {
    let f = parse_finding_md("---\ntitle: X\nbody", "s").unwrap();
    assert_eq!(f.title, "s");
    assert_eq!(f.description, "---\ntitle: X\nbody");
}

#[test]
fn parse_finding_status_and_unknown_severity() {
    let f = parse_finding_md("---\nseverity: extreme\nstatus: In Progress\n# note\n---\nx", "s").unwrap();
    assert_eq!(f.severity, Severity::Info);
    assert_eq!(f.status, Status::InProgress);
    assert_eq!(f.description, "x");
}

#[test]
fn test_normalise_asset() {
    assert_eq!(normalise_asset("Web App"), "web_app");
    assert_eq!(normalise_asset("  API Server  "), "api_server");
    assert_eq!(normalise_asset("My  Cool  App"), "my_cool_app");
    assert_eq!(normalise_asset("already_ok"), "already_ok");
    assert_eq!(normalise_asset(""), "unknown");
}

#[test]
fn normalise_lowered_exact() {
    assert_eq!(normalise_lowered("__a--b__"), "a_b");
    assert_eq!(normalise_lowered("--"), "unknown");
    assert_eq!(normalise_lowered("A b"), "A_b");
}

#[test]
fn test_extract_field() {
    assert_eq!(extract_field("- **Description:** some desc", "description"), Some("some desc".into()));
    assert_eq!(extract_field("- **Contact:** admin@corp.com", "contact"), Some("admin@corp.com".into()));
    assert_eq!(extract_field("random line", "severity"), None);
}

#[test]
fn extract_field_lowered_plain_form() {
    assert_eq!(extract_field_lowered("- Owner: Ann", "- owner: ann", "owner"), Some("Ann".into()));
    assert_eq!(extract_field_lowered("- Owner: Ann", "- Owner: Ann", "owner"), None);
}

#[test]
fn severity_and_status_labels() {
    assert_eq!(severity_from_label("CRITICAL"), Some(Severity::Critical));
    assert_eq!(severity_from_label("Informational"), Some(Severity::Info));
    assert_eq!(severity_from_label("nope"), None);
    assert_eq!(status_from_label("False Positive"), Some(Status::FalsePositive));
    assert_eq!(status_from_label("open"), Some(Status::Open));
    assert_eq!(status_from_label("closed"), None);
}

#[test]
fn asset_markdown_round_trip() {
    let md = "# Web Portal\n\n- **Description:** Portal\n- **Contact:** ops@x\n- **Criticality:** High\n- **DNS/IP:** 10.0.0.1\n";
    let a = parse_asset_md(md).unwrap();
    assert_eq!(a.name, "web_portal");
    assert_eq!(a.description, "Portal");
    assert_eq!(a.contact, "ops@x");
    assert_eq!(a.criticality, "High");
    assert_eq!(a.dns_or_ip, "10.0.0.1");
    let again = parse_asset_md(&render_asset_md(&a)).unwrap();
    assert_eq!(again.name, a.name);
    assert_eq!(again.dns_or_ip, a.dns_or_ip);
}

#[test]
fn asset_without_heading_refused() {
    assert!(matches!(parse_asset_md("- **Contact:** x"), Err(ImportError::ParseError(_))));
}

#[test]
fn render_asset_md_exact() {
    let a = Asset::new("n").with_contact("c");
    assert_eq!(
        render_asset_md(&a),
        "# n\n\n- **Description:** -\n- **Contact:** c\n- **Criticality:** -\n- **DNS/IP:** -\n"
    );
}

#[test]
fn front_matter_keys() {
    let mut f = FrontMatter {
        title: "t".into(),
        severity: Severity::Info,
        asset: "unknown".into(),
        date: String::new(),
        location: String::new(),
        status: Status::Open,
    };
    f.set_field("severity", "HIGH");
    f.set_field("asset", "Big Portal");
    f.set_field("status", "false positive");
    f.set_field("date", "2026/02/01");
    f.set_field("owner", "nobody");
    f.set_field("Title", "ignored: keys arrive lower-cased");
    assert_eq!(f.severity, Severity::High);
    assert_eq!(f.asset, "big_portal");
    assert_eq!(f.status, Status::FalsePositive);
    assert_eq!(f.date, "2026/02/01");
    assert_eq!(f.title, "t");
    f.set_field("severity", "extreme");
    assert_eq!(f.severity, Severity::Info);
}
