//! Exact-value checks for the pure formatting, normalization and
//! classification functions, and for the list-browsing helpers.

use opml_manager::classify::{classify, Classification};
use opml_manager::error::OPMLError;
use opml_manager::feed::Feed;
use opml_manager::numfmt::u64_to_string;
use opml_manager::opml::{generate_opml_with_date, normalize_url};
use opml_manager::report::{dedupe_feeds, escape_special_chars, format_markdown_report_with_date, generate_summary};
use opml_manager::tui::{categorize_feeds, next_index, previous_index};
use opml_manager::validation::{format_validation_report_with_date, ValidationResult};

#[test]
fn test_decimal_rendering_exact() {
    assert_eq!(u64_to_string(0), "0");
    assert_eq!(u64_to_string(7), "7");
    assert_eq!(u64_to_string(12345), "12345");
    assert_eq!(u64_to_string(u64::MAX), "18446744073709551615");
}

#[test]
fn test_escape_special_chars_exact() {
    assert_eq!(escape_special_chars("&<>\"x"), "&amp;&lt;&gt;&quot;x");
    assert_eq!(escape_special_chars(""), "");
    assert_eq!(escape_special_chars("plain"), "plain");
}

#[test]
fn test_normalize_url_exact() {
    assert_eq!(normalize_url("HTTP://Example.com/Feed/"), "https://example.com/feed");
    assert_eq!(normalize_url("https://example.com/feed"), "https://example.com/feed");
    assert_eq!(normalize_url("Feed/"), "feed");
    assert_eq!(normalize_url(""), "");
}

#[test]
fn test_classify_rss_and_atom() {
    let rss = classify(r#"<rss version="2.0"><channel><title>T</title></channel></rss>"#);
    assert!(matches!(rss, Classification::Rss));

    let atom = classify(r#"<feed xmlns="http://www.w3.org/2005/Atom"><title>T</title></feed>"#);
    assert!(matches!(atom, Classification::Atom));

    let neither = classify("<note><body>x</body></note>");
    match neither {
        Classification::NeitherWithReason(msg) => {
            assert_eq!(msg, "Document is not a valid RSS or Atom feed");
        },
        _ => panic!("an arbitrary document is not a feed"),
    }
}

#[test]
fn test_classify_is_idempotent() {
    let text = r#"<rss version="2.0"><channel><title>T</title></channel></rss>"#;
    let first = format!("{:?}", classify(text));
    let second = format!("{:?}", classify(text));
    assert_eq!(first, second);

    let broken = "<rss><broken>";
    let first_err = format!("{:?}", classify(broken));
    let second_err = format!("{:?}", classify(broken));
    assert_eq!(first_err, second_err);
}

#[test]
fn test_error_messages_exact() {
    assert_eq!(
        OPMLError::CategoryNestingTooDeep(100).message(),
        "Category nesting too deep: maximum depth is 100 levels"
    );
    assert_eq!(OPMLError::NoBodyTag.message(), "No body tag found in OPML");
    assert_eq!(
        OPMLError::XMLParsing("unexpected end of stream".to_string()).message(),
        "XML parsing error: unexpected end of stream"
    );
    assert_eq!(
        OPMLError::InvalidStructure("x".to_string()).message(),
        "Invalid OPML structure: x"
    );
    assert_eq!(OPMLError::Io("gone".to_string()).message(), "IO error: gone");
    assert_eq!(OPMLError::Http("503".to_string()).message(), "HTTP error: 503");
    assert_eq!(
        OPMLError::ValidationError("v".to_string()).message(),
        "Feed validation error: v"
    );
    assert_eq!(
        OPMLError::UrlParsing("bad".to_string()).message(),
        "URL parsing error: bad"
    );
    assert_eq!(
        OPMLError::FeedAttributeError("a".to_string()).message(),
        "Feed attribute error: a"
    );
    assert_eq!(
        OPMLError::FeedParsingError("p".to_string()).message(),
        "Feed parsing error: p"
    );
    assert_eq!(
        OPMLError::ResponseParsingError("r".to_string()).message(),
        "Response parsing error: r"
    );
}

#[test]
fn test_generate_opml_exact_document() {
    let feeds = vec![Feed::new(
        "T".to_string(),
        "http://a/x".to_string(),
        None,
        vec![],
    )];
    let out = generate_opml_with_date(&feeds, "Mon, 01 Jan 2024 00:00:00 +0000");
    let expected = "<?xml version=\"1.0\" encoding=\"UTF-8\"?>\n<opml version=\"2.0\">\n  <head>\n    <title>Feed List</title>\n    <dateCreated>Mon, 01 Jan 2024 00:00:00 +0000</dateCreated>\n  </head>\n  <body>\n    <outline type=\"rss\" text=\"T\" title=\"T\" xmlUrl=\"http://a/x\"/>\\n  </body>\n</opml>";
    assert_eq!(out, expected);
}

#[test]
fn test_generate_opml_exact_categorized() {
    let feeds = vec![Feed::new(
        "T".to_string(),
        "http://a/x".to_string(),
        Some("http://a".to_string()),
        vec!["C".to_string()],
    )];
    let out = generate_opml_with_date(&feeds, "D");
    let expected = "<?xml version=\"1.0\" encoding=\"UTF-8\"?>\n<opml version=\"2.0\">\n  <head>\n    <title>Feed List</title>\n    <dateCreated>D</dateCreated>\n  </head>\n  <body>\n    <outline text=\"C\">\n      <outline type=\"rss\" text=\"T\" title=\"T\" xmlUrl=\"http://a/x\" htmlUrl=\"http://a\"/>\\n    </outline>\n  </body>\n</opml>";
    assert_eq!(out, expected);
}

#[test]
fn test_markdown_report_exact_for_empty_input() {
    let feeds: Vec<Feed> = vec![];
    let seen: Vec<String> = vec![];
    let dups: Vec<Feed> = vec![];
    let cats: Vec<String> = vec![];
    let domains: Vec<(String, usize)> = vec![];
    let report = format_markdown_report_with_date(
        &feeds,
        &seen,
        &dups,
        &cats,
        &domains,
        "2024-01-01 00:00:00",
    );
    let expected = "# OPML Analysis Report\n\nGenerated on: 2024-01-01 00:00:00\n\n## Summary\n\nTotal Feeds: 0\nUnique Feeds: 0\nCategories Found: 0\nUnique Domains: 0\n\nNo categories found\n\n## Top Domains\n\n| Domain | Feed Count |\n|--------|------------|\n\nNo duplicate feeds found\n\n## All Feeds\n\n\n";
    assert_eq!(report, expected);
}

#[test]
fn test_markdown_report_sorts_counts_descending() {
    let feeds = vec![
        Feed::new("A".to_string(), "http://a/1".to_string(), None, vec!["X".to_string()]),
        Feed::new("B".to_string(), "http://a/2".to_string(), None, vec!["Y".to_string()]),
        Feed::new("C".to_string(), "http://a/3".to_string(), None, vec!["Y".to_string()]),
    ];
    let seen = vec!["http://a/1".to_string(), "http://a/2".to_string(), "http://a/3".to_string()];
    let dups: Vec<Feed> = vec![];
    let cats = vec!["X".to_string(), "Y".to_string()];
    let domains = vec![("a".to_string(), 3usize)];
    let report = format_markdown_report_with_date(&feeds, &seen, &dups, &cats, &domains, "D");
    let y_pos = report.find("| Y | 2 |").expect("Y row present");
    let x_pos = report.find("| X | 1 |").expect("X row present");
    assert!(y_pos < x_pos, "the larger count comes first");
}

#[test]
fn test_validation_report_escapes_pipes_and_counts() {
    let results = vec![
        ValidationResult {
            feed: "Good".to_string(),
            url: "http://a/f".to_string(),
            status: "valid".to_string(),
            error: "".to_string(),
            categories: vec!["C1".to_string(), "C2".to_string()],
        },
        ValidationResult {
            feed: "Bad".to_string(),
            url: "http://b/f".to_string(),
            status: "error".to_string(),
            error: "weird|pipe".to_string(),
            categories: vec![],
        },
    ];
    let report = format_validation_report_with_date(&results, "feeds.opml", "D");
    assert!(report.contains("# Feed Validation Report"));
    assert!(report.contains("Source OPML: feeds.opml"));
    assert!(report.contains("- Total feeds checked: 2"));
    assert!(report.contains("- valid: 1"));
    assert!(report.contains("- error: 1"));
    assert!(report.contains("## Valid Feeds"));
    assert!(report.contains("## Error Feeds"));
    assert!(!report.contains("## Invalid Feeds"));
    assert!(report.contains("| Good | http://a/f |  | C1 > C2 |"));
    assert!(report.contains("weird\\|pipe"));
}

#[test]
fn test_dedupe_feeds_keeps_first() {
    let feeds = vec![
        Feed::new("First".to_string(), "http://A/feed".to_string(), None, vec![]),
        Feed::new("Second".to_string(), "http://a/FEED".to_string(), None, vec![]),
        Feed::new("Third".to_string(), "http://a/other".to_string(), None, vec![]),
    ];
    let unique = dedupe_feeds(&feeds);
    assert_eq!(unique.len(), 2);
    assert_eq!(unique[0].title, "First");
    assert_eq!(unique[1].title, "Third");
}

#[test]
fn test_generate_summary_domain_keys() {
    let feeds = vec![
        Feed::new("M".to_string(), "mailto:a@b".to_string(), None, vec![]),
        Feed::new("N".to_string(), "not a url".to_string(), None, vec![]),
        Feed::new("H".to_string(), "https://host.example/f".to_string(), None, vec![]),
    ];
    let (_, _, _, domain_counter) = generate_summary(&feeds);
    let unknown = domain_counter.iter().find(|p| p.0 == "unknown").map(|p| p.1);
    assert_eq!(unknown, Some(1));
    let host = domain_counter.iter().find(|p| p.0 == "host.example").map(|p| p.1);
    assert_eq!(host, Some(1));
    assert_eq!(domain_counter.len(), 2);
}

#[test]
fn test_selection_navigation_wraps() {
    assert_eq!(next_index(3, Some(0)), 1);
    assert_eq!(next_index(3, Some(2)), 0);
    assert_eq!(next_index(3, None), 0);
    assert_eq!(next_index(0, Some(0)), 0);
    assert_eq!(previous_index(3, Some(2)), 1);
    assert_eq!(previous_index(3, Some(0)), 2);
    assert_eq!(previous_index(3, None), 0);
    assert_eq!(previous_index(0, Some(0)), 0);
}

#[test]
fn test_categorize_feeds_groups_by_name() {
    let feeds = vec![
        Feed::new(
            "Tech Feed".to_string(),
            "http://t/f".to_string(),
            None,
            vec!["Technology".to_string(), "News".to_string()],
        ),
        Feed::new(
            "News Feed".to_string(),
            "http://n/f".to_string(),
            None,
            vec!["News".to_string()],
        ),
    ];
    let groups = categorize_feeds(&feeds);
    assert_eq!(groups.len(), 2);
    assert_eq!(groups[0].0, "Technology");
    assert_eq!(groups[0].1.len(), 1);
    assert_eq!(groups[1].0, "News");
    assert_eq!(groups[1].1.len(), 2);
    assert_eq!(groups[1].1[0].title, "Tech Feed");
    assert_eq!(groups[1].1[1].title, "News Feed");
}
