use opml_manager::feed::Feed;
use opml_manager::report::format_markdown_report;

fn create_test_feed(title: &str, url: &str) -> Feed {
    Feed::new(title.to_string(), url.to_string(), None, vec![])
}

fn create_test_feed_with_categories(title: &str, url: &str, categories: Vec<&str>) -> Feed {
    Feed::new(
        title.to_string(),
        url.to_string(),
        None,
        categories.into_iter().map(String::from).collect(),
    )
}

#[test]
fn test_empty_feed_list() {
    let feeds: Vec<Feed> = vec![];
    let seen_urls: Vec<String> = vec![];
    let duplicates: Vec<Feed> = vec![];
    let categories: Vec<String> = vec![];
    let domain_counter: Vec<(String, usize)> = vec![];

    let report = format_markdown_report(
        &feeds,
        &seen_urls,
        &duplicates,
        &categories,
        &domain_counter,
    );

    assert!(report.contains("# OPML Analysis Report"));
    assert!(report.contains("Total Feeds: 0"));
    assert!(report.contains("No duplicate feeds found"));
    assert!(report.contains("No categories found"));
}

#[test]
fn test_special_characters() {
    let feed = create_test_feed(
        "Test & Feed with < > Special \"Chars\"",
        "http://example.com/feed.xml",
    );
    let feeds = vec![feed];

    let seen_urls = vec!["http://example.com/feed.xml".to_string()];

    let duplicates: Vec<Feed> = vec![];
    let categories: Vec<String> = vec![];
    let domain_counter = vec![("example.com".to_string(), 1usize)];

    let report = format_markdown_report(
        &feeds,
        &seen_urls,
        &duplicates,
        &categories,
        &domain_counter,
    );

    // Debug print the report content
    println!("Report content:");
    println!("{}", report);

    assert!(report.contains("Test &amp; Feed with &lt; &gt; Special &quot;Chars&quot;"));
}

#[test]
fn test_duplicate_statistics() {
    let feed1 = create_test_feed("Feed 1", "http://example.com/feed.xml");
    let feed2 = create_test_feed("Feed 2", "http://example.com/feed.xml");
    let feeds = vec![feed1.clone(), feed2];

    let seen_urls = vec!["http://example.com/feed.xml".to_string()];

    let duplicates = vec![feed1];
    let categories: Vec<String> = vec![];
    let domain_counter = vec![("example.com".to_string(), 2usize)];

    let report = format_markdown_report(
        &feeds,
        &seen_urls,
        &duplicates,
        &categories,
        &domain_counter,
    );

    assert!(report.contains("Duplicate Feeds Found"));
    assert!(report.contains("Feed 1"));
    assert!(report.contains("Total Feeds: 2"));
}

#[test]
fn test_category_grouping() {
    let feed1 = create_test_feed_with_categories(
        "Tech Feed",
        "http://tech.com/feed.xml",
        vec!["Technology", "News"],
    );
    let feed2 =
        create_test_feed_with_categories("News Feed", "http://news.com/feed.xml", vec!["News"]);
    let feeds = vec![feed1, feed2];

    let seen_urls = vec![
        "http://tech.com/feed.xml".to_string(),
        "http://news.com/feed.xml".to_string(),
    ];

    let duplicates: Vec<Feed> = vec![];
    let categories = vec!["Technology".to_string(), "News".to_string()];

    let domain_counter = vec![("tech.com".to_string(), 1usize), ("news.com".to_string(), 1usize)];

    let report = format_markdown_report(
        &feeds,
        &seen_urls,
        &duplicates,
        &categories,
        &domain_counter,
    );

    assert!(report.contains("Categories Found: 2"));
    assert!(report.contains("Technology"));
    assert!(report.contains("News"));
    assert!(report.contains("tech.com"));
    assert!(report.contains("news.com"));
}

#[test]
fn test_nested_categories_in_report() {
    let feed1 = create_test_feed_with_categories(
        "Tech Feed",
        "http://tech.com/feed.xml",
        vec!["Technology", "News"],
    );
    let feed2 = create_test_feed_with_categories(
        "Sub Tech Feed",
        "http://subtech.com/feed.xml",
        vec!["Technology", "News", "Subcategory"],
    );
    let feeds = vec![feed1, feed2];

    let seen_urls = vec![
        "http://tech.com/feed.xml".to_string(),
        "http://subtech.com/feed.xml".to_string(),
    ];

    let duplicates: Vec<Feed> = vec![];
    let categories = vec![
        "Technology".to_string(),
        "News".to_string(),
        "Subcategory".to_string(),
    ];

    let domain_counter = vec![
        ("tech.com".to_string(), 1usize),
        ("subtech.com".to_string(), 1usize),
    ];

    let report = format_markdown_report(
        &feeds,
        &seen_urls,
        &duplicates,
        &categories,
        &domain_counter,
    );

    assert!(report.contains("Categories Found: 3"));
    assert!(report.contains("Technology"));
    assert!(report.contains("News"));
    assert!(report.contains("Subcategory"));
    assert!(report.contains("tech.com"));
    assert!(report.contains("subtech.com"));
}
