use web_scraper::error::ScraperError;
use web_scraper::markup::{outgrows, Element, MAX_BUFFER_LENGTH};
use web_scraper::parser::HtmlParser;

fn sample_html() -> &'static str {
    r#"
        <html>
            <head>
                <title>  Rust Programming  </title>
                <meta name="description" content="Learn Rust programming language">
            </head>
            <body>
                <h1>Welcome to Rust</h1>
                <h2>Getting Started</h2>
                <h3>Installation</h3>
                <a href="https://rust-lang.org">Official Site</a>
                <a href="/docs">Documentation</a>
                <a>Link without href</a>
            </body>
        </html>
        "#
}

#[test]
fn test_parse_returns_correct_url() {
    let html = sample_html();
    let result = HtmlParser::parse(html, "https://test.com".to_string()).unwrap();
    assert_eq!(result.url, "https://test.com");
}

#[test]
fn test_extract_title() {
    let html = sample_html();
    let result = HtmlParser::parse(html, "https://test.com".to_string()).unwrap();
    assert_eq!(result.title, Some("Rust Programming".to_string()));
}

#[test]
fn test_extract_title_missing() {
    let html = r#"<html><head></head></html>"#;
    let result = HtmlParser::parse(html, "https://test.com".to_string()).unwrap();
    assert_eq!(result.title, None);
}

#[test]
fn test_extract_meta_description() {
    let html = sample_html();
    let result = HtmlParser::parse(html, "https://test.com".to_string()).unwrap();
    assert_eq!(
        result.meta_description,
        Some("Learn Rust programming language".to_string())
    );
}

#[test]
fn test_extract_headings() {
    let html = sample_html();
    let result = HtmlParser::parse(html, "https://test.com".to_string()).unwrap();
    assert_eq!(result.headings.len(), 3);
    assert_eq!(result.headings[0].level, "h1");
    assert_eq!(result.headings[0].text, "Welcome to Rust");
    assert_eq!(result.headings[1].level, "h2");
    assert_eq!(result.headings[1].text, "Getting Started");
    assert_eq!(result.headings[2].level, "h3");
    assert_eq!(result.headings[2].text, "Installation");
}

#[test]
fn test_extract_links_ignores_missing_href() {
    let html = sample_html();
    let result = HtmlParser::parse(html, "https://test.com".to_string()).unwrap();
    assert_eq!(result.links.len(), 2);
    assert_eq!(result.links[0].href, "https://rust-lang.org");
    assert_eq!(result.links[0].text, Some("Official Site".to_string()));
    assert_eq!(result.links[1].href, "/docs");
    assert_eq!(result.links[1].text, Some("Documentation".to_string()));
}

#[test]
fn test_missing_title_and_description_are_absent() {
    let html = "<html><head></head><body><p>nothing to see</p></body></html>";
    let result = HtmlParser::parse(html, "https://test.com".to_string()).unwrap();
    assert_eq!(result.title, None);
    assert_eq!(result.meta_description, None);
    assert!(result.headings.is_empty());
    assert!(result.links.is_empty());
}

#[test]
fn test_empty_title_is_present_and_empty() {
    let html = "<html><head><title></title><meta name=\"description\" content=\"\"></head></html>";
    let result = HtmlParser::parse(html, "https://test.com".to_string()).unwrap();
    assert_eq!(result.title, Some(String::new()));
    assert_eq!(result.meta_description, Some(String::new()));
}

#[test]
fn test_empty_markup_gives_a_blank_record() {
    let result = HtmlParser::parse("", "https://test.com".to_string()).unwrap();
    assert_eq!(result.url, "https://test.com");
    assert_eq!(result.title, None);
    assert_eq!(result.meta_description, None);
    assert!(result.headings.is_empty());
    assert!(result.links.is_empty());
}

#[test]
fn test_first_title_wins() {
    let html = "<html><head><title>First</title><title>Second</title></head></html>";
    let result = HtmlParser::parse(html, "https://test.com".to_string()).unwrap();
    assert_eq!(result.title, Some("First".to_string()));
}

#[test]
fn test_description_without_content_is_absent() {
    let html = "<html><head><meta name=\"description\"><meta name=\"description\" content=\"later\"></head></html>";
    let result = HtmlParser::parse(html, "https://test.com".to_string()).unwrap();
    assert_eq!(result.meta_description, None);
}

#[test]
fn test_other_meta_tags_are_ignored() {
    let html = "<html><head><meta name=\"keywords\" content=\"a, b\"></head></html>";
    let result = HtmlParser::parse(html, "https://test.com".to_string()).unwrap();
    assert_eq!(result.meta_description, None);
}

#[test]
fn test_anchor_without_text_has_no_text() {
    let html = "<a href=\"/empty\"></a><a href=\"/blank\">  \n\t </a><a>no target</a><a href=\"/kept\"> kept </a>";
    let result = HtmlParser::parse(html, "https://test.com".to_string()).unwrap();
    assert_eq!(result.links.len(), 3);
    assert_eq!(result.links[0].href, "/empty");
    assert_eq!(result.links[0].text, None);
    assert_eq!(result.links[1].href, "/blank");
    assert_eq!(result.links[1].text, None);
    assert_eq!(result.links[2].href, "/kept");
    assert_eq!(result.links[2].text, Some("kept".to_string()));
}

#[test]
fn test_anchor_with_empty_target_is_a_link() {
    let html = "<a href=\"\">here</a>";
    let result = HtmlParser::parse(html, "https://test.com".to_string()).unwrap();
    assert_eq!(result.links.len(), 1);
    assert_eq!(result.links[0].href, "");
    assert_eq!(result.links[0].text, Some("here".to_string()));
}

#[test]
fn test_heading_text_joins_what_is_nested() {
    let html = "<h4>  Deep <em>and</em> nested </h4><h6>last</h6><h5></h5>";
    let result = HtmlParser::parse(html, "https://test.com".to_string()).unwrap();
    assert_eq!(result.headings.len(), 3);
    assert_eq!(result.headings[0].level, "h4");
    assert_eq!(result.headings[0].text, "Deep and nested");
    assert_eq!(result.headings[1].level, "h6");
    assert_eq!(result.headings[1].text, "last");
    assert_eq!(result.headings[2].level, "h5");
    assert_eq!(result.headings[2].text, "");
}

#[test]
fn test_trimming_removes_unicode_white_space_only() {
    let html = "<html><head><title>\u{2003}\u{a0}wide\u{3000}space\u{2028}\u{85}</title></head><body><h1>\u{200b}zero width stays\u{200b}</h1></body></html>";
    let result = HtmlParser::parse(html, "https://test.com".to_string()).unwrap();
    assert_eq!(result.title, Some("wide\u{3000}space".to_string()));
    assert_eq!(result.headings[0].text, "\u{200b}zero width stays\u{200b}");
}

#[test]
fn test_extract_from_given_elements() {
    let elements = vec![
        Element { name: "a".to_string(), text: " one ".to_string(), attribute: Some("/1".to_string()) },
        Element { name: "a".to_string(), text: "two".to_string(), attribute: None },
        Element { name: "a".to_string(), text: " ".to_string(), attribute: Some("/3".to_string()) },
    ];
    assert_eq!(HtmlParser::extract_title(&elements), Some("one".to_string()));
    assert_eq!(HtmlParser::extract_meta_description(&elements), Some("/1".to_string()));
    let headings = HtmlParser::extract_headings(&elements);
    assert_eq!(headings.len(), 3);
    assert_eq!(headings[1].level, "a");
    assert_eq!(headings[1].text, "two");
    assert_eq!(headings[2].text, "");
    let links = HtmlParser::extract_links(&elements);
    assert_eq!(links.len(), 2);
    assert_eq!(links[0].href, "/1");
    assert_eq!(links[0].text, Some("one".to_string()));
    assert_eq!(links[1].href, "/3");
    assert_eq!(links[1].text, None);
    let nothing: Vec<Element> = Vec::new();
    assert_eq!(HtmlParser::extract_title(&nothing), None);
    assert_eq!(HtmlParser::extract_meta_description(&nothing), None);
    assert!(HtmlParser::extract_headings(&nothing).is_empty());
    assert!(HtmlParser::extract_links(&nothing).is_empty());
}

#[test]
fn test_assemble_reports_the_first_refused_selector() {
    let found: Vec<Element> = Vec::new();
    let refused = HtmlParser::assemble(
        "https://test.com".to_string(),
        Some(found.clone()),
        None,
        Some(found.clone()),
        None,
    );
    match refused {
        Err(ScraperError::HtmlParseError(detail)) => {
            assert_eq!(detail, "invalid selector: meta[name=\"description\"]")
        }
        other => panic!("unexpected result: {:?}", other),
    }
    let page = HtmlParser::assemble(
        "https://test.com".to_string(),
        Some(found.clone()),
        Some(found.clone()),
        Some(found.clone()),
        Some(found),
    )
    .unwrap();
    assert_eq!(page.url, "https://test.com");
    assert_eq!(page.title, None);
}

#[test]
fn test_document_over_the_limit_is_refused() {
    let html = " ".repeat(MAX_BUFFER_LENGTH + 1);
    match HtmlParser::parse(&html, "https://test.com".to_string()) {
        Err(ScraperError::HtmlParseError(detail)) => assert_eq!(detail, "document too long"),
        other => panic!("unexpected result: {:?}", other.map(|page| page.url)),
    }
}

#[test]
fn test_outgrows_counts_what_may_grow() {
    assert!(!outgrows(b"", 0));
    assert!(outgrows(b"a", 0));
    assert!(!outgrows(b"abc", 3));
    assert!(outgrows(b"abcd", 3));
    assert!(outgrows(b"a\0b", 4));
    assert!(!outgrows(b"a\0b", 5));
    assert!(outgrows(b"a&b", 3));
    assert!(!outgrows(b"a&b", 4));
    assert!(outgrows(b"\0\0&&", 9));
    assert!(!outgrows(b"\0\0&&", 10));
    assert!(!outgrows(b"\0\0&&", 12));
    assert!(outgrows("\u{e9}\u{20ac}&".as_bytes(), 6));
    assert!(!outgrows("\u{e9}\u{20ac}&".as_bytes(), 7));
}

#[test]
fn test_null_characters_and_references_are_parsed() {
    let html = "<title>a\0b &amp; &nGt;</title><a href=\"/x?a=1&amp;b=2\">&lt;go&gt;</a>";
    let result = HtmlParser::parse(html, "https://test.com".to_string()).unwrap();
    assert_eq!(result.title, Some("a\u{fffd}b & \u{226b}\u{20d2}".to_string()));
    assert_eq!(result.links.len(), 1);
    assert_eq!(result.links[0].href, "/x?a=1&b=2");
    assert_eq!(result.links[0].text, Some("<go>".to_string()));
}

#[test]
fn test_deeply_nested_document_is_parsed() {
    let depth = 10_000;
    let html = format!("{}<a href=\"/deep\">deep</a>{}", "<div>".repeat(depth), "</div>".repeat(depth));
    let result = HtmlParser::parse(&html, "https://test.com".to_string()).unwrap();
    assert_eq!(result.links.len(), 1);
    assert_eq!(result.links[0].href, "/deep");
    assert_eq!(result.links[0].text, Some("deep".to_string()));
    assert_eq!(result.title, None);
}
