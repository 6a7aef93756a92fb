use web_scraper::error::ScraperError;
use web_scraper::models::PageData;

#[test]
fn test_new_page_is_blank() {
    let page = PageData::new("https://example.com".to_string());
    assert_eq!(page.url, "https://example.com");
    assert_eq!(page.title, None);
    assert_eq!(page.meta_description, None);
    assert!(page.headings.is_empty());
    assert!(page.links.is_empty());
}

#[test]
fn test_error_page_is_blank() {
    let page = PageData::error("https://example.com/missing".to_string());
    assert_eq!(page.url, "https://example.com/missing");
    assert_eq!(page.title, None);
    assert_eq!(page.meta_description, None);
    assert!(page.headings.is_empty());
    assert!(page.links.is_empty());
}

#[test]
fn test_error_messages_name_their_kind() {
    let detail = "broken".to_string();
    assert_eq!(ScraperError::RequestError(detail.clone()).message(), "Request error: broken");
    assert_eq!(ScraperError::HtmlParseError(detail.clone()).message(), "HTML parse error: broken");
    assert_eq!(ScraperError::IoError(detail.clone()).message(), "IO error: broken");
    assert_eq!(ScraperError::JsonError(detail.clone()).message(), "JSON error: broken");
    assert_eq!(ScraperError::CsvError(detail).message(), "CSV error: broken");
    assert_eq!(ScraperError::IoError(String::new()).message(), "IO error: ");
}
