use web_scraper::models::{Heading, Link, PageData};
use web_scraper::output::{
    csv_header, csv_row, csv_rows, decimal_string, encode_table, write_csv,
};

fn sample_data() -> Vec<PageData> {
    vec![
        PageData {
            url: "https://example.com".to_string(),
            title: Some("Example".to_string()),
            meta_description: Some("An example".to_string()),
            headings: vec![Heading {
                level: "h1".to_string(),
                text: "Hello".to_string(),
            }],
            links: vec![Link {
                href: "https://rust-lang.org".to_string(),
                text: Some("Rust".to_string()),
            }],
        },
        PageData {
            url: "https://test.com".to_string(),
            title: None,
            meta_description: None,
            headings: vec![],
            links: vec![],
        },
    ]
}

#[test]
fn test_write_csv_content() {
    let data = sample_data();
    let bytes = write_csv(&data).unwrap();
    let content = String::from_utf8(bytes).unwrap();
    assert!(content.contains("https://example.com"));
    assert_eq!(
        content,
        "url,title,meta_description,headings_count,links_count\n\
         https://example.com,Example,An example,1,1\n\
         https://test.com,,,0,0\n"
    );
}

#[test]
fn test_write_csv_of_nothing_is_the_header() {
    let bytes = write_csv(&[]).unwrap();
    assert_eq!(
        String::from_utf8(bytes).unwrap(),
        "url,title,meta_description,headings_count,links_count\n"
    );
}

#[test]
fn test_write_csv_quotes_what_needs_it() {
    let mut page = PageData::new("https://example.com/?a=1,2".to_string());
    page.title = Some("He said \"hi\"".to_string());
    page.meta_description = Some("two\nlines".to_string());
    let content = String::from_utf8(write_csv(&[page]).unwrap()).unwrap();
    assert_eq!(
        content,
        "url,title,meta_description,headings_count,links_count\n\
         \"https://example.com/?a=1,2\",\"He said \"\"hi\"\"\",\"two\nlines\",0,0\n"
    );
}

#[test]
fn test_csv_header_names_the_columns() {
    assert_eq!(
        csv_header(),
        vec!["url", "title", "meta_description", "headings_count", "links_count"]
    );
}

#[test]
fn test_csv_row_counts_in_decimal() {
    let mut page = PageData::new("https://example.com".to_string());
    for i in 0..12 {
        page.headings.push(Heading { level: "h2".to_string(), text: format!("part {}", i) });
    }
    for i in 0..105 {
        page.links.push(Link { href: format!("/{}", i), text: None });
    }
    assert_eq!(csv_row(&page), vec!["https://example.com", "", "", "12", "105"]);
}

#[test]
fn test_csv_row_keeps_present_fields() {
    let data = sample_data();
    assert_eq!(
        csv_row(&data[0]),
        vec!["https://example.com", "Example", "An example", "1", "1"]
    );
    assert_eq!(csv_row(&data[1]), vec!["https://test.com", "", "", "0", "0"]);
}

#[test]
fn test_csv_rows_start_with_the_header() {
    let data = sample_data();
    let rows = csv_rows(&data);
    assert_eq!(rows.len(), 3);
    assert_eq!(rows[0], csv_header());
    assert_eq!(rows[1], csv_row(&data[0]));
    assert_eq!(rows[2], csv_row(&data[1]));
    assert_eq!(csv_rows(&[]), vec![csv_header()]);
}

#[test]
fn test_encode_table_joins_the_records() {
    let rows = vec![
        vec!["a".to_string(), "b".to_string()],
        vec!["".to_string(), "c d".to_string()],
    ];
    assert_eq!(encode_table(&rows).unwrap(), b"a,b\n,c d\n".to_vec());
    assert_eq!(encode_table(&Vec::new()).unwrap(), Vec::<u8>::new());
}

#[test]
fn test_decimal_string_is_what_std_prints() {
    for n in [0usize, 1, 9, 10, 11, 99, 100, 101, 4096, 65535, 1_000_000, 715_827_882] {
        assert_eq!(decimal_string(n), n.to_string());
    }
    assert_eq!(decimal_string(0), "0");
    assert_eq!(decimal_string(7), "7");
    assert_eq!(decimal_string(10), "10");
    assert_eq!(decimal_string(1203), "1203");
    assert_eq!(decimal_string(usize::MAX), usize::MAX.to_string());
}
