use lit::api::openalex::{parse_search, parse_work, work_by_doi_url};
use lit::sanitize::decode_html_entities;

#[test]
fn openalex_test_parse_search_basic() {
    let body = r#"{
        "results": [
            {
                "title": "Attention Is All You Need",
                "publication_year": 2017,
                "authorships": [
                    {"author": {"display_name": "Ashish Vaswani"}},
                    {"author": {"display_name": "Noam Shazeer"}}
                ],
                "cited_by_count": 90000,
                "doi": "https://doi.org/10.5555/3295222.3295349"
            }
        ]
    }"#;
    let results = parse_search(body).unwrap();
    assert_eq!(results.len(), 1);
    let r = &results[0];
    assert_eq!(r.title, "Attention Is All You Need");
    assert_eq!(r.year, "2017");
    assert_eq!(r.authors, vec!["Vaswani", "Shazeer"]);
    assert_eq!(r.citations, Some(90000));
    assert_eq!(r.doi.as_deref(), Some("10.5555/3295222.3295349"));
}

#[test]
fn test_parse_search_strips_html_tags() {
    let body = r#"{
        "results": [
            {
                "title": "A <i>Bold</i> Claim &amp; More",
                "publication_year": 2020,
                "authorships": [],
                "doi": null
            }
        ]
    }"#;
    let results = parse_search(body).unwrap();
    assert_eq!(results[0].title, "A Bold Claim & More");
}

#[test]
fn test_parse_search_empty_results() {
    let body = r#"{"results": []}"#;
    let results = parse_search(body).unwrap();
    assert!(results.is_empty());
}

#[test]
fn openalex_test_parse_search_missing_optional_fields() {
    let body = r#"{
        "results": [
            {
                "title": "Minimal"
            }
        ]
    }"#;
    let results = parse_search(body).unwrap();
    let r = &results[0];
    assert_eq!(r.title, "Minimal");
    assert_eq!(r.year, "?");
    assert!(r.authors.is_empty());
    assert!(r.doi.is_none());
    assert!(r.citations.is_none());
}

#[test]
fn test_parse_search_doi_stripping() {
    let body = r#"{
        "results": [
            {
                "title": "Test",
                "doi": "https://doi.org/10.1234/test"
            }
        ]
    }"#;
    let results = parse_search(body).unwrap();
    assert_eq!(results[0].doi.as_deref(), Some("10.1234/test"));
}

#[test]
fn test_work_by_doi_url() {
    let url = work_by_doi_url("10.1234/test");
    assert_eq!(url, "https://api.openalex.org/works/doi:10.1234/test");
}

#[test]
fn test_parse_work_full() {
    let body = r#"{
        "id": "https://openalex.org/W123",
        "cited_by_count": 42,
        "open_access": {
            "oa_url": "https://example.com/paper.pdf"
        }
    }"#;
    let r = parse_work(body).unwrap();
    assert_eq!(r.openalex_id.as_deref(), Some("https://openalex.org/W123"));
    assert_eq!(r.citations, Some(42));
    assert_eq!(r.oa_url.as_deref(), Some("https://example.com/paper.pdf"));
}

#[test]
fn test_parse_work_minimal() {
    let body = r#"{}"#;
    let r = parse_work(body).unwrap();
    assert!(r.openalex_id.is_none());
    assert!(r.citations.is_none());
    assert!(r.oa_url.is_none());
}

#[test]
fn openalex_test_decode_html_entities() {
    assert_eq!(decode_html_entities("A &amp; B"), "A & B");
    assert_eq!(decode_html_entities("&lt;tag&gt;"), "<tag>");
    assert_eq!(decode_html_entities("it&#39;s"), "it's");
    assert_eq!(decode_html_entities("it&#x27;s"), "it's");
    assert_eq!(decode_html_entities("it&apos;s"), "it's");
    assert_eq!(decode_html_entities("&quot;hi&quot;"), "\"hi\"");
}
