use lit::api::unpaywall::{parse_response, pdf_url};

#[test]
fn test_parse_response_with_pdf_url() {
    let body = r#"{
        "title": "Attention Is All You Need",
        "best_oa_location": {
            "url_for_pdf": "https://arxiv.org/pdf/1706.03762",
            "url": "https://arxiv.org/abs/1706.03762"
        }
    }"#;
    let r = parse_response(body).unwrap();
    assert_eq!(r.title, "Attention Is All You Need");
    assert_eq!(r.pdf_url.as_deref(), Some("https://arxiv.org/pdf/1706.03762"));
}

#[test]
fn test_parse_response_fallback_to_url() {
    let body = r#"{
        "title": "Some Paper",
        "best_oa_location": {
            "url": "https://example.com/paper"
        }
    }"#;
    let r = parse_response(body).unwrap();
    assert_eq!(r.pdf_url.as_deref(), Some("https://example.com/paper"));
}

#[test]
fn test_parse_response_no_oa_location() {
    let body = r#"{
        "title": "Paywalled Paper",
        "best_oa_location": null
    }"#;
    let r = parse_response(body).unwrap();
    assert_eq!(r.title, "Paywalled Paper");
    assert!(r.pdf_url.is_none());
}

#[test]
fn test_parse_response_missing_title() {
    let body = r#"{
        "best_oa_location": null
    }"#;
    let r = parse_response(body).unwrap();
    assert_eq!(r.title, "N/A");
}

#[test]
fn pdf_url_carries_doi_and_email() {
    assert_eq!(
        pdf_url("10.1000/xyz", "me@example.org"),
        "https://api.unpaywall.org/v2/10.1000/xyz?email=me@example.org"
    );
}
