use lit::api::openlibrary::{parse_author, parse_edition, parse_editions_list, parse_isbn, parse_isbn_detail, parse_ol_url, parse_search, parse_work, OlKind};

#[test]
fn test_parse_isbn_basic() {
    let body = r#"{
        "ISBN:9780262039246": {
            "title": "Causality",
            "subtitle": "Models, Reasoning, and Inference",
            "authors": [
                {"name": "Judea Pearl"}
            ],
            "publishers": [
                {"name": "Cambridge University Press"}
            ],
            "publish_date": "2009",
            "identifiers": {
                "isbn_13": ["9780262039246"],
                "isbn_10": ["026203924X"]
            }
        }
    }"#;
    let r = parse_isbn(body).unwrap();
    assert_eq!(r.title, "Causality: Models, Reasoning, and Inference");
    assert_eq!(r.year, "2009");
    assert_eq!(r.authors, vec!["Judea Pearl"]);
    assert_eq!(r.venue.as_deref(), Some("Cambridge University Press"));
    assert_eq!(r.isbn.as_deref(), Some("9780262039246"));
}

#[test]
fn test_parse_isbn_no_subtitle() {
    let body = r#"{
        "ISBN:1234567890": {
            "title": "A Book",
            "authors": [],
            "publish_date": "January 2020"
        }
    }"#;
    let r = parse_isbn(body).unwrap();
    assert_eq!(r.title, "A Book");
    assert_eq!(r.year, "2020");
}

#[test]
fn test_parse_isbn_fallback_isbn_from_key() {
    let body = r#"{
        "ISBN:9781234567890": {
            "title": "Fallback Test"
        }
    }"#;
    let r = parse_isbn(body).unwrap();
    assert_eq!(r.isbn.as_deref(), Some("9781234567890"));
}

#[test]
fn test_parse_isbn_empty_response() {
    let body = r#"{}"#;
    let err = parse_isbn(body);
    assert!(err.is_err());
}

#[test]
fn test_parse_isbn_detail_basic() {
    let body = r#"{
        "ISBN:9780262039246": {
            "title": "Causality",
            "subtitle": "Models, Reasoning, and Inference",
            "authors": [
                {"name": "Judea Pearl"}
            ],
            "publishers": [
                {"name": "Cambridge University Press"}
            ],
            "publish_date": "2009",
            "identifiers": {
                "isbn_13": ["9780262039246"],
                "isbn_10": ["026203924X"]
            }
        }
    }"#;
    let d = parse_isbn_detail(body).unwrap();
    assert_eq!(d.title, "Causality");
    assert_eq!(d.subtitle.as_deref(), Some("Models, Reasoning, and Inference"));
    assert_eq!(d.authors, vec!["Judea Pearl"]);
    assert_eq!(d.publisher.as_deref(), Some("Cambridge University Press"));
    assert_eq!(d.publish_date.as_deref(), Some("2009"));
    assert_eq!(d.year, "2009");
    assert_eq!(d.isbn_13.as_deref(), Some("9780262039246"));
    assert_eq!(d.isbn_10.as_deref(), Some("026203924X"));
}

#[test]
fn test_parse_isbn_detail_no_subtitle() {
    let body = r#"{
        "ISBN:123": {
            "title": "Solo Title",
            "publish_date": "March 2015"
        }
    }"#;
    let d = parse_isbn_detail(body).unwrap();
    assert_eq!(d.title, "Solo Title");
    assert!(d.subtitle.is_none());
    assert_eq!(d.year, "2015");
    assert!(d.isbn_13.is_none());
    assert!(d.isbn_10.is_none());
}

#[test]
fn openlibrary_test_parse_search_basic() {
    let body = r#"{
        "docs": [
            {
                "title": "Causality",
                "first_publish_year": 2000,
                "author_name": ["Judea Pearl"],
                "isbn": ["9780521895606", "9780262039246"]
            }
        ]
    }"#;
    let results = parse_search(body).unwrap();
    assert_eq!(results.len(), 1);
    let r = &results[0];
    assert_eq!(r.title, "Causality");
    assert_eq!(r.year, "2000");
    assert_eq!(r.authors, vec!["Pearl"]);
    assert_eq!(r.isbn.as_deref(), Some("9780521895606"));
}

#[test]
fn openlibrary_test_parse_search_empty() {
    let body = r#"{"docs": []}"#;
    let results = parse_search(body).unwrap();
    assert!(results.is_empty());
}

#[test]
fn openlibrary_test_parse_search_missing_optional_fields() {
    let body = r#"{
        "docs": [
            {
                "title": "Unknown Book"
            }
        ]
    }"#;
    let results = parse_search(body).unwrap();
    let r = &results[0];
    assert_eq!(r.title, "Unknown Book");
    assert_eq!(r.year, "?");
    assert!(r.authors.is_empty());
    assert!(r.isbn.is_none());
}

// ── parse_ol_url ──

#[test]
fn parse_ol_url_works() {
    let p = parse_ol_url("https://openlibrary.org/works/OL1153861W").unwrap();
    assert!(matches!(p.kind, OlKind::Works));
    assert_eq!(p.id, "OL1153861W");
}

#[test]
fn parse_ol_url_books() {
    let p = parse_ol_url("https://openlibrary.org/books/OL13955598M").unwrap();
    assert!(matches!(p.kind, OlKind::Books));
    assert_eq!(p.id, "OL13955598M");
}

#[test]
fn parse_ol_url_json_suffix() {
    let p = parse_ol_url("https://openlibrary.org/works/OL1153861W.json").unwrap();
    assert!(matches!(p.kind, OlKind::Works));
    assert_eq!(p.id, "OL1153861W");
}

#[test]
fn parse_ol_url_http() {
    let p = parse_ol_url("http://openlibrary.org/books/OL13955598M").unwrap();
    assert!(matches!(p.kind, OlKind::Books));
    assert_eq!(p.id, "OL13955598M");
}

#[test]
fn parse_ol_url_invalid() {
    assert!(parse_ol_url("https://openlibrary.org/authors/OL117058A").is_none());
    assert!(parse_ol_url("https://example.com/works/OL123W").is_none());
    assert!(parse_ol_url("https://openlibrary.org/works/").is_none());
}

// ── parse_work ──

#[test]
fn parse_work_full() {
    let body = r#"{
        "title": "Statistical methods for research workers",
        "authors": [
            {"type": {"key": "/type/author_role"}, "author": {"key": "/authors/OL117058A"}}
        ]
    }"#;
    let w = parse_work(body).unwrap();
    assert_eq!(w.title, "Statistical methods for research workers");
    assert_eq!(w.author_keys, vec!["/authors/OL117058A"]);
}

#[test]
fn parse_work_missing_authors() {
    let body = r#"{"title": "A Book"}"#;
    let w = parse_work(body).unwrap();
    assert_eq!(w.title, "A Book");
    assert!(w.author_keys.is_empty());
}

#[test]
fn parse_work_missing_title() {
    let body = r#"{"authors": []}"#;
    assert!(parse_work(body).is_err());
}

// ── parse_edition ──

#[test]
fn parse_edition_full() {
    let body = r#"{
        "title": "Statistical methods for research workers",
        "publishers": ["Oliver & Boyd"],
        "publish_date": "1925",
        "authors": [{"key": "/authors/OL117058A"}]
    }"#;
    let e = parse_edition(body).unwrap();
    assert_eq!(e.title, "Statistical methods for research workers");
    assert_eq!(e.publisher.as_deref(), Some("Oliver & Boyd"));
    assert_eq!(e.year, "1925");
    assert_eq!(e.author_keys, vec!["/authors/OL117058A"]);
}

#[test]
fn parse_edition_missing_publisher() {
    let body = r#"{"title": "A Book", "publish_date": "1963"}"#;
    let e = parse_edition(body).unwrap();
    assert!(e.publisher.is_none());
    assert_eq!(e.year, "1963");
}

#[test]
fn parse_edition_missing_year() {
    let body = r#"{"title": "A Book", "publishers": ["Wiley"]}"#;
    let e = parse_edition(body).unwrap();
    assert_eq!(e.year, "?");
}

#[test]
fn parse_edition_missing_title() {
    let body = r#"{"publishers": ["Wiley"]}"#;
    assert!(parse_edition(body).is_err());
}

// ── parse_editions_list ──

#[test]
fn parse_editions_list_sorted() {
    let body = r#"{"entries": [
        {"title": "B", "publish_date": "1963", "publishers": ["Holt"]},
        {"title": "A", "publish_date": "1925", "publishers": ["Oliver & Boyd"]}
    ]}"#;
    let eds = parse_editions_list(body).unwrap();
    assert_eq!(eds.len(), 2);
    assert_eq!(eds[0].year, "1925");
    assert_eq!(eds[1].year, "1963");
}

#[test]
fn parse_editions_list_empty() {
    let body = r#"{"entries": []}"#;
    let eds = parse_editions_list(body).unwrap();
    assert!(eds.is_empty());
}

#[test]
fn parse_editions_list_missing_entries() {
    let body = r#"{}"#;
    assert!(parse_editions_list(body).is_err());
}

// ── parse_author ──

#[test]
fn parse_author_prefers_name_over_personal_name() {
    let body = r#"{"name": "Ronald Aylmer Fisher", "personal_name": "Fisher, Ronald Aylmer"}"#;
    let name = parse_author(body).unwrap();
    assert_eq!(name, "Ronald Aylmer Fisher");
}

#[test]
fn parse_author_falls_back_to_personal_name() {
    let body = r#"{"personal_name": "Fisher, Ronald Aylmer"}"#;
    let name = parse_author(body).unwrap();
    assert_eq!(name, "Fisher, Ronald Aylmer");
}

#[test]
fn parse_author_name_only() {
    let body = r#"{"name": "Ronald Aylmer Fisher"}"#;
    let name = parse_author(body).unwrap();
    assert_eq!(name, "Ronald Aylmer Fisher");
}

#[test]
fn parse_author_missing_name() {
    let body = r#"{}"#;
    assert!(parse_author(body).is_err());
}
