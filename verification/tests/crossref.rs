use lit::api::crossref::{extract_year, parse_doi, parse_search};
use lit::json::Json;

#[test]
fn crossref_test_parse_search_basic() {
    let body = r#"{
        "message": {
            "items": [
                {
                    "title": ["Attention Is All You Need"],
                    "author": [
                        {"given": "Ashish", "family": "Vaswani"},
                        {"given": "Noam", "family": "Shazeer"}
                    ],
                    "published": {"date-parts": [[2017, 6, 12]]},
                    "DOI": "10.5555/3295222.3295349",
                    "is-referenced-by-count": 90000
                }
            ]
        }
    }"#;
    let results = parse_search(body).unwrap();
    assert_eq!(results.len(), 1);
    let r = &results[0];
    assert_eq!(r.title, "Attention Is All You Need");
    assert_eq!(r.year, "2017");
    assert_eq!(r.authors, vec!["Ashish Vaswani", "Noam Shazeer"]);
    assert_eq!(r.doi.as_deref(), Some("10.5555/3295222.3295349"));
    assert_eq!(r.citations, Some(90000));
}

#[test]
fn test_parse_search_empty_items() {
    let body = r#"{"message": {"items": []}}"#;
    let results = parse_search(body).unwrap();
    assert!(results.is_empty());
}

#[test]
fn crossref_test_parse_search_missing_optional_fields() {
    let body = r#"{
        "message": {
            "items": [
                {
                    "title": ["Some Paper"]
                }
            ]
        }
    }"#;
    let results = parse_search(body).unwrap();
    assert_eq!(results.len(), 1);
    let r = &results[0];
    assert_eq!(r.title, "Some Paper");
    assert_eq!(r.year, "?");
    assert!(r.authors.is_empty());
    assert!(r.doi.is_none());
    assert!(r.citations.is_none());
}

#[test]
fn test_parse_search_author_family_only() {
    let body = r#"{
        "message": {
            "items": [
                {
                    "title": ["Test"],
                    "author": [{"family": "Pearl"}],
                    "published": {"date-parts": [[2000]]}
                }
            ]
        }
    }"#;
    let results = parse_search(body).unwrap();
    assert_eq!(results[0].authors, vec!["Pearl"]);
}

#[test]
fn test_parse_search_author_empty_family_skipped() {
    let body = r#"{
        "message": {
            "items": [
                {
                    "title": ["Test"],
                    "author": [{"given": "Org", "family": ""}]
                }
            ]
        }
    }"#;
    let results = parse_search(body).unwrap();
    assert!(results[0].authors.is_empty());
}

#[test]
fn test_parse_doi_basic() {
    let body = r#"{
        "message": {
            "title": ["Causality"],
            "author": [
                {"given": "Judea", "family": "Pearl"}
            ],
            "published": {"date-parts": [[2009]]},
            "container-title": ["Cambridge University Press"],
            "DOI": "10.1017/CBO9780511803161"
        }
    }"#;
    let result = parse_doi(body).unwrap();
    assert_eq!(result.title, "Causality");
    assert_eq!(result.year, "2009");
    assert_eq!(result.authors, vec!["Judea Pearl"]);
    assert_eq!(result.venue.as_deref(), Some("Cambridge University Press"));
    assert_eq!(result.doi.as_deref(), Some("10.1017/CBO9780511803161"));
}

#[test]
fn test_parse_doi_missing_optional_fields() {
    let body = r#"{
        "message": {
            "title": ["Minimal"]
        }
    }"#;
    let result = parse_doi(body).unwrap();
    assert_eq!(result.title, "Minimal");
    assert_eq!(result.year, "?");
    assert!(result.authors.is_empty());
    assert!(result.venue.is_none());
    assert!(result.doi.is_none());
}

#[test]
fn test_extract_year_valid() {
    // {"date-parts": [[2021, 3, 15]]}
    let v = Json::Object(vec![(
        "date-parts".to_string(),
        Json::Array(vec![Json::Array(vec![
            Json::Number(Some(2021)),
            Json::Number(Some(3)),
            Json::Number(Some(15)),
        ])]),
    )]);
    assert_eq!(extract_year(&v), "2021");
}

#[test]
fn test_extract_year_missing() {
    // {}
    let v = Json::Object(vec![]);
    assert_eq!(extract_year(&v), "?");
}
