use lit::api::philpapers::{bib_url, extract_id, parse_authors_field, parse_bib_entry, parse_search, search_url};
use lit::json::Json;

#[test]
fn extract_id_standard() {
    assert_eq!(
        extract_id("https://philpapers.org/rec/ANDCIT-6"),
        Some("ANDCIT-6".to_string())
    );
}

#[test]
fn extract_id_trailing_slash() {
    assert_eq!(
        extract_id("https://philpapers.org/rec/ANDCIT-6/"),
        Some("ANDCIT-6".to_string())
    );
}

#[test]
fn extract_id_no_rec_path() {
    assert_eq!(extract_id("https://philpapers.org/"), None);
}

#[test]
fn bib_url_format() {
    assert_eq!(
        bib_url("ANDCIT-6"),
        "https://philpapers.org/rec/ANDCIT-6.bib"
    );
}

#[test]
fn search_url_encodes_query() {
    let url = search_url("causal inference", 5);
    assert!(url.contains("causal%20inference"));
    assert!(url.contains("limit=5"));
    assert!(url.contains("format=json"));
}

#[test]
fn parse_bib_entry_standard() {
    let bib = r#"@article{AndersonCIT2020,
  title = {Causation in the Law},
  author = {Anderson, James and Smith, Barbara},
  year = {2020},
  journal = {Legal Theory},
  doi = {10.1017/S1352325220000123},
}"#;
    let result = parse_bib_entry(bib);
    assert_eq!(result.title, "Causation in the Law");
    assert_eq!(result.year, "2020");
    assert_eq!(result.authors, vec!["James Anderson", "Barbara Smith"]);
    assert_eq!(result.venue.as_deref(), Some("Legal Theory"));
    assert_eq!(result.doi.as_deref(), Some("10.1017/S1352325220000123"));
}

#[test]
fn parse_bib_entry_missing_fields() {
    let bib = "@article{Key2020, title = {Minimal},}";
    let result = parse_bib_entry(bib);
    assert_eq!(result.title, "Minimal");
    assert!(result.authors.is_empty());
    assert!(result.doi.is_none());
}

#[test]
fn parse_search_array_format() {
    let body = r#"[
        {
            "eId": "ANDCIT-6",
            "title": "Causation in the Law",
            "pubYear": "2020",
            "pub": "Legal Theory",
            "doi": "10.1017/example",
            "authors": [
                {"name": "Anderson, James"},
                {"name": "Smith, Barbara"}
            ]
        }
    ]"#;
    let results = parse_search(body).unwrap();
    assert_eq!(results.len(), 1);
    let r = &results[0];
    assert_eq!(r.title, "Causation in the Law");
    assert_eq!(r.year, "2020");
    assert_eq!(r.venue.as_deref(), Some("Legal Theory"));
    assert_eq!(r.doi.as_deref(), Some("10.1017/example"));
    assert_eq!(r.pdf_url.as_deref(), Some("https://philpapers.org/rec/ANDCIT-6"));
    assert_eq!(r.authors, vec!["James Anderson", "Barbara Smith"]);
}

#[test]
fn parse_search_wrapped_format() {
    let body = r#"{"entries": [{"title": "Test", "pubYear": "2021"}]}"#;
    let results = parse_search(body).unwrap();
    assert_eq!(results.len(), 1);
    assert_eq!(results[0].title, "Test");
}

#[test]
fn parse_search_authorsstr_fallback() {
    let body = r#"[{"title": "Test", "pubYear": "2021", "authorsStr": "Pearl, Judea, Mackenzie, Dana"}]"#;
    let results = parse_search(body).unwrap();
    assert!(!results[0].authors.is_empty());
}

#[test]
fn parse_search_empty() {
    let results = parse_search("[]").unwrap();
    assert!(results.is_empty());
}

#[test]
fn parse_authors_structured() {
    // {"authors": [{"name": "Pearl, Judea"}, {"name": "Mackenzie, Dana"}]}
    let entry = Json::Object(vec![(
        "authors".to_string(),
        Json::Array(vec![
            Json::Object(vec![("name".to_string(), Json::Str("Pearl, Judea".to_string()))]),
            Json::Object(vec![("name".to_string(), Json::Str("Mackenzie, Dana".to_string()))]),
        ]),
    )]);
    let authors = parse_authors_field(&entry);
    assert_eq!(authors, vec!["Judea Pearl", "Dana Mackenzie"]);
}

#[test]
fn parse_authors_already_firstlast() {
    // {"authors": [{"name": "Judea Pearl"}]}
    let entry = Json::Object(vec![(
        "authors".to_string(),
        Json::Array(vec![Json::Object(vec![("name".to_string(), Json::Str("Judea Pearl".to_string()))])]),
    )]);
    let authors = parse_authors_field(&entry);
    assert_eq!(authors, vec!["Judea Pearl"]);
}
