use lit::api::dblp::{parse_dblp_authors, parse_search};
use lit::json::Json;

#[test]
fn dblp_test_parse_search_basic() {
    let body = r#"{
        "result": {
            "hits": {
                "hit": [
                    {
                        "info": {
                            "title": "Attention Is All You Need",
                            "year": "2017",
                            "authors": {
                                "author": [
                                    {"text": "Ashish Vaswani"},
                                    {"text": "Noam Shazeer"}
                                ]
                            },
                            "venue": "NeurIPS",
                            "url": "https://dblp.org/rec/conf/nips/VaswaniSPUJGKP17"
                        }
                    }
                ]
            }
        }
    }"#;
    let results = parse_search(body).unwrap();
    assert_eq!(results.len(), 1);
    let r = &results[0];
    assert_eq!(r.title, "Attention Is All You Need");
    assert_eq!(r.year, "2017");
    assert_eq!(r.authors, vec!["Vaswani", "Shazeer"]);
    assert_eq!(r.venue.as_deref(), Some("NeurIPS"));
    assert_eq!(r.pdf_url.as_deref(), Some("https://dblp.org/rec/conf/nips/VaswaniSPUJGKP17"));
}

#[test]
fn test_parse_search_single_author_object() {
    let body = r#"{
        "result": {
            "hits": {
                "hit": [
                    {
                        "info": {
                            "title": "Solo Paper",
                            "year": "2020",
                            "authors": {
                                "author": {"text": "Judea Pearl"}
                            }
                        }
                    }
                ]
            }
        }
    }"#;
    let results = parse_search(body).unwrap();
    assert_eq!(results[0].authors, vec!["Pearl"]);
}

#[test]
fn test_parse_search_empty_hits() {
    let body = r#"{"result": {"hits": {"hit": []}}}"#;
    let results = parse_search(body).unwrap();
    assert!(results.is_empty());
}

#[test]
fn dblp_test_parse_search_missing_optional_fields() {
    let body = r#"{
        "result": {
            "hits": {
                "hit": [
                    {
                        "info": {
                            "title": "Minimal Paper",
                            "year": "2021"
                        }
                    }
                ]
            }
        }
    }"#;
    let results = parse_search(body).unwrap();
    let r = &results[0];
    assert_eq!(r.title, "Minimal Paper");
    assert!(r.authors.is_empty());
    assert!(r.venue.is_none());
    assert!(r.pdf_url.is_none());
}

#[test]
fn test_parse_dblp_authors_bare_string() {
    let val = Json::Str("Albert Einstein".to_string());
    let authors = parse_dblp_authors(&val);
    assert_eq!(authors, vec!["Einstein"]);
}

#[test]
fn test_parse_dblp_authors_null() {
    let val = Json::Null;
    let authors = parse_dblp_authors(&val);
    assert!(authors.is_empty());
}
