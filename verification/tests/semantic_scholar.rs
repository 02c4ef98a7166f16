use lit::api::semantic_scholar::{normalize_paper_id, paper_url, parse_cites, parse_paper, parse_refs, parse_search};

#[test]
fn test_normalize_paper_id_bare_doi() {
    assert_eq!(
        normalize_paper_id("10.1145/3442188.3445899"),
        "DOI:10.1145/3442188.3445899"
    );
}

#[test]
fn test_normalize_paper_id_already_prefixed() {
    assert_eq!(
        normalize_paper_id("DOI:10.1145/3442188.3445899"),
        "DOI:10.1145/3442188.3445899"
    );
}

#[test]
fn test_normalize_paper_id_bare_arxiv() {
    assert_eq!(normalize_paper_id("2006.11239"), "ARXIV:2006.11239");
}

#[test]
fn test_normalize_paper_id_bare_arxiv_5digit() {
    assert_eq!(normalize_paper_id("2004.12265"), "ARXIV:2004.12265");
}

#[test]
fn test_normalize_paper_id_arxiv_already_prefixed() {
    assert_eq!(
        normalize_paper_id("ARXIV:2006.11239"),
        "ARXIV:2006.11239"
    );
}

#[test]
fn test_normalize_paper_id_arxiv_lowercase_prefix() {
    assert_eq!(
        normalize_paper_id("arXiv:2006.11239"),
        "arXiv:2006.11239"
    );
}

#[test]
fn test_normalize_paper_id_short_prefix() {
    // "10.12/foo" has only 2 digits before slash -- not a valid DOI prefix
    assert_eq!(normalize_paper_id("10.12/foo"), "10.12/foo");
}

#[test]
fn semantic_scholar_test_parse_search_basic() {
    let body = r#"{
        "data": [
            {
                "title": "Attention Is All You Need",
                "year": 2017,
                "authors": [
                    {"name": "Ashish Vaswani"},
                    {"name": "Noam Shazeer"}
                ],
                "citationCount": 90000,
                "externalIds": {
                    "ArXiv": "1706.03762",
                    "DOI": "10.5555/3295222.3295349"
                }
            }
        ]
    }"#;
    let results = parse_search(body).unwrap();
    assert_eq!(results.len(), 1);
    let r = &results[0];
    assert_eq!(r.title, "Attention Is All You Need");
    assert_eq!(r.year, "2017");
    assert_eq!(r.authors, vec!["Vaswani", "Shazeer"]);
    assert_eq!(r.citations, Some(90000));
    assert_eq!(r.arxiv_id.as_deref(), Some("1706.03762"));
    assert_eq!(r.doi.as_deref(), Some("10.5555/3295222.3295349"));
}

#[test]
fn semantic_scholar_test_parse_search_empty() {
    let body = r#"{"data": []}"#;
    let results = parse_search(body).unwrap();
    assert!(results.is_empty());
}

#[test]
fn semantic_scholar_test_parse_search_missing_optional_fields() {
    let body = r#"{
        "data": [
            {
                "title": "Minimal Paper",
                "authors": []
            }
        ]
    }"#;
    let results = parse_search(body).unwrap();
    let r = &results[0];
    assert_eq!(r.title, "Minimal Paper");
    assert_eq!(r.year, "?");
    assert!(r.authors.is_empty());
    assert!(r.citations.is_none());
    assert!(r.arxiv_id.is_none());
    assert!(r.doi.is_none());
}

#[test]
fn test_parse_refs_basic() {
    let body = r#"{
        "data": [
            {
                "citedPaper": {
                    "title": "BERT: Pre-training",
                    "year": 2019,
                    "authors": [
                        {"name": "Jacob Devlin"},
                        {"name": "Ming-Wei Chang"}
                    ]
                }
            },
            {
                "citedPaper": {
                    "title": "GPT-2",
                    "year": 2019,
                    "authors": [
                        {"name": "Alec Radford"}
                    ]
                }
            }
        ]
    }"#;
    let results = parse_refs(body).unwrap();
    assert_eq!(results.len(), 2);
    assert_eq!(results[0].title, "BERT: Pre-training");
    assert_eq!(results[0].authors, vec!["Jacob Devlin", "Ming-Wei Chang"]);
    assert_eq!(results[1].title, "GPT-2");
    assert_eq!(results[1].year, "2019");
}

#[test]
fn test_parse_cites_basic() {
    let body = r#"{
        "data": [
            {
                "citingPaper": {
                    "title": "A Follow-Up Paper",
                    "year": 2022,
                    "authors": [{"name": "Eve Jones"}]
                }
            }
        ]
    }"#;
    let results = parse_cites(body).unwrap();
    assert_eq!(results.len(), 1);
    assert_eq!(results[0].title, "A Follow-Up Paper");
    assert_eq!(results[0].year, "2022");
    assert_eq!(results[0].authors, vec!["Eve Jones"]);
}

#[test]
fn test_parse_refs_empty() {
    let body = r#"{"data": []}"#;
    let results = parse_refs(body).unwrap();
    assert!(results.is_empty());
}

#[test]
fn test_paper_url() {
    let url = paper_url("arXiv:2006.11239");
    assert!(url.contains("api.semanticscholar.org/graph/v1/paper/arXiv:2006.11239"));
    assert!(url.contains("paperId"));
    assert!(url.contains("citationCount"));
    assert!(url.contains("openAccessPdf"));
}

#[test]
fn test_parse_paper_full() {
    let body = r#"{
        "paperId": "abc123",
        "externalIds": {
            "DOI": "10.1234/test",
            "ArXiv": "2006.11239"
        },
        "venue": "NeurIPS",
        "citationCount": 500,
        "openAccessPdf": {
            "url": "https://arxiv.org/pdf/2006.11239"
        }
    }"#;
    let r = parse_paper(body).unwrap();
    assert_eq!(r.s2_id.as_deref(), Some("abc123"));
    assert_eq!(r.doi.as_deref(), Some("10.1234/test"));
    assert_eq!(r.arxiv_id.as_deref(), Some("2006.11239"));
    assert_eq!(r.venue.as_deref(), Some("NeurIPS"));
    assert_eq!(r.citations, Some(500));
    assert_eq!(r.pdf_url.as_deref(), Some("https://arxiv.org/pdf/2006.11239"));
}

#[test]
fn test_parse_paper_minimal() {
    let body = r#"{
        "paperId": "def456",
        "externalIds": {}
    }"#;
    let r = parse_paper(body).unwrap();
    assert_eq!(r.s2_id.as_deref(), Some("def456"));
    assert!(r.doi.is_none());
    assert!(r.venue.is_none());
    assert!(r.citations.is_none());
    assert!(r.pdf_url.is_none());
}

#[test]
fn test_parse_paper_empty_venue() {
    let body = r#"{
        "paperId": "x",
        "externalIds": {},
        "venue": ""
    }"#;
    let r = parse_paper(body).unwrap();
    assert!(r.venue.is_none());
}

#[test]
fn test_parse_cites_missing_year() {
    let body = r#"{
        "data": [
            {
                "citingPaper": {
                    "title": "No Year"
                }
            }
        ]
    }"#;
    let results = parse_cites(body).unwrap();
    assert_eq!(results[0].year, "?");
    assert!(results[0].authors.is_empty());
}

#[test]
fn s2_bare_doi_with_colon_gets_prefix() {
    assert_eq!(normalize_paper_id("10.1023/a:1005233831499"), "DOI:10.1023/a:1005233831499");
    assert_eq!(normalize_paper_id("DOI:10.1/x"), "DOI:10.1/x");
    assert_eq!(normalize_paper_id("CorpusId:123"), "CorpusId:123");
    assert_eq!(normalize_paper_id("2006.11239"), "ARXIV:2006.11239");
}
