use lit::db::{cache_key, TTL_DOI, TTL_SEARCH};

#[test]
fn test_cache_key_known_values() {
    // Verified against legacy filesystem cache filenames
    assert_eq!(cache_key("arxiv", "2006.11239"), "arxiv_b2a462a972bbaa37");
    assert_eq!(cache_key("arxiv", "1806.07857"), "arxiv_98f6863dcac96629");
    assert_eq!(cache_key("doi", "10.1145/3442188.3445899"), "doi_36cb08a6274d1c9b");
}

#[test]
fn db_cache_key_differs_by_input_and_prefix() {
    let a = cache_key("verify_doi", "10.1/x");
    assert!(a.starts_with("verify_doi_"));
    assert_eq!(a.len(), "verify_doi_".len() + 16);
    assert_ne!(a, cache_key("verify_doi", "10.1/y"));
    assert_eq!(cache_key("p", ""), format!("p_{}", "68b329da9893e340"));
}

#[test]
fn db_ttls() {
    assert_eq!(TTL_SEARCH, 24 * 3600);
    assert_eq!(TTL_DOI, 7 * 24 * 3600);
}
