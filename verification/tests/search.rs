use lit::api::PaperResult;
use lit::cmd::search::{is_book_review, relevance_score, rerank, tokenize};
#[test]
fn tokenize_basic() {
    assert_eq!(tokenize("Attention Is All You Need"), vec!["attention", "is", "all", "you", "need"]);
}

#[test]
fn tokenize_with_punctuation() {
    assert_eq!(tokenize("SHAP: A Unified Approach"), vec!["shap", "a", "unified", "approach"]);
}

#[test]
fn relevance_exact_title_match() {
    let paper = PaperResult {
        title: "Attention Is All You Need".to_string(),
        authors: vec!["Ashish Vaswani".to_string()],
        ..Default::default()
    };
    let query_tokens = tokenize("attention is all you need");
    let score = relevance_score(&paper, &query_tokens) as f64 / query_tokens.len() as f64;
    assert!(score >= 0.9, "exact title match should score high: {}", score);
}

#[test]
fn relevance_author_match_boosts() {
    let paper = PaperResult {
        title: "A Unified Approach to Interpreting Model Predictions".to_string(),
        authors: vec!["Scott M. Lundberg".to_string()],
        ..Default::default()
    };
    let query_tokens = tokenize("SHAP lundberg unified approach");
    let score = relevance_score(&paper, &query_tokens) as f64 / query_tokens.len() as f64;
    // "lundberg", "unified", "approach" match (3/4 = 0.75). "shap" doesn't match title/author.
    assert!(score >= 0.5, "author+title partial match: {}", score);
}

#[test]
fn relevance_no_match() {
    let paper = PaperResult {
        title: "Schooling incentives and child labor".to_string(),
        authors: vec!["Eric Edmonds".to_string()],
        ..Default::default()
    };
    let query_tokens = tokenize("mesnard counterfactual credit assignment");
    let score = relevance_score(&paper, &query_tokens) as f64 / query_tokens.len() as f64;
    assert!(score < 0.2, "unrelated paper should score low: {}", score);
}

#[test]
fn rerank_puts_relevant_first() {
    let good = PaperResult {
        title: "Proximal Policy Optimization Algorithms".to_string(),
        authors: vec!["John Schulman".to_string()],
        citations: Some(5000),
        ..Default::default()
    };
    let bad = PaperResult {
        title: "Crystallization Process Design".to_string(),
        authors: vec!["Someone Else".to_string()],
        citations: Some(10),
        ..Default::default()
    };
    let results = rerank(vec![bad, good], "PPO proximal policy optimization schulman");
    assert_eq!(results[0].title, "Proximal Policy Optimization Algorithms");
}

#[test]
fn is_book_review_matches_patterns() {
    assert!(is_book_review("Book Reviews: Statistics for Psychologists by William L. Hays"));
    assert!(is_book_review("book review of something"));
    assert!(is_book_review("Reviews: Analysis of Variance"));
    assert!(is_book_review("review of statistical methods"));
    assert!(!is_book_review("Statistical methods for research workers"));
    assert!(!is_book_review("Reviewing the evidence for X"));
}

#[test]
fn rerank_deduplicates_by_doi() {
    let a = PaperResult {
        title: "Paper A".to_string(),
        doi: Some("10.1234/test".to_string()),
        ..Default::default()
    };
    let b = PaperResult {
        title: "Paper A".to_string(),
        doi: Some("10.1234/test".to_string()),
        ..Default::default()
    };
    let results = rerank(vec![a, b], "paper");
    assert_eq!(results.len(), 1);
}

use lit::cmd::search::{backend_lookup, cascade_done, cascade_sources, Source};

#[test]
fn search_cascade_stops_on_relevant_top_result() {
    let qt = tokenize("attention is all you need");
    let good = PaperResult { title: "Attention Is All You Need".to_string(), ..Default::default() };
    let review = PaperResult { title: "Book review: Attention Is All You Need".to_string(), ..Default::default() };
    let other = PaperResult { title: "Crystal growth".to_string(), ..Default::default() };
    assert!(cascade_done(&vec![good.clone()], &qt));
    assert!(!cascade_done(&vec![review], &qt));
    assert!(!cascade_done(&vec![other], &qt));
    assert!(!cascade_done(&vec![], &qt));
    assert!(!cascade_done(&vec![good], &vec![]));
    assert_eq!(cascade_sources(), vec![Source::Ss, Source::Oa, Source::Cr, Source::Book, Source::Clio]);
}

#[test]
fn search_rerank_ties_keep_order_and_citations_break_ties() {
    let a = PaperResult { title: "graph networks".to_string(), citations: Some(5), ..Default::default() };
    let b = PaperResult { title: "graph networks".to_string(), citations: Some(50), ..Default::default() };
    let c = PaperResult { title: "graph networks".to_string(), citations: Some(5), doi: Some("10.1/A".to_string()), ..Default::default() };
    let d = PaperResult { title: "other".to_string(), doi: Some("10.1/a".to_string()), ..Default::default() };
    let r = rerank(vec![a, b, c, d], "graph networks");
    assert_eq!(r.len(), 3);
    assert_eq!(r[0].citations, Some(50));
    assert_eq!(r[1].doi, None);
    assert_eq!(r[2].doi.as_deref(), Some("10.1/A"));
}

#[test]
fn search_backend_requests() {
    assert!(backend_lookup(Source::All, "x", 5).is_none());
    let (url, key) = backend_lookup(Source::Oa, "deep learning", 5).unwrap();
    assert_eq!(url, "https://api.openalex.org/works?search=deep%20learning&per-page=5");
    assert_eq!(key, lit::db::cache_key("oa", "deep learning"));
}
