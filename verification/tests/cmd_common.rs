use std::collections::HashSet;
use lit::api::PaperResult;
use lit::cmd::{authors_display, brief_abstract, enrich_from_s2, s2_api_id, visit};
#[test]
fn test_s2_api_id_prefers_s2_id() {
    let p = PaperResult {
        s2_id: Some("abc123".into()),
        doi: Some("10.1234/test".into()),
        arxiv_id: Some("2006.11239".into()),
        ..Default::default()
    };
    assert_eq!(s2_api_id(&p), Some("abc123".into()));
}

#[test]
fn test_s2_api_id_falls_back_to_doi() {
    let p = PaperResult {
        doi: Some("10.1234/test".into()),
        arxiv_id: Some("2006.11239".into()),
        ..Default::default()
    };
    assert_eq!(s2_api_id(&p), Some("DOI:10.1234/test".into()));
}

#[test]
fn test_s2_api_id_falls_back_to_arxiv() {
    let p = PaperResult {
        arxiv_id: Some("2006.11239".into()),
        ..Default::default()
    };
    assert_eq!(s2_api_id(&p), Some("ARXIV:2006.11239".into()));
}

#[test]
fn test_s2_api_id_none_when_no_ids() {
    let p = PaperResult {
        title: "No IDs".into(),
        ..Default::default()
    };
    assert_eq!(s2_api_id(&p), None);
}

#[test]
fn test_bfs_visited_set_prevents_cycles() {


    // Simulate BFS with papers that form a cycle: A -> B -> C -> A
    let papers_hop1 = vec![PaperResult {
        title: "B".into(),
        s2_id: Some("id_b".into()),
        ..Default::default()
    }];
    let papers_hop2 = vec![PaperResult {
        title: "C".into(),
        s2_id: Some("id_c".into()),
        ..Default::default()
    }];
    let papers_hop3 = vec![
        PaperResult {
            title: "A again".into(),
            s2_id: Some("id_a".into()), // cycle back to root
            ..Default::default()
        },
        PaperResult {
            title: "B again".into(),
            s2_id: Some("id_b".into()), // cycle back to hop1
            ..Default::default()
        },
    ];

    let mut visited: HashSet<String> = HashSet::new();
    visited.insert("id_a".into()); // root

    // Hop 1
    let mut frontier = Vec::new();
    for p in &papers_hop1 {
        if let Some(cid) = s2_api_id(p) {
            if visited.insert(cid.clone()) {
                frontier.push(cid);
            }
        }
    }
    assert_eq!(frontier, vec!["id_b"]);

    // Hop 2
    let mut frontier2 = Vec::new();
    for p in &papers_hop2 {
        if let Some(cid) = s2_api_id(p) {
            if visited.insert(cid.clone()) {
                frontier2.push(cid);
            }
        }
    }
    assert_eq!(frontier2, vec!["id_c"]);

    // Hop 3: both papers are already visited
    let mut frontier3 = Vec::new();
    for p in &papers_hop3 {
        if let Some(cid) = s2_api_id(p) {
            if visited.insert(cid.clone()) {
                frontier3.push(cid);
            }
        }
    }
    assert!(frontier3.is_empty(), "cycles should be prevented by visited set");
}

#[test]
fn cmd_visit_matches_hashset_insert() {
    let mut v: Vec<String> = Vec::new();
    assert!(visit(&mut v, "a"));
    assert!(!visit(&mut v, "a"));
    assert!(visit(&mut v, "b"));
    assert_eq!(v, vec!["a".to_string(), "b".to_string()]);
}

#[test]
fn cmd_authors_display_caps_at_three() {
    let four: Vec<String> = vec!["A".into(), "B".into(), "C".into(), "D".into()];
    assert_eq!(authors_display(&four), "A, B, C et al.");
    let two: Vec<String> = vec!["A".into(), "B".into()];
    assert_eq!(authors_display(&two), "A, B");
    assert_eq!(authors_display(&vec![]), "");
}

#[test]
fn cmd_brief_abstract() {
    assert_eq!(brief_abstract("short"), "short");
    let long = "x".repeat(200);
    let b = brief_abstract(&long);
    assert_eq!(b.len(), 153);
    assert!(b.ends_with("..."));
    // Cut by characters, not bytes.
    let accented = "\u{e9}".repeat(200);
    assert_eq!(brief_abstract(&accented), format!("{}...", "\u{e9}".repeat(150)));
    assert_eq!(brief_abstract(&"\u{e9}".repeat(100)), "\u{e9}".repeat(100));
}

#[test]
fn cmd_enrich_fills_only_missing() {
    let a = PaperResult { doi: Some("d1".into()), ..Default::default() };
    let s2 = PaperResult { doi: Some("d2".into()), s2_id: Some("s".into()), citations: Some(3), ..Default::default() };
    let r = enrich_from_s2(a, &s2);
    assert_eq!(r.doi.as_deref(), Some("d1"));
    assert_eq!(r.s2_id.as_deref(), Some("s"));
    assert_eq!(r.citations, Some(3));
}
