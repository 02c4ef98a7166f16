use lit::api::s2_dump::{paper_from_row, split_linked_seeds, Direction};

#[test]
fn s2_dump_linked_seeds_split_on_unit_separator() {
    let raw = Some("a\u{1f}b\u{1f}\u{1f}c".to_string());
    assert_eq!(split_linked_seeds(&raw), vec!["a".to_string(), "b".to_string(), "c".to_string()]);
    assert!(split_linked_seeds(&None).is_empty());
    assert!(split_linked_seeds(&Some(String::new())).is_empty());
}

#[test]
fn s2_dump_row_conversion() {
    let p = paper_from_row("id1".into(), None, None, Some(2020), None, Some(7), None);
    assert_eq!(p.title, "");
    assert_eq!(p.year, Some(2020));
    assert_eq!(p.citation_count, Some(7));
    assert_ne!(Direction::Cites, Direction::Refs);
}
