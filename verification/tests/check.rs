use lit::cmd::check::{parse_source_yaml, truncate_str};
#[test]
fn test_parse_source_yaml_basic() {
    let yaml = r#"title: "Proximal policy optimization algorithms"
authors: "Schulman, John and Wolski, Filip"
year: 2017
arxiv: "1707.06347"
retrieved: "unknown"
"#;
    let paper = parse_source_yaml(yaml, "etc/pdf/schulman2017ppo");
    assert_eq!(paper.title, "Proximal policy optimization algorithms");
    assert_eq!(paper.arxiv_id, Some("1707.06347".to_string()));
    assert_eq!(paper.year, Some("2017".to_string()));
    assert_eq!(paper.local_path, Some("etc/pdf/schulman2017ppo".to_string()));

    // Authors should be a JSON array
    let authors: Vec<String> = serde_json::from_str(&paper.authors).unwrap();
    assert_eq!(authors, vec!["Schulman, John", "Wolski, Filip"]);
}

#[test]
fn test_parse_source_yaml_unquoted() {
    let yaml = "title: Causation\nauthor: David Lewis\nyear: 1973\n";
    let paper = parse_source_yaml(yaml, "etc/pdf/lewis1973causation");
    assert_eq!(paper.title, "Causation");
    let authors: Vec<String> = serde_json::from_str(&paper.authors).unwrap();
    assert_eq!(authors, vec!["David Lewis"]);
}

#[test]
fn test_parse_source_yaml_doi() {
    let yaml = r#"title: "Probabilities of Causation"
authors: "Judea Pearl"
year: 1999
doi: "10.1023/a:1005233831499"
retrieved: "unknown"
"#;
    let paper = parse_source_yaml(yaml, "etc/pdf/pearl1999probabilities");
    assert_eq!(paper.doi, Some("10.1023/a:1005233831499".to_string()));
}

#[test]
fn test_parse_source_yaml_unknown_title() {
    let yaml = "title: \"unknown\"\nretrieved: \"unknown\"\n";
    let paper = parse_source_yaml(yaml, "etc/pdf/foo");
    assert_eq!(paper.title, "unknown");
    assert!(paper.doi.is_none());
    assert!(paper.arxiv_id.is_none());
}

#[test]
fn test_parse_source_yaml_extended() {
    let yaml = r#"title: "Causation"
author: "David Lewis"
year: 1973
journal: "The Journal of Philosophy"
volume: 70
number: 17
pages: "556-567"
url: "https://www.jstor.org/stable/2025310"
bibtex_key: lewis1973causation
"#;
    let paper = parse_source_yaml(yaml, "etc/pdf/lewis1973causation");
    assert_eq!(paper.journal, Some("The Journal of Philosophy".to_string()));
    assert_eq!(paper.volume, Some("70".to_string()));
    assert_eq!(paper.number, Some("17".to_string()));
    assert_eq!(paper.pages, Some("556-567".to_string()));
    assert_eq!(
        paper.url,
        Some("https://www.jstor.org/stable/2025310".to_string())
    );
}

#[test]
fn test_truncate_str() {
    assert_eq!(truncate_str("short", 10), "short");
    assert_eq!(truncate_str("a long string here", 10), "a long str...");
}

#[test]
fn check_yaml_last_value_wins_and_comments_skipped() {
    let yaml = "# comment\ntitle: \"First\"\ntitle: Second\nauthors: \"A B and C D\"\nnotakey\n";
    let p = parse_source_yaml(yaml, "p");
    assert_eq!(p.title, "Second");
    let authors: Vec<String> = serde_json::from_str(&p.authors).unwrap();
    assert_eq!(authors, vec!["A B", "C D"]);
    let empty = parse_source_yaml("", "q");
    assert_eq!(empty.title, "unknown");
    assert_eq!(empty.authors, "[]");
    assert_eq!(empty.local_path.as_deref(), Some("q"));
}
