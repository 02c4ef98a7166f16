use lit::api::PaperResult;
use lit::cmd::source::{build_source_yaml, date_string, days_to_ymd, extract_lastname, extract_title_slug, generate_dir_name};
#[test]
fn source_test_extract_lastname_basic() {
    let authors = vec!["Jonathan Ho".to_string()];
    assert_eq!(extract_lastname(&authors), "ho");
}

#[test]
fn source_test_extract_lastname_hyphen() {
    let authors = vec!["Amir-Hossein Karimi".to_string()];
    assert_eq!(extract_lastname(&authors), "karimi");
}

#[test]
fn source_test_extract_lastname_empty() {
    let authors: Vec<String> = vec![];
    assert_eq!(extract_lastname(&authors), "unknown");
}

#[test]
fn source_test_extract_title_slug_basic() {
    assert_eq!(extract_title_slug("Proximal Policy Optimization Algorithms"), "proximal");
}

#[test]
fn source_test_extract_title_slug_skip_article() {
    assert_eq!(extract_title_slug("The Art of Reasoning"), "art");
}

#[test]
fn source_test_extract_title_slug_all_skip() {
    assert_eq!(extract_title_slug("of the and in on"), "");
}

#[test]
fn source_test_generate_dir_name() {
    let paper = PaperResult {
        title: "Hindsight Credit Assignment".to_string(),
        authors: vec!["Anna Harutyunyan".to_string()],
        year: "2019".to_string(),
        ..Default::default()
    };
    assert_eq!(generate_dir_name(&paper), "harutyunyan2019hindsight");
}

#[test]
fn source_test_generate_dir_name_skip_articles() {
    let paper = PaperResult {
        title: "The Art of Something".to_string(),
        authors: vec!["John Smith".to_string()],
        year: "2021".to_string(),
        ..Default::default()
    };
    assert_eq!(generate_dir_name(&paper), "smith2021art");
}

#[test]
fn source_test_generate_dir_name_no_slug() {
    let paper = PaperResult {
        title: "of the and".to_string(),
        authors: vec!["Jane Doe".to_string()],
        year: "2020".to_string(),
        ..Default::default()
    };
    assert_eq!(generate_dir_name(&paper), "doe2020");
}

#[test]
fn source_test_build_source_yaml() {
    let paper = PaperResult {
        title: "Hindsight Credit Assignment".to_string(),
        authors: vec!["Anna Harutyunyan".to_string(), "Will Dabney".to_string()],
        year: "2019".to_string(),
        ..Default::default()
    };
    let yaml = build_source_yaml(&paper, "1912.02503", "2026-03-01");
    assert!(yaml.contains("title: \"Hindsight Credit Assignment\""));
    assert!(yaml.contains("authors: \"Anna Harutyunyan and Will Dabney\""));
    assert!(yaml.contains("year: 2019"));
    assert!(yaml.contains("arxiv: \"1912.02503\""));
    assert!(yaml.contains("retrieved: \"2026-03-01\""));
}

#[test]
fn source_test_days_to_ymd_epoch() {
    assert_eq!(days_to_ymd(0), (1970, 1, 1));
}

#[test]
fn source_test_days_to_ymd_known_date() {
    // 2026-03-01 = day 20513 since epoch
    // 2026-01-01 = day 20454
    // Jan has 31, Feb has 28 in 2026: 20454 + 31 + 28 = 20513
    assert_eq!(days_to_ymd(20513), (2026, 3, 1));
}

#[test]
fn source_test_today_string_format() {
    let secs = std::time::SystemTime::now().duration_since(std::time::UNIX_EPOCH).unwrap().as_secs();
    let s = date_string(secs);
    assert_eq!(s.len(), 10);
    assert_eq!(&s[4..5], "-");
    assert_eq!(&s[7..8], "-");
}
