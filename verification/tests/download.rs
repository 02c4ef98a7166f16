use lit::api::PaperResult;
use lit::cmd::download::{build_source_yaml, date_string, days_to_ymd, extract_lastname, extract_title_slug, generate_dir_name};
#[test]
fn download_test_extract_lastname_basic() {
    let authors = vec!["Jonathan Ho".to_string()];
    assert_eq!(extract_lastname(&authors), "ho");
}

#[test]
fn download_test_extract_lastname_hyphen() {
    let authors = vec!["Amir-Hossein Karimi".to_string()];
    assert_eq!(extract_lastname(&authors), "karimi");
}

#[test]
fn download_test_extract_lastname_empty() {
    let authors: Vec<String> = vec![];
    assert_eq!(extract_lastname(&authors), "unknown");
}

#[test]
fn download_test_extract_title_slug_basic() {
    assert_eq!(extract_title_slug("Proximal Policy Optimization Algorithms"), "proximal");
}

#[test]
fn download_test_extract_title_slug_skip_article() {
    assert_eq!(extract_title_slug("The Art of Reasoning"), "art");
}

#[test]
fn download_test_extract_title_slug_all_skip() {
    assert_eq!(extract_title_slug("of the and in on"), "");
}

#[test]
fn download_test_generate_dir_name() {
    let paper = PaperResult {
        title: "Hindsight Credit Assignment".to_string(),
        authors: vec!["Anna Harutyunyan".to_string()],
        year: "2019".to_string(),
        ..Default::default()
    };
    assert_eq!(generate_dir_name(&paper), "harutyunyan2019hindsight");
}

#[test]
fn download_test_generate_dir_name_skip_articles() {
    let paper = PaperResult {
        title: "The Art of Something".to_string(),
        authors: vec!["John Smith".to_string()],
        year: "2021".to_string(),
        ..Default::default()
    };
    assert_eq!(generate_dir_name(&paper), "smith2021art");
}

#[test]
fn download_test_generate_dir_name_no_slug() {
    let paper = PaperResult {
        title: "of the and".to_string(),
        authors: vec!["Jane Doe".to_string()],
        year: "2020".to_string(),
        ..Default::default()
    };
    assert_eq!(generate_dir_name(&paper), "doe2020");
}

#[test]
fn download_test_build_source_yaml() {
    let paper = PaperResult {
        title: "Hindsight Credit Assignment".to_string(),
        authors: vec!["Anna Harutyunyan".to_string(), "Will Dabney".to_string()],
        year: "2019".to_string(),
        ..Default::default()
    };
    let yaml = build_source_yaml(&paper, "1912.02503", "2026-03-01");
    assert!(yaml.contains("title: \"Hindsight Credit Assignment\""));
    assert!(yaml.contains("authors: \"Anna Harutyunyan and Will Dabney\""));
    assert!(yaml.contains("year: 2019"));
    assert!(yaml.contains("arxiv: \"1912.02503\""));
    assert!(yaml.contains("retrieved: \"2026-03-01\""));
}

#[test]
fn download_test_days_to_ymd_epoch() {
    assert_eq!(days_to_ymd(0), (1970, 1, 1));
}

#[test]
fn download_test_days_to_ymd_known_date() {
    assert_eq!(days_to_ymd(20513), (2026, 3, 1));
}

#[test]
fn download_test_today_string_format() {
    let secs = std::time::SystemTime::now().duration_since(std::time::UNIX_EPOCH).unwrap().as_secs();
    let s = date_string(secs);
    assert_eq!(s.len(), 10);
    assert_eq!(&s[4..5], "-");
    assert_eq!(&s[7..8], "-");
}

use lit::cmd::download::{build_doi_source_yaml, is_pdf, pdf_lookups, pdf_plan};
use lit::db::cache_key;

#[test]
fn download_dates_known_values() {
    assert_eq!(date_string(0), "1970-01-01");
    assert_eq!(days_to_ymd(11016), (2000, 2, 29));
    assert_eq!(date_string(951782400), "2000-02-29");
    assert_eq!(days_to_ymd(19782), (2024, 2, 29));
}

#[test]
fn download_yaml_escapes_quotes() {
    let paper = PaperResult {
        title: "A \"Quoted\" Title".to_string(),
        authors: vec!["Ann Lee".to_string()],
        year: "2020".to_string(),
        ..Default::default()
    };
    let y = build_doi_source_yaml(&paper, "10.1/x", "2024-01-02");
    assert_eq!(
        y,
        "title: \"A \\\"Quoted\\\" Title\"\nauthors: \"Ann Lee\"\nyear: 2020\ndoi: \"10.1/x\"\nretrieved: \"2024-01-02\"\n"
    );
}

#[test]
fn download_pdf_detection() {
    assert!(is_pdf(b"%PDF-1.7 ..."));
    assert!(!is_pdf(b"<html>"));
    assert!(!is_pdf(b"%PD"));
}

#[test]
fn download_lookups_for_a_doi() {
    let l = pdf_lookups("10.1/x", "me@example.org");
    assert_eq!(l.len(), 3);
    assert_eq!(l[0].url, "https://api.unpaywall.org/v2/10.1/x?email=me@example.org");
    assert_eq!(l[0].cache_key, cache_key("unpaywall", "10.1/x"));
    assert_eq!(l[2].url, "https://api.openalex.org/works/doi:10.1/x");
}

#[test]
fn download_plan_prefers_unpaywall_then_s2_then_openalex() {
    let uw = Some(r#"{"title": "T", "best_oa_location": {"url_for_pdf": "https://u/pdf"}}"#.to_string());
    let oa = Some(r#"{"open_access": {"oa_url": "https://o/pdf"}}"#.to_string());
    let plan = pdf_plan("10.1/x", &None, &None, &oa, true);
    assert_eq!(plan.title, "N/A");
    assert_eq!(plan.pdf_url.as_deref(), Some("https://o/pdf"));
    assert_eq!(plan.ez_url.as_deref(), Some("https://doi-org.ezproxy.cul.columbia.edu/10.1/x"));
    assert_eq!(plan.meta.doi.as_deref(), Some("10.1/x"));
    let plan = pdf_plan("10.1/x", &uw, &None, &oa, false);
    assert_eq!(plan.title, "T");
    assert_eq!(plan.pdf_url.as_deref(), Some("https://u/pdf"));
    assert!(plan.ez_url.is_none());
    let plan = pdf_plan("", &None, &None, &None, true);
    assert!(plan.pdf_url.is_none());
    assert!(plan.ez_url.is_none());
}
