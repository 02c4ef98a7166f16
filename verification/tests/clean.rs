use lit::bibtex;
use lit::cmd::clean::{clean_bib, extract_citekeys, extract_kept_blocks, find_duplicates, is_malformed};
#[test]
fn test_is_malformed_digit_key() {
    let entry = bibtex::BibEntry {
        entry_type: "misc".to_string(),
        key: "1".to_string(),
        fields: vec![
            ("url".to_string(), "http://example.com".to_string()),
        ],
    };
    assert!(is_malformed(&entry));
}

#[test]
fn test_is_malformed_equals_in_key() {
    let entry = bibtex::BibEntry {
        entry_type: "misc".to_string(),
        key: "url=http://x.com".to_string(),
        fields: vec![
            ("title".to_string(), "X".to_string()),
            ("author".to_string(), "Y".to_string()),
            ("year".to_string(), "2020".to_string()),
        ],
    };
    assert!(is_malformed(&entry));
}

#[test]
fn test_is_malformed_http_in_key() {
    let entry = bibtex::BibEntry {
        entry_type: "misc".to_string(),
        key: "http://example.com/paper".to_string(),
        fields: vec![
            ("title".to_string(), "X".to_string()),
            ("author".to_string(), "Y".to_string()),
            ("year".to_string(), "2020".to_string()),
        ],
    };
    assert!(is_malformed(&entry));
}

#[test]
fn test_is_malformed_missing_title() {
    let entry = bibtex::BibEntry {
        entry_type: "article".to_string(),
        key: "valid2021".to_string(),
        fields: vec![
            ("author".to_string(), "Jane Doe".to_string()),
            ("year".to_string(), "2021".to_string()),
        ],
    };
    assert!(is_malformed(&entry));
}

#[test]
fn test_is_malformed_ok() {
    let entry = bibtex::BibEntry {
        entry_type: "article".to_string(),
        key: "valid2021".to_string(),
        fields: vec![
            ("title".to_string(), "A Paper".to_string()),
            ("author".to_string(), "Jane Doe".to_string()),
            ("year".to_string(), "2021".to_string()),
        ],
    };
    assert!(!is_malformed(&entry));
}

#[test]
fn test_extract_citekeys_basic() {
        let cited = extract_citekeys(r"\cite{foo2020,bar2021}");
    assert!(cited.contains(&"foo2020".to_string()));
    assert!(cited.contains(&"bar2021".to_string()));
}

#[test]
fn test_extract_citekeys_variants() {
        let cited = extract_citekeys(r"\citep{a2020} \citet{b2021} \citealt{c2022}");
    assert!(cited.contains(&"a2020".to_string()));
    assert!(cited.contains(&"b2021".to_string()));
    assert!(cited.contains(&"c2022".to_string()));
}

#[test]
fn test_extract_citekeys_whitespace() {
        let cited = extract_citekeys(r"\cite{ foo2020 , bar2021 }");
    assert!(cited.contains(&"foo2020".to_string()));
    assert!(cited.contains(&"bar2021".to_string()));
}

#[test]
fn test_extract_kept_blocks_removes_entry() {
    let bib = "@article{good2020,\n  title = {Good},\n  author = {A},\n  year = {2020}\n}\n\n@misc{1,\n  url = {http://x}\n}\n";
    let to_remove: Vec<String> = vec!["1".to_string()];
    let result = extract_kept_blocks(bib, &to_remove);
    assert!(result.contains("good2020"));
    assert!(!result.contains("@misc{1"));
}

#[test]
fn test_extract_kept_blocks_preserves_all_when_empty_remove() {
    let bib = "@article{paper2020,\n  title = {T},\n  author = {A},\n  year = {2020}\n}\n";
    let to_remove: Vec<String> = Vec::new();
    let result = extract_kept_blocks(bib, &to_remove);
    assert_eq!(result, bib);
}

const SAMPLE: &str = "@article{a2020,\n  title = {A},\n  author = {X},\n  year = {2020},\n  doi = {10.1/ABC}\n}\n\n@article{b2021,\n  title = {B},\n  author = {Y},\n  year = {2021},\n  doi = { 10.1/abc }\n}\n\n@misc{1,\n  url = {http://x}\n}\n\n@article{c2022,\n  title = {C},\n  author = {Z},\n  year = {2022},\n  eprint = {2101.00001}\n}\n";

#[test]
fn clean_finds_duplicates_by_doi_case_insensitively() {
    let entries = bibtex::parse_bib_file(SAMPLE);
    let d = find_duplicates(&entries);
    assert_eq!(d, vec![("a2020".to_string(), "b2021".to_string())]);
}

#[test]
fn clean_dry_run_reports_without_rewriting() {
    let (report, text) = clean_bib(SAMPLE, &None, false, false);
    assert_eq!(report.malformed, vec!["1".to_string()]);
    assert_eq!(report.duplicates.len(), 1);
    assert!(report.orphans.is_empty());
    assert!(report.removed.is_empty());
    assert!(text.is_none());
}

#[test]
fn clean_apply_removes_malformed_and_later_duplicate() {
    let (report, text) = clean_bib(SAMPLE, &None, true, false);
    assert_eq!(report.removed, vec!["1".to_string(), "b2021".to_string()]);
    let t = text.unwrap();
    assert!(t.contains("@article{a2020"));
    assert!(t.contains("@article{c2022"));
    assert!(!t.contains("b2021"));
    assert!(!t.contains("@misc{1"));
}

#[test]
fn clean_orphans_only_pruned_when_asked() {
    let cited = Some(vec!["a2020".to_string()]);
    let (report, _) = clean_bib(SAMPLE, &cited, true, false);
    assert_eq!(report.orphans, vec!["b2021".to_string(), "1".to_string(), "c2022".to_string()]);
    assert!(!report.removed.contains(&"c2022".to_string()));
    let (report, text) = clean_bib(SAMPLE, &cited, true, true);
    assert_eq!(report.removed, vec!["1".to_string(), "b2021".to_string(), "c2022".to_string()]);
    let t = text.unwrap();
    assert!(t.contains("a2020"));
    assert!(!t.contains("c2022"));
}

#[test]
fn clean_keeps_comment_blocks() {
    let bib = "@comment{ keep me }\n@misc{1,\n  url = {u}\n}\n";
    let r = extract_kept_blocks(bib, &vec!["1".to_string()]);
    assert_eq!(r, "@comment{ keep me }\n");
}

#[test]
fn clean_citekeys_in_order_across_commands() {
    let cited = extract_citekeys("see \\citep[p.~3]{x1} and \\cite{ y2 ,z3}");
    assert_eq!(cited, vec!["x1".to_string(), "y2".to_string(), "z3".to_string()]);
}

#[test]
fn clean_text_after_kept_entry_stays() {
    let content = "@misc{a,\n  title = {A}\n}\n% note\n@misc{b,\n  title = {B}\n}\n";
    assert_eq!(extract_kept_blocks(content, &vec!["b".to_string()]), "@misc{a,\n  title = {A}\n}\n% note\n");
    assert_eq!(extract_kept_blocks(content, &vec![]), content);
    assert_eq!(extract_kept_blocks(content, &vec!["a".to_string()]), "@misc{b,\n  title = {B}\n}\n");
}
