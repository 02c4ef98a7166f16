use lit::cmd::clean::{clean_bib, report_lines};

const FIXTURE: &str = "@article{amp2020entry,\n  title = {A &amp; B},\n  author = {X},\n  year = {2020}\n}\n\n@article{dash2021entry,\n  title = {C},\n  author = {Y},\n  year = {2021},\n  pages = {1\u{2013}2}\n}\n\n@article{month2022entry,\n  title = {D},\n  author = {Z},\n  year = {2022},\n  month = {June}\n}\n\n@article{clean2023entry,\n  title = {Clean},\n  author = {W},\n  year = {2023}\n}\n\n@article{june2024title,\n  title = {The June Uprising},\n  author = {V},\n  year = {2024}\n}\n";

#[test]
fn lint_flags_amp_dash_and_month_leaving_clean_entries_alone() {
    let (report, text) = clean_bib(FIXTURE, &None, false, false);
    let keys: Vec<String> = report.lint.iter().map(|(k, _)| k.clone()).collect();
    assert!(keys.contains(&"amp2020entry".to_string()), "lint: {:?}", report.lint);
    assert!(keys.contains(&"dash2021entry".to_string()), "lint: {:?}", report.lint);
    assert!(keys.contains(&"month2022entry".to_string()), "lint: {:?}", report.lint);
    assert!(!keys.contains(&"clean2023entry".to_string()), "lint: {:?}", report.lint);
    assert!(!keys.contains(&"june2024title".to_string()), "a title containing the word June is not a month problem: {:?}", report.lint);
    assert!(report.removed.is_empty());
    // Dry run: nothing to write back.
    assert!(text.is_none());
}

#[test]
fn clean_lint_messages() {
    let (report, _) = clean_bib(FIXTURE, &None, false, false);
    assert_eq!(
        report.lint,
        vec![
            ("amp2020entry".to_string(), "title: HTML entity &amp;".to_string()),
            ("dash2021entry".to_string(), "pages: Unicode dash".to_string()),
            ("month2022entry".to_string(), "month: 'June' is not a bare month macro".to_string()),
        ]
    );
    let ok = "@article{a1,\n  title = {T},\n  author = {A},\n  year = {2020},\n  month = jun,\n  url = {https://x.org/?a=1&amp;b=2}\n}\n";
    let (r2, _) = clean_bib(ok, &None, true, false);
    assert!(r2.lint.is_empty(), "lint: {:?}", r2.lint);
}

#[test]
fn clean_lint_report_section() {
    let (report, _) = clean_bib(FIXTURE, &None, false, false);
    assert_eq!(
        report_lines(&report, false).unwrap(),
        vec![
            "Lint (3):",
            "  amp2020entry: title: HTML entity &amp;",
            "  dash2021entry: pages: Unicode dash",
            "  month2022entry: month: 'June' is not a bare month macro",
            "",
            "Dry run: 3 issues found. Pass --apply to remove malformed + duplicate entries.",
        ]
    );
}
