use lit::api::PaperResult;
use lit::cmd::clean::{report_lines, CleanReport};
use lit::cmd::search::result_lines;
use lit::cmd::{paper_lines, paper_to_json, paper_to_json_brief};
use lit::json::Json;

fn full_paper() -> PaperResult {
    PaperResult {
        title: "Denoising Diffusion".into(),
        authors: vec!["Ho".into(), "Jain".into(), "Abbeel".into(), "Extra".into()],
        year: "2020".into(),
        doi: Some("10.1/x".into()),
        arxiv_id: Some("2006.11239".into()),
        citations: Some(42),
        venue: Some("NeurIPS".into()),
        pdf_url: Some("http://p.pdf".into()),
        abstract_text: Some("We study.".into()),
        isbn: None,
        s2_id: None,
        published_date: Some("2020-06-19".into()),
        categories: vec!["cs.LG".into(), "stat.ML".into()],
    }
}

fn keys(j: &Json) -> Vec<String> {
    match j {
        Json::Object(ps) => ps.iter().map(|(k, _)| k.clone()).collect(),
        _ => panic!("not an object"),
    }
}

fn member<'a>(j: &'a Json, key: &str) -> &'a Json {
    match j {
        Json::Object(ps) => &ps.iter().find(|(k, _)| k == key).unwrap().1,
        _ => panic!("not an object"),
    }
}

#[test]
fn paper_json_members_in_order() {
    let j = paper_to_json(&full_paper());
    assert_eq!(
        keys(&j),
        vec!["title", "authors", "year", "doi", "arxiv_id", "venue", "pdf_url", "abstract", "citations", "categories", "published_date"]
    );
    assert!(matches!(member(&j, "citations"), Json::Number(Some(42))));
    match member(&j, "authors") {
        Json::Array(a) => assert_eq!(a.len(), 4),
        _ => panic!("authors not an array"),
    }
    let bare = paper_to_json(&PaperResult { title: "T".into(), year: "?".into(), ..Default::default() });
    assert_eq!(keys(&bare), vec!["title", "authors", "year"]);
}

#[test]
fn paper_json_brief_shortens_abstract() {
    let mut p = full_paper();
    p.abstract_text = Some("a".repeat(200));
    let j = paper_to_json_brief(&p);
    assert_eq!(keys(&j), vec!["title", "authors", "year", "doi", "arxiv_id", "venue", "abstract", "citations"]);
    match member(&j, "abstract") {
        Json::Str(s) => assert_eq!(s, &format!("{}...", "a".repeat(150))),
        _ => panic!("abstract not a string"),
    }
}

#[test]
fn paper_display_lines() {
    let lines = paper_lines(&full_paper());
    assert_eq!(
        lines,
        vec![
            "Title: Denoising Diffusion",
            "Authors: Ho, Jain, Abbeel et al.",
            "Published: 2020-06-19",
            "arXiv: 2006.11239",
            "DOI: 10.1/x",
            "Venue: NeurIPS",
            "Categories: cs.LG, stat.ML",
            "PDF: http://p.pdf",
            "",
            "Abstract: We study.",
        ]
    );
    let bare = paper_lines(&PaperResult { title: "T".into(), year: "1999".into(), ..Default::default() });
    assert_eq!(bare, vec!["Title: T", "Year: 1999"]);
    let unknown = paper_lines(&PaperResult { title: "T".into(), year: "?".into(), ..Default::default() });
    assert_eq!(unknown, vec!["Title: T"]);
}

#[test]
fn search_result_listing() {
    assert_eq!(result_lines(&vec![], false), vec!["No results found"]);
    let p = full_paper();
    let q = PaperResult { title: "Book".into(), year: "1990".into(), isbn: Some("123".into()), ..Default::default() };
    assert_eq!(
        result_lines(&vec![p.clone(), q.clone()], false),
        vec!["1. Ho 2020 | Denoising Diffusion | arXiv:2006.11239", "2. ? 1990 | Book | ISBN:123"]
    );
    assert_eq!(
        result_lines(&vec![p, q], true),
        vec![
            "1. Denoising Diffusion (2020)",
            "   Author: Ho | Citations: 42",
            "   arXiv: 2006.11239",
            "   DOI: 10.1/x",
            "   Venue: NeurIPS",
            "",
            "2. Book (1990)",
            "   Author: ? | Citations: ",
            "   ISBN: 123",
            "",
        ]
    );
}

#[test]
fn clean_report_text() {
    let empty = CleanReport { malformed: vec![], duplicates: vec![], orphans: vec![], removed: vec![], lint: vec![] };
    assert_eq!(report_lines(&empty, false), None);
    let r = CleanReport {
        malformed: vec!["1bad".into()],
        duplicates: vec![("a".into(), "b".into())],
        orphans: vec![],
        removed: vec!["1bad".into()],
        lint: vec![],
    };
    assert_eq!(
        report_lines(&r, false).unwrap(),
        vec![
            "Malformed (1):",
            "  1bad",
            "",
            "Duplicates (1):",
            "  keep:a remove:b",
            "",
            "Dry run: 2 issues found. Pass --apply to remove malformed + duplicate entries.",
        ]
    );
    let applied = report_lines(&r, true).unwrap();
    assert_eq!(&applied[6..], &["Removed 1 entry:".to_string(), "  1bad".to_string()]);
    let none_removed = CleanReport { removed: vec![], ..r };
    assert_eq!(report_lines(&none_removed, true).unwrap().last().unwrap(), "No entries removed.");
}

use lit::cmd::verify::{result_line, run_failed, summary_line, tally, Status, VerifyResult};

fn vr(status: Status, key: &str, issues: Vec<&str>) -> VerifyResult {
    VerifyResult {
        index: 0,
        status,
        source: "OpenAlex".to_string(),
        key: key.to_string(),
        title: "Some Paper Title".to_string(),
        issues: issues.into_iter().map(|s| s.to_string()).collect(),
    }
}

#[test]
fn verify_run_lines() {
    assert_eq!(result_line(&vr(Status::Matched, "a", vec![])), None);
    assert_eq!(
        result_line(&vr(Status::Tentative, "smith2020", vec!["year:2020->2021"])),
        Some("  ! smith2020 [OpenAlex]: year:2020->2021".to_string())
    );
    assert_eq!(
        result_line(&vr(Status::Mismatch, "b", vec!["title", "year:1->2"])),
        Some("  ! b [OpenAlex]: title year:1->2".to_string())
    );
    assert_eq!(result_line(&vr(Status::Book, "c", vec![])), Some("  B c [OpenAlex]: Some Paper Title".to_string()));
    assert_eq!(result_line(&vr(Status::Unknown, "unknown2019", vec![])), Some("  x unknown2019: Some Paper Title".to_string()));
    let rs = vec![
        vr(Status::Matched, "a", vec![]),
        vr(Status::Tentative, "b", vec!["x"]),
        vr(Status::Book, "c", vec![]),
        vr(Status::Unknown, "d", vec![]),
    ];
    let t = tally(&rs);
    assert_eq!(t.ok + t.mismatch + t.book + t.unknown, rs.len());
    assert_eq!(
        summary_line(42, &t, 1),
        "Total: 42 | OK: 3 (auto:2 manual:1) | Mismatch: 0 | Books: 1 | Not found: 1"
    );
    assert!(run_failed(&t));
    let clean = tally(&vec![vr(Status::Matched, "a", vec![]), vr(Status::Book, "b", vec![])]);
    assert!(!run_failed(&clean));
}
