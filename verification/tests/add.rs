use lit::cmd::add::{add_fetch, upsert_plan, AddFetch, UpsertPlan};
use lit::api::PaperResult;
use lit::cmd::add::{
    checked_bibtex, entry_key, generate_arxiv_bibtex, generate_book_bibtex, generate_metadata_bibtex, resolution_for,
    Resolution,
};

fn paper() -> PaperResult {
    PaperResult {
        title: "Proximal Policy Optimization Algorithms".to_string(),
        authors: vec!["John Schulman".to_string(), "Filip Wolski".to_string()],
        year: "2017".to_string(),
        ..Default::default()
    }
}

#[test]
fn add_arxiv_entry() {
    let b = generate_arxiv_bibtex(&paper(), "1707.06347");
    assert_eq!(
        b,
        "@article{schulman2017proximal,\n  title = {Proximal Policy Optimization Algorithms},\n  author = {John Schulman and Filip Wolski},\n  year = {2017},\n  eprint = {1707.06347},\n  archivePrefix = {arXiv},\n}"
    );
    assert_eq!(entry_key(&b), "schulman2017proximal");
}

#[test]
fn add_book_and_metadata_entries() {
    let mut p = paper();
    p.venue = Some("MIT Press".to_string());
    p.isbn = Some("9780262".to_string());
    let b = generate_book_bibtex(&p);
    assert_eq!(
        b,
        "@book{schulman2017proximal,\n  title = {Proximal Policy Optimization Algorithms},\n  author = {John Schulman},\n  year = {2017},\n  publisher = {MIT Press},\n  isbn = {9780262}\n}"
    );
    let m = generate_metadata_bibtex(&p);
    assert!(m.starts_with("@inproceedings{schulman2017proximal,\n"));
    assert!(m.ends_with("  booktitle = {MIT Press}\n}"));
    let none = PaperResult { title: "X".to_string(), year: "1".to_string(), ..Default::default() };
    assert!(generate_book_bibtex(&none).contains("author = {Unknown}"));
}

#[test]
fn add_resolution_order() {
    let mut p = paper();
    assert!(matches!(resolution_for(&p), Resolution::Metadata));
    p.isbn = Some("1".to_string());
    assert!(matches!(resolution_for(&p), Resolution::Isbn(_)));
    p.arxiv_id = Some("2".to_string());
    assert!(matches!(resolution_for(&p), Resolution::Arxiv(_)));
    p.doi = Some("3".to_string());
    assert!(matches!(resolution_for(&p), Resolution::Doi(_)));
}

#[test]
fn add_key_and_check() {
    assert_eq!(entry_key("@article{ key2020 ,,\n  title = {T}\n}"), "key2020");
    assert_eq!(entry_key("no brace here"), "unknown");
    assert_eq!(entry_key(""), "unknown");
    assert_eq!(checked_bibtex("  @misc{a,}\n").unwrap(), "@misc{a,}");
    assert_eq!(checked_bibtex("<html>").unwrap_err(), "Failed to fetch BibTeX");
}

#[test]
fn add_fetch_by_input_type() {
    match add_fetch("arXiv:2301.12345v2").unwrap() {
        AddFetch::Arxiv { id, key, url } => {
            assert_eq!(id, "2301.12345");
            assert_eq!(key, lit::db::cache_key("arxiv", "2301.12345"));
            assert_eq!(url, "https://export.arxiv.org/api/query?id_list=2301.12345");
        }
        other => panic!("unexpected {:?}", other),
    }
    match add_fetch("https://doi.org/10.1145/3292500.3330701").unwrap() {
        AddFetch::Doi { doi, url } => {
            assert_eq!(doi, "10.1145/3292500.3330701");
            assert_eq!(url, "https://api.crossref.org/works/10.1145/3292500.3330701/transform/application/x-bibtex");
        }
        other => panic!("unexpected {:?}", other),
    }
    match add_fetch("978-0-13-468599-1").unwrap() {
        AddFetch::Isbn { isbn, key, url } => {
            assert_eq!(isbn, "9780134685991");
            assert_eq!(key, lit::db::cache_key("isbn", "9780134685991"));
            assert_eq!(url, "https://openlibrary.org/api/books?bibkeys=ISBN:9780134685991&format=json&jscmd=data");
        }
        other => panic!("unexpected {:?}", other),
    }
    assert!(matches!(add_fetch("attention is all you need").unwrap(), AddFetch::Search));
    assert_eq!(
        add_fetch("https://dblp.org/rec/conf/nips/VaswaniSPUJGKP17").unwrap_err(),
        "Cannot fetch BibTeX for: https://dblp.org/rec/conf/nips/VaswaniSPUJGKP17\nProvide an arXiv ID, DOI, ISBN, or a search query"
    );
}

const EXISTING: &str = "@misc{maiti2025counterfactual,\n  title = {Counterfactual Reasoning Tech Report},\n  author = {Aurghya Maiti},\n  year = {2025}\n}";

fn one_entry(text: &str) -> lit::bibtex::BibEntry {
    lit::bibtex::parse_bib_file(text).into_iter().next().unwrap()
}

#[test]
fn upsert_guard_refuses_a_key_naming_another_title() {
    let existing = lit::bibtex::parse_bib_file(EXISTING);
    let incoming = one_entry("@article{maiti2025counterfactual,\n  title = {Counterfactual Graphical Tiers},\n  author = {Aurghya Maiti},\n  year = {2025}\n}");
    let err = upsert_plan(&existing, &incoming, false).unwrap_err();
    assert!(err.contains("Counterfactual Reasoning Tech Report"), "err: {}", err);
    assert!(err.contains("Counterfactual Graphical Tiers"), "err: {}", err);
    assert!(err.contains("--key"), "err: {}", err);
    assert_eq!(upsert_plan(&existing, &incoming, true), Ok(UpsertPlan::Replace(0)));
}

#[test]
fn upsert_guard_accepts_the_same_title_and_new_papers() {
    let existing = lit::bibtex::parse_bib_file(EXISTING);
    let same = one_entry("@article{maiti2025counterfactual,\n  title = {Counterfactual  reasoning tech REPORT},\n  author = {Aurghya Maiti},\n  year = {2025},\n  journal = {AAAI}\n}");
    assert_eq!(upsert_plan(&existing, &same, false), Ok(UpsertPlan::Replace(0)));
    let other = one_entry("@article{smith2020x,\n  title = {X},\n  author = {S},\n  year = {2020}\n}");
    assert_eq!(upsert_plan(&existing, &other, false), Ok(UpsertPlan::Append));
}

#[test]
fn upsert_guard_skips_a_paper_present_under_another_key() {
    let existing = lit::bibtex::parse_bib_file("@article{vaswani2017attention,\n  title = {Attention Is All You Need},\n  author = {A. Vaswani},\n  year = {2017},\n  eprint = {1706.03762}\n}");
    let incoming = one_entry("@misc{vaswani2017attn,\n  title = {Attention is all you need},\n  author = {Vaswani},\n  year = {2017},\n  eprint = { 1706.03762 }\n}");
    assert_eq!(upsert_plan(&existing, &incoming, false), Ok(UpsertPlan::AlreadyPresent("vaswani2017attention".to_string())));
    assert_eq!(upsert_plan(&existing, &incoming, true), Ok(UpsertPlan::Append));
}
