use lit::cmd::verify::{author_matches, common_prefix_len, normalize_author, normalize_title, parse_entries, years_within};
#[test]
fn test_normalize_title() {
    assert_eq!(
        normalize_title("Attention Is All You Need!"),
        "attentionisallyouneed"
    );
}

#[test]
fn test_normalize_author() {
    assert_eq!(normalize_author("Vaswani"), "vaswani");
    assert_eq!(normalize_author("O'Brien"), "obrien");
}

#[test]
fn test_common_prefix_len() {
    assert_eq!(common_prefix_len("abcdef", "abcdxy"), 4);
    assert_eq!(common_prefix_len("xyz", "abc"), 0);
    assert_eq!(common_prefix_len("same", "same"), 4);
}

#[test]
fn test_author_matches_long_name() {
    assert!(author_matches("Vaswani", "ashish vaswani et al"));
    assert!(!author_matches("Vaswani", "john smith"));
}

#[test]
fn test_author_matches_short_name() {
    assert!(author_matches("Ho", "jonathan ho et al"));
}

#[test]
fn test_author_matches_empty() {
    assert!(author_matches("", "any author"));
}

#[test]
fn test_years_within() {
    assert!(years_within("2020", "2021", 3));
    assert!(years_within("2020", "2023", 3));
    assert!(!years_within("2020", "2024", 3));
    assert!(!years_within("abc", "2020", 3));
}

#[test]
fn test_parse_entries_basic() {
    let content = r#"
@article{vaswani2017attention,
  title = {Attention Is All You Need},
  author = {Vaswani, Ashish and Shazeer, Noam},
  year = {2017},
  eprint = {1706.03762},
}
"#;
    let entries = parse_entries(content);
    assert_eq!(entries.len(), 1);
    assert_eq!(entries[0].key, "vaswani2017attention");
    assert_eq!(entries[0].title, "Attention Is All You Need");
    assert_eq!(entries[0].author, "Vaswani");
    assert_eq!(entries[0].year, "2017");
    assert_eq!(entries[0].eprint, "1706.03762");
}

#[test]
fn test_parse_entries_skip() {
    let content = r#"
% lit:skip
@article{skipped2020,
  title = {Should Be Skipped},
  author = {Nobody},
  year = {2020},
}

@article{kept2021,
  title = {Should Be Kept},
  author = {Somebody},
  year = {2021},
}
"#;
    let entries = parse_entries(content);
    assert_eq!(entries.len(), 1);
    assert_eq!(entries[0].key, "kept2021");
}

#[test]
fn test_parse_entries_with_doi() {
    let content = r#"
@inproceedings{karimi2021algorithmic,
  title = {Algorithmic Recourse Under Imperfect Causal Knowledge},
  author = {Karimi, Amir-Hossein},
  year = {2021},
  doi = {10.1145/3442188.3445899},
}
"#;
    let entries = parse_entries(content);
    assert_eq!(entries.len(), 1);
    assert_eq!(entries[0].doi, "10.1145/3442188.3445899");
    assert_eq!(entries[0].entry_type, "inproceedings");
}

use lit::cmd::verify::{
    count_skip_markers, find_best_openalex_match, next_lookup, take_reply, tally, verify_finish, verify_start, Stage,
    Status, VerifyEntry,
};
use lit::db::cache_key;

fn entry(entry_type: &str, title: &str, author: &str, year: &str, doi: &str, eprint: &str) -> VerifyEntry {
    VerifyEntry {
        entry_type: entry_type.to_string(),
        key: "k2017".to_string(),
        title: title.to_string(),
        author: author.to_string(),
        year: year.to_string(),
        doi: doi.to_string(),
        eprint: eprint.to_string(),
    }
}

const OA_BODY: &str = r#"{
    "results": [
        {
            "title": "Something Else Entirely",
            "publication_year": 2017,
            "authorships": [{"author": {"display_name": "John Smith"}}],
            "doi": null
        },
        {
            "title": "Attention Is All You Need",
            "publication_year": 2017,
            "authorships": [{"author": {"display_name": "Ashish Vaswani"}}],
            "doi": "https://doi.org/10.5555/3295222.3295349"
        }
    ]
}"#;

#[test]
fn verify_lookups_follow_the_stages() {
    let e = entry("article", "Attention Is All You Need", "Vaswani", "2017", "10.1/x", "");
    let st = verify_start();
    let l = next_lookup(&e, &st, None).unwrap();
    assert_eq!(l.stage, Stage::Doi);
    assert_eq!(l.url, "https://api.crossref.org/works/10.1/x");
    assert_eq!(l.cache_key, cache_key("verify_doi", "10.1/x"));
    // Nothing found by DOI: no eprint, so OpenAlex comes next.
    let l = next_lookup(&e, &st, Some(Stage::Doi)).unwrap();
    assert_eq!(l.stage, Stage::OpenAlex);
    assert_eq!(l.cache_key, cache_key("verify_oa", "Attention Is All You Need"));
    let l = next_lookup(&e, &st, Some(Stage::OpenAlex)).unwrap();
    assert_eq!(l.stage, Stage::SemanticScholar);
    // Not a book: nothing after Semantic Scholar.
    assert!(next_lookup(&e, &st, Some(Stage::SemanticScholar)).is_none());
}

#[test]
fn verify_doi_reply_records_a_match_and_stops_the_search() {
    let e = entry("article", "Causality", "Pearl", "2009", "10.1017/CBO9780511803161", "1234.5678");
    let body = r#"{"message": {"title": ["Causality"], "author": [{"given": "Judea", "family": "Pearl"}],
        "published": {"date-parts": [[2009]]}}}"#;
    let st = take_reply(&e, verify_start(), Stage::Doi, Some(body.to_string())).unwrap();
    assert_eq!(st.status, Status::Matched);
    assert_eq!(st.source, "DOI");
    assert_eq!(st.found_year, "2009");
    assert_eq!(st.found_author, "Pearl");
    // A match skips arXiv, OpenAlex and Semantic Scholar.
    assert!(next_lookup(&e, &st, Some(Stage::Doi)).is_none());
    let r = verify_finish(&e, st, 3);
    assert_eq!(r.status, Status::Matched);
    assert_eq!(r.index, 3);
    assert!(r.issues.is_empty());
}

#[test]
fn verify_failed_or_unmarked_replies_change_nothing() {
    let e = entry("article", "Causality", "Pearl", "2009", "10.1/x", "");
    let st = take_reply(&e, verify_start(), Stage::Doi, None).unwrap();
    assert_eq!(st.status, Status::Unknown);
    let st = take_reply(&e, st, Stage::Doi, Some("{\"message\": {}}".to_string())).unwrap();
    assert_eq!(st.status, Status::Unknown);
    let r = verify_finish(&e, st, 0);
    assert_eq!(r.status, Status::Unknown);
}

#[test]
fn verify_openalex_picks_best_and_suggests_doi() {
    let e = entry("article", "Attention Is All You Need", "Vaswani", "2017", "", "");
    let results = lit::api::openalex::parse_search(OA_BODY).unwrap();
    assert_eq!(find_best_openalex_match(&results, &e), Some((1, true)));
    let st = take_reply(&e, verify_start(), Stage::OpenAlex, Some(OA_BODY.to_string())).unwrap();
    assert_eq!(st.status, Status::Matched);
    assert_eq!(st.source, "OpenAlex");
    assert_eq!(st.issues, vec!["add-doi:10.5555/3295222.3295349".to_string()]);
    let r = verify_finish(&e, st, 0);
    // A suggestion alone does not make a mismatch.
    assert_eq!(r.status, Status::Matched);
}

#[test]
fn verify_finish_reports_year_author_and_title_issues() {
    let e = entry("article", "Attention Is All You Need", "Smith", "2016", "", "");
    let body = r#"{"message": {"title": ["A Different Paper Title Here"], "author": [{"given": "A", "family": "Vaswani"}],
        "published": {"date-parts": [[2017]]}}}"#;
    let e2 = entry("article", "Attention Is All You Need", "Smith", "2016", "10.1/x", "");
    let st = take_reply(&e2, verify_start(), Stage::Doi, Some(body.to_string())).unwrap();
    let r = verify_finish(&e, st, 0);
    assert_eq!(r.status, Status::Mismatch);
    assert_eq!(
        r.issues,
        vec!["year:2016->2017".to_string(), "author:Smith->Vaswani".to_string(), "title-mismatch".to_string()]
    );
}

#[test]
fn verify_tally_and_skip_markers() {
    let e = entry("article", "T", "", "", "", "");
    let a = verify_finish(&e, verify_start(), 0);
    let results = vec![a];
    let t = tally(&results);
    assert_eq!((t.ok, t.mismatch, t.book, t.unknown), (0, 0, 0, 1));
    assert_eq!(count_skip_markers("% lit:skip\n@a{x,}\n% lit:skip\n"), 2);
    assert_eq!(count_skip_markers("none"), 0);
}

#[test]
fn verify_title_shown_is_cut_to_fifty_bytes() {
    let long = "x".repeat(70);
    let e = entry("article", &long, "", "", "", "");
    let r = verify_finish(&e, verify_start(), 0);
    assert_eq!(r.title.len(), 50);
}

#[test]
fn verify_author_match_by_characters() {
    assert!(author_matches("Sch\u{f6}lkopf", "bernhard sch\u{f6}lkopf"));
    assert!(!author_matches("Sch\u{f6}lkopf", "bernhard schmidt"));
}
