//! CrossRef API: URLs and response parsers.
use vstd::prelude::*;
use vstd::string::StringSliceAdditionalSpecFns;
use crate::api::{
    build_query_url, cat2, cat3, query_url_text, PaperResult, PaperV, empty_paper, filter_mapped, owned_opt, owned_or,
    opt_view, papers_view, str_or, strs_view, year_string, year_text,
};
use crate::json::{Json, JsonV, jfield, jget, jstr, ju64, jarr, jfirst, jas_str, jas_u64, jas_array, jas_first, json_parsed, ov, os, parse_json};
use crate::text::{trim, trim_vec, str_chars, string_from_chars, push_str};

verus! {

/// Build URL for a general search query.
pub fn search_url(query: &str, limit: usize) -> (r: String)
    ensures
        r@ == query_url_text("https://api.crossref.org/works?query="@, query.spec_bytes(), "&rows="@, limit as nat, "&sort=relevance"@),
{
    build_query_url("https://api.crossref.org/works?query=", query, "&rows=", limit, "&sort=relevance")
}

/// Build URL for looking up a single DOI.
pub fn doi_url(doi: &str) -> (r: String)
    ensures
        r@ == "https://api.crossref.org/works/"@ + doi@,
{
    cat2("https://api.crossref.org/works/", doi)
}

/// Build URL that returns raw BibTeX for a DOI (not JSON).
pub fn bibtex_url(doi: &str) -> (r: String)
    ensures
        r@ == "https://api.crossref.org/works/"@ + doi@ + "/transform/application/x-bibtex"@,
{
    cat3("https://api.crossref.org/works/", doi, "/transform/application/x-bibtex")
}

/// The year of a CrossRef `published` object: the first of its first
/// `date-parts`, `?` without one.
pub open spec fn cr_year(published: JsonV) -> Seq<char> {
    year_text(ju64(jfirst(jfirst(jget(published, "date-parts"@)))))
}

/// Extract year from a CrossRef `published` (or `created`) object.
///
/// Structure: `{ "date-parts": [[2021, 3, 15]] }`.
pub fn extract_year(published: &Json) -> (r: String)
    ensures
        r@ == cr_year(published@),
{
    year_string(jas_u64(jas_first(jas_first(jfield(Some(published), "date-parts")))))
}

/// An author as `given family`, trimmed; none without a family name.
pub open spec fn cr_author(a: JsonV) -> Option<Seq<char>> {
    let given = str_or(jstr(jget(a, "given"@)), ""@);
    let family = str_or(jstr(jget(a, "family"@)), ""@);
    if family.len() == 0 {
        None
    } else {
        Some(trim(given + " "@ + family))
    }
}

/// The authors of an `author` array.
pub open spec fn cr_authors(o: JsonV) -> Seq<Seq<char>> {
    match jarr(o) {
        Some(a) => filter_mapped(a, |x: JsonV| cr_author(x)),
        None => seq![],
    }
}

fn cr_author_exec(a: &Json) -> (r: Option<String>)
    ensures
        opt_view(r) == cr_author(a@),
{
    let o = Some(a);
    let given = owned_or(jas_str(jfield(o, "given")), "");
    let family = owned_or(jas_str(jfield(o, "family")), "");
    if family.as_str().is_empty() {
        return None;
    }
    let mut v = str_chars(given.as_str());
    push_str(&mut v, " ");
    push_str(&mut v, family.as_str());
    let t = trim_vec(v.as_slice());
    Some(string_from_chars(t.as_slice()))
}

fn cr_authors_exec(o: Option<&Json>) -> (r: Vec<String>)
    ensures
        strs_view(r@) == cr_authors(ov(o)),
{
    let mut out: Vec<String> = Vec::new();
    match jas_array(o) {
        None => {
            assert(strs_view(out@) =~= seq![]);
            out
        },
        Some(arr) => {
            let ghost a = jarr(ov(o)).unwrap();
            let ghost f = |x: JsonV| cr_author(x);
            let mut i: usize = 0;
            while i < arr.len()
                invariant
                    i <= arr@.len(),
                    a.len() == arr@.len(),
                    f == (|x: JsonV| cr_author(x)),
                    forall|k: int| 0 <= k < arr@.len() ==> (#[trigger] arr@[k])@ == a[k],
                    strs_view(out@) == filter_mapped(a.subrange(0, i as int), f),
                decreases arr@.len() - i,
            {
                let ghost sub = a.subrange(0, i + 1);
                assert(sub.drop_last() =~= a.subrange(0, i as int));
                assert(sub.last() == arr@[i as int]@);
                match cr_author_exec(&arr[i]) {
                    Some(n) => {
                        let ghost prev = strs_view(out@);
                        out.push(n);
                        assert(strs_view(out@) =~= prev.push(n@));
                    },
                    None => {},
                }
                i = i + 1;
            }
            assert(a.subrange(0, a.len() as int) =~= a);
            out
        },
    }
}

/// The title of a work: the first of its `title` list.
pub open spec fn cr_title(w: JsonV) -> Seq<char> {
    str_or(jstr(jfirst(jget(w, "title"@))), "N/A"@)
}

/// A search item as a paper record.
pub open spec fn cr_search_item(w: JsonV) -> PaperV {
    PaperV {
        title: cr_title(w),
        year: cr_year(jget(w, "published"@)),
        authors: cr_authors(jget(w, "author"@)),
        doi: jstr(jget(w, "DOI"@)),
        citations: ju64(jget(w, "is-referenced-by-count"@)),
        ..empty_paper()
    }
}

/// Parse response from the search endpoint.
pub fn parse_search(body: &str) -> (r: Result<Vec<PaperResult>, String>)
    ensures
        match json_parsed(body@) {
            None => r is Err,
            Some(d) => match jarr(jget(jget(d, "message"@), "items"@)) {
                None => r is Err,
                Some(items) => r matches Ok(v) && papers_view(v@) == items.map_values(|w: JsonV| cr_search_item(w)),
            },
        },
{
    let data = match parse_json(body) {
        Some(d) => d,
        None => return Err("invalid JSON".to_owned()),
    };
    let items = match jas_array(jfield(jfield(Some(&data), "message"), "items")) {
        Some(a) => a,
        None => return Err("missing message.items array".to_owned()),
    };
    let ghost ws = jarr(jget(jget(data@, "message"@), "items"@)).unwrap();
    let mut results: Vec<PaperResult> = Vec::new();
    let mut i: usize = 0;
    while i < items.len()
        invariant
            i <= items@.len(),
            ws.len() == items@.len(),
            forall|k: int| 0 <= k < items@.len() ==> (#[trigger] items@[k])@ == ws[k],
            results@.len() == i,
            forall|k: int| 0 <= k < i ==> (#[trigger] results@[k])@ == cr_search_item(ws[k]),
        decreases items@.len() - i,
    {
        let o = Some(&items[i]);
        let mut p = PaperResult::default();
        p.title = owned_or(jas_str(jas_first(jfield(o, "title"))), "N/A");
        p.year = extract_year_opt(jfield(o, "published"));
        p.authors = cr_authors_exec(jfield(o, "author"));
        p.doi = owned_opt(jas_str(jfield(o, "DOI")));
        p.citations = jas_u64(jfield(o, "is-referenced-by-count"));
        results.push(p);
        i = i + 1;
    }
    assert(papers_view(results@) =~= ws.map_values(|w: JsonV| cr_search_item(w)));
    Ok(results)
}

fn extract_year_opt(o: Option<&Json>) -> (r: String)
    ensures
        r@ == cr_year(ov(o)),
{
    year_string(jas_u64(jas_first(jas_first(jfield(o, "date-parts")))))
}

/// A single-DOI message as a paper record.
pub open spec fn cr_doi_message(msg: JsonV) -> PaperV {
    PaperV {
        title: cr_title(msg),
        year: cr_year(jget(msg, "published"@)),
        authors: cr_authors(jget(msg, "author"@)),
        doi: jstr(jget(msg, "DOI"@)),
        venue: jstr(jfirst(jget(msg, "container-title"@))),
        ..empty_paper()
    }
}

/// Parse response from the single-DOI endpoint.
pub fn parse_doi(body: &str) -> (r: Result<PaperResult, String>)
    ensures
        match json_parsed(body@) {
            None => r is Err,
            Some(d) => r matches Ok(p) && p@ == cr_doi_message(jget(d, "message"@)),
        },
{
    let data = match parse_json(body) {
        Some(d) => d,
        None => return Err("invalid JSON".to_owned()),
    };
    let msg = jfield(Some(&data), "message");
    let mut p = PaperResult::default();
    p.title = owned_or(jas_str(jas_first(jfield(msg, "title"))), "N/A");
    p.year = extract_year_opt(jfield(msg, "published"));
    p.authors = cr_authors_exec(jfield(msg, "author"));
    p.doi = owned_opt(jas_str(jfield(msg, "DOI")));
    p.venue = owned_opt(jas_str(jas_first(jfield(msg, "container-title"))));
    Ok(p)
}

} // verus!
