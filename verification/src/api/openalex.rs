//! OpenAlex API: URLs and response parsers.
use vstd::prelude::*;
use vstd::string::StringSliceAdditionalSpecFns;
use crate::api::{
    build_query_url, cat2, query_url_text, PaperResult, PaperV, empty_paper, names_in, collect_names, keys_view,
    owned_opt, opt_view, papers_view, str_or, year_string, year_text, owned_or,
};
use crate::json::{Json, JsonV, jfield, jget, jstr, ju64, jarr, jas_str, jas_u64, jas_array, json_parsed, ov, os, parse_json};
use crate::pattern::{regex_replace_all, regex_replaced_all};
use crate::sanitize::{decode_html_entities, html_decoded};
use crate::text::{has_prefix, str_chars, string_from_chars, slice_vec, starts_with_str};

verus! {

/// Build URL for looking up a work by DOI.
pub fn work_by_doi_url(doi: &str) -> (r: String)
    ensures
        r@ == "https://api.openalex.org/works/doi:"@ + doi@,
{
    cat2("https://api.openalex.org/works/doi:", doi)
}

/// Build URL for a general search.
pub fn search_url(query: &str, limit: usize) -> (r: String)
    ensures
        r@ == query_url_text("https://api.openalex.org/works?search="@, query.spec_bytes(), "&per-page="@, limit as nat, ""@),
{
    build_query_url("https://api.openalex.org/works?search=", query, "&per-page=", limit, "")
}

/// Build URL for a title-filtered search.
pub fn title_search_url(title: &str, limit: usize) -> (r: String)
    ensures
        r@ == query_url_text("https://api.openalex.org/works?filter=title.search:"@, title.spec_bytes(), "&per-page="@, limit as nat, ""@),
{
    build_query_url("https://api.openalex.org/works?filter=title.search:", title, "&per-page=", limit, "")
}

/// Work metadata from the single-work endpoint.
#[derive(Debug, Clone)]
pub struct WorkResult {
    pub openalex_id: Option<String>,
    pub citations: Option<u64>,
    pub oa_url: Option<String>,
}

/// Parse a single-work response: OpenAlex ID, citation count and
/// open-access URL, each absent when the response lacks it.
pub fn parse_work(body: &str) -> (r: Result<WorkResult, String>)
    ensures
        match json_parsed(body@) {
            None => r is Err,
            Some(d) => r matches Ok(w) && opt_view(w.openalex_id) == jstr(jget(d, "id"@))
                && w.citations == ju64(jget(d, "cited_by_count"@))
                && opt_view(w.oa_url) == jstr(jget(jget(d, "open_access"@), "oa_url"@)),
        },
{
    let data = match parse_json(body) {
        Some(d) => d,
        None => return Err("invalid JSON".to_owned()),
    };
    let root = Some(&data);
    let openalex_id = owned_opt(jas_str(jfield(root, "id")));
    let citations = jas_u64(jfield(root, "cited_by_count"));
    let oa_url = owned_opt(jas_str(jfield(jfield(root, "open_access"), "oa_url")));
    Ok(WorkResult { openalex_id, citations, oa_url })
}

/// `d` without every leading `https://doi.org/` (`trim_start_matches`).
pub open spec fn strip_doi_url(d: Seq<char>) -> Seq<char>
    decreases d.len(),
{
    if "https://doi.org/"@.len() > 0 && has_prefix(d, "https://doi.org/"@) {
        strip_doi_url(d.subrange("https://doi.org/"@.len() as int, d.len() as int))
    } else {
        d
    }
}

fn strip_doi_url_exec(d: &str) -> (r: Vec<char>)
    ensures
        r@ == strip_doi_url(d@),
{
    proof {
        reveal_strlit("https://doi.org/");
    }
    let mut v = str_chars(d);
    let pre = str_chars("https://doi.org/");
    while starts_with_str(v.as_slice(), "https://doi.org/")
        invariant
            strip_doi_url(d@) == strip_doi_url(v@),
            pre@ == "https://doi.org/"@,
            pre@.len() == 16,
        decreases v@.len(),
    {
        v = slice_vec(v.as_slice(), 16, v.len());
    }
    v
}

/// The DOI of a work: the `doi` string with resolver prefixes removed, when
/// something is left.
pub open spec fn oa_doi(w: JsonV) -> Option<Seq<char>> {
    match jstr(jget(w, "doi"@)) {
        Some(d) => if strip_doi_url(d).len() > 0 { Some(strip_doi_url(d)) } else { None },
        None => None,
    }
}

/// A search result as a paper record.
pub open spec fn oa_work(w: JsonV) -> PaperV {
    PaperV {
        title: html_decoded(regex_replaced_all("<[^>]+>"@, str_or(jstr(jget(w, "title"@)), "N/A"@), ""@)),
        authors: names_in(jget(w, "authorships"@), seq!["author"@, "display_name"@], true),
        year: year_text(ju64(jget(w, "publication_year"@))),
        doi: oa_doi(w),
        citations: ju64(jget(w, "cited_by_count"@)),
        ..empty_paper()
    }
}

fn oa_work_exec(w: &Json) -> (r: PaperResult)
    ensures
        r@ == oa_work(w@),
{
    let o = Some(w);
    let raw = owned_or(jas_str(jfield(o, "title")), "N/A");
    let stripped = regex_replace_all("<[^>]+>", raw.as_str(), "");
    let title = decode_html_entities(stripped.as_str());
    let path: [&str; 2] = ["author", "display_name"];
    assert(keys_view(path@) =~= seq!["author"@, "display_name"@]);
    let authors = collect_names(jfield(o, "authorships"), &path, true);
    let year = year_string(jas_u64(jfield(o, "publication_year")));
    let citations = jas_u64(jfield(o, "cited_by_count"));
    let doi = match jas_str(jfield(o, "doi")) {
        Some(d) => {
            let s = strip_doi_url_exec(d);
            if s.len() > 0 {
                Some(string_from_chars(s.as_slice()))
            } else {
                None
            }
        },
        None => None,
    };
    let mut p = PaperResult::default();
    p.title = title;
    p.authors = authors;
    p.year = year;
    p.doi = doi;
    p.citations = citations;
    p
}

/// The papers of a works response, or why there are none.
pub open spec fn works_response(body: Seq<char>, key: Seq<char>) -> Option<Seq<PaperV>> {
    match json_parsed(body) {
        None => None,
        Some(d) => match jarr(jget(d, key)) {
            Some(ws) => Some(ws.map_values(|w: JsonV| oa_work(w))),
            None => None,
        },
    }
}

/// Parse a works list nested under `array_key`.
fn parse_works_response(body: &str, array_key: &str) -> (r: Result<Vec<PaperResult>, String>)
    ensures
        match works_response(body@, array_key@) {
            None => r is Err,
            Some(ps) => r matches Ok(v) && papers_view(v@) == ps,
        },
{
    let data = match parse_json(body) {
        Some(d) => d,
        None => return Err("invalid JSON".to_owned()),
    };
    let works = match jas_array(jfield(Some(&data), array_key)) {
        Some(a) => a,
        None => return Err("missing results array".to_owned()),
    };
    let ghost ws = jarr(jget(data@, array_key@)).unwrap();
    let mut results: Vec<PaperResult> = Vec::new();
    let mut i: usize = 0;
    while i < works.len()
        invariant
            i <= works.len(),
            ws.len() == works@.len(),
            forall|k: int| 0 <= k < works@.len() ==> (#[trigger] works@[k])@ == ws[k],
            results@.len() == i,
            forall|k: int| 0 <= k < i ==> (#[trigger] results@[k])@ == oa_work(ws[k]),
        decreases works.len() - i,
    {
        results.push(oa_work_exec(&works[i]));
        i = i + 1;
    }
    assert(papers_view(results@) =~= ws.map_values(|w: JsonV| oa_work(w)));
    Ok(results)
}

/// Parse the response of the search endpoint: the works under `results`.
pub fn parse_search(body: &str) -> (r: Result<Vec<PaperResult>, String>)
    ensures
        match works_response(body@, "results"@) {
            None => r is Err,
            Some(ps) => r matches Ok(v) && papers_view(v@) == ps,
        },
{
    parse_works_response(body, "results")
}

} // verus!
