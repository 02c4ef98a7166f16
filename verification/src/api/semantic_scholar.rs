//! Semantic Scholar API: URLs, identifier normalization and parsers.
use vstd::prelude::*;
use vstd::string::StringSliceAdditionalSpecFns;
use crate::api::{
    build_query_url, cat2, cat3, query_url_text, PaperResult, PaperV, empty_paper, names_in, collect_names,
    keys_view, owned_opt, opt_view, papers_view, str_or, year_string, year_text, owned_or,
};
use crate::json::{Json, JsonV, jfield, jget, jstr, ju64, jarr, jas_str, jas_u64, jas_array, json_parsed, ov, parse_json};
use crate::text::{index_of, index_of_exec, has_char, has_prefix, is_digit, is_digit_exec, push_str, str_chars, string_from_chars, starts_with_str};

verus! {

/// Build URL for a single paper lookup by identifier.
pub fn paper_url(id: &str) -> (r: String)
    ensures
        r@ == "https://api.semanticscholar.org/graph/v1/paper/"@ + id@
            + "?fields=paperId,externalIds,venue,citationCount,openAccessPdf"@,
{
    cat3("https://api.semanticscholar.org/graph/v1/paper/", id, "?fields=paperId,externalIds,venue,citationCount,openAccessPdf")
}

/// Build URL for paper search.
pub fn search_url(query: &str, limit: usize) -> (r: String)
    ensures
        r@ == query_url_text("https://api.semanticscholar.org/graph/v1/paper/search?query="@, query.spec_bytes(), "&limit="@, limit as nat, "&fields=title,authors,year,citationCount,externalIds"@),
{
    build_query_url("https://api.semanticscholar.org/graph/v1/paper/search?query=", query, "&limit=", limit, "&fields=title,authors,year,citationCount,externalIds")
}

/// Build URL for a paper's references (bare DOIs and arXiv IDs prefixed).
pub fn refs_url(paper_id: &str) -> (r: String)
    ensures
        r@ == "https://api.semanticscholar.org/graph/v1/paper/"@ + normalized_paper_id(paper_id@)
            + "/references?fields=title,authors,year,externalIds&limit=50"@,
{
    let id = normalize_paper_id(paper_id);
    cat3("https://api.semanticscholar.org/graph/v1/paper/", id.as_str(), "/references?fields=title,authors,year,externalIds&limit=50")
}

/// Build URL for papers citing a given paper (same prefix convention as `refs_url`).
pub fn cites_url(paper_id: &str) -> (r: String)
    ensures
        r@ == "https://api.semanticscholar.org/graph/v1/paper/"@ + normalized_paper_id(paper_id@)
            + "/citations?fields=title,authors,year,externalIds&limit=50"@,
{
    let id = normalize_paper_id(paper_id);
    cat3("https://api.semanticscholar.org/graph/v1/paper/", id.as_str(), "/citations?fields=title,authors,year,externalIds&limit=50")
}

/// `s` is non-empty and all ASCII digits.
pub open spec fn all_ascii_digits(s: Seq<char>) -> bool {
    s.len() > 0 && forall|i: int| 0 <= i < s.len() ==> is_digit(#[trigger] s[i])
}

/// Check if all characters in `s` are ASCII digits (and there is at least one).
pub fn rest_is_digits(s: &str) -> (r: bool)
    ensures
        r == all_ascii_digits(s@),
{
    let c = str_chars(s);
    assert(c@.subrange(0, c@.len() as int) =~= c@);
    digits_in(&c, 0, c.len())
}

fn digits_in(c: &Vec<char>, lo: usize, hi: usize) -> (r: bool)
    requires
        lo <= hi <= c@.len(),
    ensures
        r == all_ascii_digits(c@.subrange(lo as int, hi as int)),
{
    if lo == hi {
        return false;
    }
    let mut i = lo;
    while i < hi
        invariant
            lo <= i <= hi <= c@.len(),
            forall|k: int| lo <= k < i ==> is_digit(c@[k]),
        decreases hi - i,
    {
        if !is_digit_exec(c[i]) {
            assert(!is_digit(c@.subrange(lo as int, hi as int)[i - lo]));
            return false;
        }
        i = i + 1;
    }
    true
}

/// A bare new-style arXiv identifier: the part before the first `v` is
/// four digits, a dot, and four or five digits.
pub open spec fn is_bare_arxiv(id: Seq<char>) -> bool {
    let base = id.subrange(0, index_of(id, 'v'));
    let dot = index_of(base, '.');
    dot < base.len() && dot == 4 && all_ascii_digits(base.subrange(0, dot))
        && (base.len() - dot - 1 == 4 || base.len() - dot - 1 == 5)
        && all_ascii_digits(base.subrange(dot + 1, base.len() as int))
}

/// A bare DOI: `10.`, at least four digits, then a slash.
pub open spec fn is_bare_doi(id: Seq<char>) -> bool {
    let rest = id.subrange(3, id.len() as int);
    let slash = index_of(rest, '/');
    has_prefix(id, "10."@) && slash < rest.len() && slash >= 4 && all_ascii_digits(rest.subrange(0, slash))
}

/// The prefixes of identifiers Semantic Scholar resolves by kind.
pub open spec fn id_prefixes() -> Seq<Seq<char>> {
    seq!["DOI:"@, "ARXIV:"@, "arXiv:"@, "CorpusId:"@, "MAG:"@, "ACL:"@, "PMID:"@, "PMCID:"@, "URL:"@]
}

/// An identifier that already names its kind by one of those prefixes.
pub open spec fn already_prefixed(id: Seq<char>) -> bool {
    exists|k: int| 0 <= k < id_prefixes().len() && has_prefix(id, #[trigger] id_prefixes()[k])
}

/// The identifier as Semantic Scholar resolves it: unchanged when it
/// already starts with a kind prefix (`DOI:`, `ARXIV:`, `CorpusId:`, ...);
/// `ARXIV:` or `DOI:` prepended to a bare arXiv ID or DOI.
pub open spec fn normalized_paper_id(id: Seq<char>) -> Seq<char> {
    if already_prefixed(id) {
        id
    } else if is_bare_arxiv(id) {
        "ARXIV:"@ + id
    } else if is_bare_doi(id) {
        "DOI:"@ + id
    } else {
        id
    }
}

fn has_kind_prefix(c: &[char]) -> (r: bool)
    ensures
        r == already_prefixed(c@),
{
    let ps = vec!["DOI:", "ARXIV:", "arXiv:", "CorpusId:", "MAG:", "ACL:", "PMID:", "PMCID:", "URL:"];
    assert(ps@.map_values(|p: &str| p@) =~= id_prefixes());
    let mut i: usize = 0;
    while i < ps.len()
        invariant
            i <= ps@.len(),
            ps@.map_values(|p: &str| p@) == id_prefixes(),
            forall|k: int| 0 <= k < i ==> !has_prefix(c@, #[trigger] id_prefixes()[k]),
        decreases ps@.len() - i,
    {
        assert(id_prefixes()[i as int] == ps@[i as int]@);
        if starts_with_str(c, ps[i]) {
            return true;
        }
        i = i + 1;
    }
    false
}

/// Prepend `ARXIV:` or `DOI:` for bare arXiv IDs / DOIs so S2 can resolve them.
pub fn normalize_paper_id(paper_id: &str) -> (r: String)
    ensures
        r@ == normalized_paper_id(paper_id@),
{
    let c = str_chars(paper_id);
    if has_kind_prefix(c.as_slice()) {
        return paper_id.to_owned();
    }
    let n = c.len();
    let bv = index_of_exec(&c, 0, n, 'v');
    assert(c@.subrange(0, n as int) =~= c@);
    let dot = index_of_exec(&c, 0, bv, '.');
    let ghost base = c@.subrange(0, bv as int);
    proof {
        assert(base.subrange(0, dot as int) =~= c@.subrange(0, dot as int));
        if dot < bv {
            assert(base.subrange(dot + 1, base.len() as int) =~= c@.subrange(dot + 1, bv as int));
        }
    }
    let is_arxiv = dot < bv && dot == 4 && digits_in(&c, 0, dot)
        && (bv - dot - 1 == 4 || bv - dot - 1 == 5) && digits_in(&c, dot + 1, bv);
    if is_arxiv {
        return cat2("ARXIV:", paper_id);
    }
    let mut is_doi = false;
    if starts_with_str(c.as_slice(), "10.") {
        proof {
            reveal_strlit("10.");
        }
        let slash = index_of_exec(&c, 3, n, '/');
        proof {
            let rest = c@.subrange(3, n as int);
            assert(rest.subrange(0, slash - 3) =~= c@.subrange(3, slash as int));
        }
        is_doi = slash < n && slash - 3 >= 4 && digits_in(&c, 3, slash);
    }
    if is_doi {
        cat2("DOI:", paper_id)
    } else {
        paper_id.to_owned()
    }
}

/// A single-paper response as a paper record.
pub open spec fn s2_paper(d: JsonV) -> PaperV {
    PaperV {
        s2_id: jstr(jget(d, "paperId"@)),
        doi: jstr(jget(jget(d, "externalIds"@), "DOI"@)),
        arxiv_id: jstr(jget(jget(d, "externalIds"@), "ArXiv"@)),
        venue: match jstr(jget(d, "venue"@)) {
            Some(v) => if v.len() > 0 { Some(v) } else { None },
            None => None,
        },
        citations: ju64(jget(d, "citationCount"@)),
        pdf_url: jstr(jget(jget(d, "openAccessPdf"@), "url"@)),
        ..empty_paper()
    }
}

/// Parse response from the single-paper endpoint.
pub fn parse_paper(body: &str) -> (r: Result<PaperResult, String>)
    ensures
        match json_parsed(body@) {
            None => r is Err,
            Some(d) => r matches Ok(p) && p@ == s2_paper(d),
        },
{
    let data = match parse_json(body) {
        Some(d) => d,
        None => return Err("invalid JSON".to_owned()),
    };
    let o = Some(&data);
    let ext = jfield(o, "externalIds");
    let mut p = PaperResult::default();
    p.s2_id = owned_opt(jas_str(jfield(o, "paperId")));
    p.doi = owned_opt(jas_str(jfield(ext, "DOI")));
    p.arxiv_id = owned_opt(jas_str(jfield(ext, "ArXiv")));
    p.venue = match jas_str(jfield(o, "venue")) {
        Some(v) => if !v.is_empty() { Some(v.to_owned()) } else { None },
        None => None,
    };
    p.citations = jas_u64(jfield(o, "citationCount"));
    p.pdf_url = owned_opt(jas_str(jfield(jfield(o, "openAccessPdf"), "url")));
    Ok(p)
}

/// A search result as a paper record.
pub open spec fn s2_search_item(p: JsonV) -> PaperV {
    PaperV {
        title: str_or(jstr(jget(p, "title"@)), "N/A"@),
        authors: names_in(jget(p, "authors"@), seq!["name"@], true),
        year: year_text(ju64(jget(p, "year"@))),
        doi: jstr(jget(jget(p, "externalIds"@), "DOI"@)),
        arxiv_id: jstr(jget(jget(p, "externalIds"@), "ArXiv"@)),
        citations: ju64(jget(p, "citationCount"@)),
        ..empty_paper()
    }
}

/// A references/citations item's paper as a paper record.
pub open spec fn s2_related_paper(p: JsonV) -> PaperV {
    PaperV {
        title: str_or(jstr(jget(p, "title"@)), "N/A"@),
        authors: names_in(jget(p, "authors"@), seq!["name"@], false),
        year: year_text(ju64(jget(p, "year"@))),
        s2_id: jstr(jget(p, "paperId"@)),
        doi: jstr(jget(jget(p, "externalIds"@), "DOI"@)),
        arxiv_id: jstr(jget(jget(p, "externalIds"@), "ArXiv"@)),
        ..empty_paper()
    }
}

/// The record of item `p`: a search result when `key` is `None`, otherwise
/// the paper nested under `key`.
pub open spec fn s2_item(p: JsonV, key: Option<Seq<char>>) -> PaperV {
    match key {
        None => s2_search_item(p),
        Some(k) => s2_related_paper(jget(p, k)),
    }
}

fn s2_item_exec(item: &Json, key: Option<&str>) -> (r: PaperResult)
    ensures
        r@ == s2_item(item@, match key { Some(k) => Some(k@), None => None }),
{
    let o = match key {
        Some(k) => jfield(Some(item), k),
        None => Some(item),
    };
    let ext = jfield(o, "externalIds");
    let path: [&str; 1] = ["name"];
    assert(keys_view(path@) =~= seq!["name"@]);
    let mut p = PaperResult::default();
    p.title = owned_or(jas_str(jfield(o, "title")), "N/A");
    p.authors = collect_names(jfield(o, "authors"), &path, key.is_none());
    p.year = year_string(jas_u64(jfield(o, "year")));
    p.doi = owned_opt(jas_str(jfield(ext, "DOI")));
    p.arxiv_id = owned_opt(jas_str(jfield(ext, "ArXiv")));
    if key.is_none() {
        p.citations = jas_u64(jfield(o, "citationCount"));
    } else {
        p.s2_id = owned_opt(jas_str(jfield(o, "paperId")));
    }
    p
}

/// The papers of a `data` list response, or `None` when it is not one.
pub open spec fn data_response(body: Seq<char>, key: Option<Seq<char>>) -> Option<Seq<PaperV>> {
    match json_parsed(body) {
        None => None,
        Some(d) => match jarr(jget(d, "data"@)) {
            Some(items) => Some(items.map_values(|p: JsonV| s2_item(p, key))),
            None => None,
        },
    }
}

fn parse_data_list(body: &str, key: Option<&str>) -> (r: Result<Vec<PaperResult>, String>)
    ensures
        match data_response(body@, match key { Some(k) => Some(k@), None => None }) {
            None => r is Err,
            Some(ps) => r matches Ok(v) && papers_view(v@) == ps,
        },
{
    let ghost kv = match key { Some(k) => Some(k@), None => None::<Seq<char>> };
    let data = match parse_json(body) {
        Some(d) => d,
        None => return Err("invalid JSON".to_owned()),
    };
    let items = match jas_array(jfield(Some(&data), "data")) {
        Some(a) => a,
        None => return Err("missing data array".to_owned()),
    };
    let ghost ws = jarr(jget(data@, "data"@)).unwrap();
    let mut results: Vec<PaperResult> = Vec::new();
    let mut i: usize = 0;
    while i < items.len()
        invariant
            i <= items.len(),
            ws.len() == items@.len(),
            kv == match key { Some(k) => Some(k@), None => None::<Seq<char>> },
            forall|k: int| 0 <= k < items@.len() ==> (#[trigger] items@[k])@ == ws[k],
            results@.len() == i,
            forall|k: int| 0 <= k < i ==> (#[trigger] results@[k])@ == s2_item(ws[k], kv),
        decreases items.len() - i,
    {
        results.push(s2_item_exec(&items[i], key));
        i = i + 1;
    }
    assert(papers_view(results@) =~= ws.map_values(|p: JsonV| s2_item(p, kv)));
    Ok(results)
}

/// Parse response from the search endpoint.
pub fn parse_search(body: &str) -> (r: Result<Vec<PaperResult>, String>)
    ensures
        match data_response(body@, None) {
            None => r is Err,
            Some(ps) => r matches Ok(v) && papers_view(v@) == ps,
        },
{
    parse_data_list(body, None)
}

/// Parse response from the references endpoint (papers under `citedPaper`).
pub fn parse_refs(body: &str) -> (r: Result<Vec<PaperResult>, String>)
    ensures
        match data_response(body@, Some("citedPaper"@)) {
            None => r is Err,
            Some(ps) => r matches Ok(v) && papers_view(v@) == ps,
        },
{
    parse_related(body, "citedPaper")
}

/// Parse response from the citations endpoint (papers under `citingPaper`).
pub fn parse_cites(body: &str) -> (r: Result<Vec<PaperResult>, String>)
    ensures
        match data_response(body@, Some("citingPaper"@)) {
            None => r is Err,
            Some(ps) => r matches Ok(v) && papers_view(v@) == ps,
        },
{
    parse_related(body, "citingPaper")
}

/// Shared parser for refs/cites responses which nest the paper under a key.
pub fn parse_related(body: &str, paper_key: &str) -> (r: Result<Vec<PaperResult>, String>)
    ensures
        match data_response(body@, Some(paper_key@)) {
            None => r is Err,
            Some(ps) => r matches Ok(v) && papers_view(v@) == ps,
        },
{
    parse_data_list(body, Some(paper_key))
}

} // verus!
