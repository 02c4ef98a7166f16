//! DBLP API: search URL and response parser.
use vstd::prelude::*;
use vstd::string::StringSliceAdditionalSpecFns;
use crate::api::{
    build_query_url, query_url_text, opt_view, PaperResult, PaperV, empty_paper, filter_mapped, owned_opt, owned_or,
    papers_view, str_or, strs_view, last_name_of, extract_last_name,
};
use crate::json::{Json, JsonV, jfield, jget, jstr, jarr, jas_str, jas_array, json_parsed, ov, parse_json};

verus! {

/// Build URL for a DBLP publication search.
pub fn search_url(query: &str, limit: usize) -> (r: String)
    ensures
        r@ == query_url_text("https://dblp.org/search/publ/api?q="@, query.spec_bytes(), "&format=json&h="@, limit as nat, ""@),
{
    build_query_url("https://dblp.org/search/publ/api?q=", query, "&format=json&h=", limit, "")
}

/// The last name of an author entry: a bare string, or an object's `text`.
pub open spec fn dblp_author(a: JsonV) -> Option<Seq<char>> {
    match a {
        JsonV::Str(n) => Some(last_name_of(n)),
        _ => match jstr(jget(a, "text"@)) {
            Some(n) => Some(last_name_of(n)),
            None => None,
        },
    }
}

/// The authors of a DBLP `author` field: an array of entries, a single
/// object, or a bare string.
pub open spec fn dblp_authors(v: JsonV) -> Seq<Seq<char>> {
    match v {
        JsonV::Array(arr) => filter_mapped(arr, |a: JsonV| dblp_author(a)),
        JsonV::Object(_) => match jstr(jget(v, "text"@)) {
            Some(n) => seq![last_name_of(n)],
            None => seq![],
        },
        JsonV::Str(n) => seq![last_name_of(n)],
        _ => seq![],
    }
}

fn dblp_author_exec(a: &Json) -> (r: Option<String>)
    ensures
        opt_view(r) == dblp_author(a@),
{
    match a {
        Json::Str(n) => Some(extract_last_name(n.as_str()).to_owned()),
        _ => match jas_str(jfield(Some(a), "text")) {
            Some(n) => Some(extract_last_name(n).to_owned()),
            None => None,
        },
    }
}

/// Parse DBLP author field, which can be either a single object or an array.
///
/// Each author object has a `"text"` field with the display name.
pub fn parse_dblp_authors(author_val: &Json) -> (r: Vec<String>)
    ensures
        strs_view(r@) == dblp_authors(author_val@),
{
    let mut out: Vec<String> = Vec::new();
    match author_val {
        Json::Array(arr) => {
            let ghost a = jarr(author_val@).unwrap();
            let ghost f = |x: JsonV| dblp_author(x);
            let mut i: usize = 0;
            while i < arr.len()
                invariant
                    i <= arr@.len(),
                    a.len() == arr@.len(),
                    f == (|x: JsonV| dblp_author(x)),
                    forall|k: int| 0 <= k < arr@.len() ==> (#[trigger] arr@[k])@ == a[k],
                    strs_view(out@) == filter_mapped(a.subrange(0, i as int), f),
                decreases arr@.len() - i,
            {
                let ghost sub = a.subrange(0, i + 1);
                assert(sub.drop_last() =~= a.subrange(0, i as int));
                assert(sub.last() == arr@[i as int]@);
                match dblp_author_exec(&arr[i]) {
                    Some(n) => {
                        let ghost prev = strs_view(out@);
                        out.push(n);
                        assert(strs_view(out@) =~= prev.push(n@));
                    },
                    None => {},
                }
                i = i + 1;
            }
            assert(a.subrange(0, a.len() as int) =~= a);
            out
        },
        Json::Object(_) => {
            match jas_str(jfield(Some(author_val), "text")) {
                Some(n) => {
                    out.push(extract_last_name(n).to_owned());
                },
                None => {},
            }
            assert(strs_view(out@) =~= dblp_authors(author_val@));
            out
        },
        Json::Str(n) => {
            out.push(extract_last_name(n.as_str()).to_owned());
            assert(strs_view(out@) =~= dblp_authors(author_val@));
            out
        },
        _ => {
            assert(strs_view(out@) =~= seq![]);
            out
        },
    }
}

/// A search hit's `info` as a paper record.
pub open spec fn dblp_hit(info: JsonV) -> PaperV {
    PaperV {
        title: str_or(jstr(jget(info, "title"@)), "N/A"@),
        year: str_or(jstr(jget(info, "year"@)), "?"@),
        authors: dblp_authors(jget(jget(info, "authors"@), "author"@)),
        venue: jstr(jget(info, "venue"@)),
        pdf_url: jstr(jget(info, "url"@)),
        ..empty_paper()
    }
}

/// Parse response from the DBLP search endpoint.
///
/// The JSON structure is `result.hits.hit[]`, where each hit has an `info`
/// object containing `title`, `year`, `authors.author` (a single dict or a
/// list), `venue`, and `url`.
pub fn parse_search(body: &str) -> (r: Result<Vec<PaperResult>, String>)
    ensures
        match json_parsed(body@) {
            None => r is Err,
            Some(d) => match jarr(jget(jget(jget(d, "result"@), "hits"@), "hit"@)) {
                None => r is Err,
                Some(hits) => r matches Ok(v) && papers_view(v@) == hits.map_values(|h: JsonV| dblp_hit(jget(h, "info"@))),
            },
        },
{
    let data = match parse_json(body) {
        Some(d) => d,
        None => return Err("invalid JSON".to_owned()),
    };
    let hits = match jas_array(jfield(jfield(jfield(Some(&data), "result"), "hits"), "hit")) {
        Some(a) => a,
        None => return Err("missing result.hits.hit array".to_owned()),
    };
    let ghost ws = jarr(jget(jget(jget(data@, "result"@), "hits"@), "hit"@)).unwrap();
    let null = Json::Null;
    let mut results: Vec<PaperResult> = Vec::new();
    let mut i: usize = 0;
    while i < hits.len()
        invariant
            i <= hits@.len(),
            ws.len() == hits@.len(),
            null@ == JsonV::Null,
            forall|k: int| 0 <= k < hits@.len() ==> (#[trigger] hits@[k])@ == ws[k],
            results@.len() == i,
            forall|k: int| 0 <= k < i ==> (#[trigger] results@[k])@ == dblp_hit(jget(ws[k], "info"@)),
        decreases hits@.len() - i,
    {
        let info = jfield(Some(&hits[i]), "info");
        let mut p = PaperResult::default();
        p.title = owned_or(jas_str(jfield(info, "title")), "N/A");
        p.year = owned_or(jas_str(jfield(info, "year")), "?");
        let av = match jfield(jfield(info, "authors"), "author") {
            Some(v) => v,
            None => &null,
        };
        p.authors = parse_dblp_authors(av);
        p.venue = owned_opt(jas_str(jfield(info, "venue")));
        p.pdf_url = owned_opt(jas_str(jfield(info, "url")));
        results.push(p);
        i = i + 1;
    }
    assert(papers_view(results@) =~= ws.map_values(|h: JsonV| dblp_hit(jget(h, "info"@))));
    Ok(results)
}

} // verus!
