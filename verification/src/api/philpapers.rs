//! PhilPapers: record URLs, BibTeX and JSON search parsers.
use vstd::prelude::*;
use vstd::string::StringSliceAdditionalSpecFns;
use crate::api::{
    build_query_url, cat2, cat3, query_url_text, PaperResult, PaperV, empty_paper, filter_mapped, owned_opt, owned_or,
    opt_view, papers_view, str_or, strs_view,
};
use crate::bibtex::{parse_bib, parse_bib_file, field_value, BibEntry};
use crate::json::{Json, JsonV, jfield, jget, jstr, jarr, jas_str, jas_array, json_parsed, ov, os, parse_json};
use crate::text::{
    index_of, index_of_exec, lemma_index_of, split, split_on, trim, trim_vec, trim_end_char, trim_end_char_vec,
    str_chars, string_from_chars, slice_vec, push_all, push_str,
};

verus! {

/// The second piece of `url` split at `/rec/`, without trailing slashes.
pub open spec fn pp_id_of(url: Seq<char>) -> Option<Seq<char>> {
    let ps = split(url, "/rec/"@);
    if ps.len() > 1 {
        Some(trim_end_char(ps[1], '/'))
    } else {
        None
    }
}

/// Extract the PhilPapers entry ID from a rec URL.
///
/// `https://philpapers.org/rec/ANDCIT-6` → `ANDCIT-6`
pub fn extract_id(url: &str) -> (r: Option<String>)
    ensures
        opt_view(r) == pp_id_of(url@),
{
    proof {
        reveal_strlit("/rec/");
    }
    let c = str_chars(url);
    let sep = str_chars("/rec/");
    let ps = split_on(c.as_slice(), sep.as_slice());
    if ps.len() > 1 {
        let t = trim_end_char_vec(ps[1].as_slice(), '/');
        Some(string_from_chars(t.as_slice()))
    } else {
        None
    }
}

/// `Last, First` as `First Last` (both parts trimmed); a name without a
/// comma unchanged.
pub open spec fn flip_name(s: Seq<char>) -> Seq<char> {
    let c = index_of(s, ',');
    if c < s.len() {
        trim(s.subrange(c + 1, s.len() as int)) + " "@ + trim(s.subrange(0, c))
    } else {
        s
    }
}

fn flip_name_exec(s: &Vec<char>) -> (r: Vec<char>)
    ensures
        r@ == flip_name(s@),
{
    let n = s.len();
    let c = index_of_exec(s, 0, n, ',');
    proof {
        assert(s@.subrange(0, n as int) =~= s@);
        lemma_index_of(s@, ',');
    }
    if c < n {
        let first = slice_vec(s.as_slice(), c + 1, n);
        let last = slice_vec(s.as_slice(), 0, c);
        let mut out = trim_vec(first.as_slice());
        push_str(&mut out, " ");
        let t = trim_vec(last.as_slice());
        push_all(&mut out, t.as_slice());
        out
    } else {
        slice_vec(s.as_slice(), 0, n)
    }
}

/// BibTeX export URL for a single entry.
pub fn bib_url(id: &str) -> (r: String)
    ensures
        r@ == "https://philpapers.org/rec/"@ + id@ + ".bib"@,
{
    cat3("https://philpapers.org/rec/", id, ".bib")
}

/// JSON API search URL.
pub fn search_url(query: &str, limit: usize) -> (r: String)
    ensures
        r@ == query_url_text("https://philpapers.org/api/search?q="@, query.spec_bytes(), "&format=json&limit="@, limit as nat, ""@),
{
    build_query_url("https://philpapers.org/api/search?q=", query, "&format=json&limit=", limit, "")
}

/// An author of a BibTeX `author` list: trimmed, then flipped from
/// `Last, First`; none when empty.
pub open spec fn pp_bib_author(a: Seq<char>) -> Option<Seq<char>> {
    let n = flip_name(trim(a));
    if n.len() > 0 { Some(n) } else { None }
}

/// The authors of a BibTeX `author` value.
pub open spec fn pp_bib_author_list(raw: Seq<char>) -> Seq<Seq<char>> {
    filter_mapped(split(raw, " and "@), |a: Seq<char>| pp_bib_author(a))
}

fn pp_bib_authors(raw: &str) -> (r: Vec<String>)
    ensures
        strs_view(r@) == pp_bib_author_list(raw@),
{
    proof {
        reveal_strlit(" and ");
    }
    let rc = str_chars(raw);
    let sep = str_chars(" and ");
    let pieces = split_on(rc.as_slice(), sep.as_slice());
    let ghost ps = split(raw@, " and "@);
    let ghost f = |a: Seq<char>| pp_bib_author(a);
    let mut authors: Vec<String> = Vec::new();
    let mut i: usize = 0;
    while i < pieces.len()
        invariant
            i <= pieces@.len(),
            ps.len() == pieces@.len(),
            f == (|a: Seq<char>| pp_bib_author(a)),
            forall|k: int| 0 <= k < pieces@.len() ==> (#[trigger] pieces@[k])@ == ps[k],
            strs_view(authors@) == filter_mapped(ps.subrange(0, i as int), f),
        decreases pieces@.len() - i,
    {
        let ghost sub = ps.subrange(0, i + 1);
        assert(sub.drop_last() =~= ps.subrange(0, i as int));
        assert(sub.last() == pieces@[i as int]@);
        let t = trim_vec(pieces[i].as_slice());
        let n = flip_name_exec(&t);
        if n.len() > 0 {
            let ghost prev = strs_view(authors@);
            let ns = string_from_chars(n.as_slice());
            authors.push(ns);
            assert(strs_view(authors@) =~= prev.push(ns@));
        }
        i = i + 1;
    }
    assert(ps.subrange(0, ps.len() as int) =~= ps);
    authors
}

/// The paper record of the first entry of `bib`, or the empty record.
pub open spec fn pp_bib_paper(bib: Seq<char>) -> PaperV {
    let es = parse_bib(bib);
    if es.len() == 0 {
        empty_paper()
    } else {
        let f = es[0].fields;
        PaperV {
            title: str_or(field_value(f, "title"@), ""@),
            year: str_or(field_value(f, "year"@), "?"@),
            doi: field_value(f, "doi"@),
            authors: pp_bib_author_list(str_or(field_value(f, "author"@), ""@)),
            venue: match field_value(f, "journal"@) {
                Some(j) => Some(j),
                None => field_value(f, "booktitle"@),
            },
            ..empty_paper()
        }
    }
}

/// Parse a single BibTeX entry fetched from PhilPapers into a `PaperResult`.
///
/// PhilPapers BibTeX uses standard fields: `title`, `author`, `year`,
/// `journal`/`booktitle`, `doi`. Authors are separated by ` and `.
pub fn parse_bib_entry(bib: &str) -> (r: PaperResult)
    ensures
        r@ == pp_bib_paper(bib@),
{
    let entries = parse_bib_file(bib);
    if entries.len() == 0 {
        return PaperResult::default();
    }
    let entry = &entries[0];
    let mut p = PaperResult::default();
    p.title = owned_or(entry.get_field("title"), "");
    p.year = owned_or(entry.get_field("year"), "?");
    p.doi = owned_opt(entry.get_field("doi"));
    let raw = owned_or(entry.get_field("author"), "");
    let authors = pp_bib_authors(raw.as_str());
    p.authors = authors;
    p.venue = match entry.get_field("journal") {
        Some(j) => Some(j.to_owned()),
        None => owned_opt(entry.get_field("booktitle")),
    };
    p
}

/// A structured author: its `name`, flipped from `Last, First`.
pub open spec fn pp_json_author(a: JsonV) -> Option<Seq<char>> {
    match jstr(jget(a, "name"@)) {
        Some(s) => Some(flip_name(s)),
        None => None,
    }
}

/// A piece of `authorsStr`, trimmed; none when empty.
pub open spec fn pp_str_author(a: Seq<char>) -> Option<Seq<char>> {
    if trim(a).len() > 0 { Some(trim(a)) } else { None }
}

/// The authors of a search entry: the structured `authors` array when there
/// is one, else `authorsStr` split at `, `, else none.
pub open spec fn pp_authors(entry: JsonV) -> Seq<Seq<char>> {
    match jarr(jget(entry, "authors"@)) {
        Some(arr) => filter_mapped(arr, |a: JsonV| pp_json_author(a)),
        None => match jstr(jget(entry, "authorsStr"@)) {
            Some(s) => filter_mapped(split(s, ", "@), |a: Seq<char>| pp_str_author(a)),
            None => seq![],
        },
    }
}

/// Parse the authors field, which may be:
/// - `authorsStr`: a pre-formatted string like "Anderson, J., Smith, B."
/// - `authors`: an array of objects with `name` field
pub fn parse_authors_field(entry: &Json) -> (r: Vec<String>)
    ensures
        strs_view(r@) == pp_authors(entry@),
{
    let o = Some(entry);
    let mut out: Vec<String> = Vec::new();
    if let Some(arr) = jas_array(jfield(o, "authors")) {
        let ghost a = jarr(jget(entry@, "authors"@)).unwrap();
        let ghost f = |x: JsonV| pp_json_author(x);
        let mut i: usize = 0;
        while i < arr.len()
            invariant
                i <= arr@.len(),
                a.len() == arr@.len(),
                f == (|x: JsonV| pp_json_author(x)),
                forall|k: int| 0 <= k < arr@.len() ==> (#[trigger] arr@[k])@ == a[k],
                strs_view(out@) == filter_mapped(a.subrange(0, i as int), f),
            decreases arr@.len() - i,
        {
            let ghost sub = a.subrange(0, i + 1);
            assert(sub.drop_last() =~= a.subrange(0, i as int));
            assert(sub.last() == arr@[i as int]@);
            match jas_str(jfield(Some(&arr[i]), "name")) {
                Some(s) => {
                    let sc = str_chars(s);
                    let n = flip_name_exec(&sc);
                    let ghost prev = strs_view(out@);
                    let ns = string_from_chars(n.as_slice());
                    out.push(ns);
                    assert(strs_view(out@) =~= prev.push(ns@));
                },
                None => {},
            }
            i = i + 1;
        }
        assert(a.subrange(0, a.len() as int) =~= a);
        return out;
    }
    match jas_str(jfield(o, "authorsStr")) {
        Some(s) => {
            proof {
                reveal_strlit(", ");
            }
            let sc = str_chars(s);
            let sep = str_chars(", ");
            let pieces = split_on(sc.as_slice(), sep.as_slice());
            let ghost ps = split(s@, ", "@);
            let ghost f = |a: Seq<char>| pp_str_author(a);
            let mut i: usize = 0;
            while i < pieces.len()
                invariant
                    i <= pieces@.len(),
                    ps.len() == pieces@.len(),
                    f == (|a: Seq<char>| pp_str_author(a)),
                    forall|k: int| 0 <= k < pieces@.len() ==> (#[trigger] pieces@[k])@ == ps[k],
                    strs_view(out@) == filter_mapped(ps.subrange(0, i as int), f),
                decreases pieces@.len() - i,
            {
                let ghost sub = ps.subrange(0, i + 1);
                assert(sub.drop_last() =~= ps.subrange(0, i as int));
                assert(sub.last() == pieces@[i as int]@);
                let t = trim_vec(pieces[i].as_slice());
                if t.len() > 0 {
                    let ghost prev = strs_view(out@);
                    let ns = string_from_chars(t.as_slice());
                    out.push(ns);
                    assert(strs_view(out@) =~= prev.push(ns@));
                }
                i = i + 1;
            }
            assert(ps.subrange(0, ps.len() as int) =~= ps);
            out
        },
        None => {
            assert(strs_view(out@) =~= seq![]);
            out
        },
    }
}

/// The entries of a search response: the top-level array, or the array
/// under `entries`.
pub open spec fn pp_entries(d: JsonV) -> Option<Seq<JsonV>> {
    match jarr(d) {
        Some(a) => Some(a),
        None => jarr(jget(d, "entries"@)),
    }
}

/// The first present string among `a` and `b`.
pub open spec fn first_str(a: Option<Seq<char>>, b: Option<Seq<char>>) -> Option<Seq<char>> {
    match a {
        Some(x) => Some(x),
        None => b,
    }
}

/// A search entry as a paper record.
pub open spec fn pp_search_entry(e: JsonV) -> PaperV {
    let id = str_or(jstr(jget(e, "eId"@)), ""@);
    PaperV {
        title: str_or(jstr(jget(e, "title"@)), "N/A"@),
        year: str_or(first_str(jstr(jget(e, "pubYear"@)), jstr(jget(e, "year"@))), "?"@),
        authors: pp_authors(e),
        venue: first_str(jstr(jget(e, "pub"@)), jstr(jget(e, "journal"@))),
        doi: jstr(jget(e, "doi"@)),
        pdf_url: if id.len() > 0 { Some("https://philpapers.org/rec/"@ + id) } else { None },
        ..empty_paper()
    }
}

fn first_str_exec<'a>(a: Option<&'a str>, b: Option<&'a str>) -> (r: Option<&'a str>)
    ensures
        os(r) == first_str(os(a), os(b)),
{
    match a {
        Some(x) => Some(x),
        None => b,
    }
}

/// Parse PhilPapers JSON search results.
///
/// PhilPapers returns a top-level array of entry objects (some versions
/// wrap it in `{"entries": [...]}`). Each entry has `eId`, `title`,
/// `authorsStr`, `pubYear`, `pub` (venue).
pub fn parse_search(body: &str) -> (r: Result<Vec<PaperResult>, String>)
    ensures
        match json_parsed(body@) {
            None => r is Err,
            Some(d) => match pp_entries(d) {
                None => r is Err,
                Some(es) => r matches Ok(v) && papers_view(v@) == es.map_values(|e: JsonV| pp_search_entry(e)),
            },
        },
{
    let data = match parse_json(body) {
        Some(d) => d,
        None => return Err("invalid JSON".to_owned()),
    };
    let entries = match jas_array(Some(&data)) {
        Some(a) => a,
        None => match jas_array(jfield(Some(&data), "entries")) {
            Some(a) => a,
            None => return Err("expected JSON array or {entries: [...]}".to_owned()),
        },
    };
    let ghost ws = pp_entries(data@).unwrap();
    let mut results: Vec<PaperResult> = Vec::new();
    let mut i: usize = 0;
    while i < entries.len()
        invariant
            i <= entries@.len(),
            ws.len() == entries@.len(),
            forall|k: int| 0 <= k < entries@.len() ==> (#[trigger] entries@[k])@ == ws[k],
            results@.len() == i,
            forall|k: int| 0 <= k < i ==> (#[trigger] results@[k])@ == pp_search_entry(ws[k]),
        decreases entries@.len() - i,
    {
        let e = &entries[i];
        let o = Some(e);
        let mut p = PaperResult::default();
        p.title = owned_or(jas_str(jfield(o, "title")), "N/A");
        p.year = owned_or(first_str_exec(jas_str(jfield(o, "pubYear")), jas_str(jfield(o, "year"))), "?");
        p.authors = parse_authors_field(e);
        p.venue = owned_opt(first_str_exec(jas_str(jfield(o, "pub")), jas_str(jfield(o, "journal"))));
        p.doi = owned_opt(jas_str(jfield(o, "doi")));
        let id = owned_or(jas_str(jfield(o, "eId")), "");
        p.pdf_url = if !id.as_str().is_empty() {
            Some(cat2("https://philpapers.org/rec/", id.as_str()))
        } else {
            None
        };
        results.push(p);
        i = i + 1;
    }
    assert(papers_view(results@) =~= ws.map_values(|e: JsonV| pp_search_entry(e)));
    Ok(results)
}

} // verus!
