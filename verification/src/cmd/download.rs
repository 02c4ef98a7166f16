//! Finding a paper's PDF and naming the directory it is saved in.
//!
//! Unpaywall, Semantic Scholar and OpenAlex are asked for an open-access
//! PDF (the caller makes the requests); the first link found wins, and a
//! proxied DOI link is offered when a library session is available.
use vstd::prelude::*;
use crate::api::{PaperResult, PaperV, empty_paper, last_name_of, extract_last_name, opt_view, strs_view};
use crate::api::semantic_scholar::s2_paper;
use crate::api::unpaywall::unpaywall_paper;
use crate::cmd::source::{letters, quotes_escaped, title_slug};
use crate::db::{cache_key, cache_key_of};
use crate::json::{JsonV, jget, jstr, json_parsed};
use crate::text::{join, join_strings, lowercase, push_all, push_str, replace_str, str_chars, str_eq, str_to_lowercase, string_from_chars, trim, trim_vec};

pub use crate::cmd::source::{build_source_yaml, date_string, days_to_ymd, extract_title_slug};

verus! {

/// The lower-cased letters of the first author's last name, or `unknown`
/// when there is no author.
pub open spec fn pdf_last_name(authors: Seq<Seq<char>>) -> Seq<char> {
    if authors.len() > 0 {
        lowercase(letters(last_name_of(trim(authors[0]))))
    } else {
        "unknown"@
    }
}

fn letters_of(s: &str) -> (r: Vec<char>)
    ensures
        r@ == letters(s@),
{
    let c = str_chars(s);
    let mut out: Vec<char> = Vec::new();
    let mut i: usize = 0;
    while i < c.len()
        invariant
            i <= c@.len(),
            c@ == s@,
            out@ == letters(c@.subrange(0, i as int)),
        decreases c@.len() - i,
    {
        assert(c@.subrange(0, i + 1).drop_last() =~= c@.subrange(0, i as int));
        if crate::cmd::verify::is_alphabetic(c[i]) {
            out.push(c[i]);
        }
        assert(out@ =~= letters(c@.subrange(0, i + 1)));
        i = i + 1;
    }
    assert(c@.subrange(0, c@.len() as int) =~= c@);
    out
}


/// Extract the lowercased last name of the first author.
pub fn extract_lastname(authors: &[String]) -> (r: String)
    ensures
        r@ == pdf_last_name(strs_view(authors@)),
{
    proof {
        reveal_strlit("unknown");
    }
    if authors.len() == 0 {
        return "unknown".to_owned();
    }
    assert(strs_view(authors@)[0] == authors@[0]@);
    let t = string_from_chars(trim_vec(str_chars(authors[0].as_str()).as_slice()).as_slice());
    let last = extract_last_name(t.as_str());
    let l = letters_of(last);
    str_to_lowercase(string_from_chars(l.as_slice()).as_str())
}

/// Generate a directory name from paper metadata: `{lastname}{year}{slug}`.
pub fn generate_dir_name(paper: &PaperResult) -> (r: String)
    ensures
        r@ == pdf_last_name(paper@.authors) + paper@.year + title_slug(paper@.title),
{
    let last = extract_lastname(paper.authors.as_slice());
    let slug = extract_title_slug(paper.title.as_str());
    let mut v: Vec<char> = Vec::new();
    push_str(&mut v, last.as_str());
    push_str(&mut v, paper.year.as_str());
    push_str(&mut v, slug.as_str());
    string_from_chars(v.as_slice())
}

/// The text of `source.yaml` for a paper saved by DOI.
pub open spec fn doi_source_yaml(title: Seq<char>, authors: Seq<Seq<char>>, year: Seq<char>, doi: Seq<char>, retrieved: Seq<char>) -> Seq<char> {
    "title: \""@ + quotes_escaped(title) + "\"\nauthors: \""@ + quotes_escaped(join(authors, " and "@))
        + "\"\nyear: "@ + year + "\ndoi: \""@ + doi + "\"\nretrieved: \""@ + retrieved + "\"\n"@
}

/// Build the source.yaml content of a paper saved by DOI.
pub fn build_doi_source_yaml(paper: &PaperResult, doi: &str, retrieved: &str) -> (r: String)
    ensures
        r@ == doi_source_yaml(paper@.title, paper@.authors, paper@.year, doi@, retrieved@),
{
    proof {
        reveal_strlit("\"");
    }
    assert(paper.authors@.map_values(|a: String| a@) =~= strs_view(paper.authors@));
    let authors = join_strings(paper.authors.as_slice(), " and ");
    let auth = replace_str(str_chars(authors.as_str()).as_slice(), "\"", "\\\"");
    let title = replace_str(str_chars(paper.title.as_str()).as_slice(), "\"", "\\\"");
    let mut v: Vec<char> = Vec::new();
    push_str(&mut v, "title: \"");
    push_all(&mut v, title.as_slice());
    push_str(&mut v, "\"\nauthors: \"");
    push_all(&mut v, auth.as_slice());
    push_str(&mut v, "\"\nyear: ");
    push_str(&mut v, paper.year.as_str());
    push_str(&mut v, "\ndoi: \"");
    push_str(&mut v, doi);
    push_str(&mut v, "\"\nretrieved: \"");
    push_str(&mut v, retrieved);
    push_str(&mut v, "\"\n");
    string_from_chars(v.as_slice())
}

/// A request for the caller to make: URL and cache key.
#[derive(Debug)]
pub struct PdfLookup {
    pub url: String,
    pub cache_key: String,
}

/// The three requests made for a DOI, in order: Unpaywall (with the
/// contact email), the Semantic Scholar paper, the OpenAlex work.
pub fn pdf_lookups(doi: &str, email: &str) -> (r: Vec<PdfLookup>)
    ensures
        r@.len() == 3,
        r@[0].url@ == "https://api.unpaywall.org/v2/"@ + doi@ + "?email="@ + email@,
        r@[0].cache_key@ == cache_key_of("unpaywall"@, doi@),
        r@[1].url@ == "https://api.semanticscholar.org/graph/v1/paper/"@ + ("DOI:"@ + doi@)
            + "?fields=paperId,externalIds,venue,citationCount,openAccessPdf"@,
        r@[1].cache_key@ == cache_key_of("s2_paper_doi"@, doi@),
        r@[2].url@ == "https://api.openalex.org/works/doi:"@ + doi@,
        r@[2].cache_key@ == cache_key_of("oa_work"@, doi@),
{
    let mut id: Vec<char> = Vec::new();
    push_str(&mut id, "DOI:");
    push_str(&mut id, doi);
    let ids = string_from_chars(id.as_slice());
    let mut r: Vec<PdfLookup> = Vec::new();
    r.push(PdfLookup { url: crate::api::unpaywall::pdf_url(doi, email), cache_key: cache_key("unpaywall", doi) });
    r.push(PdfLookup { url: crate::api::semantic_scholar::paper_url(ids.as_str()), cache_key: cache_key("s2_paper_doi", doi) });
    r.push(PdfLookup { url: crate::api::openalex::work_by_doi_url(doi), cache_key: cache_key("oa_work", doi) });
    r
}

/// What to do for a DOI once the three replies are in.
#[derive(Debug)]
pub struct PdfPlan {
    /// The title Unpaywall gives, or `N/A`.
    pub title: String,
    /// The first open-access PDF link: Unpaywall's, else Semantic Scholar's,
    /// else OpenAlex's.
    pub pdf_url: Option<String>,
    /// The proxied DOI link, when a library session is available.
    pub ez_url: Option<String>,
    /// The paper the directory is named after.
    pub meta: PaperResult,
}

/// The paper a JSON reply gives through `f`, when it parses.
pub open spec fn parsed_with(body: Option<Seq<char>>, f: spec_fn(JsonV) -> PaperV) -> Option<PaperV> {
    match body {
        Some(b) => match json_parsed(b) {
            Some(d) => Some(f(d)),
            None => None,
        },
        None => None,
    }
}

/// The open-access link of an OpenAlex work reply, when it parses.
pub open spec fn oa_link(body: Option<Seq<char>>) -> Option<Seq<char>> {
    match body {
        Some(b) => match json_parsed(b) {
            Some(d) => jstr(jget(jget(d, "open_access"@), "oa_url"@)),
            None => None,
        },
        None => None,
    }
}

/// The first of three optional links that is present.
pub open spec fn first_link(a: Option<Seq<char>>, b: Option<Seq<char>>, c: Option<Seq<char>>) -> Option<Seq<char>> {
    if a is Some { a } else if b is Some { b } else { c }
}

/// A Semantic Scholar paper's PDF link.
pub open spec fn paper_pdf(p: Option<PaperV>) -> Option<Seq<char>> {
    match p {
        Some(x) => x.pdf_url,
        None => None,
    }
}

/// The meaning of the three replies for a DOI.
pub open spec fn pdf_plan_of(
    doi: Seq<char>,
    uw: Option<Seq<char>>,
    s2: Option<Seq<char>>,
    oa: Option<Seq<char>>,
    has_cookie: bool,
) -> (Seq<char>, Option<Seq<char>>, Option<Seq<char>>, PaperV) {
    let u = parsed_with(uw, |d: JsonV| unpaywall_paper(d));
    let s = parsed_with(s2, |d: JsonV| s2_paper(d));
    let title = match u { Some(p) => p.title, None => "N/A"@ };
    let pdf = first_link(paper_pdf(u), paper_pdf(s), oa_link(oa));
    let ez = if has_cookie && doi.len() > 0 { Some("https://doi-org.ezproxy.cul.columbia.edu/"@ + doi) } else { None };
    let meta = match s {
        Some(p) => p,
        None => PaperV { title: title, doi: if doi.len() == 0 { None } else { Some(doi) }, ..empty_paper() },
    };
    (title, pdf, ez, meta)
}

/// Decide, from the three replies for a DOI (`None` for a failed request),
/// the title to show, the PDF link, the proxied link (when `has_cookie`)
/// and the paper to name the directory after.
pub fn pdf_plan(doi: &str, uw: &Option<String>, s2: &Option<String>, oa: &Option<String>, has_cookie: bool) -> (r: PdfPlan)
    ensures
        ({
            let (t, pdf, ez, meta) = pdf_plan_of(
                doi@,
                match uw { Some(s) => Some(s@), None => None },
                match s2 { Some(s) => Some(s@), None => None },
                match oa { Some(s) => Some(s@), None => None },
                has_cookie,
            );
            &&& r.title@ == t
            &&& opt_view(r.pdf_url) == pdf
            &&& opt_view(r.ez_url) == ez
            &&& r.meta@ == meta
        }),
{
    proof {
        reveal_strlit("N/A");
    }
    let u = match uw {
        Some(b) => match crate::api::unpaywall::parse_response(b.as_str()) {
            Ok(p) => Some(p),
            Err(_) => None,
        },
        None => None,
    };
    let s = match s2 {
        Some(b) => match crate::api::semantic_scholar::parse_paper(b.as_str()) {
            Ok(p) => Some(p),
            Err(_) => None,
        },
        None => None,
    };
    let oa_pdf: Option<String> = match oa {
        Some(b) => match crate::api::openalex::parse_work(b.as_str()) {
            Ok(w) => w.oa_url,
            Err(_) => None,
        },
        None => None,
    };
    let title = match &u {
        Some(p) => p.title.clone(),
        None => "N/A".to_owned(),
    };
    let uw_pdf = match &u {
        Some(p) => p.pdf_url.clone(),
        None => None,
    };
    let s2_pdf = match &s {
        Some(p) => p.pdf_url.clone(),
        None => None,
    };
    let pdf_url = if uw_pdf.is_some() { uw_pdf } else if s2_pdf.is_some() { s2_pdf } else { oa_pdf };
    let ez_url = if has_cookie && !doi.is_empty() {
        let mut v: Vec<char> = Vec::new();
        push_str(&mut v, "https://doi-org.ezproxy.cul.columbia.edu/");
        push_str(&mut v, doi);
        Some(string_from_chars(v.as_slice()))
    } else {
        None
    };
    let meta = match s {
        Some(p) => p,
        None => {
            let mut p = PaperResult::default();
            p.title = title.clone();
            p.doi = if doi.is_empty() { None } else { Some(doi.to_owned()) };
            p
        },
    };
    PdfPlan { title, pdf_url, ez_url, meta }
}

/// Whether downloaded bytes are a PDF: they start with `%PDF`.
pub fn is_pdf(bytes: &[u8]) -> (r: bool)
    ensures
        r == (bytes@.len() >= 4 && bytes@.subrange(0, 4) == seq![37u8, 80u8, 68u8, 70u8]),
{
    if bytes.len() < 4 {
        return false;
    }
    let ok = bytes[0] == 37 && bytes[1] == 80 && bytes[2] == 68 && bytes[3] == 70;
    assert(ok == (bytes@.subrange(0, 4) =~= seq![37u8, 80u8, 68u8, 70u8]));
    ok
}

} // verus!
