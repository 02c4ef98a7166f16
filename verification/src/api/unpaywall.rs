//! Unpaywall API: lookup URL and response parser.
use vstd::prelude::*;
use crate::api::{cat2, PaperResult, PaperV, empty_paper, owned_opt, owned_or, str_or};
use crate::json::{jfield, jget, jstr, jas_str, json_parsed, parse_json};
use crate::text::{push_str, str_chars, string_from_chars};

verus! {

/// Build URL for looking up an open-access PDF by DOI; `email` is the
/// contact address Unpaywall asks for (the configured one).
pub fn pdf_url(doi: &str, email: &str) -> (r: String)
    ensures
        r@ == "https://api.unpaywall.org/v2/"@ + doi@ + "?email="@ + email@,
{
    let mut v = str_chars("https://api.unpaywall.org/v2/");
    push_str(&mut v, doi);
    push_str(&mut v, "?email=");
    push_str(&mut v, email);
    string_from_chars(v.as_slice())
}

/// An Unpaywall record as a paper: its title and the best open-access
/// location's PDF URL, else its landing URL.
pub open spec fn unpaywall_paper(d: crate::json::JsonV) -> PaperV {
    let oa = jget(d, "best_oa_location"@);
    PaperV {
        title: str_or(jstr(jget(d, "title"@)), "N/A"@),
        pdf_url: match jstr(jget(oa, "url_for_pdf"@)) {
            Some(u) => Some(u),
            None => jstr(jget(oa, "url"@)),
        },
        ..empty_paper()
    }
}

/// Parse the Unpaywall response, extracting title and best PDF URL.
///
/// Prefers `best_oa_location.url_for_pdf`; falls back to
/// `best_oa_location.url`.
pub fn parse_response(body: &str) -> (r: Result<PaperResult, String>)
    ensures
        match json_parsed(body@) {
            None => r is Err,
            Some(d) => r matches Ok(p) && p@ == unpaywall_paper(d),
        },
{
    let data = match parse_json(body) {
        Some(d) => d,
        None => return Err("invalid JSON".to_owned()),
    };
    let root = Some(&data);
    let oa = jfield(root, "best_oa_location");
    let mut p = PaperResult::default();
    p.title = owned_or(jas_str(jfield(root, "title")), "N/A");
    p.pdf_url = match jas_str(jfield(oa, "url_for_pdf")) {
        Some(u) => Some(u.to_owned()),
        None => owned_opt(jas_str(jfield(oa, "url"))),
    };
    Ok(p)
}

} // verus!
