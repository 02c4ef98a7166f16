//! Proceedings landing pages → PDF URLs.
//!
//! Conference papers are often reachable only through a publisher's landing
//! page: many have no arXiv mirror, and their DOI resolves to that same page
//! rather than to a file. Each host below states its landing page and its PDF
//! in the same URL, so the file is one rewrite away.
use vstd::prelude::*;
use crate::pattern::{one_group, one_group_exec, two_groups, two_groups_exec, regex_is_match, regex_matches};
use crate::text::{has_suffix, replace_all, replace_str, trim, trim_vec, str_chars, string_from_chars, push_str, ends_with_str};

verus! {

/// NeurIPS: `.../paper/2021/hash/<h>-Abstract.html` and the post-2022
/// `.../paper_files/paper/2023/hash/<h>-Abstract-Conference.html`.
pub const NEURIPS_PATTERN: &'static str = "^https?://(?:proceedings\\.neurips\\.cc|papers\\.nips\\.cc)/.*/hash/[^/]+-Abstract[^/]*\\.html$";

/// PMLR: `.../v139/chen21a.html`, whose PDF nests under a directory of the
/// same name.
pub const PMLR_PATTERN: &'static str = "^https?://proceedings\\.mlr\\.press/(v\\d+)/([^/]+)\\.html$";

/// OpenReview: `forum?id=X`, whose PDF is `pdf?id=X`.
pub const OPENREVIEW_PATTERN: &'static str = "^https?://openreview\\.net/forum\\?id=([^&]+)";

/// OpenReview's `pdf?id=X` and `attachment?id=X` forms, which already point
/// at a file.
pub const OPENREVIEW_FILE_PATTERN: &'static str = "^https?://openreview\\.net/(?:pdf|attachment)\\?id=[^&]+";

/// ACL Anthology: `aclanthology.org/2020.acl-main.1/`.
pub const ACL_PATTERN: &'static str = "^https?://aclanthology\\.org/([^/]+)/?$";

/// Any http(s) URL whose path ends in `.pdf`, ignoring query and fragment.
pub const DIRECT_PDF_PATTERN: &'static str = "^https?://[^?#]+\\.pdf(?:[?#]|$)";

/// The PDF URL that a (trimmed) landing-page or PDF URL denotes.
pub open spec fn proceedings_pdf(url: Seq<char>) -> Option<Seq<char>> {
    let u = trim(url);
    if regex_matches(NEURIPS_PATTERN@, u) {
        Some(replace_all(replace_all(replace_all(u, "/hash/"@, "/file/"@), "-Abstract"@, "-Paper"@), ".html"@, ".pdf"@))
    } else if two_groups(PMLR_PATTERN@, u) is Some {
        let (v, p) = two_groups(PMLR_PATTERN@, u).unwrap();
        Some("https://proceedings.mlr.press/"@ + v + "/"@ + p + "/"@ + p + ".pdf"@)
    } else if one_group(OPENREVIEW_PATTERN@, u) is Some {
        Some("https://openreview.net/pdf?id="@ + one_group(OPENREVIEW_PATTERN@, u).unwrap())
    } else if regex_matches(OPENREVIEW_FILE_PATTERN@, u) {
        Some(u)
    } else if one_group(ACL_PATTERN@, u) is Some && !has_suffix(one_group(ACL_PATTERN@, u).unwrap(), ".pdf"@) {
        Some("https://aclanthology.org/"@ + one_group(ACL_PATTERN@, u).unwrap() + ".pdf"@)
    } else if regex_matches(DIRECT_PDF_PATTERN@, u) {
        Some(u)
    } else {
        None
    }
}

/// Rewrite a proceedings landing-page URL into its PDF URL.
///
/// A URL that already points at a PDF denotes itself, so a direct PDF link
/// and a landing page reach the fetch path the same way. Returns `None` for
/// every other input, so callers can treat `Some` as "there is a PDF at this
/// URL".
pub fn pdf_url(url: &str) -> (r: Option<String>)
    ensures
        match proceedings_pdf(url@) {
            Some(p) => r matches Some(s) && s@ == p,
            None => r is None,
        },
{
    proof {
        reveal_strlit("/hash/");
        reveal_strlit("-Abstract");
        reveal_strlit(".html");
    }
    let tv = trim_vec(str_chars(url).as_slice());
    let us = string_from_chars(tv.as_slice());
    let u = us.as_str();
    if regex_is_match(NEURIPS_PATTERN, u) {
        let a = replace_str(tv.as_slice(), "/hash/", "/file/");
        let b = replace_str(a.as_slice(), "-Abstract", "-Paper");
        let c = replace_str(b.as_slice(), ".html", ".pdf");
        return Some(string_from_chars(c.as_slice()));
    }
    if let Some((v, p)) = two_groups_exec(PMLR_PATTERN, u) {
        let mut out = str_chars("https://proceedings.mlr.press/");
        push_str(&mut out, v.as_str());
        push_str(&mut out, "/");
        push_str(&mut out, p.as_str());
        push_str(&mut out, "/");
        push_str(&mut out, p.as_str());
        push_str(&mut out, ".pdf");
        return Some(string_from_chars(out.as_slice()));
    }
    if let Some(id) = one_group_exec(OPENREVIEW_PATTERN, u) {
        let mut out = str_chars("https://openreview.net/pdf?id=");
        push_str(&mut out, id.as_str());
        return Some(string_from_chars(out.as_slice()));
    }
    if regex_is_match(OPENREVIEW_FILE_PATTERN, u) {
        return Some(string_from_chars(tv.as_slice()));
    }
    if let Some(id) = one_group_exec(ACL_PATTERN, u) {
        let ic = str_chars(id.as_str());
        if !ends_with_str(ic.as_slice(), ".pdf") {
            let mut out = str_chars("https://aclanthology.org/");
            push_str(&mut out, id.as_str());
            push_str(&mut out, ".pdf");
            return Some(string_from_chars(out.as_slice()));
        }
    }
    if regex_is_match(DIRECT_PDF_PATTERN, u) {
        return Some(us);
    }
    None
}

} // verus!
