//! `lit open`: the page a paper is shown on.
use vstd::prelude::*;
use vstd::string::StringSliceAdditionalSpecFns;
use crate::detect::{classify, input_matches, detect_type, normalize_arxiv, normalize_doi, normalize_isbn, arxiv_normalized,
    doi_normalized, strip_isbn_separators, InputType};
use crate::api::{urlencode, url_encoded};

verus! {

/// The page opened for an input: the arXiv abstract page, the DOI
/// resolver, a DBLP or Semantic Scholar URL as given, the OpenLibrary ISBN
/// page, or a Semantic Scholar search.
pub open spec fn page_for(input: Seq<char>, bytes: Seq<u8>) -> Seq<char> {
    match classify(input_matches(input)) {
        InputType::Arxiv => "https://arxiv.org/abs/"@ + arxiv_normalized(input),
        InputType::Doi => "https://doi.org/"@ + doi_normalized(input),
        InputType::DblpUrl | InputType::SemanticScholarUrl => input,
        InputType::Isbn => "https://openlibrary.org/isbn/"@ + strip_isbn_separators(input),
        InputType::Search => "https://www.semanticscholar.org/search?q="@ + url_encoded(bytes),
    }
}

/// The URL to open in the browser for an input.
pub fn page_url(input: &str) -> (r: String)
    ensures
        r@ == page_for(input@, input.spec_bytes()),
{
    match detect_type(input) {
        InputType::Arxiv => crate::api::cat2("https://arxiv.org/abs/", normalize_arxiv(input).as_str()),
        InputType::Doi => crate::api::cat2("https://doi.org/", normalize_doi(input).as_str()),
        InputType::DblpUrl | InputType::SemanticScholarUrl => input.to_owned(),
        InputType::Isbn => crate::api::cat2("https://openlibrary.org/isbn/", normalize_isbn(input).as_str()),
        InputType::Search => crate::api::cat2("https://www.semanticscholar.org/search?q=", urlencode(input).as_str()),
    }
}

} // verus!
