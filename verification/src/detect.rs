//! Input type detection and normalization.
//!
//! Detects whether user input is an arXiv ID/URL, DOI, ISBN, DBLP URL,
//! Semantic Scholar URL, or a free-text search query.
use vstd::prelude::*;
use crate::pattern::{regex_is_match, regex_matches, regex_replace_first, regex_replaced_first};
use crate::text::{all_dec_digits, is_digit, is_digit_exec, has_prefix, has_suffix, str_chars, string_from_chars, strip_prefix_str, strip_suffix_str};

verus! {

#[derive(Debug, Clone, Copy, PartialEq, Eq, Structural)]
pub enum InputType {
    Arxiv,
    Doi,
    Isbn,
    DblpUrl,
    SemanticScholarUrl,
    Search,
}

/// Which of the identifier patterns an input matches.
#[derive(Debug, Clone, Copy, PartialEq, Eq, Structural)]
pub struct InputMatches {
    pub arxiv_url: bool,
    pub doi_url: bool,
    pub dblp_url: bool,
    pub semantic_scholar_url: bool,
    pub arxiv_new: bool,
    pub arxiv_old: bool,
    pub doi_bare: bool,
    pub isbn: bool,
}

/// The type an input has given the patterns it matches, in priority order:
/// arXiv URL, DOI URL, DBLP URL, Semantic Scholar URL, new-style arXiv ID,
/// old-style arXiv ID, bare DOI, ISBN, and otherwise a search query.
pub open spec fn classify(m: InputMatches) -> InputType {
    if m.arxiv_url {
        InputType::Arxiv
    } else if m.doi_url {
        InputType::Doi
    } else if m.dblp_url {
        InputType::DblpUrl
    } else if m.semantic_scholar_url {
        InputType::SemanticScholarUrl
    } else if m.arxiv_new || m.arxiv_old {
        InputType::Arxiv
    } else if m.doi_bare {
        InputType::Doi
    } else if m.isbn {
        InputType::Isbn
    } else {
        InputType::Search
    }
}

/// Decide the input type from the patterns it matches.
pub fn classify_input(m: &InputMatches) -> (r: InputType)
    ensures
        r == classify(*m),
{
    if m.arxiv_url {
        InputType::Arxiv
    } else if m.doi_url {
        InputType::Doi
    } else if m.dblp_url {
        InputType::DblpUrl
    } else if m.semantic_scholar_url {
        InputType::SemanticScholarUrl
    } else if m.arxiv_new || m.arxiv_old {
        InputType::Arxiv
    } else if m.doi_bare {
        InputType::Doi
    } else if m.isbn {
        InputType::Isbn
    } else {
        InputType::Search
    }
}

/// `s` without its hyphens and spaces.
pub open spec fn strip_isbn_separators(s: Seq<char>) -> Seq<char>
    decreases s.len(),
{
    if s.len() == 0 {
        seq![]
    } else if s.last() == '-' || s.last() == ' ' {
        strip_isbn_separators(s.drop_last())
    } else {
        strip_isbn_separators(s.drop_last()).push(s.last())
    }
}

/// An optional version suffix of an arXiv ID: nothing, or `v` and digits.
pub open spec fn arxiv_version(t: Seq<char>) -> bool {
    t.len() == 0 || (t.len() >= 2 && t[0] == 'v' && all_dec_digits(t.drop_first()))
}

/// A new-scheme arXiv ID without prefix: four digits (year and month), a
/// dot, a sequence number of four or five digits, and an optional version.
pub open spec fn arxiv_new_body(b: Seq<char>) -> bool {
    &&& b.len() >= 9
    &&& all_dec_digits(b.subrange(0, 4))
    &&& b[4] == '.'
    &&& all_dec_digits(b.subrange(5, 9))
    &&& (arxiv_version(b.subrange(9, b.len() as int))
        || (b.len() >= 10 && is_digit(b[9]) && arxiv_version(b.subrange(10, b.len() as int))))
}

/// A new-scheme arXiv ID (`^(arXiv:|arxiv:)?[0-9]{4}\.[0-9]{4,5}(v[0-9]+)?$`):
/// an optional `arXiv:` or `arxiv:` prefix, then the ID itself.
pub open spec fn arxiv_new_id(s: Seq<char>) -> bool {
    if has_prefix(s, "arXiv:"@) || has_prefix(s, "arxiv:"@) {
        arxiv_new_body(s.subrange(6, s.len() as int))
    } else {
        arxiv_new_body(s)
    }
}

fn digits_between(c: &Vec<char>, lo: usize, hi: usize) -> (r: bool)
    requires
        lo <= hi <= c@.len(),
    ensures
        r == all_dec_digits(c@.subrange(lo as int, hi as int)),
{
    let mut i = lo;
    while i < hi
        invariant
            lo <= i <= hi <= c@.len(),
            all_dec_digits(c@.subrange(lo as int, i as int)),
        decreases hi - i,
    {
        if !is_digit_exec(c[i]) {
            assert(c@.subrange(lo as int, hi as int)[i - lo] == c@[i as int]);
            return false;
        }
        assert forall|k: int| 0 <= k < i + 1 - lo implies is_digit(#[trigger] c@.subrange(lo as int, i + 1)[k]) by {
            if k < i - lo {
                assert(c@.subrange(lo as int, i + 1)[k] == c@.subrange(lo as int, i as int)[k]);
            }
        }
        i = i + 1;
    }
    true
}

fn version_from(c: &Vec<char>, lo: usize) -> (r: bool)
    requires
        lo <= c@.len(),
    ensures
        r == arxiv_version(c@.subrange(lo as int, c@.len() as int)),
{
    let n = c.len();
    if lo == n {
        return true;
    }
    if n - lo < 2 || c[lo] != 'v' {
        return false;
    }
    assert(c@.subrange(lo as int, n as int).drop_first() =~= c@.subrange(lo + 1, n as int));
    digits_between(c, lo + 1, n)
}

/// Whether `input` is a new-scheme arXiv ID, optionally prefixed.
pub fn is_arxiv_new_id(input: &str) -> (r: bool)
    ensures
        r == arxiv_new_id(input@),
{
    proof {
        reveal_strlit("arXiv:");
        reveal_strlit("arxiv:");
    }
    let c0 = str_chars(input);
    let pre = crate::text::starts_with_str(c0.as_slice(), "arXiv:") || crate::text::starts_with_str(c0.as_slice(), "arxiv:");
    let c = if pre { crate::text::slice_vec(c0.as_slice(), 6, c0.len()) } else { c0 };
    let ghost b = if pre { input@.subrange(6, input@.len() as int) } else { input@ };
    assert(c@ == b);
    let n = c.len();
    if n < 9 || c[4] != '.' {
        return false;
    }
    if !digits_between(&c, 0, 4) || !digits_between(&c, 5, 9) {
        return false;
    }
    if version_from(&c, 9) {
        return true;
    }
    n >= 10 && is_digit_exec(c[9]) && version_from(&c, 10)
}

/// Every new-scheme arXiv ID is recognised as one: four digits, a dot and a
/// sequence number of four digits (`1412.6980`, before 2015) or five
/// (`2006.11239`), optionally after `arXiv:` or `arxiv:` and before a
/// version `vN`; a sequence number of six digits or more is not one.
pub proof fn lemma_arxiv_new_ids(prefix: Seq<char>, ym: Seq<char>, num: Seq<char>, version: Seq<char>)
    requires
        prefix == ""@ || prefix == "arXiv:"@ || prefix == "arxiv:"@,
        ym.len() == 4,
        all_dec_digits(ym),
        num.len() >= 4,
        all_dec_digits(num),
        version.len() == 0 || (version.len() >= 2 && version[0] == 'v' && all_dec_digits(version.drop_first())),
    ensures
        input_matches(prefix + ym + "."@ + num + version).arxiv_new <==> num.len() <= 5,
{
    reveal_strlit("");
    reveal_strlit("arXiv:");
    reveal_strlit("arxiv:");
    reveal_strlit(".");
    let b = ym + "."@ + num + version;
    let s = prefix + b;
    assert(s =~= prefix + ym + "."@ + num + version);
    if prefix.len() == 0 {
        assert(s =~= b);
        assert(!has_prefix(s, "arXiv:"@)) by {
            if has_prefix(s, "arXiv:"@) { assert(s.subrange(0, 6)[0] == "arXiv:"@[0]); assert(is_digit(ym[0])); }
        }
        assert(!has_prefix(s, "arxiv:"@)) by {
            if has_prefix(s, "arxiv:"@) { assert(s.subrange(0, 6)[0] == "arxiv:"@[0]); assert(is_digit(ym[0])); }
        }
    } else {
        assert(s.subrange(0, 6) =~= prefix);
        assert(s.subrange(6, s.len() as int) =~= b);
    }
    assert(arxiv_new_id(s) == arxiv_new_body(b));
    assert(b.subrange(0, 4) =~= ym);
    assert(b[4] == '.');
    assert(b.subrange(5, 9) =~= num.subrange(0, 4));
    assert forall|k: int| 5 <= k < 5 + num.len() implies #[trigger] b[k] == num[k - 5] by {}
    assert(all_dec_digits(b.subrange(0, 4)));
    assert(all_dec_digits(b.subrange(5, 9)));
    if num.len() == 4 {
        assert(b.subrange(9, b.len() as int) =~= version);
        if version.len() > 0 {
            assert(b.subrange(9, b.len() as int).drop_first() =~= version.drop_first());
        }
        assert(arxiv_new_body(b));
    } else if num.len() == 5 {
        assert(b.subrange(10, b.len() as int) =~= version);
        assert(is_digit(b[9]));
        if version.len() > 0 {
            assert(b.subrange(9, b.len() as int)[0] == b[9]);
            assert(b.subrange(10, b.len() as int).drop_first() =~= version.drop_first());
        }
        assert(arxiv_new_body(b));
    } else {
        assert(is_digit(b[9]) && is_digit(b[10]));
        assert(b.subrange(9, b.len() as int)[0] == b[9]);
        assert(b.subrange(10, b.len() as int)[0] == b[10]);
        assert(!arxiv_new_body(b));
    }
}

/// The patterns `input` matches.
pub open spec fn input_matches(input: Seq<char>) -> InputMatches {
    InputMatches {
        arxiv_url: regex_matches(r"^https?://([a-z]+\.)?arxiv\.org/"@, input),
        doi_url: regex_matches(r"^https?://(dx\.)?doi\.org/"@, input),
        dblp_url: regex_matches(r"^https?://dblp\.org/"@, input),
        semantic_scholar_url: regex_matches(r"^https?://www\.semanticscholar\.org/"@, input),
        arxiv_new: arxiv_new_id(input),
        arxiv_old: regex_matches(r"^[a-z-]+(\.[A-Z][A-Za-z-]*)?/[0-9]{7}(v[0-9]+)?$"@, input),
        doi_bare: regex_matches(r"^10\.[0-9]{4,}/"@, input),
        isbn: regex_matches(r"^[0-9]{9}[0-9Xx]$|^[0-9]{13}$"@, strip_isbn_separators(input)),
    }
}

/// Match `input` against each identifier pattern.
pub fn match_input(input: &str) -> (r: InputMatches)
    ensures
        r == input_matches(input@),
{
    let stripped = normalize_isbn(input);
    InputMatches {
        arxiv_url: regex_is_match(r"^https?://([a-z]+\.)?arxiv\.org/", input),
        doi_url: regex_is_match(r"^https?://(dx\.)?doi\.org/", input),
        dblp_url: regex_is_match(r"^https?://dblp\.org/", input),
        semantic_scholar_url: regex_is_match(r"^https?://www\.semanticscholar\.org/", input),
        arxiv_new: is_arxiv_new_id(input),
        arxiv_old: regex_is_match(r"^[a-z-]+(\.[A-Z][A-Za-z-]*)?/[0-9]{7}(v[0-9]+)?$", input),
        doi_bare: regex_is_match(r"^10\.[0-9]{4,}/", input),
        isbn: regex_is_match(r"^[0-9]{9}[0-9Xx]$|^[0-9]{13}$", stripped.as_str()),
    }
}

/// Detect the input type from a string.
///
/// Priority order:
/// 1. arXiv URL (https://arxiv.org/... or http://...)
/// 2. DOI URL (https://doi.org/... or dx.doi.org)
/// 3. DBLP URL
/// 4. Semantic Scholar URL
/// 5. arXiv ID (YYMM.NNNNN or category/NNNNNNN, optional arXiv: prefix)
/// 6. DOI (10.NNNN+/...)
/// 7. ISBN (10 or 13 digits after stripping hyphens/spaces)
/// 8. Fallback: Search
pub fn detect_type(input: &str) -> (r: InputType)
    ensures
        r == classify(input_matches(input@)),
{
    let m = match_input(input);
    classify_input(&m)
}

/// `s` with the first of `prefixes` that it starts with removed.
pub open spec fn strip_first_prefix(s: Seq<char>, prefixes: Seq<Seq<char>>) -> Seq<char>
    decreases prefixes.len(),
{
    if prefixes.len() == 0 {
        s
    } else if has_prefix(s, prefixes[0]) {
        s.subrange(prefixes[0].len() as int, s.len() as int)
    } else {
        strip_first_prefix(s, prefixes.drop_first())
    }
}

pub open spec fn arxiv_url_prefixes() -> Seq<Seq<char>> {
    seq![
        "https://export.arxiv.org/abs/"@,
        "https://arxiv.org/abs/"@,
        "http://arxiv.org/abs/"@,
        "https://arxiv.org/pdf/"@,
        "http://arxiv.org/pdf/"@,
    ]
}

pub open spec fn doi_url_prefixes() -> Seq<Seq<char>> {
    seq!["https://doi.org/"@, "http://doi.org/"@, "https://dx.doi.org/"@, "http://dx.doi.org/"@]
}

/// `s` without the prefix `p` when it has it.
pub open spec fn drop_prefix(s: Seq<char>, p: Seq<char>) -> Seq<char> {
    if has_prefix(s, p) {
        s.subrange(p.len() as int, s.len() as int)
    } else {
        s
    }
}

/// `s` without the suffix `p` when it has it.
pub open spec fn drop_suffix(s: Seq<char>, p: Seq<char>) -> Seq<char> {
    if has_suffix(s, p) {
        s.subrange(0, s.len() - p.len())
    } else {
        s
    }
}

/// The normalized arXiv identifier of `input`.
pub open spec fn arxiv_normalized(input: Seq<char>) -> Seq<char> {
    let a = strip_first_prefix(input, arxiv_url_prefixes());
    let b = if has_prefix(a, "arXiv:"@) { drop_prefix(a, "arXiv:"@) } else { drop_prefix(a, "arxiv:"@) };
    regex_replaced_first(r"v[0-9]+$"@, drop_suffix(b, ".pdf"@), ""@)
}

/// Remove the first prefix of `prefixes[k..]` that `s` has.
fn strip_one_of(s: Vec<char>, prefixes: &[&str], k: usize) -> (r: Vec<char>)
    requires
        k <= prefixes@.len(),
    ensures
        r@ == strip_first_prefix(s@, prefixes@.subrange(k as int, prefixes@.len() as int).map_values(|p: &str| p@)),
    decreases prefixes.len() - k,
{
    let ghost ps = prefixes@.subrange(k as int, prefixes@.len() as int).map_values(|p: &str| p@);
    if k == prefixes.len() {
        assert(ps.len() == 0);
        return s;
    }
    assert(ps[0] == prefixes@[k as int]@);
    match strip_prefix_str(s.as_slice(), prefixes[k]) {
        Some(t) => t,
        None => {
            assert(prefixes@.subrange(k + 1, prefixes@.len() as int).map_values(|p: &str| p@) =~= ps.drop_first());
            strip_one_of(s, prefixes, k + 1)
        },
    }
}

/// Strip URL prefixes, `arXiv:` prefix, version suffix, and `.pdf` suffix
/// from an arXiv identifier.
pub fn normalize_arxiv(input: &str) -> (r: String)
    ensures
        r@ == arxiv_normalized(input@),
{
    let prefixes: [&str; 5] = [
        "https://export.arxiv.org/abs/",
        "https://arxiv.org/abs/",
        "http://arxiv.org/abs/",
        "https://arxiv.org/pdf/",
        "http://arxiv.org/pdf/",
    ];
    let ghost ps = prefixes@.subrange(0, 5).map_values(|p: &str| p@);
    assert(ps =~= arxiv_url_prefixes());
    let a = strip_one_of(str_chars(input), &prefixes, 0);
    let b = match strip_prefix_str(a.as_slice(), "arXiv:") {
        Some(t) => t,
        None => match strip_prefix_str(a.as_slice(), "arxiv:") {
            Some(t) => t,
            None => a,
        },
    };
    let d = match strip_suffix_str(b.as_slice(), ".pdf") {
        Some(t) => t,
        None => b,
    };
    let ds = string_from_chars(d.as_slice());
    regex_replace_first(r"v[0-9]+$", ds.as_str(), "")
}

/// The DOI of `input` with any resolver URL prefix removed.
pub open spec fn doi_normalized(input: Seq<char>) -> Seq<char> {
    strip_first_prefix(input, doi_url_prefixes())
}

/// Strip URL prefixes from a DOI string.
pub fn normalize_doi(input: &str) -> (r: String)
    ensures
        r@ == doi_normalized(input@),
{
    let prefixes: [&str; 4] = ["https://doi.org/", "http://doi.org/", "https://dx.doi.org/", "http://dx.doi.org/"];
    let ghost ps = prefixes@.subrange(0, 4).map_values(|p: &str| p@);
    assert(ps =~= doi_url_prefixes());
    let a = strip_one_of(str_chars(input), &prefixes, 0);
    string_from_chars(a.as_slice())
}

/// Strip hyphens and spaces from an ISBN string.
pub fn normalize_isbn(input: &str) -> (r: String)
    ensures
        r@ == strip_isbn_separators(input@),
{
    let s = str_chars(input);
    let mut out: Vec<char> = Vec::new();
    let mut i: usize = 0;
    while i < s.len()
        invariant
            i <= s.len(),
            out@ == strip_isbn_separators(s@.subrange(0, i as int)),
        decreases s.len() - i,
    {
        assert(s@.subrange(0, i + 1).drop_last() =~= s@.subrange(0, i as int));
        if s[i] != '-' && s[i] != ' ' {
            out.push(s[i]);
        }
        i = i + 1;
    }
    assert(s@.subrange(0, s@.len() as int) =~= s@);
    string_from_chars(out.as_slice())
}

} // verus!
