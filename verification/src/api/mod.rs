//! The record every scholarly API is parsed into, and the small text
//! helpers the parsers share.
use vstd::prelude::*;
use vstd::string::StrSliceExecFns;
use vstd::string::StringSliceAdditionalSpecFns;
use crate::json::{Json, JsonV, jfield, jget, jstr, jas_str, jarr, jas_array, ov, os};
use crate::text::{push_str, u64_to_chars, push_all, decimal, str_chars, string_from_chars, word_bounds, words, slice_vec, is_digit, is_digit_exec};

pub mod arxiv;
pub mod causalai;
pub mod clio;
pub mod crossref;
pub mod dblp;
pub mod openalex;
pub mod openlibrary;
pub mod philpapers;
pub mod s2_dump;
pub mod semantic_scholar;
pub mod unpaywall;

verus! {

/// Common paper result used across all APIs.
#[derive(Debug, Clone)]
pub struct PaperResult {
    pub title: String,
    pub authors: Vec<String>,
    pub year: String,
    pub doi: Option<String>,
    pub arxiv_id: Option<String>,
    pub citations: Option<u64>,
    pub venue: Option<String>,
    pub pdf_url: Option<String>,
    pub abstract_text: Option<String>,
    pub isbn: Option<String>,
    /// Semantic Scholar paper ID, used for multi-hop BFS.
    pub s2_id: Option<String>,
    /// Full published date (e.g. "2020-06-19"), used by arXiv.
    pub published_date: Option<String>,
    /// Category tags (e.g. ["cs.LG", "stat.ML"]), used by arXiv.
    pub categories: Vec<String>,
}

/// The characters of an optional string.
pub open spec fn opt_view(o: Option<String>) -> Option<Seq<char>> {
    match o {
        Some(s) => Some(s@),
        None => None,
    }
}

/// The characters of each string of a list.
pub open spec fn strs_view(v: Seq<String>) -> Seq<Seq<char>> {
    v.map_values(|s: String| s@)
}

/// Mathematical view of a paper record.
pub struct PaperV {
    pub title: Seq<char>,
    pub authors: Seq<Seq<char>>,
    pub year: Seq<char>,
    pub doi: Option<Seq<char>>,
    pub arxiv_id: Option<Seq<char>>,
    pub citations: Option<u64>,
    pub venue: Option<Seq<char>>,
    pub pdf_url: Option<Seq<char>>,
    pub abstract_text: Option<Seq<char>>,
    pub isbn: Option<Seq<char>>,
    pub s2_id: Option<Seq<char>>,
    pub published_date: Option<Seq<char>>,
    pub categories: Seq<Seq<char>>,
}

impl View for PaperResult {
    type V = PaperV;

    open spec fn view(&self) -> PaperV {
        PaperV {
            title: self.title@,
            authors: strs_view(self.authors@),
            year: self.year@,
            doi: opt_view(self.doi),
            arxiv_id: opt_view(self.arxiv_id),
            citations: self.citations,
            venue: opt_view(self.venue),
            pdf_url: opt_view(self.pdf_url),
            abstract_text: opt_view(self.abstract_text),
            isbn: opt_view(self.isbn),
            s2_id: opt_view(self.s2_id),
            published_date: opt_view(self.published_date),
            categories: strs_view(self.categories@),
        }
    }
}

impl PaperResult {
    /// A copy of the record, field by field.
    pub fn clone_paper(&self) -> (r: PaperResult)
        ensures
            r@ == self@,
    {
        let r = PaperResult {
            title: self.title.clone(),
            authors: self.authors.clone(),
            year: self.year.clone(),
            doi: self.doi.clone(),
            arxiv_id: self.arxiv_id.clone(),
            citations: self.citations,
            venue: self.venue.clone(),
            pdf_url: self.pdf_url.clone(),
            abstract_text: self.abstract_text.clone(),
            isbn: self.isbn.clone(),
            s2_id: self.s2_id.clone(),
            published_date: self.published_date.clone(),
            categories: self.categories.clone(),
        };
        assert(strs_view(r.authors@) =~= strs_view(self.authors@));
        assert(strs_view(r.categories@) =~= strs_view(self.categories@));
        r
    }
}

/// The paper record with every field empty.
pub open spec fn empty_paper() -> PaperV {
    PaperV {
        title: seq![],
        authors: seq![],
        year: seq![],
        doi: None,
        arxiv_id: None,
        citations: None,
        venue: None,
        pdf_url: None,
        abstract_text: None,
        isbn: None,
        s2_id: None,
        published_date: None,
        categories: seq![],
    }
}

impl Default for PaperResult {
    fn default() -> (r: PaperResult)
        ensures
            r@ == empty_paper(),
    {
        let r = PaperResult {
            title: String::new(),
            authors: Vec::new(),
            year: String::new(),
            doi: None,
            arxiv_id: None,
            citations: None,
            venue: None,
            pdf_url: None,
            abstract_text: None,
            isbn: None,
            s2_id: None,
            published_date: None,
            categories: Vec::new(),
        };
        assert(strs_view(r.authors@) =~= seq![]);
        assert(strs_view(r.categories@) =~= seq![]);
        r
    }
}

/// Last whitespace-delimited token of `name`, or `name` itself when it has none.
pub open spec fn last_name_of(name: Seq<char>) -> Seq<char> {
    if words(name).len() > 0 {
        words(name).last()
    } else {
        name
    }
}

/// Extract the last name (last whitespace-delimited token) from a display name.
pub fn extract_last_name(name: &str) -> (r: &str)
    ensures
        r@ == last_name_of(name@),
{
    let c = str_chars(name);
    let b = word_bounds(c.as_slice());
    if b.len() == 0 {
        return name;
    }
    let (lo, hi) = b[b.len() - 1];
    name.substring_char(lo, hi)
}

/// Last name of the first author, or the empty string when there is none.
pub open spec fn first_author_lastname_of(authors: Seq<Seq<char>>) -> Seq<char> {
    if authors.len() > 0 {
        last_name_of(authors[0])
    } else {
        seq![]
    }
}

/// Extract the last name of the first author from a list of author display names.
pub fn first_author_lastname(authors: &[String]) -> (r: String)
    ensures
        r@ == first_author_lastname_of(strs_view(authors@)),
{
    if authors.len() == 0 {
        return String::new();
    }
    extract_last_name(authors[0].as_str()).to_owned()
}

/// End of the run of ASCII digits starting at `i`.
pub open spec fn digit_run_end(s: Seq<char>, i: int) -> int
    decreases s.len() - i,
{
    if i < 0 || i >= s.len() || !is_digit(s[i]) {
        i
    } else {
        digit_run_end(s, i + 1)
    }
}

proof fn lemma_digit_run_end(s: Seq<char>, i: int)
    requires
        0 <= i <= s.len(),
    ensures
        i <= digit_run_end(s, i) <= s.len(),
        forall|j: int| i <= j < digit_run_end(s, i) ==> is_digit(s[j]),
        digit_run_end(s, i) < s.len() ==> !is_digit(s[digit_run_end(s, i)]),
    decreases s.len() - i,
{
    if i < s.len() && is_digit(s[i]) {
        lemma_digit_run_end(s, i + 1);
    }
}

proof fn lemma_digit_run_end_from(s: Seq<char>, i: int, k: int)
    requires
        0 <= i <= k <= s.len(),
        forall|j: int| i <= j < k ==> is_digit(s[j]),
        k == s.len() || !is_digit(s[k]),
    ensures
        digit_run_end(s, i) == k,
    decreases k - i,
{
    if i < k {
        lemma_digit_run_end_from(s, i + 1, k);
    }
}

/// Start of the first piece of `s[i..]`, split at every non-digit, that is
/// exactly four digits long; `i` is the start of a piece.
pub open spec fn four_digit_piece_from(s: Seq<char>, i: int) -> Option<int>
    decreases s.len() - i,
{
    if i < 0 || i > s.len() {
        None
    } else if digit_run_end(s, i) - i == 4 {
        Some(i)
    } else if digit_run_end(s, i) >= s.len() || digit_run_end(s, i) < i {
        None
    } else {
        four_digit_piece_from(s, digit_run_end(s, i) + 1)
    }
}

/// Year extracted from a free-form date.
pub open spec fn year_from_date(d: Seq<char>) -> Seq<char> {
    match four_digit_piece_from(d, 0) {
        Some(i) => d.subrange(i, i + 4),
        None => if d.len() >= 4 && (forall|k: int| d.len() - 4 <= k < d.len() ==> is_digit(d[k])) {
            d.subrange(d.len() - 4, d.len() as int)
        } else {
            seq!['?']
        },
    }
}

/// Extract a 4-digit year from a date string like "2019", "March 2019", "2019-03-15".
///
/// Finds the first piece between non-digit characters that is exactly four
/// digits long. Falls back to the last four characters if they are all digits,
/// and to `"?"` otherwise.
pub fn extract_year_from_date(date: &str) -> (r: String)
    ensures
        r@ == year_from_date(date@),
{
    let s = str_chars(date);
    let n = s.len();
    let mut i: usize = 0;
    loop
        invariant
            i <= n,
            n == s@.len(),
            s@ == date@,
            four_digit_piece_from(s@, 0) == four_digit_piece_from(s@, i as int),
        ensures
            four_digit_piece_from(s@, 0) is None,
        decreases n - i,
    {
        let start = i;
        let mut e = i;
        while e < n && is_digit_exec(s[e])
            invariant
                start <= e <= n,
                n == s@.len(),
                forall|j: int| start <= j < e ==> is_digit(s@[j]),
            decreases n - e,
        {
            e = e + 1;
        }
        proof {
            lemma_digit_run_end_from(s@, start as int, e as int);
        }
        if e - start == 4 {
            assert(four_digit_piece_from(s@, start as int) == Some(start as int));
            assert(year_from_date(s@) == s@.subrange(start as int, start + 4));
            let v = slice_vec(s.as_slice(), start, e);
            assert(v@ == s@.subrange(start as int, start + 4));
            return string_from_chars(v.as_slice());
        }
        if e >= n {
            assert(four_digit_piece_from(s@, start as int) is None);
            break;
        }
        assert(four_digit_piece_from(s@, start as int) == four_digit_piece_from(s@, e + 1));
        i = e + 1;
    }
    if n >= 4 {
        let mut k = n - 4;
        let mut all = true;
        while k < n
            invariant
                n - 4 <= k <= n,
                n == s@.len(),
                all == (forall|j: int| n - 4 <= j < k ==> is_digit(s@[j])),
            decreases n - k,
        {
            if !is_digit_exec(s[k]) {
                all = false;
            }
            k = k + 1;
        }
        if all {
            assert(year_from_date(s@) == s@.subrange(n - 4, n as int));
            let v = slice_vec(s.as_slice(), n - 4, n);
            return string_from_chars(v.as_slice());
        }
    }
    assert(year_from_date(s@) == seq!['?']);
    let mut q: Vec<char> = Vec::new();
    q.push('?');
    assert(q@ =~= seq!['?']);
    string_from_chars(q.as_slice())
}

/// Byte left unencoded by `urlencode`: `A-Z a-z 0-9 - _ . ~`.
pub open spec fn unreserved(b: u8) -> bool {
    (0x41 <= b && b <= 0x5A) || (0x61 <= b && b <= 0x7A) || (0x30 <= b && b <= 0x39)
        || b == 0x2D || b == 0x5F || b == 0x2E || b == 0x7E
}

/// Upper-case hexadecimal digit for `n < 16`.
pub open spec fn hex_upper(n: u8) -> char {
    if n < 10 {
        ((0x30 + n) as u8) as char
    } else {
        ((0x41 + n - 10) as u8) as char
    }
}

/// Percent-encoding of one byte.
pub open spec fn encode_byte(b: u8) -> Seq<char> {
    if unreserved(b) {
        seq![b as char]
    } else {
        seq!['%', hex_upper(b / 16), hex_upper(b % 16)]
    }
}

/// Percent-encoding of a byte sequence.
pub open spec fn url_encoded(bs: Seq<u8>) -> Seq<char>
    decreases bs.len(),
{
    if bs.len() == 0 {
        seq![]
    } else {
        url_encoded(bs.drop_last()) + encode_byte(bs.last())
    }
}

fn hex_upper_exec(n: u8) -> (r: char)
    requires
        n < 16,
    ensures
        r == hex_upper(n),
{
    if n < 10 {
        (0x30 + n) as char
    } else {
        (0x41 + n - 10) as char
    }
}

/// Percent-encode a string for use in URL query parameters.
///
/// Encodes every UTF-8 byte except the unreserved ones (A-Z, a-z, 0-9, `-`,
/// `_`, `.`, `~`) as `%XX` with upper-case hexadecimal digits.
pub fn urlencode(s: &str) -> (r: String)
    ensures
        r@ == url_encoded(s.spec_bytes()),
{
    let bytes = s.as_bytes();
    let mut out: Vec<char> = Vec::new();
    let mut i: usize = 0;
    while i < bytes.len()
        invariant
            i <= bytes@.len(),
            bytes@ == s.spec_bytes(),
            out@ == url_encoded(bytes@.subrange(0, i as int)),
        decreases bytes.len() - i,
    {
        let b = bytes[i];
        proof {
            assert(bytes@.subrange(0, i + 1).drop_last() =~= bytes@.subrange(0, i as int));
        }
        if (0x41 <= b && b <= 0x5A) || (0x61 <= b && b <= 0x7A) || (0x30 <= b && b <= 0x39)
            || b == 0x2D || b == 0x5F || b == 0x2E || b == 0x7E {
            out.push(b as char);
        } else {
            out.push('%');
            out.push(hex_upper_exec(b / 16));
            out.push(hex_upper_exec(b % 16));
        }
        i = i + 1;
        proof {
            assert(out@ =~= url_encoded(bytes@.subrange(0, i as int)));
        }
    }
    assert(bytes@.subrange(0, bytes@.len() as int) =~= bytes@);
    string_from_chars(out.as_slice())
}

/// Add one string at the end of a list.
pub(crate) fn push_string(out: &mut Vec<String>, s: String)
    ensures
        strs_view(final(out)@) == strs_view(old(out)@).push(s@),
{
    out.push(s);
    assert(strs_view(out@) =~= strs_view(old(out)@).push(s@));
}

/// Add copies of strings at the end of a list.
pub(crate) fn append_strings(out: &mut Vec<String>, items: &Vec<String>)
    ensures
        strs_view(final(out)@) == strs_view(old(out)@) + strs_view(items@),
{
    let ghost l0 = strs_view(out@);
    let mut i: usize = 0;
    while i < items.len()
        invariant
            i <= items@.len(),
            strs_view(out@) == l0 + strs_view(items@).subrange(0, i as int),
        decreases items@.len() - i,
    {
        let ghost before = strs_view(out@);
        push_string(out, items[i].clone());
        assert(strs_view(items@)[i as int] == items@[i as int]@);
        assert(strs_view(out@) =~= l0 + strs_view(items@).subrange(0, i + 1));
        i = i + 1;
    }
    assert(strs_view(items@).subrange(0, items@.len() as int) =~= strs_view(items@));
}

/// `a` followed by `b`.
pub(crate) fn cat2(a: &str, b: &str) -> (r: String)
    ensures
        r@ == a@ + b@,
{
    let mut v: Vec<char> = Vec::new();
    push_str(&mut v, a);
    push_str(&mut v, b);
    assert(v@ =~= a@ + b@);
    string_from_chars(v.as_slice())
}

/// `a`, `b` and `c` in a row.
pub(crate) fn cat3(a: &str, b: &str, c: &str) -> (r: String)
    ensures
        r@ == a@ + b@ + c@,
{
    let mut v: Vec<char> = Vec::new();
    push_str(&mut v, a);
    push_str(&mut v, b);
    push_str(&mut v, c);
    assert(v@ =~= a@ + b@ + c@);
    string_from_chars(v.as_slice())
}

/// A search URL: `base`, the percent-encoded query, `mid`, the decimal
/// limit, then `tail`.
pub open spec fn query_url_text(base: Seq<char>, query: Seq<u8>, mid: Seq<char>, limit: nat, tail: Seq<char>) -> Seq<char> {
    base + url_encoded(query) + mid + decimal(limit) + tail
}

pub(crate) fn build_query_url(base: &str, query: &str, mid: &str, limit: usize, tail: &str) -> (r: String)
    ensures
        r@ == query_url_text(base@, query.spec_bytes(), mid@, limit as nat, tail@),
{
    let mut v: Vec<char> = Vec::new();
    push_str(&mut v, base);
    let q = urlencode(query);
    push_str(&mut v, q.as_str());
    push_str(&mut v, mid);
    let d = u64_to_chars(limit as u64);
    push_all(&mut v, d.as_slice());
    push_str(&mut v, tail);
    assert(v@ =~= query_url_text(base@, query.spec_bytes(), mid@, limit as nat, tail@));
    string_from_chars(v.as_slice())
}

/// `o.unwrap_or(d)` on characters.
pub open spec fn str_or(o: Option<Seq<char>>, d: Seq<char>) -> Seq<char> {
    match o {
        Some(s) => s,
        None => d,
    }
}

/// A JSON year number as text, `?` when absent.
pub open spec fn year_text(n: Option<u64>) -> Seq<char> {
    match n {
        Some(y) => decimal(y as nat),
        None => "?"@,
    }
}

/// The owned string of `o`, or `d`.
pub fn owned_or(o: Option<&str>, d: &str) -> (r: String)
    ensures
        r@ == str_or(os(o), d@),
{
    match o {
        Some(s) => s.to_owned(),
        None => d.to_owned(),
    }
}

/// The owned string of `o`.
pub fn owned_opt(o: Option<&str>) -> (r: Option<String>)
    ensures
        opt_view(r) == os(o),
{
    match o {
        Some(s) => Some(s.to_owned()),
        None => None,
    }
}

/// A JSON year number as text.
pub fn year_string(n: Option<u64>) -> (r: String)
    ensures
        r@ == year_text(n),
{
    match n {
        Some(y) => crate::text::u64_to_string(y),
        None => "?".to_owned(),
    }
}

/// `j[path[0]][path[1]]...`.
pub open spec fn jpath(j: JsonV, path: Seq<Seq<char>>) -> JsonV
    decreases path.len(),
{
    if path.len() == 0 {
        j
    } else {
        jpath(jget(j, path[0]), path.drop_first())
    }
}

/// The characters of each key of a path.
pub open spec fn keys_view(path: Seq<&str>) -> Seq<Seq<char>> {
    path.map_values(|k: &str| k@)
}

/// `o[path[0]][path[1]]...`.
pub fn jpath_exec<'a>(o: Option<&'a Json>, path: &[&str]) -> (r: Option<&'a Json>)
    ensures
        ov(r) == jpath(ov(o), keys_view(path@)),
{
    let mut cur = o;
    let mut i: usize = 0;
    assert(keys_view(path@).subrange(0, path@.len() as int) =~= keys_view(path@));
    while i < path.len()
        invariant
            i <= path.len(),
            jpath(ov(o), keys_view(path@)) == jpath(ov(cur), keys_view(path@).subrange(i as int, path@.len() as int)),
        decreases path.len() - i,
    {
        let ghost ks = keys_view(path@).subrange(i as int, path@.len() as int);
        assert(ks[0] == path@[i as int]@);
        assert(ks.drop_first() =~= keys_view(path@).subrange(i + 1, path@.len() as int));
        cur = jfield(cur, path[i]);
        i = i + 1;
    }
    assert(keys_view(path@).subrange(i as int, path@.len() as int).len() == 0);
    cur
}

/// For each element of `arr` whose value at `path` is a string, that string
/// (its last name when `last`).
pub open spec fn names_at(arr: Seq<JsonV>, path: Seq<Seq<char>>, last: bool) -> Seq<Seq<char>>
    decreases arr.len(),
{
    if arr.len() == 0 {
        seq![]
    } else {
        names_at(arr.drop_last(), path, last) + match jstr(jpath(arr.last(), path)) {
            Some(n) => seq![if last { last_name_of(n) } else { n }],
            None => seq![],
        }
    }
}

/// `names_at` over the array `o`, or nothing when `o` is not an array.
pub open spec fn names_in(o: JsonV, path: Seq<Seq<char>>, last: bool) -> Seq<Seq<char>> {
    match jarr(o) {
        Some(a) => names_at(a, path, last),
        None => seq![],
    }
}

/// The strings at `path` in the elements of the array `o`.
pub fn collect_names(o: Option<&Json>, path: &[&str], last: bool) -> (r: Vec<String>)
    ensures
        strs_view(r@) == names_in(ov(o), keys_view(path@), last),
{
    let mut out: Vec<String> = Vec::new();
    match jas_array(o) {
        None => {
            assert(strs_view(out@) =~= seq![]);
            out
        },
        Some(arr) => {
            let ghost a = jarr(ov(o)).unwrap();
            let mut i: usize = 0;
            while i < arr.len()
                invariant
                    i <= arr.len(),
                    a.len() == arr@.len(),
                    forall|k: int| 0 <= k < arr@.len() ==> (#[trigger] arr@[k])@ == a[k],
                    strs_view(out@) == names_at(a.subrange(0, i as int), keys_view(path@), last),
                decreases arr.len() - i,
            {
                let ghost sub = a.subrange(0, i + 1);
                assert(sub.drop_last() =~= a.subrange(0, i as int));
                assert(sub.last() == arr@[i as int]@);
                let v = jpath_exec(Some(&arr[i]), path);
                match jas_str(v) {
                    Some(n) => {
                        let name = if last { extract_last_name(n).to_owned() } else { n.to_owned() };
                        let ghost prev = strs_view(out@);
                        out.push(name);
                        assert(strs_view(out@) =~= prev.push(name@));
                    },
                    None => {},
                }
                i = i + 1;
            }
            assert(a.subrange(0, a.len() as int) =~= a);
            out
        },
    }
}

/// The `Some` results of `f` over `s`, in order (`filter_map`).
pub open spec fn filter_mapped<A, B>(s: Seq<A>, f: spec_fn(A) -> Option<B>) -> Seq<B>
    decreases s.len(),
{
    if s.len() == 0 {
        seq![]
    } else {
        filter_mapped(s.drop_last(), f) + match f(s.last()) {
            Some(b) => seq![b],
            None => seq![],
        }
    }
}

/// The views of a list of papers.
pub open spec fn papers_view(v: Seq<PaperResult>) -> Seq<PaperV> {
    v.map_values(|p: PaperResult| p@)
}

} // verus!
