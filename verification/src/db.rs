//! The pure parts of the local paper database: cache keys, lifetimes of
//! cached replies, and the values a paper record is stored with.
use vstd::prelude::*;
use vstd::string::StringSliceAdditionalSpecFns;
use vstd::utf8::encode_utf8;
use crate::api::{PaperResult, PaperV, opt_view, strs_view};
use crate::cmd::clean::pairs_view;
use crate::cmd::verify::{byte_prefix, byte_prefix_exec, utf8_len, utf8_len_at_least};
use crate::json::{Json, JsonV, jarr, jstr, json_parsed, parse_json};
use crate::text::{
    all_dec_digits, decimal, split, split_on, is_digit_exec, join, join_strings, lowercase, push_str, str_chars, str_eq, str_to_lowercase,
    string_from_chars, trim, trim_vec, u64_to_chars, u64_to_string,
};

verus! {

/// TTL for search results: 24 hours.
pub const TTL_SEARCH: u64 = 86400;

/// TTL for DOI/arXiv/ISBN lookups: 7 days.
pub const TTL_DOI: u64 = 604800;

/// The MD5 digest of `data`, a function of the bytes alone.
pub uninterp spec fn md5_of(data: Seq<u8>) -> Seq<u8>;

/// `md5::compute`: the 16 bytes of the MD5 digest of `data`.
#[verifier::external_body]
fn md5_digest(data: &[u8]) -> (r: Vec<u8>)
    ensures
        r@ == md5_of(data@),
        r@.len() == 16,
{
    md5::compute(data).0.to_vec()
}

/// The lower-case hexadecimal digit for `d < 16`.
pub open spec fn hex_digit(d: int) -> char {
    if d < 10 { ((d + 48) as u8) as char } else { ((d + 87) as u8) as char }
}

/// Two lower-case hexadecimal digits per byte (`{:02x}` on each).
pub open spec fn hex_bytes(b: Seq<u8>) -> Seq<char>
    decreases b.len(),
{
    if b.len() == 0 {
        seq![]
    } else {
        hex_bytes(b.drop_last()) + seq![hex_digit((b.last() / 16) as int), hex_digit((b.last() % 16) as int)]
    }
}

/// A cache key: the prefix, `_`, and the first 16 hexadecimal digits of the
/// MD5 digest of the input followed by a line break.
pub open spec fn cache_key_of(prefix: Seq<char>, input: Seq<char>) -> Seq<char> {
    prefix + "_"@ + hex_bytes(md5_of(encode_utf8(input).push(10u8)).subrange(0, 8))
}

fn hex_digit_exec(d: u8) -> (r: char)
    requires
        d < 16,
    ensures
        r == hex_digit(d as int),
{
    if d < 10 { (d + 48) as char } else { (d + 87) as char }
}

/// Compute a cache key: `{prefix}_{first 16 hex chars of md5(input + "\n")}`.
pub fn cache_key(prefix: &str, input: &str) -> (r: String)
    ensures
        r@ == cache_key_of(prefix@, input@),
{
    let bytes = input.as_bytes();
    let mut data: Vec<u8> = Vec::new();
    let mut i: usize = 0;
    while i < bytes.len()
        invariant
            i <= bytes@.len(),
            bytes@ == input.spec_bytes(),
            data@ == bytes@.subrange(0, i as int),
        decreases bytes@.len() - i,
    {
        data.push(bytes[i]);
        assert(data@ =~= bytes@.subrange(0, i + 1));
        i = i + 1;
    }
    data.push(10u8);
    assert(data@ =~= encode_utf8(input@).push(10u8));
    let digest = md5_digest(data.as_slice());
    let mut out: Vec<char> = Vec::new();
    push_str(&mut out, prefix);
    out.push('_');
    let ghost head = out@;
    let mut k: usize = 0;
    while k < 8
        invariant
            k <= 8,
            digest@.len() == 16,
            out@ == head + hex_bytes(digest@.subrange(0, k as int)),
        decreases 8 - k,
    {
        let b = digest[k];
        let hi = hex_digit_exec(b / 16);
        let lo = hex_digit_exec(b % 16);
        let ghost prev = out@;
        out.push(hi);
        out.push(lo);
        assert(digest@.subrange(0, k + 1).drop_last() =~= digest@.subrange(0, k as int));
        assert(out@ =~= head + hex_bytes(digest@.subrange(0, k + 1)));
        k = k + 1;
    }
    proof {
        reveal_strlit("_");
    }
    assert(out@ =~= cache_key_of(prefix@, input@));
    string_from_chars(out.as_slice())
}

/// A paper as the database stores it.
#[derive(Debug, Clone)]
pub struct PaperRow {
    pub id: Option<i64>,
    pub entry_type: Option<String>,
    pub title: String,
    /// The authors as a JSON array of names (or plain text).
    pub authors: String,
    pub year: Option<String>,
    pub doi: Option<String>,
    pub arxiv_id: Option<String>,
    pub isbn: Option<String>,
    pub s2_id: Option<String>,
    pub openalex_id: Option<String>,
    pub journal: Option<String>,
    pub booktitle: Option<String>,
    pub publisher: Option<String>,
    pub volume: Option<String>,
    pub number: Option<String>,
    pub pages: Option<String>,
    pub abstract_text: Option<String>,
    pub url: Option<String>,
    pub pdf_url: Option<String>,
    pub categories: Option<String>,
    pub citation_count: Option<i64>,
    pub local_path: Option<String>,
}

/// Mathematical view of a [`PaperRow`].
pub struct PaperRowV {
    pub id: Option<i64>,
    pub entry_type: Option<Seq<char>>,
    pub title: Seq<char>,
    pub authors: Seq<char>,
    pub year: Option<Seq<char>>,
    pub doi: Option<Seq<char>>,
    pub arxiv_id: Option<Seq<char>>,
    pub isbn: Option<Seq<char>>,
    pub s2_id: Option<Seq<char>>,
    pub openalex_id: Option<Seq<char>>,
    pub journal: Option<Seq<char>>,
    pub booktitle: Option<Seq<char>>,
    pub publisher: Option<Seq<char>>,
    pub volume: Option<Seq<char>>,
    pub number: Option<Seq<char>>,
    pub pages: Option<Seq<char>>,
    pub abstract_text: Option<Seq<char>>,
    pub url: Option<Seq<char>>,
    pub pdf_url: Option<Seq<char>>,
    pub categories: Option<Seq<char>>,
    pub citation_count: Option<i64>,
    pub local_path: Option<Seq<char>>,
}

impl View for PaperRow {
    type V = PaperRowV;

    open spec fn view(&self) -> PaperRowV {
        PaperRowV {
            id: self.id,
            entry_type: opt_view(self.entry_type),
            title: self.title@,
            authors: self.authors@,
            year: opt_view(self.year),
            doi: opt_view(self.doi),
            arxiv_id: opt_view(self.arxiv_id),
            isbn: opt_view(self.isbn),
            s2_id: opt_view(self.s2_id),
            openalex_id: opt_view(self.openalex_id),
            journal: opt_view(self.journal),
            booktitle: opt_view(self.booktitle),
            publisher: opt_view(self.publisher),
            volume: opt_view(self.volume),
            number: opt_view(self.number),
            pages: opt_view(self.pages),
            abstract_text: opt_view(self.abstract_text),
            url: opt_view(self.url),
            pdf_url: opt_view(self.pdf_url),
            categories: opt_view(self.categories),
            citation_count: self.citation_count,
            local_path: opt_view(self.local_path),
        }
    }
}

/// The row with every field empty.
pub open spec fn empty_row() -> PaperRowV {
    PaperRowV {
        id: None,
        entry_type: None,
        title: seq![],
        authors: seq![],
        year: None,
        doi: None,
        arxiv_id: None,
        isbn: None,
        s2_id: None,
        openalex_id: None,
        journal: None,
        booktitle: None,
        publisher: None,
        volume: None,
        number: None,
        pages: None,
        abstract_text: None,
        url: None,
        pdf_url: None,
        categories: None,
        citation_count: None,
        local_path: None,
    }
}

impl Default for PaperRow {
    fn default() -> (r: PaperRow)
        ensures
            r@ == empty_row(),
    {
        PaperRow {
            id: None,
            entry_type: None,
            title: String::new(),
            authors: String::new(),
            year: None,
            doi: None,
            arxiv_id: None,
            isbn: None,
            s2_id: None,
            openalex_id: None,
            journal: None,
            booktitle: None,
            publisher: None,
            volume: None,
            number: None,
            pages: None,
            abstract_text: None,
            url: None,
            pdf_url: None,
            categories: None,
            citation_count: None,
            local_path: None,
        }
    }
}

/// Database statistics.
#[derive(Debug, Clone)]
pub struct DbStats {
    pub paper_count: i64,
    pub citation_count: i64,
    pub cache_entries: i64,
    pub db_size_bytes: i64,
}

/// The text of each string of `a`.
pub open spec fn str_items(a: Seq<JsonV>) -> Seq<Seq<char>>
    decreases a.len(),
{
    if a.len() == 0 {
        seq![]
    } else {
        str_items(a.drop_last()).push(jstr(a.last())->0)
    }
}

/// The names in a JSON text that is an array of strings
/// (`serde_json::from_str::<Vec<String>>`).
pub open spec fn json_names(text: Seq<char>) -> Option<Seq<Seq<char>>> {
    match json_parsed(text) {
        Some(JsonV::Array(a)) => if forall|i: int| 0 <= i < a.len() ==> (#[trigger] a[i]) is Str {
            Some(str_items(a))
        } else {
            None
        },
        _ => None,
    }
}

fn json_names_exec(text: &str) -> (r: Option<Vec<String>>)
    ensures
        match json_names(text@) {
            Some(ns) => r matches Some(v) && strs_view(v@) == ns,
            None => r is None,
        },
{
    let j = match parse_json(text) {
        Some(j) => j,
        None => return None,
    };
    match &j {
        Json::Array(items) => {
            let ghost a = jarr(j@)->0;
            assert(a.len() == items@.len());
            assert(forall|k: int| 0 <= k < items@.len() ==> (#[trigger] items@[k])@ == a[k]);
            let mut out: Vec<String> = Vec::new();
            let mut i: usize = 0;
            while i < items.len()
                invariant
                    i <= items@.len(),
                    a.len() == items@.len(),
                    j@ == JsonV::Array(a),
                    json_parsed(text@) == Some(j@),
                    forall|k: int| 0 <= k < items@.len() ==> (#[trigger] items@[k])@ == a[k],
                    forall|k: int| 0 <= k < i ==> (#[trigger] a[k]) is Str,
                    strs_view(out@) == str_items(a.subrange(0, i as int)),
                decreases items@.len() - i,
            {
                assert(a[i as int] == items@[i as int]@);
                match &items[i] {
                    Json::Str(s) => {
                        let ghost prev = strs_view(out@);
                        out.push(s.clone());
                        assert(a.subrange(0, i + 1).drop_last() =~= a.subrange(0, i as int));
                        assert(strs_view(out@) =~= prev.push(s@));
                        assert(strs_view(out@) =~= str_items(a.subrange(0, i + 1)));
                    },
                    _ => {
                        return None;
                    },
                }
                i = i + 1;
            }
            assert(a.subrange(0, a.len() as int) =~= a);
            Some(out)
        },
        _ => None,
    }
}

/// The first `max` names (all when fewer).
pub open spec fn first_n(ns: Seq<Seq<char>>, max: nat) -> Seq<Seq<char>> {
    if ns.len() <= max { ns } else { ns.subrange(0, max as int) }
}

/// The searchable author text: the first `max` names of a JSON array joined
/// by `, `, or the text as it is when it is not such an array.
pub open spec fn authors_text_of(authors_json: Seq<char>, max: nat) -> Seq<char> {
    match json_names(authors_json) {
        Some(ns) => join(first_n(ns, max), ", "@),
        None => authors_json,
    }
}

/// Compute `authors_text` from a JSON array of author names, capping at `max`.
pub fn compute_authors_text(authors_json: &str, max: usize) -> (r: String)
    ensures
        r@ == authors_text_of(authors_json@, max as nat),
{
    match json_names_exec(authors_json) {
        Some(v) => {
            let n = if v.len() <= max { v.len() } else { max };
            let mut capped: Vec<String> = Vec::new();
            let mut i: usize = 0;
            while i < n
                invariant
                    i <= n <= v@.len(),
                    strs_view(capped@) == strs_view(v@).subrange(0, i as int),
                decreases n - i,
            {
                let ghost prev = strs_view(capped@);
                assert(strs_view(v@)[i as int] == v@[i as int]@);
                capped.push(v[i].clone());
                assert(strs_view(capped@) =~= prev.push(v@[i as int]@));
                assert(strs_view(capped@) =~= strs_view(v@).subrange(0, i + 1));
                i = i + 1;
            }
            assert(strs_view(capped@) =~= first_n(strs_view(v@), max as nat));
            assert(capped@.map_values(|p: String| p@) =~= strs_view(capped@));
            join_strings(capped.as_slice(), ", ")
        },
        None => authors_json.to_owned(),
    }
}

/// Resolve a cross-reference ID: set it if it was missing, else keep the
/// existing one; the flag tells when an incoming different ID was refused.
pub fn cross_ref_id(existing: &Option<String>, incoming: &Option<String>) -> (r: (Option<String>, bool))
    ensures
        opt_view(r.0) == (if existing is None { opt_view(*incoming) } else { opt_view(*existing) }),
        r.1 == (existing is Some && incoming is Some && opt_view(*existing) != opt_view(*incoming)),
{
    match (existing, incoming) {
        (None, new) => (new.clone(), false),
        (Some(old), Some(new)) => (Some(old.clone()), !str_eq(old.as_str(), new.as_str())),
        (Some(old), None) => (Some(old.clone()), false),
    }
}

/// A year kept in the database: four ASCII digits once trimmed.
pub open spec fn stored_year(y: Option<Seq<char>>) -> Option<Seq<char>> {
    match y {
        Some(v) => if trim(v).len() == 4 && all_dec_digits(trim(v)) { Some(trim(v)) } else { None },
        None => None,
    }
}

/// The values a paper is written with: its title cut to 2000 bytes, its
/// year when valid, its searchable author text and its entry type in lower
/// case.
pub struct UpsertValues {
    pub entry_type: Option<String>,
    pub title: String,
    pub authors_text: String,
    pub year: Option<String>,
}

/// The lower-cased entry type.
pub open spec fn stored_type(t: Option<Seq<char>>) -> Option<Seq<char>> {
    match t {
        Some(v) => Some(lowercase(v)),
        None => None,
    }
}

/// The title as stored: its first 2000 bytes; `None` when byte 2000 falls
/// inside a character (the slice would panic).
pub open spec fn stored_title(t: Seq<char>) -> Option<Seq<char>> {
    if utf8_len(t) > 2000 { byte_prefix(t, 2000) } else { Some(t) }
}

/// Prepare the values a paper is written with; `None` when its title cannot
/// be cut at 2000 bytes on a character boundary.
pub fn prepare_upsert(paper: &PaperRow) -> (r: Option<UpsertValues>)
    ensures
        match stored_title(paper@.title) {
            Some(t) => r matches Some(v) && v.title@ == t
                && opt_view(v.entry_type) == stored_type(paper@.entry_type)
                && opt_view(v.year) == stored_year(paper@.year)
                && v.authors_text@ == authors_text_of(paper@.authors, 500),
            None => r is None,
        },
{
    let tc = str_chars(paper.title.as_str());
    let title = if utf8_len_at_least(tc.as_slice(), 2001) {
        match byte_prefix_exec(tc.as_slice(), 2000) {
            Some(p) => string_from_chars(p.as_slice()),
            None => return None,
        }
    } else {
        paper.title.clone()
    };
    let year = match &paper.year {
        Some(y) => {
            let t = trim_vec(str_chars(y.as_str()).as_slice());
            if t.len() == 4 && is_digit_exec(t[0]) && is_digit_exec(t[1]) && is_digit_exec(t[2]) && is_digit_exec(t[3]) {
                assert(all_dec_digits(t@)) by {
                    assert forall|i: int| 0 <= i < t@.len() implies crate::text::is_digit(#[trigger] t@[i]) by {
                        assert(i == 0 || i == 1 || i == 2 || i == 3);
                    }
                }
                Some(string_from_chars(t.as_slice()))
            } else {
                if t.len() == 4 {
                    assert(!all_dec_digits(t@)) by {
                        if !crate::text::is_digit(t@[0]) {
                        } else if !crate::text::is_digit(t@[1]) {
                        } else if !crate::text::is_digit(t@[2]) {
                        } else {
                            assert(!crate::text::is_digit(t@[3]));
                        }
                    }
                }
                None
            }
        },
        None => None,
    };
    let entry_type = match &paper.entry_type {
        Some(t) => Some(str_to_lowercase(t.as_str())),
        None => None,
    };
    let authors_text = compute_authors_text(paper.authors.as_str(), 500);
    Some(UpsertValues { entry_type, title, authors_text, year })
}

/// The identifiers an existing paper is looked for by, in order: DOI, then
/// arXiv ID, then ISBN (column and value).
pub open spec fn identity_keys(p: PaperRowV) -> Seq<(Seq<char>, Seq<char>)> {
    (match p.doi { Some(v) => seq![("doi"@, v)], None => seq![] })
        + (match p.arxiv_id { Some(v) => seq![("arxiv_id"@, v)], None => seq![] })
        + (match p.isbn { Some(v) => seq![("isbn"@, v)], None => seq![] })
}

fn push_pair(out: &mut Vec<(String, String)>, k: &str, v: &String)
    ensures
        pairs_view(final(out)@) == pairs_view(old(out)@).push((k@, v@)),
{
    let ghost prev = pairs_view(out@);
    out.push((k.to_owned(), v.clone()));
    assert(pairs_view(out@) =~= prev.push((k@, v@)));
}

fn push_opt(out: &mut Vec<(String, String)>, k: &str, v: &Option<String>)
    ensures
        pairs_view(final(out)@) == pairs_view(old(out)@) + match opt_view(*v) { Some(x) => seq![(k@, x)], None => seq![] },
{
    match v {
        Some(x) => push_pair(out, k, x),
        None => {
            assert(pairs_view(out@) + Seq::<(Seq<char>, Seq<char>)>::empty() =~= pairs_view(out@));
        },
    }
}

/// The identifiers to look an existing paper up by, in order.
pub fn identity_lookups(paper: &PaperRow) -> (r: Vec<(String, String)>)
    ensures
        pairs_view(r@) == identity_keys(paper@),
{
    let mut out: Vec<(String, String)> = Vec::new();
    assert(pairs_view(out@) =~= seq![]);
    push_opt(&mut out, "doi", &paper.doi);
    push_opt(&mut out, "arxiv_id", &paper.arxiv_id);
    push_opt(&mut out, "isbn", &paper.isbn);
    assert(pairs_view(out@) =~= identity_keys(paper@));
    out
}

/// An optional claim.
pub open spec fn opt_claim(name: Seq<char>, v: Option<Seq<char>>) -> Seq<(Seq<char>, Seq<char>)> {
    match v {
        Some(x) => seq![(name, x)],
        None => seq![],
    }
}

/// What a source claims of a paper, field by field, in a fixed order: the
/// title always, the authors when not empty, and each field that is set.
pub open spec fn claims_of(p: PaperRowV) -> Seq<(Seq<char>, Seq<char>)> {
    seq![("title"@, p.title)]
        + (if p.authors.len() > 0 { seq![("authors"@, p.authors)] } else { seq![] })
        + id_claims(p)
        + biblio_claims(p)
        + match p.citation_count { Some(c) => seq![("citation_count"@, int_text(c as int))], None => seq![] }
}

/// The claims on the year and the identifiers.
pub open spec fn id_claims(p: PaperRowV) -> Seq<(Seq<char>, Seq<char>)> {
    opt_claim("year"@, p.year)
        + opt_claim("doi"@, p.doi)
        + opt_claim("arxiv_id"@, p.arxiv_id)
        + opt_claim("isbn"@, p.isbn)
        + opt_claim("s2_id"@, p.s2_id)
        + opt_claim("openalex_id"@, p.openalex_id)
}

/// The claims on the bibliographic fields.
pub open spec fn biblio_claims(p: PaperRowV) -> Seq<(Seq<char>, Seq<char>)> {
    venue_claims(p) + text_claims(p)
}

/// The claims on where a paper appeared.
pub open spec fn venue_claims(p: PaperRowV) -> Seq<(Seq<char>, Seq<char>)> {
    opt_claim("journal"@, p.journal)
        + opt_claim("booktitle"@, p.booktitle)
        + opt_claim("publisher"@, p.publisher)
        + opt_claim("volume"@, p.volume)
        + opt_claim("number"@, p.number)
        + opt_claim("pages"@, p.pages)
}

/// The claims on the abstract, links and categories.
pub open spec fn text_claims(p: PaperRowV) -> Seq<(Seq<char>, Seq<char>)> {
    opt_claim("abstract"@, p.abstract_text)
        + opt_claim("url"@, p.url)
        + opt_claim("pdf_url"@, p.pdf_url)
        + opt_claim("categories"@, p.categories)
}

/// The decimal text of an integer (`i64::to_string`).
pub open spec fn int_text(n: int) -> Seq<char> {
    if n < 0 { "-"@ + decimal((-n) as nat) } else { decimal(n as nat) }
}

fn i64_text(n: i64) -> (r: String)
    ensures
        r@ == int_text(n as int),
{
    if n < 0 {
        let m: u64 = if n == i64::MIN { 9223372036854775808u64 } else { (-n) as u64 };
        let mut v: Vec<char> = Vec::new();
        v.push('-');
        let d = u64_to_chars(m);
        crate::text::push_all(&mut v, d.as_slice());
        proof {
            reveal_strlit("-");
        }
        assert(v@ =~= "-"@ + decimal((-(n as int)) as nat));
        string_from_chars(v.as_slice())
    } else {
        u64_to_string(n as u64)
    }
}

fn push_id_claims(out: &mut Vec<(String, String)>, paper: &PaperRow)
    ensures
        pairs_view(final(out)@) == pairs_view(old(out)@) + id_claims(paper@),
{
    let ghost a = pairs_view(out@);
    push_opt(out, "year", &paper.year);
    push_opt(out, "doi", &paper.doi);
    push_opt(out, "arxiv_id", &paper.arxiv_id);
    push_opt(out, "isbn", &paper.isbn);
    push_opt(out, "s2_id", &paper.s2_id);
    push_opt(out, "openalex_id", &paper.openalex_id);
    assert(pairs_view(out@) =~= a + id_claims(paper@));
}

fn push_venue_claims(out: &mut Vec<(String, String)>, paper: &PaperRow)
    ensures
        pairs_view(final(out)@) == pairs_view(old(out)@) + venue_claims(paper@),
{
    let ghost a = pairs_view(out@);
    push_opt(out, "journal", &paper.journal);
    push_opt(out, "booktitle", &paper.booktitle);
    push_opt(out, "publisher", &paper.publisher);
    push_opt(out, "volume", &paper.volume);
    push_opt(out, "number", &paper.number);
    push_opt(out, "pages", &paper.pages);
    assert(pairs_view(out@) =~= a + venue_claims(paper@));
}

fn push_biblio_claims(out: &mut Vec<(String, String)>, paper: &PaperRow)
    ensures
        pairs_view(final(out)@) == pairs_view(old(out)@) + biblio_claims(paper@),
{
    let ghost a = pairs_view(out@);
    push_venue_claims(out, paper);
    let ghost b = pairs_view(out@);
    push_opt(out, "abstract", &paper.abstract_text);
    push_opt(out, "url", &paper.url);
    push_opt(out, "pdf_url", &paper.pdf_url);
    push_opt(out, "categories", &paper.categories);
    assert(pairs_view(out@) =~= b + text_claims(paper@));
    assert(pairs_view(out@) =~= a + biblio_claims(paper@));
}

/// The claims a source makes of a paper, in the order they are recorded.
pub fn paper_claims(paper: &PaperRow) -> (r: Vec<(String, String)>)
    ensures
        pairs_view(r@) == claims_of(paper@),
{
    let mut out: Vec<(String, String)> = Vec::new();
    assert(pairs_view(out@) =~= seq![]);
    push_pair(&mut out, "title", &paper.title);
    let ghost a0 = pairs_view(out@);
    if !paper.authors.as_str().is_empty() {
        push_pair(&mut out, "authors", &paper.authors);
    }
    assert(pairs_view(out@) =~= a0 + (if paper@.authors.len() > 0 { seq![("authors"@, paper@.authors)] } else { seq![] }));
    push_id_claims(&mut out, paper);
    push_biblio_claims(&mut out, paper);
    let ghost a1 = pairs_view(out@);
    match paper.citation_count {
        Some(c) => {
            let t = i64_text(c);
            push_pair(&mut out, "citation_count", &t);
        },
        None => {},
    }
    assert(pairs_view(out@) =~= claims_of(paper@));
    out
}

/// The JSON text `serde_json::to_string` writes for a list of names.
pub uninterp spec fn json_text_of_names(names: Seq<Seq<char>>) -> Seq<char>;

/// The JSON string values of a list of names.
pub open spec fn json_strs(names: Seq<Seq<char>>) -> Seq<JsonV> {
    names.map_values(|n: Seq<char>| JsonV::Str(n))
}

/// `serde_json::to_string` on a list of strings: a JSON array of them,
/// which reads back as that array. Writing a `Vec<String>` cannot fail.
#[verifier::external_body]
pub(crate) fn names_to_json(names: &Vec<String>) -> (r: String)
    ensures
        r@ == json_text_of_names(strs_view(names@)),
        json_parsed(r@) == Some(JsonV::Array(json_strs(strs_view(names@)))),
{
    serde_json::to_string(names).unwrap_or_default()
}

/// The row a paper found by a service is stored as.
pub open spec fn paper_row(p: PaperV) -> PaperRowV {
    PaperRowV {
        title: p.title,
        authors: json_text_of_names(p.authors),
        year: if p.year == "?"@ { None } else { Some(p.year) },
        doi: p.doi,
        arxiv_id: p.arxiv_id,
        isbn: p.isbn,
        s2_id: p.s2_id,
        abstract_text: p.abstract_text,
        pdf_url: p.pdf_url,
        citation_count: match p.citations { Some(c) => Some(c as i64), None => None },
        journal: p.venue,
        categories: if p.categories.len() == 0 { None } else { Some(join(p.categories, ", "@)) },
        ..empty_row()
    }
}

/// The paper a stored row is shown as.
pub open spec fn row_paper(r: PaperRowV) -> PaperV {
    PaperV {
        title: r.title,
        authors: match json_names(r.authors) { Some(ns) => ns, None => seq![] },
        year: match r.year { Some(y) => y, None => "?"@ },
        doi: r.doi,
        arxiv_id: r.arxiv_id,
        isbn: r.isbn,
        s2_id: r.s2_id,
        citations: match r.citation_count { Some(c) => Some(c as u64), None => None },
        venue: r.journal,
        pdf_url: r.pdf_url,
        abstract_text: r.abstract_text,
        categories: match r.categories { Some(c) => split(c, ", "@), None => seq![] },
        published_date: None,
    }
}

impl PaperRow {
    /// The row a paper found by a service is stored as: its authors as a
    /// JSON array, no year for `?`, its categories joined by `, `.
    pub fn from_paper(p: &PaperResult) -> (r: PaperRow)
        ensures
            r@ == paper_row(p@),
    {
        proof {
            reveal_strlit("?");
        }
        let authors = names_to_json(&p.authors);
        let year = if str_eq(p.year.as_str(), "?") { None } else { Some(p.year.clone()) };
        let categories = if p.categories.len() == 0 {
            None
        } else {
            assert(p.categories@.map_values(|c: String| c@) =~= strs_view(p.categories@));
            Some(join_strings(p.categories.as_slice(), ", "))
        };
        let citation_count: Option<i64> = match p.citations {
            Some(c) => Some(#[verifier::truncate] (c as i64)),
            None => None,
        };
        let r = PaperRow {
            title: p.title.clone(),
            authors: authors,
            year: year,
            doi: p.doi.clone(),
            arxiv_id: p.arxiv_id.clone(),
            isbn: p.isbn.clone(),
            s2_id: p.s2_id.clone(),
            abstract_text: p.abstract_text.clone(),
            pdf_url: p.pdf_url.clone(),
            citation_count: citation_count,
            journal: p.venue.clone(),
            categories: categories,
            id: None,
            entry_type: None,
            openalex_id: None,
            booktitle: None,
            publisher: None,
            volume: None,
            number: None,
            pages: None,
            url: None,
            local_path: None,
        };
        r
    }

    /// Convert to a PaperResult for display purposes.
    pub fn to_paper_result(&self) -> (r: PaperResult)
        ensures
            r@ == row_paper(self@),
    {
        proof {
            reveal_strlit("?");
            reveal_strlit(", ");
        }
        let authors = match json_names_exec(self.authors.as_str()) {
            Some(v) => v,
            None => Vec::new(),
        };
        let categories: Vec<String> = match &self.categories {
            Some(c) => {
                let parts = split_on(str_chars(c.as_str()).as_slice(), str_chars(", ").as_slice());
                let mut out: Vec<String> = Vec::new();
                let mut i: usize = 0;
                while i < parts.len()
                    invariant
                        i <= parts@.len(),
                        parts@.len() == split(c@, ", "@).len(),
                        forall|k: int| 0 <= k < parts@.len() ==> (#[trigger] parts@[k])@ == split(c@, ", "@)[k],
                        strs_view(out@) == split(c@, ", "@).subrange(0, i as int),
                    decreases parts@.len() - i,
                {
                    let ghost prev = strs_view(out@);
                    let piece = string_from_chars(parts[i].as_slice());
                    out.push(piece);
                    assert(strs_view(out@) =~= prev.push(parts@[i as int]@));
                    assert(parts@[i as int]@ == split(c@, ", "@)[i as int]);
                    assert(strs_view(out@) =~= split(c@, ", "@).subrange(0, i + 1));
                    i = i + 1;
                }
                assert(split(c@, ", "@).subrange(0, parts@.len() as int) =~= split(c@, ", "@));
                out
            },
            None => Vec::new(),
        };
        let year = match &self.year {
            Some(y) => y.clone(),
            None => "?".to_owned(),
        };
        let citations: Option<u64> = match self.citation_count {
            Some(c) => Some(#[verifier::truncate] (c as u64)),
            None => None,
        };
        let r = PaperResult {
            title: self.title.clone(),
            authors: authors,
            year: year,
            doi: self.doi.clone(),
            arxiv_id: self.arxiv_id.clone(),
            isbn: self.isbn.clone(),
            s2_id: self.s2_id.clone(),
            citations: citations,
            venue: self.journal.clone(),
            pdf_url: self.pdf_url.clone(),
            abstract_text: self.abstract_text.clone(),
            categories: categories,
            published_date: None,
        };
        assert(strs_view(r.authors@) == row_paper(self@).authors);
        assert(strs_view(r.categories@) == row_paper(self@).categories);
        assert(r@.year == row_paper(self@).year);
        assert(r@.citations == row_paper(self@).citations);
        assert(r@.title == row_paper(self@).title);
        r
    }
}

} // verus!
