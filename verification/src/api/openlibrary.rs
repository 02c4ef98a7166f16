//! Open Library API: URLs and response parsers.
use vstd::prelude::*;
use vstd::string::StringSliceAdditionalSpecFns;
use crate::api::{
    build_query_url, cat3, query_url_text, PaperResult, PaperV, empty_paper, names_in, collect_names, keys_view,
    owned_opt, opt_view, strs_view, str_or, year_string, year_text, owned_or, year_from_date, extract_year_from_date,
    papers_view,
};
use crate::json::{
    Json, JsonV, jfield, jget, jstr, ju64, jarr, jfirst, jhead, jobj, jas_str, jas_u64, jas_array, jas_first,
    jas_first_entry, json_parsed, ov, os, parse_json,
};
use crate::text::{
    has_prefix, index_of, index_of_exec, lemma_index_of, trim_end_char, trim_end_pat, trim_end_char_vec,
    trim_end_str_vec, str_chars, string_from_chars, slice_vec, strip_prefix_str, starts_with_str, lex_lt, chars_lt,
};

verus! {

/// Which kind of Open Library record a URL names.
#[derive(Debug, Clone, Copy, PartialEq, Eq, Structural)]
pub enum OlKind {
    Works,
    Books,
}

/// Parsed OL URL components.
#[derive(Debug)]
pub struct OlUrlParts {
    pub kind: OlKind,
    pub id: String,
}

/// The URL's path after the Open Library host, for `https` or `http`.
pub open spec fn ol_site_rest(url: Seq<char>) -> Option<Seq<char>> {
    if has_prefix(url, "https://openlibrary.org"@) {
        Some(url.subrange("https://openlibrary.org"@.len() as int, url.len() as int))
    } else if has_prefix(url, "http://openlibrary.org"@) {
        Some(url.subrange("http://openlibrary.org"@.len() as int, url.len() as int))
    } else {
        None
    }
}

/// The identifier in what follows `/works/` or `/books/`: up to the first
/// `?`, without trailing slashes and then without trailing `.json`.
pub open spec fn ol_id_of(rest: Seq<char>) -> Seq<char> {
    trim_end_pat(trim_end_char(rest.subrange(0, index_of(rest, '?')), '/'), ".json"@)
}

/// Kind and identifier of an Open Library works or books URL.
pub open spec fn ol_url_parts(url: Seq<char>) -> Option<(OlKind, Seq<char>)> {
    match ol_site_rest(url) {
        None => None,
        Some(st) => {
            let kr = if has_prefix(st, "/works/"@) {
                Some((OlKind::Works, st.subrange("/works/"@.len() as int, st.len() as int)))
            } else if has_prefix(st, "/books/"@) {
                Some((OlKind::Books, st.subrange("/books/"@.len() as int, st.len() as int)))
            } else {
                None
            };
            match kr {
                None => None,
                Some((k, rest)) => if ol_id_of(rest).len() == 0 { None } else { Some((k, ol_id_of(rest))) },
            }
        },
    }
}

/// Extract the entity kind and ID from an Open Library URL.
///
/// Supports `https://openlibrary.org/works/OL{id}W` and
/// `https://openlibrary.org/books/OL{id}M`, over http or https, with an
/// optional `.json` suffix.
pub fn parse_ol_url(url: &str) -> (r: Option<OlUrlParts>)
    ensures
        match ol_url_parts(url@) {
            None => r is None,
            Some((k, id)) => r matches Some(p) && p.kind == k && p.id@ == id,
        },
{
    proof {
        reveal_strlit(".json");
    }
    let c = str_chars(url);
    let st = match strip_prefix_str(c.as_slice(), "https://openlibrary.org") {
        Some(t) => t,
        None => match strip_prefix_str(c.as_slice(), "http://openlibrary.org") {
            Some(t) => t,
            None => return None,
        },
    };
    let (kind, rest) = match strip_prefix_str(st.as_slice(), "/works/") {
        Some(r) => (OlKind::Works, r),
        None => match strip_prefix_str(st.as_slice(), "/books/") {
            Some(r) => (OlKind::Books, r),
            None => return None,
        },
    };
    let n = rest.len();
    let q = index_of_exec(&rest, 0, n, '?');
    proof {
        lemma_index_of(rest@, '?');
        assert(rest@.subrange(0, n as int) =~= rest@);
    }
    let head = slice_vec(rest.as_slice(), 0, q);
    let t1 = trim_end_char_vec(head.as_slice(), '/');
    let id = trim_end_str_vec(t1.as_slice(), ".json");
    if id.len() == 0 {
        return None;
    }
    Some(OlUrlParts { kind, id: string_from_chars(id.as_slice()) })
}

/// URL for a works JSON record.
pub fn work_url(id: &str) -> (r: String)
    ensures
        r@ == "https://openlibrary.org/works/"@ + id@ + ".json"@,
{
    cat3("https://openlibrary.org/works/", id, ".json")
}

/// URL for a books (edition) JSON record.
pub fn edition_url(id: &str) -> (r: String)
    ensures
        r@ == "https://openlibrary.org/books/"@ + id@ + ".json"@,
{
    cat3("https://openlibrary.org/books/", id, ".json")
}

/// URL for the editions list of a work (capped at 50).
pub fn work_editions_url(id: &str) -> (r: String)
    ensures
        r@ == "https://openlibrary.org/works/"@ + id@ + "/editions.json?limit=50"@,
{
    cat3("https://openlibrary.org/works/", id, "/editions.json?limit=50")
}

/// URL for an author JSON record. `key` is e.g. "/authors/OL117058A".
pub fn author_url(key: &str) -> (r: String)
    ensures
        r@ == "https://openlibrary.org"@ + key@ + ".json"@,
{
    cat3("https://openlibrary.org", key, ".json")
}

/// Intermediate result from parsing a works JSON response.
#[derive(Debug)]
pub struct WorkResult {
    pub title: String,
    pub author_keys: Vec<String>,
}

/// Intermediate result from parsing a books (edition) or editions-list entry.
#[derive(Debug)]
pub struct EditionResult {
    pub title: String,
    pub publisher: Option<String>,
    pub year: String,
    pub author_keys: Vec<String>,
}

/// Mathematical view of an edition.
pub struct EditionV {
    pub title: Seq<char>,
    pub publisher: Option<Seq<char>>,
    pub year: Seq<char>,
    pub author_keys: Seq<Seq<char>>,
}

impl View for EditionResult {
    type V = EditionV;

    open spec fn view(&self) -> EditionV {
        EditionV {
            title: self.title@,
            publisher: opt_view(self.publisher),
            year: self.year@,
            author_keys: strs_view(self.author_keys@),
        }
    }
}

/// The year of an optional date, `?` without one.
pub open spec fn year_or_unknown(d: Option<Seq<char>>) -> Seq<char> {
    match d {
        Some(x) => year_from_date(x),
        None => "?"@,
    }
}

fn year_or_unknown_exec(d: Option<&str>) -> (r: String)
    ensures
        r@ == year_or_unknown(os(d)),
{
    match d {
        Some(x) => extract_year_from_date(x),
        None => "?".to_owned(),
    }
}

/// Parse a works JSON response: its title (required) and the keys of its
/// authors (`authors[].author.key`).
pub fn parse_work(body: &str) -> (r: Result<WorkResult, String>)
    ensures
        match json_parsed(body@) {
            None => r is Err,
            Some(d) => match jstr(jget(d, "title"@)) {
                None => r is Err,
                Some(t) => r matches Ok(w) && w.title@ == t
                    && strs_view(w.author_keys@) == names_in(jget(d, "authors"@), seq!["author"@, "key"@], false),
            },
        },
{
    let data = match parse_json(body) {
        Some(d) => d,
        None => return Err("invalid JSON".to_owned()),
    };
    let root = Some(&data);
    let title = match jas_str(jfield(root, "title")) {
        Some(t) => t.to_owned(),
        None => return Err("missing title".to_owned()),
    };
    let path: [&str; 2] = ["author", "key"];
    assert(keys_view(path@) =~= seq!["author"@, "key"@]);
    let author_keys = collect_names(jfield(root, "authors"), &path, false);
    Ok(WorkResult { title, author_keys })
}

/// An edition record, when it has a title.
pub open spec fn ol_edition(e: JsonV) -> Option<EditionV> {
    match jstr(jget(e, "title"@)) {
        None => None,
        Some(t) => Some(EditionV {
            title: t,
            publisher: jstr(jfirst(jget(e, "publishers"@))),
            year: year_or_unknown(jstr(jget(e, "publish_date"@))),
            author_keys: names_in(jget(e, "authors"@), seq!["key"@], false),
        }),
    }
}

fn ol_edition_exec(e: &Json) -> (r: Option<EditionResult>)
    ensures
        match ol_edition(e@) {
            None => r is None,
            Some(v) => r matches Some(x) && x@ == v,
        },
{
    let o = Some(e);
    let title = match jas_str(jfield(o, "title")) {
        Some(t) => t.to_owned(),
        None => return None,
    };
    let publisher = owned_opt(jas_str(jas_first(jfield(o, "publishers"))));
    let year = year_or_unknown_exec(jas_str(jfield(o, "publish_date")));
    let path: [&str; 1] = ["key"];
    assert(keys_view(path@) =~= seq!["key"@]);
    let author_keys = collect_names(jfield(o, "authors"), &path, false);
    Some(EditionResult { title, publisher, year, author_keys })
}

/// Parse a books (edition) JSON response.
pub fn parse_edition(body: &str) -> (r: Result<EditionResult, String>)
    ensures
        match json_parsed(body@) {
            None => r is Err,
            Some(d) => match ol_edition(d) {
                None => r is Err,
                Some(v) => r matches Ok(x) && x@ == v,
            },
        },
{
    let data = match parse_json(body) {
        Some(d) => d,
        None => return Err("invalid JSON".to_owned()),
    };
    match ol_edition_exec(&data) {
        Some(e) => Ok(e),
        None => Err("missing title".to_owned()),
    }
}

/// The edition records among `es`, in order.
pub open spec fn editions_of(es: Seq<JsonV>) -> Seq<EditionV>
    decreases es.len(),
{
    if es.len() == 0 {
        seq![]
    } else {
        editions_of(es.drop_last()) + match ol_edition(es.last()) {
            Some(v) => seq![v],
            None => seq![],
        }
    }
}

/// `e` inserted into `s` after every edition whose year does not sort
/// after `e`'s.
pub open spec fn insert_by_year(s: Seq<EditionV>, e: EditionV) -> Seq<EditionV>
    decreases s.len(),
{
    if s.len() == 0 {
        seq![e]
    } else if lex_lt(e.year, s[0].year) {
        seq![e] + s
    } else {
        seq![s[0]] + insert_by_year(s.drop_first(), e)
    }
}

/// `s` sorted by year, editions with equal years in their original order
/// (a stable sort, as `slice::sort_by` is).
pub open spec fn sorted_by_year(s: Seq<EditionV>) -> Seq<EditionV>
    decreases s.len(),
{
    if s.len() == 0 {
        s
    } else {
        insert_by_year(sorted_by_year(s.drop_last()), s.last())
    }
}

proof fn lemma_insert_at(s: Seq<EditionV>, e: EditionV, p: int)
    requires
        0 <= p <= s.len(),
        forall|k: int| 0 <= k < p ==> !lex_lt(e.year, #[trigger] s[k].year),
        p < s.len() ==> lex_lt(e.year, s[p].year),
    ensures
        insert_by_year(s, e) == s.insert(p, e),
    decreases s.len(),
{
    if s.len() == 0 {
        assert(s.insert(p, e) =~= seq![e]);
    } else if p == 0 {
        assert(s.insert(p, e) =~= seq![e] + s);
    } else {
        assert(!lex_lt(e.year, s[0].year));
        let t = s.drop_first();
        assert forall|k: int| 0 <= k < p - 1 implies !lex_lt(e.year, #[trigger] t[k].year) by {
            assert(t[k] == s[k + 1]);
        }
        if p - 1 < t.len() {
            assert(t[p - 1] == s[p]);
        }
        lemma_insert_at(t, e, p - 1);
        assert(seq![s[0]] + t.insert(p - 1, e) =~= s.insert(p, e));
    }
}

/// The views of a list of editions.
pub open spec fn editions_view(v: Seq<EditionResult>) -> Seq<EditionV> {
    v.map_values(|e: EditionResult| e@)
}

fn insert_edition(v: &mut Vec<EditionResult>, e: EditionResult)
    ensures
        editions_view(final(v)@) == insert_by_year(editions_view(old(v)@), e@),
{
    let ghost s = editions_view(v@);
    let ey = str_chars(e.year.as_str());
    let mut p: usize = 0;
    while p < v.len()
        invariant
            p <= v@.len(),
            s == editions_view(v@),
            ey@ == e.year@,
            forall|k: int| 0 <= k < p ==> !lex_lt(e.year@, #[trigger] s[k].year),
        ensures
            p <= v@.len(),
            s == editions_view(v@),
            forall|k: int| 0 <= k < p ==> !lex_lt(e.year@, #[trigger] s[k].year),
            p < v@.len() ==> lex_lt(e.year@, s[p as int].year),
        decreases v@.len() - p,
    {
        assert(s[p as int] == v@[p as int]@);
        let vy = str_chars(v[p].year.as_str());
        if chars_lt(ey.as_slice(), vy.as_slice()) {
            break;
        }
        p = p + 1;
    }
    proof {
        lemma_insert_at(s, e@, p as int);
    }
    let ghost ev = e@;
    v.insert(p, e);
    assert(editions_view(v@) =~= s.insert(p as int, ev));
}

/// Parse the editions list JSON response, returning editions sorted by
/// year ascending.
pub fn parse_editions_list(body: &str) -> (r: Result<Vec<EditionResult>, String>)
    ensures
        match json_parsed(body@) {
            None => r is Err,
            Some(d) => match jarr(jget(d, "entries"@)) {
                None => r is Err,
                Some(es) => r matches Ok(v) && editions_view(v@) == sorted_by_year(editions_of(es)),
            },
        },
{
    let data = match parse_json(body) {
        Some(d) => d,
        None => return Err("invalid JSON".to_owned()),
    };
    let entries = match jas_array(jfield(Some(&data), "entries")) {
        Some(a) => a,
        None => return Err("missing entries".to_owned()),
    };
    let ghost es = jarr(jget(data@, "entries"@)).unwrap();
    let mut out: Vec<EditionResult> = Vec::new();
    let mut i: usize = 0;
    while i < entries.len()
        invariant
            i <= entries@.len(),
            es.len() == entries@.len(),
            forall|k: int| 0 <= k < entries@.len() ==> (#[trigger] entries@[k])@ == es[k],
            editions_view(out@) == sorted_by_year(editions_of(es.subrange(0, i as int))),
        decreases entries@.len() - i,
    {
        let ghost sub = es.subrange(0, i + 1);
        assert(sub.drop_last() =~= es.subrange(0, i as int));
        assert(sub.last() == entries@[i as int]@);
        match ol_edition_exec(&entries[i]) {
            Some(e) => {
                proof {
                    let prev = editions_of(es.subrange(0, i as int));
                    assert(editions_of(sub) =~= prev.push(e@));
                    assert(prev.push(e@).drop_last() =~= prev);
                }
                insert_edition(&mut out, e);
            },
            None => {
                assert(editions_of(sub) =~= editions_of(es.subrange(0, i as int)));
            },
        }
        i = i + 1;
    }
    assert(es.subrange(0, es.len() as int) =~= es);
    Ok(out)
}

/// An author's display name: `name` when non-empty, else `personal_name`
/// when non-empty.
pub open spec fn ol_author_name(d: JsonV) -> Option<Seq<char>> {
    match jstr(jget(d, "name"@)) {
        Some(n) if n.len() > 0 => Some(n),
        _ => match jstr(jget(d, "personal_name"@)) {
            Some(n) if n.len() > 0 => Some(n),
            _ => None,
        },
    }
}

/// Parse an author JSON response, returning the display name.
///
/// Uses `name` (display form, e.g. "Ronald Aylmer Fisher") so that the last
/// surname token is picked for citekeys; falls back to `personal_name`
/// ("Fisher, Ronald Aylmer") only when `name` is absent or empty.
pub fn parse_author(body: &str) -> (r: Result<String, String>)
    ensures
        match json_parsed(body@) {
            None => r is Err,
            Some(d) => match ol_author_name(d) {
                None => r is Err,
                Some(n) => r matches Ok(x) && x@ == n,
            },
        },
{
    let data = match parse_json(body) {
        Some(d) => d,
        None => return Err("invalid JSON".to_owned()),
    };
    let root = Some(&data);
    if let Some(n) = jas_str(jfield(root, "name")) {
        if !n.is_empty() {
            return Ok(n.to_owned());
        }
    }
    match jas_str(jfield(root, "personal_name")) {
        Some(n) => if !n.is_empty() {
            Ok(n.to_owned())
        } else {
            Err("missing author name".to_owned())
        },
        None => Err("missing author name".to_owned()),
    }
}

/// Build URL for looking up a book by ISBN.
pub fn isbn_url(isbn: &str) -> (r: String)
    ensures
        r@ == "https://openlibrary.org/api/books?bibkeys=ISBN:"@ + isbn@ + "&format=json&jscmd=data"@,
{
    cat3("https://openlibrary.org/api/books?bibkeys=ISBN:", isbn, "&format=json&jscmd=data")
}

/// Build URL for a general book search.
pub fn search_url(query: &str, limit: usize) -> (r: String)
    ensures
        r@ == query_url_text("https://openlibrary.org/search.json?q="@, query.spec_bytes(), "&limit="@, limit as nat, ""@),
{
    build_query_url("https://openlibrary.org/search.json?q=", query, "&limit=", limit, "")
}

/// The ISBN of a book: the first `isbn_13` (else the first `isbn_10`) when
/// it is a string, else the bibkey without its `ISBN:` prefix.
pub open spec fn ol_isbn_of(key: Seq<char>, ids: JsonV) -> Option<Seq<char>> {
    let first = match jhead(jget(ids, "isbn_13"@)) {
        Some(v) => Some(v),
        None => jhead(jget(ids, "isbn_10"@)),
    };
    let s = match first {
        Some(v) => jstr(v),
        None => None,
    };
    match s {
        Some(x) => Some(x),
        None => if has_prefix(key, "ISBN:"@) {
            Some(key.subrange("ISBN:"@.len() as int, key.len() as int))
        } else {
            None
        },
    }
}

/// The title of a book, `title: subtitle` when it has a non-empty subtitle.
pub open spec fn ol_full_title(book: JsonV) -> Seq<char> {
    let title = str_or(jstr(jget(book, "title"@)), "N/A"@);
    match jstr(jget(book, "subtitle"@)) {
        Some(sub) => if sub.len() > 0 { title + ": "@ + sub } else { title },
        None => title,
    }
}

/// The publisher of a book: the name of the first `publishers` entry.
pub open spec fn ol_publisher(book: JsonV) -> Option<Seq<char>> {
    jstr(jget(jfirst(jget(book, "publishers"@)), "name"@))
}

/// A book of the ISBN endpoint, under bibkey `key`, as a paper record.
pub open spec fn ol_isbn_paper(key: Seq<char>, book: JsonV) -> PaperV {
    PaperV {
        title: ol_full_title(book),
        authors: names_in(jget(book, "authors"@), seq!["name"@], false),
        year: year_or_unknown(jstr(jget(book, "publish_date"@))),
        venue: ol_publisher(book),
        isbn: ol_isbn_of(key, jget(book, "identifiers"@)),
        ..empty_paper()
    }
}

fn ol_full_title_exec(o: Option<&Json>) -> (r: String)
    ensures
        r@ == ol_full_title(ov(o)),
{
    let title = owned_or(jas_str(jfield(o, "title")), "N/A");
    match jas_str(jfield(o, "subtitle")) {
        Some(sub) => if !sub.is_empty() {
            cat3(title.as_str(), ": ", sub)
        } else {
            title
        },
        None => title,
    }
}

fn ol_isbn_of_exec(key: &str, ids: Option<&Json>) -> (r: Option<String>)
    ensures
        opt_view(r) == ol_isbn_of(key@, ov(ids)),
{
    let first = match jas_first(jfield(ids, "isbn_13")) {
        Some(v) => Some(v),
        None => jas_first(jfield(ids, "isbn_10")),
    };
    let s = match first {
        Some(v) => jas_str(Some(v)),
        None => None,
    };
    match s {
        Some(x) => Some(x.to_owned()),
        None => {
            let kc = str_chars(key);
            match strip_prefix_str(kc.as_slice(), "ISBN:") {
                Some(t) => Some(string_from_chars(t.as_slice())),
                None => None,
            }
        },
    }
}

/// The first member of an ISBN response: its bibkey and book, or an error
/// when the response is not a non-empty object.
pub open spec fn ol_isbn_entry(d: JsonV) -> Option<(Seq<char>, JsonV)> {
    match jobj(d) {
        Some(ps) => if ps.len() > 0 { Some(ps[0]) } else { None },
        None => None,
    }
}

/// Parse response from the ISBN lookup endpoint.
///
/// The response is keyed by `ISBN:{isbn}`, containing title, subtitle, authors,
/// publishers, publish_date, number_of_pages, and identifiers.
pub fn parse_isbn(body: &str) -> (r: Result<PaperResult, String>)
    ensures
        match json_parsed(body@) {
            None => r is Err,
            Some(d) => match ol_isbn_entry(d) {
                None => r is Err,
                Some((k, book)) => r matches Ok(p) && p@ == ol_isbn_paper(k, book),
            },
        },
{
    let data = match parse_json(body) {
        Some(d) => d,
        None => return Err("invalid JSON".to_owned()),
    };
    let (key, book) = match jas_first_entry(Some(&data)) {
        Some(e) => e,
        None => return Err("expected a non-empty JSON object".to_owned()),
    };
    let o = Some(book);
    let path: [&str; 1] = ["name"];
    assert(keys_view(path@) =~= seq!["name"@]);
    let mut p = PaperResult::default();
    p.title = ol_full_title_exec(o);
    p.authors = collect_names(jfield(o, "authors"), &path, false);
    p.year = year_or_unknown_exec(jas_str(jfield(o, "publish_date")));
    p.venue = owned_opt(jas_str(jfield(jas_first(jfield(o, "publishers")), "name")));
    p.isbn = ol_isbn_of_exec(key, jfield(o, "identifiers"));
    Ok(p)
}

/// Detailed book metadata for the ISBN command display.
#[derive(Debug)]
pub struct BookDetail {
    pub title: String,
    pub subtitle: Option<String>,
    pub authors: Vec<String>,
    pub publisher: Option<String>,
    pub publish_date: Option<String>,
    pub year: String,
    pub isbn_13: Option<String>,
    pub isbn_10: Option<String>,
}

/// Whether `b` holds the display fields of `book`.
pub open spec fn book_detail_of(b: BookDetail, book: JsonV) -> bool {
    &&& b.title@ == str_or(jstr(jget(book, "title"@)), "N/A"@)
    &&& opt_view(b.subtitle) == match jstr(jget(book, "subtitle"@)) {
        Some(sub) => if sub.len() > 0 { Some(sub) } else { None },
        None => None,
    }
    &&& strs_view(b.authors@) == names_in(jget(book, "authors"@), seq!["name"@], false)
    &&& opt_view(b.publisher) == ol_publisher(book)
    &&& opt_view(b.publish_date) == jstr(jget(book, "publish_date"@))
    &&& b.year@ == year_or_unknown(jstr(jget(book, "publish_date"@)))
    &&& opt_view(b.isbn_13) == jstr(jfirst(jget(jget(book, "identifiers"@), "isbn_13"@)))
    &&& opt_view(b.isbn_10) == jstr(jfirst(jget(jget(book, "identifiers"@), "isbn_10"@)))
}

/// Parse response from the ISBN lookup endpoint into detailed book
/// metadata, keeping every display field the ISBN command needs.
pub fn parse_isbn_detail(body: &str) -> (r: Result<BookDetail, String>)
    ensures
        match json_parsed(body@) {
            None => r is Err,
            Some(d) => match ol_isbn_entry(d) {
                None => r is Err,
                Some((k, book)) => r matches Ok(b) && book_detail_of(b, book),
            },
        },
{
    let data = match parse_json(body) {
        Some(d) => d,
        None => return Err("invalid JSON".to_owned()),
    };
    let (_key, book) = match jas_first_entry(Some(&data)) {
        Some(e) => e,
        None => return Err("expected a non-empty JSON object".to_owned()),
    };
    let o = Some(book);
    let title = owned_or(jas_str(jfield(o, "title")), "N/A");
    let subtitle = match jas_str(jfield(o, "subtitle")) {
        Some(sub) => if !sub.is_empty() { Some(sub.to_owned()) } else { None },
        None => None,
    };
    let path: [&str; 1] = ["name"];
    assert(keys_view(path@) =~= seq!["name"@]);
    let authors = collect_names(jfield(o, "authors"), &path, false);
    let publisher = owned_opt(jas_str(jfield(jas_first(jfield(o, "publishers")), "name")));
    let publish_date = owned_opt(jas_str(jfield(o, "publish_date")));
    let year = year_or_unknown_exec(jas_str(jfield(o, "publish_date")));
    let ids = jfield(o, "identifiers");
    let isbn_13 = owned_opt(jas_str(jas_first(jfield(ids, "isbn_13"))));
    let isbn_10 = owned_opt(jas_str(jas_first(jfield(ids, "isbn_10"))));
    Ok(BookDetail { title, subtitle, authors, publisher, publish_date, year, isbn_13, isbn_10 })
}

/// A search document as a paper record.
pub open spec fn ol_search_doc(doc: JsonV) -> PaperV {
    PaperV {
        title: str_or(jstr(jget(doc, "title"@)), "N/A"@),
        authors: names_in(jget(doc, "author_name"@), seq![], true),
        year: year_text(ju64(jget(doc, "first_publish_year"@))),
        isbn: jstr(jfirst(jget(doc, "isbn"@))),
        ..empty_paper()
    }
}

/// Parse response from the search endpoint.
pub fn parse_search(body: &str) -> (r: Result<Vec<PaperResult>, String>)
    ensures
        match json_parsed(body@) {
            None => r is Err,
            Some(d) => match jarr(jget(d, "docs"@)) {
                None => r is Err,
                Some(docs) => r matches Ok(v) && papers_view(v@) == docs.map_values(|x: JsonV| ol_search_doc(x)),
            },
        },
{
    let data = match parse_json(body) {
        Some(d) => d,
        None => return Err("invalid JSON".to_owned()),
    };
    let docs = match jas_array(jfield(Some(&data), "docs")) {
        Some(a) => a,
        None => return Err("missing docs array".to_owned()),
    };
    let ghost ws = jarr(jget(data@, "docs"@)).unwrap();
    let path: [&str; 0] = [];
    assert(keys_view(path@) =~= seq![]);
    let mut results: Vec<PaperResult> = Vec::new();
    let mut i: usize = 0;
    while i < docs.len()
        invariant
            i <= docs@.len(),
            ws.len() == docs@.len(),
            keys_view(path@) == Seq::<Seq<char>>::empty(),
            forall|k: int| 0 <= k < docs@.len() ==> (#[trigger] docs@[k])@ == ws[k],
            results@.len() == i,
            forall|k: int| 0 <= k < i ==> (#[trigger] results@[k])@ == ol_search_doc(ws[k]),
        decreases docs@.len() - i,
    {
        let o = Some(&docs[i]);
        let mut p = PaperResult::default();
        p.title = owned_or(jas_str(jfield(o, "title")), "N/A");
        p.year = year_string(jas_u64(jfield(o, "first_publish_year")));
        p.authors = collect_names(jfield(o, "author_name"), &path, true);
        p.isbn = owned_opt(jas_str(jas_first(jfield(o, "isbn"))));
        results.push(p);
        i = i + 1;
    }
    assert(papers_view(results@) =~= ws.map_values(|x: JsonV| ol_search_doc(x)));
    Ok(results)
}

} // verus!
