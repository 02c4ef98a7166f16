//! Columbia Clio catalog: live search through its JSON API, and the record
//! shapes of the optional local index.
use vstd::prelude::*;
use vstd::string::StringSliceAdditionalSpecFns;
use vstd::string::StringExecFns;
use vstd::utf8::{
    decode_utf8, encode_utf8, is_char_boundary, valid_utf8, encode_utf8_decode_utf8, encode_utf8_valid_utf8, valid_utf8_split,
    is_char_boundary_iff_not_is_continuation_byte, is_char_boundary_start_end_of_seq,
};
use crate::api::{
    build_query_url, filter_mapped, names_in, collect_names, keys_view, opt_view, owned_opt, owned_or, papers_view,
    query_url_text, str_or, strs_view, PaperResult, PaperV, empty_paper,
};
use crate::config::path_join;
use crate::xml::{XmlEvent, XmlEventV, events_view, read_xml_events, xml_events, attrs_view, bytes_are, event_text, text_value, utf8_str};
use crate::json::{Json, JsonV, jfield, jget, jstr, jarr, jfirst, jas_str, jas_array, jas_first, json_parsed, ov, os, parse_json};
use crate::text::{
    contains, contains_chars, first_occurrence, find_from, has_prefix, is_digit, is_digit_exec, lemma_first_occurrence,
    split, split_on, split_words, starts_with_str, str_chars, string_from_chars, slice_vec, trim, trim_vec, words,
    eq_str, join, join_strings, lowercase, str_to_lowercase, str_eq, is_alpha,
};

verus! {

/// The parent of a path (`Path::parent`), when it has one.
pub uninterp spec fn path_parent(p: Seq<char>) -> Option<Seq<char>>;

/// `std::path::Path::parent`, as text. The claim is only that the answer
/// depends on the path's text alone.
#[verifier::external_body]
fn parent_of(p: &str) -> (r: Option<String>)
    ensures
        opt_view(r) == path_parent(p@),
{
    std::path::Path::new(p).parent().map(|q| q.to_string_lossy().into_owned())
}

/// Given the main lit.db path, return the sibling clio.db path.
pub fn clio_db_path(db_path: &str) -> (r: String)
    ensures
        r@ == path_join(
            match path_parent(db_path@) {
                Some(d) => d,
                None => "."@,
            },
            "clio.db"@,
        ),
{
    let dir = match parent_of(db_path) {
        Some(d) => d,
        None => ".".to_owned(),
    };
    let b = str_chars(dir.as_str());
    if b.len() == 0 {
        return "clio.db".to_owned();
    }
    let mut out = b;
    if out[out.len() - 1] != '/' {
        crate::text::push_str(&mut out, "/");
    }
    crate::text::push_str(&mut out, "clio.db");
    string_from_chars(out.as_slice())
}

/// Build the Clio catalog.json search URL.
pub fn search_url(query: &str, limit: usize) -> (r: String)
    ensures
        r@ == query_url_text("https://clio.columbia.edu/catalog.json?q="@, query.spec_bytes(), "&per_page="@, limit as nat, ""@),
{
    build_query_url("https://clio.columbia.edu/catalog.json?q=", query, "&per_page=", limit, "")
}

/// What follows `doi.org/` in a URL, when something does.
pub open spec fn doi_in_url(url: Seq<char>) -> Option<Seq<char>> {
    match first_occurrence(url, "doi.org/"@, 0) {
        Some(p) => if p + 8 < url.len() { Some(url.subrange(p + 8, url.len() as int)) } else { None },
        None => None,
    }
}

/// Extract the DOI path from a doi.org URL.
pub fn extract_doi_from_url(url: &str) -> (r: Option<String>)
    ensures
        opt_view(r) == doi_in_url(url@),
{
    proof {
        reveal_strlit("doi.org/");
    }
    let c = str_chars(url);
    let pat = str_chars("doi.org/");
    match find_from(c.as_slice(), 0, pat.as_slice()) {
        Some(p) => {
            proof {
                lemma_first_occurrence(c@, pat@, 0);
            }
            if c.len() >= 8 && p < c.len() - 8 {
                Some(string_from_chars(slice_vec(c.as_slice(), p + 8, c.len()).as_slice()))
            } else {
                None
            }
        },
        None => None,
    }
}

/// Four ASCII digits at `i`.
pub open spec fn four_digits_at(s: Seq<char>, i: int) -> bool {
    0 <= i && i + 4 <= s.len() && is_digit(s[i]) && is_digit(s[i + 1]) && is_digit(s[i + 2]) && is_digit(s[i + 3])
}

/// The first place at or after `i` with four digits in a row.
pub open spec fn first_four_digits(s: Seq<char>, i: int) -> Option<int>
    decreases s.len() - i,
{
    if i < 0 || i + 4 > s.len() {
        None
    } else if four_digits_at(s, i) {
        Some(i)
    } else {
        first_four_digits(s, i + 1)
    }
}

/// The first run of four digits in `s`.
pub open spec fn four_digit_year(s: Seq<char>) -> Option<Seq<char>> {
    match first_four_digits(s, 0) {
        Some(i) => Some(s.subrange(i, i + 4)),
        None => None,
    }
}

/// Extract the first run of four digits (a year fallback).
pub fn extract_4digit_year(s: &str) -> (r: Option<String>)
    ensures
        opt_view(r) == four_digit_year(s@),
{
    let c = str_chars(s);
    let n = c.len();
    let mut i: usize = 0;
    while n >= 4 && i <= n - 4
        invariant
            n == c@.len(),
            c@ == s@,
            first_four_digits(c@, 0) == first_four_digits(c@, i as int),
        decreases n - i,
    {
        if is_digit_exec(c[i]) && is_digit_exec(c[i + 1]) && is_digit_exec(c[i + 2]) && is_digit_exec(c[i + 3]) {
            return Some(string_from_chars(slice_vec(c.as_slice(), i, i + 4).as_slice()));
        }
        i = i + 1;
    }
    None
}

/// The URL of a pipe-delimited `url_munged_display` entry: its first field
/// that starts with `http`.
pub open spec fn munged_url_from(fields: Seq<Seq<char>>, i: int) -> Option<Seq<char>>
    decreases fields.len() - i,
{
    if i < 0 || i >= fields.len() {
        None
    } else if has_prefix(fields[i], "http"@) {
        Some(fields[i])
    } else {
        munged_url_from(fields, i + 1)
    }
}

/// DOI and full-text URL gathered from `url_munged_display` entries, in
/// order: the first doi.org link sets the DOI, the first other link the URL.
pub open spec fn links_of(entries: Seq<JsonV>) -> (Option<Seq<char>>, Option<Seq<char>>)
    decreases entries.len(),
{
    if entries.len() == 0 {
        (None, None)
    } else {
        let (doi, pdf) = links_of(entries.drop_last());
        match jstr(entries.last()) {
            None => (doi, pdf),
            Some(s) => match munged_url_from(split(s, "|"@), 0) {
                None => (doi, pdf),
                Some(url) => if contains(url, "doi.org/"@) {
                    (if doi is None { doi_in_url(url) } else { doi }, pdf)
                } else {
                    (doi, if pdf is None { Some(url) } else { pdf })
                },
            },
        }
    }
}

/// The ISBN of `isbn_display`: the first word of its first entry, the
/// entry itself when it has no word.
pub open spec fn clio_isbn(o: JsonV) -> Option<Seq<char>> {
    match jstr(jfirst(o)) {
        Some(s) => if words(s).len() > 0 { Some(words(s)[0]) } else { Some(s) },
        None => None,
    }
}

/// A catalog document as a paper record, when it has a title.
pub open spec fn clio_doc(doc: JsonV) -> Option<PaperV> {
    let title = str_or(jstr(jfirst(jget(doc, "title_display"@))), ""@);
    let links = match jarr(jget(doc, "url_munged_display"@)) {
        Some(es) => links_of(es),
        None => (None, None),
    };
    if title.len() == 0 {
        None
    } else {
        Some(PaperV {
            title,
            authors: names_in(jget(doc, "author_facet"@), seq![], false),
            year: str_or(jstr(jfirst(jget(doc, "pub_year_display"@))), ""@),
            doi: links.0,
            pdf_url: links.1,
            venue: jstr(jfirst(jget(doc, "pub_name_display"@))),
            isbn: clio_isbn(jget(doc, "isbn_display"@)),
            ..empty_paper()
        })
    }
}

fn munged_url(s: &str) -> (r: Option<String>)
    ensures
        opt_view(r) == munged_url_from(split(s@, "|"@), 0),
{
    proof {
        reveal_strlit("|");
    }
    let c = str_chars(s);
    let sep = str_chars("|");
    let fs = split_on(c.as_slice(), sep.as_slice());
    let ghost fv = split(s@, "|"@);
    let mut i: usize = 0;
    while i < fs.len()
        invariant
            i <= fs@.len(),
            fv.len() == fs@.len(),
            fv == split(s@, "|"@),
            forall|k: int| 0 <= k < fs@.len() ==> (#[trigger] fs@[k])@ == fv[k],
            munged_url_from(fv, 0) == munged_url_from(fv, i as int),
        decreases fs@.len() - i,
    {
        assert(fs@[i as int]@ == fv[i as int]);
        if starts_with_str(fs[i].as_slice(), "http") {
            return Some(string_from_chars(fs[i].as_slice()));
        }
        i = i + 1;
    }
    None
}

fn links_exec(o: Option<&Json>) -> (r: (Option<String>, Option<String>))
    ensures
        (opt_view(r.0), opt_view(r.1)) == match jarr(ov(o)) {
            Some(es) => links_of(es),
            None => (None, None),
        },
{
    let mut doi: Option<String> = None;
    let mut pdf: Option<String> = None;
    match jas_array(o) {
        None => (doi, pdf),
        Some(arr) => {
            let ghost es = jarr(ov(o)).unwrap();
            let mut i: usize = 0;
            while i < arr.len()
                invariant
                    i <= arr@.len(),
                    es.len() == arr@.len(),
                    forall|k: int| 0 <= k < arr@.len() ==> (#[trigger] arr@[k])@ == es[k],
                    (opt_view(doi), opt_view(pdf)) == links_of(es.subrange(0, i as int)),
                decreases arr@.len() - i,
            {
                let ghost sub = es.subrange(0, i + 1);
                assert(sub.drop_last() =~= es.subrange(0, i as int));
                assert(sub.last() == arr@[i as int]@);
                if let Some(s) = jas_str(Some(&arr[i])) {
                    if let Some(url) = munged_url(s) {
                        proof {
                            reveal_strlit("doi.org/");
                        }
                        if contains_chars(str_chars(url.as_str()).as_slice(), str_chars("doi.org/").as_slice()) {
                            if doi.is_none() {
                                doi = extract_doi_from_url(url.as_str());
                            }
                        } else if pdf.is_none() {
                            pdf = Some(url);
                        }
                    }
                }
                i = i + 1;
            }
            assert(es.subrange(0, es.len() as int) =~= es);
            (doi, pdf)
        },
    }
}

fn clio_isbn_exec(o: Option<&Json>) -> (r: Option<String>)
    ensures
        opt_view(r) == clio_isbn(ov(o)),
{
    match jas_str(jas_first(o)) {
        Some(s) => {
            let ws = split_words(str_chars(s).as_slice());
            if ws.len() > 0 {
                Some(string_from_chars(ws[0].as_slice()))
            } else {
                Some(s.to_owned())
            }
        },
        None => None,
    }
}

fn clio_doc_exec(doc: &Json) -> (r: Option<PaperResult>)
    ensures
        match clio_doc(doc@) {
            Some(p) => r matches Some(x) && x@ == p,
            None => r is None,
        },
{
    let o = Some(doc);
    let title = owned_or(jas_str(jas_first(jfield(o, "title_display"))), "");
    if title.as_str().is_empty() {
        return None;
    }
    let path: [&str; 0] = [];
    assert(keys_view(path@) =~= seq![]);
    let (doi, pdf) = links_exec(jfield(o, "url_munged_display"));
    let mut p = PaperResult::default();
    p.title = title;
    p.authors = collect_names(jfield(o, "author_facet"), &path, false);
    p.year = owned_or(jas_str(jas_first(jfield(o, "pub_year_display"))), "");
    p.doi = doi;
    p.pdf_url = pdf;
    p.venue = owned_opt(jas_str(jas_first(jfield(o, "pub_name_display"))));
    p.isbn = clio_isbn_exec(jfield(o, "isbn_display"));
    Some(p)
}

/// Parse the Clio catalog.json response into paper records, skipping
/// documents without a title.
pub fn parse_search(body: &str) -> (r: Result<Vec<PaperResult>, String>)
    ensures
        match json_parsed(body@) {
            None => r is Err,
            Some(d) => match jarr(jget(jget(d, "response"@), "docs"@)) {
                None => r is Err,
                Some(docs) => r matches Ok(v) && papers_view(v@) == filter_mapped(docs, |x: JsonV| clio_doc(x)),
            },
        },
{
    let data = match parse_json(body) {
        Some(d) => d,
        None => return Err("invalid JSON".to_owned()),
    };
    let docs = match jas_array(jfield(jfield(Some(&data), "response"), "docs")) {
        Some(a) => a,
        None => return Err("missing response.docs".to_owned()),
    };
    let ghost ws = jarr(jget(jget(data@, "response"@), "docs"@)).unwrap();
    let ghost f = |x: JsonV| clio_doc(x);
    let mut results: Vec<PaperResult> = Vec::new();
    let mut i: usize = 0;
    while i < docs.len()
        invariant
            i <= docs@.len(),
            ws.len() == docs@.len(),
            f == (|x: JsonV| clio_doc(x)),
            forall|k: int| 0 <= k < docs@.len() ==> (#[trigger] docs@[k])@ == ws[k],
            papers_view(results@) == filter_mapped(ws.subrange(0, i as int), f),
        decreases docs@.len() - i,
    {
        let ghost sub = ws.subrange(0, i + 1);
        assert(sub.drop_last() =~= ws.subrange(0, i as int));
        assert(sub.last() == docs@[i as int]@);
        match clio_doc_exec(&docs[i]) {
            Some(p) => {
                let ghost prev = papers_view(results@);
                let ghost pv = p@;
                results.push(p);
                assert(papers_view(results@) =~= prev.push(pv));
            },
            None => {},
        }
        i = i + 1;
    }
    assert(ws.subrange(0, ws.len() as int) =~= ws);
    Ok(results)
}

/// A single Clio catalog record (pre-parsed from MARCXML).
#[derive(Debug, Clone)]
pub struct ClioRecord {
    pub title: String,
    pub authors: String,
    pub year: String,
    pub isbn: String,
    pub issn: String,
    pub doi: String,
    pub url: String,
    pub online: bool,
    pub publisher: String,
}

/// A stored text column as an optional value: empty means absent.
pub open spec fn nonempty(s: Seq<char>) -> Option<Seq<char>> {
    if s.len() > 0 { Some(s) } else { None }
}

/// The authors of a stored comma-separated author list, trimmed.
pub open spec fn stored_authors(s: Seq<char>) -> Seq<Seq<char>> {
    filter_mapped(split(s, ","@), |a: Seq<char>| nonempty(trim(a)))
}

fn nonempty_exec(s: String) -> (r: Option<String>)
    ensures
        opt_view(r) == nonempty(s@),
{
    if s.as_str().is_empty() { None } else { Some(s) }
}

/// The paper record of a row of the local index: comma-separated authors,
/// the URL as PDF only for an online record, empty columns as absent values.
pub fn row_to_paper(
    title: String,
    authors: &str,
    year: String,
    isbn: String,
    doi: String,
    url: String,
    online: &str,
    publisher: String,
) -> (r: PaperResult)
    ensures
        r@ == (PaperV {
            title: title@,
            authors: stored_authors(authors@),
            year: year@,
            doi: nonempty(doi@),
            isbn: nonempty(isbn@),
            venue: nonempty(publisher@),
            pdf_url: if online@ == "1"@ && url@.len() > 0 { Some(url@) } else { None },
            ..empty_paper()
        }),
{
    proof {
        reveal_strlit(",");
    }
    let ac = str_chars(authors);
    let sep = str_chars(",");
    let parts = split_on(ac.as_slice(), sep.as_slice());
    let ghost ps = split(authors@, ","@);
    let ghost f = |a: Seq<char>| nonempty(trim(a));
    let mut names: Vec<String> = Vec::new();
    let mut i: usize = 0;
    while i < parts.len()
        invariant
            i <= parts@.len(),
            ps.len() == parts@.len(),
            f == (|a: Seq<char>| nonempty(trim(a))),
            forall|k: int| 0 <= k < parts@.len() ==> (#[trigger] parts@[k])@ == ps[k],
            strs_view(names@) == filter_mapped(ps.subrange(0, i as int), f),
        decreases parts@.len() - i,
    {
        let ghost sub = ps.subrange(0, i + 1);
        assert(sub.drop_last() =~= ps.subrange(0, i as int));
        assert(sub.last() == parts@[i as int]@);
        let t = trim_vec(parts[i].as_slice());
        if t.len() > 0 {
            let ghost prev = strs_view(names@);
            let s = string_from_chars(t.as_slice());
            names.push(s);
            assert(strs_view(names@) =~= prev.push(s@));
        }
        i = i + 1;
    }
    assert(ps.subrange(0, ps.len() as int) =~= ps);
    let pdf = if eq_str(str_chars(online).as_slice(), "1") && !url.as_str().is_empty() { Some(url) } else { None };
    let mut p = PaperResult::default();
    p.title = title;
    p.authors = names;
    p.year = year;
    p.doi = nonempty_exec(doi);
    p.isbn = nonempty_exec(isbn);
    p.venue = nonempty_exec(publisher);
    p.pdf_url = pdf;
    p
}

/// Mathematical view of a catalog record.
pub struct ClioV {
    pub title: Seq<char>,
    pub authors: Seq<char>,
    pub year: Seq<char>,
    pub isbn: Seq<char>,
    pub issn: Seq<char>,
    pub doi: Seq<char>,
    pub url: Seq<char>,
    pub online: bool,
    pub publisher: Seq<char>,
}

impl View for ClioRecord {
    type V = ClioV;

    open spec fn view(&self) -> ClioV {
        ClioV {
            title: self.title@,
            authors: self.authors@,
            year: self.year@,
            isbn: self.isbn@,
            issn: self.issn@,
            doi: self.doi@,
            url: self.url@,
            online: self.online,
            publisher: self.publisher@,
        }
    }
}

/// The views of a list of records.
pub open spec fn records_view(v: Seq<ClioRecord>) -> Seq<ClioV> {
    v.map_values(|r: ClioRecord| r@)
}

/// What has been read of one MARC record.
#[derive(Debug)]
pub struct RecordState {
    /// Tag of the current field (e.g. "245").
    pub tag: String,
    /// `ind2` of the current datafield.
    pub ind2: String,
    /// Code of the current subfield.
    pub subfield_code: char,
    pub in_subfield: bool,
    pub in_controlfield: bool,
    pub title_a: String,
    pub title_b: String,
    pub authors: Vec<String>,
    pub current_author: String,
    pub year: String,
    pub isbn: String,
    pub issn: String,
    pub doi: String,
    pub url: String,
    pub online: bool,
    pub publisher: String,
}

/// Mathematical view of a record being read.
pub struct RecV {
    pub tag: Seq<char>,
    pub ind2: Seq<char>,
    pub subfield_code: char,
    pub in_subfield: bool,
    pub in_controlfield: bool,
    pub title_a: Seq<char>,
    pub title_b: Seq<char>,
    pub authors: Seq<Seq<char>>,
    pub current_author: Seq<char>,
    pub year: Seq<char>,
    pub isbn: Seq<char>,
    pub issn: Seq<char>,
    pub doi: Seq<char>,
    pub url: Seq<char>,
    pub online: bool,
    pub publisher: Seq<char>,
}

impl View for RecordState {
    type V = RecV;

    open spec fn view(&self) -> RecV {
        RecV {
            tag: self.tag@,
            ind2: self.ind2@,
            subfield_code: self.subfield_code,
            in_subfield: self.in_subfield,
            in_controlfield: self.in_controlfield,
            title_a: self.title_a@,
            title_b: self.title_b@,
            authors: strs_view(self.authors@),
            current_author: self.current_author@,
            year: self.year@,
            isbn: self.isbn@,
            issn: self.issn@,
            doi: self.doi@,
            url: self.url@,
            online: self.online,
            publisher: self.publisher@,
        }
    }
}

/// A record with nothing read yet.
pub open spec fn rec_initial() -> RecV {
    RecV {
        tag: seq![],
        ind2: seq![],
        subfield_code: '\0',
        in_subfield: false,
        in_controlfield: false,
        title_a: seq![],
        title_b: seq![],
        authors: seq![],
        current_author: seq![],
        year: seq![],
        isbn: seq![],
        issn: seq![],
        doi: seq![],
        url: seq![],
        online: false,
        publisher: seq![],
    }
}

fn rec_new() -> (r: RecordState)
    ensures
        r@ == rec_initial(),
{
    let r = RecordState {
        tag: String::new(),
        ind2: String::new(),
        subfield_code: '\0',
        in_subfield: false,
        in_controlfield: false,
        title_a: String::new(),
        title_b: String::new(),
        authors: Vec::new(),
        current_author: String::new(),
        year: String::new(),
        isbn: String::new(),
        issn: String::new(),
        doi: String::new(),
        url: String::new(),
        online: false,
        publisher: String::new(),
    };
    assert(strs_view(r.authors@) =~= seq![]);
    r
}

/// `s` without its trailing characters that are in `set`.
pub open spec fn trim_end_in(s: Seq<char>, set: Seq<char>) -> Seq<char>
    decreases s.len(),
{
    if s.len() > 0 && set.contains(s.last()) { trim_end_in(s.drop_last(), set) } else { s }
}

fn trim_end_in_exec(s: &str, set: &str) -> (r: String)
    ensures
        r@ == trim_end_in(s@, set@),
{
    let c = str_chars(s);
    let sc = str_chars(set);
    let mut end = c.len();
    assert(c@.subrange(0, end as int) =~= c@);
    while end > 0 && crate::text::has_char(sc.as_slice(), c[end - 1])
        invariant
            end <= c@.len(),
            sc@ == set@,
            trim_end_in(s@, set@) == trim_end_in(c@.subrange(0, end as int), set@),
            c@ == s@,
        decreases end,
    {
        assert(c@.subrange(0, end as int).drop_last() =~= c@.subrange(0, end - 1));
        end = end - 1;
    }
    string_from_chars(slice_vec(c.as_slice(), 0, end).as_slice())
}

/// ASCII letter or digit.
pub open spec fn is_alnum(c: char) -> bool {
    is_alpha(c) || is_digit(c)
}

/// `s` without its trailing characters that are not ASCII letters or digits.
pub open spec fn trim_end_nonalnum(s: Seq<char>) -> Seq<char>
    decreases s.len(),
{
    if s.len() > 0 && !is_alnum(s.last()) { trim_end_nonalnum(s.drop_last()) } else { s }
}

/// The ISBN of a `020$a` subfield: its first word without trailing
/// qualifier punctuation.
pub open spec fn isbn_of(text: Seq<char>) -> Seq<char> {
    trim_end_nonalnum(if words(text).len() > 0 { words(text)[0] } else { seq![] })
}

fn isbn_of_exec(text: &str) -> (r: String)
    ensures
        r@ == isbn_of(text@),
{
    let ws = split_words(str_chars(text).as_slice());
    let w: Vec<char> = if ws.len() > 0 { slice_vec(ws[0].as_slice(), 0, ws[0].len()) } else { Vec::new() };
    assert(w@ =~= (if words(text@).len() > 0 { words(text@)[0] } else { seq![] }));
    let mut end = w.len();
    assert(w@.subrange(0, end as int) =~= w@);
    while end > 0 && !(crate::text::is_alpha_exec(w[end - 1]) || is_digit_exec(w[end - 1]))
        invariant
            end <= w@.len(),
            trim_end_nonalnum(w@) == trim_end_nonalnum(w@.subrange(0, end as int)),
        decreases end,
    {
        assert(w@.subrange(0, end as int).drop_last() =~= w@.subrange(0, end - 1));
        end = end - 1;
    }
    assert(trim_end_nonalnum(w@.subrange(0, end as int)) == w@.subrange(0, end as int));
    string_from_chars(slice_vec(w.as_slice(), 0, end).as_slice())
}

/// Text of bytes decoded strictly as UTF-8, empty when they are not.
pub open spec fn utf8_or_empty(b: Seq<u8>) -> Seq<char> {
    if valid_utf8(b) { decode_utf8(b) } else { seq![] }
}

fn utf8_or_empty_exec(b: &[u8]) -> (r: String)
    ensures
        r@ == utf8_or_empty(b@),
{
    match utf8_str(b) {
        Some(s) => s,
        None => String::new(),
    }
}

/// An element name as the MARC reader compares it: decoded (empty when not
/// UTF-8) and lower-cased.
pub open spec fn marc_name(n: Seq<u8>) -> Seq<char> {
    lowercase(utf8_or_empty(n))
}

/// The value of the first attribute whose key is `key`, as UTF-8 text
/// (empty when it is not, or when there is no such attribute).
pub open spec fn attr_of(attrs: Seq<(Seq<u8>, Seq<u8>)>, key: Seq<u8>) -> Seq<char>
    decreases attrs.len(),
{
    if attrs.len() == 0 {
        seq![]
    } else if attrs[0].0 == key {
        utf8_or_empty(attrs[0].1)
    } else {
        attr_of(attrs.drop_first(), key)
    }
}

fn attr_of_exec(attrs: &Vec<(Vec<u8>, Vec<u8>)>, key: &str) -> (r: String)
    ensures
        r@ == attr_of(attrs_view(attrs@), key.spec_bytes()),
{
    let ghost av = attrs_view(attrs@);
    let mut i: usize = 0;
    assert(av.subrange(0, av.len() as int) =~= av);
    while i < attrs.len()
        invariant
            i <= attrs@.len(),
            av == attrs_view(attrs@),
            attr_of(av, key.spec_bytes()) == attr_of(av.subrange(i as int, av.len() as int), key.spec_bytes()),
        decreases attrs@.len() - i,
    {
        let ghost rest = av.subrange(i as int, av.len() as int);
        assert(rest[0] == (attrs@[i as int].0@, attrs@[i as int].1@));
        if bytes_are(attrs[i].0.as_slice(), key) {
            return utf8_or_empty_exec(attrs[i].1.as_slice());
        }
        assert(rest.drop_first() =~= av.subrange(i + 1, av.len() as int));
        i = i + 1;
    }
    String::new()
}

/// The record state after an opening datafield: its pending author flushed.
pub open spec fn flushed(s: RecV) -> RecV {
    if s.current_author.len() > 0 {
        RecV { authors: s.authors.push(s.current_author), current_author: seq![], ..s }
    } else {
        s
    }
}

/// The reading state of a MARCXML document: the record being read, and the
/// records finished so far.
pub struct MarcV {
    pub rec: Option<RecV>,
    pub records: Seq<ClioV>,
}

/// The state after an opening tag (self-closing tags are ignored).
pub open spec fn marc_start(m: MarcV, name: Seq<u8>, attrs: Seq<(Seq<u8>, Seq<u8>)>) -> MarcV {
    let n = marc_name(name);
    if n == "record"@ {
        MarcV { rec: Some(rec_initial()), ..m }
    } else {
        match m.rec {
            None => m,
            Some(s) => if n == "controlfield"@ {
                MarcV { rec: Some(RecV { tag: attr_of(attrs, "tag".spec_bytes()), in_controlfield: true, ..s }), ..m }
            } else if n == "datafield"@ {
                MarcV { rec: Some(RecV { tag: attr_of(attrs, "tag".spec_bytes()), ind2: attr_of(attrs, "ind2".spec_bytes()), ..flushed(s) }), ..m }
            } else if n == "subfield"@ {
                let code = attr_of(attrs, "code".spec_bytes());
                MarcV {
                    rec: Some(RecV { subfield_code: if code.len() > 0 { code[0] } else { '\0' }, in_subfield: true, ..s }),
                    ..m
                }
            } else {
                m
            },
        }
    }
}

/// The title of a record: `245$a`, with `: 245$b` when there is a subtitle.
pub open spec fn record_title(a: Seq<char>, b: Seq<char>) -> Seq<char> {
    if a.len() == 0 && b.len() == 0 {
        seq![]
    } else if b.len() == 0 {
        trim_end_in(a, "/ "@)
    } else {
        trim_end_in(a, "/ :"@) + " "@ + trim_end_in(b, "/ "@)
    }
}

/// The catalog record of a finished MARC record.
pub open spec fn finished_record(s: RecV) -> ClioV {
    let authors = if s.current_author.len() > 0 { s.authors.push(s.current_author) } else { s.authors };
    ClioV {
        title: record_title(s.title_a, s.title_b),
        authors: join(authors, ", "@),
        year: s.year,
        isbn: s.isbn,
        issn: s.issn,
        doi: s.doi,
        url: s.url,
        online: s.online,
        publisher: s.publisher,
    }
}

/// The state after a closing tag.
pub open spec fn marc_end(m: MarcV, name: Seq<u8>) -> MarcV {
    let n = marc_name(name);
    match m.rec {
        None => m,
        Some(s) => if n == "record"@ {
            let r = finished_record(s);
            MarcV { rec: None, records: if r.title.len() > 0 { m.records.push(r) } else { m.records } }
        } else if n == "controlfield"@ {
            MarcV { rec: Some(RecV { in_controlfield: false, ..s }), ..m }
        } else if n == "subfield"@ {
            MarcV { rec: Some(RecV { in_subfield: false, ..s }), ..m }
        } else {
            m
        },
    }
}

/// What reading a text can do to a record: change it, or stop because the
/// `008` year is cut inside a character.
pub enum TextStep {
    Next(RecV),
    Cut,
}

/// The record after the text of a subfield.
pub open spec fn subfield_text(s: RecV, t: Seq<char>) -> RecV {
    let code = s.subfield_code;
    if s.tag == "245"@ {
        if code == 'a' {
            RecV { title_a: t, ..s }
        } else if code == 'b' {
            RecV { title_b: t, ..s }
        } else {
            s
        }
    } else if s.tag == "100"@ || s.tag == "700"@ {
        if code == 'a' {
            let s1 = if s.current_author.len() > 0 && s.tag == "700"@ {
                RecV { authors: s.authors.push(s.current_author), current_author: seq![], ..s }
            } else {
                s
            };
            RecV { current_author: trim_end_in(t, ",. "@), ..s1 }
        } else {
            s
        }
    } else if s.tag == "020"@ {
        if code == 'a' && s.isbn.len() == 0 { RecV { isbn: isbn_of(t), ..s } } else { s }
    } else if s.tag == "022"@ {
        if code == 'a' && s.issn.len() == 0 { RecV { issn: trim(t), ..s } } else { s }
    } else if s.tag == "856"@ {
        if code == 'u' {
            if contains(t, "doi.org"@) {
                if s.doi.len() == 0 {
                    match doi_in_url(t) {
                        Some(d) => RecV { doi: d, ..s },
                        None => s,
                    }
                } else {
                    s
                }
            } else if s.ind2 == "0"@ && s.url.len() == 0 {
                RecV { url: t, online: true, ..s }
            } else {
                s
            }
        } else {
            s
        }
    } else if s.tag == "260"@ || s.tag == "264"@ {
        if code == 'b' {
            if s.publisher.len() == 0 { RecV { publisher: trim_end_in(t, ",. "@), ..s } } else { s }
        } else if code == 'c' {
            if s.year.len() == 0 {
                match four_digit_year(t) {
                    Some(y) => RecV { year: y, ..s },
                    None => s,
                }
            } else {
                s
            }
        } else {
            s
        }
    } else {
        s
    }
}

/// Every character is an ASCII digit.
pub open spec fn all_digits(s: Seq<char>) -> bool {
    forall|i: int| 0 <= i < s.len() ==> is_digit(#[trigger] s[i])
}

/// The record after a text event.
pub open spec fn marc_text(s: RecV, t: Seq<char>) -> TextStep {
    let tb = encode_utf8(t);
    if s.in_controlfield && s.tag == "008"@ {
        if tb.len() >= 11 && s.year.len() == 0 {
            if !(is_char_boundary(tb, 7) && is_char_boundary(tb, 11)) {
                TextStep::Cut
            } else if all_digits(decode_utf8(tb.subrange(7, 11))) {
                TextStep::Next(RecV { year: decode_utf8(tb.subrange(7, 11)), ..s })
            } else {
                TextStep::Next(s)
            }
        } else {
            TextStep::Next(s)
        }
    } else if s.in_subfield {
        TextStep::Next(subfield_text(s, t))
    } else {
        TextStep::Next(s)
    }
}

/// How reading a MARCXML document ends.
pub enum MarcEnd {
    /// The records read.
    Done(Seq<ClioV>),
    /// A syntax error, with its message.
    Failed(Seq<char>),
    /// A `008` control field whose year bytes are cut inside a character.
    Cut,
}

/// Read events from `i` on.
pub open spec fn marc_run(evs: Seq<XmlEventV>, i: int, m: MarcV) -> MarcEnd
    decreases evs.len() - i,
{
    if i < 0 || i >= evs.len() {
        MarcEnd::Done(m.records)
    } else {
        match evs[i] {
            XmlEventV::Start(n, a, empty) => if empty {
                marc_run(evs, i + 1, m)
            } else {
                marc_run(evs, i + 1, marc_start(m, n, a))
            },
            XmlEventV::End(n) => marc_run(evs, i + 1, marc_end(m, n)),
            XmlEventV::Text(t) => match m.rec {
                None => marc_run(evs, i + 1, m),
                Some(s) => match marc_text(s, text_value(t)) {
                    TextStep::Cut => MarcEnd::Cut,
                    TextStep::Next(s2) => marc_run(evs, i + 1, MarcV { rec: Some(s2), ..m }),
                },
            },
            XmlEventV::Eof => MarcEnd::Done(m.records),
            XmlEventV::Error(e) => MarcEnd::Failed("XML parse error: "@ + e),
            XmlEventV::Other => marc_run(evs, i + 1, m),
        }
    }
}

/// The view of an optional record state.
pub open spec fn rec_view(o: Option<RecordState>) -> Option<RecV> {
    match o {
        Some(r) => Some(r@),
        None => None,
    }
}

fn flush_datafield(s: &mut RecordState)
    ensures
        final(s)@ == flushed(old(s)@),
{
    if !s.current_author.as_str().is_empty() {
        let ghost prev = strs_view(s.authors@);
        let a = s.current_author.clone();
        s.authors.push(a);
        s.current_author = String::new();
        assert(strs_view(s.authors@) =~= prev.push(old(s)@.current_author));
    }
}

fn marc_start_exec(rec: &mut Option<RecordState>, name: &[u8], attrs: &Vec<(Vec<u8>, Vec<u8>)>)
    ensures
        rec_view(*final(rec)) == marc_start(MarcV { rec: rec_view(*old(rec)), records: seq![] }, name@, attrs_view(attrs@)).rec,
{
    let n = str_to_lowercase(utf8_or_empty_exec(name).as_str());
    if str_eq(n.as_str(), "record") {
        *rec = Some(rec_new());
        return;
    }
    match rec {
        None => {},
        Some(s) => {
            if str_eq(n.as_str(), "controlfield") {
                s.tag = attr_of_exec(attrs, "tag");
                s.in_controlfield = true;
            } else if str_eq(n.as_str(), "datafield") {
                flush_datafield(s);
                s.tag = attr_of_exec(attrs, "tag");
                s.ind2 = attr_of_exec(attrs, "ind2");
            } else if str_eq(n.as_str(), "subfield") {
                let code = str_chars(attr_of_exec(attrs, "code").as_str());
                s.subfield_code = if code.len() > 0 { code[0] } else { '\0' };
                s.in_subfield = true;
            }
        },
    }
}

fn finish_record(s: RecordState) -> (r: ClioRecord)
    ensures
        r@ == finished_record(s@),
{
    let ghost v = s@;
    let mut authors = s.authors;
    if !s.current_author.as_str().is_empty() {
        let ghost prev = strs_view(authors@);
        let a = s.current_author;
        authors.push(a);
        assert(strs_view(authors@) =~= prev.push(v.current_author));
    }
    let a = s.title_a.as_str();
    let b = s.title_b.as_str();
    let title = if a.is_empty() && b.is_empty() {
        String::new()
    } else if b.is_empty() {
        trim_end_in_exec(a, "/ ")
    } else {
        let mut t = trim_end_in_exec(a, "/ :");
        t.append(" ");
        let tb = trim_end_in_exec(b, "/ ");
        t.append(tb.as_str());
        t
    };
    let joined = join_strings(authors.as_slice(), ", ");
    assert(authors@.map_values(|p: String| p@) =~= strs_view(authors@));
    ClioRecord {
        title,
        authors: joined,
        year: s.year,
        isbn: s.isbn,
        issn: s.issn,
        doi: s.doi,
        url: s.url,
        online: s.online,
        publisher: s.publisher,
    }
}

fn marc_end_exec(rec: &mut Option<RecordState>, records: &mut Vec<ClioRecord>, name: &[u8])
    ensures
        (MarcV { rec: rec_view(*final(rec)), records: records_view(final(records)@) })
            == marc_end(MarcV { rec: rec_view(*old(rec)), records: records_view(old(records)@) }, name@),
{
    let n = str_to_lowercase(utf8_or_empty_exec(name).as_str());
    if rec.is_none() {
        return;
    }
    if str_eq(n.as_str(), "record") {
        let taken = rec.take();
        match taken {
            Some(s) => {
                let r = finish_record(s);
                if !r.title.as_str().is_empty() {
                    let ghost prev = records_view(records@);
                    let ghost rv = r@;
                    records.push(r);
                    assert(records_view(records@) =~= prev.push(rv));
                }
            },
            None => {},
        }
    } else if str_eq(n.as_str(), "controlfield") {
        match rec {
            Some(s) => s.in_controlfield = false,
            None => {},
        }
    } else if str_eq(n.as_str(), "subfield") {
        match rec {
            Some(s) => s.in_subfield = false,
            None => {},
        }
    }
}

fn subfield_text_exec(s: &mut RecordState, t: &str)
    ensures
        final(s)@ == subfield_text(old(s)@, t@),
{
    let code = s.subfield_code;
    let tag = s.tag.as_str();
    if str_eq(tag, "245") {
        if code == 'a' {
            s.title_a = t.to_owned();
        } else if code == 'b' {
            s.title_b = t.to_owned();
        }
    } else if str_eq(tag, "100") || str_eq(tag, "700") {
        if code == 'a' {
            if !s.current_author.as_str().is_empty() && str_eq(s.tag.as_str(), "700") {
                let ghost prev = strs_view(s.authors@);
                let a = s.current_author.clone();
                s.authors.push(a);
                s.current_author = String::new();
                assert(strs_view(s.authors@) =~= prev.push(old(s)@.current_author));
            }
            s.current_author = trim_end_in_exec(t, ",. ");
        }
    } else if str_eq(tag, "020") {
        if code == 'a' && s.isbn.as_str().is_empty() {
            s.isbn = isbn_of_exec(t);
        }
    } else if str_eq(tag, "022") {
        if code == 'a' && s.issn.as_str().is_empty() {
            s.issn = string_from_chars(trim_vec(str_chars(t).as_slice()).as_slice());
        }
    } else if str_eq(tag, "856") {
        if code == 'u' {
            proof {
                reveal_strlit("doi.org");
            }
            if contains_chars(str_chars(t).as_slice(), str_chars("doi.org").as_slice()) {
                if s.doi.as_str().is_empty() {
                    if let Some(d) = extract_doi_from_url(t) {
                        s.doi = d;
                    }
                }
            } else if str_eq(s.ind2.as_str(), "0") && s.url.as_str().is_empty() {
                s.url = t.to_owned();
                s.online = true;
            }
        }
    } else if str_eq(tag, "260") || str_eq(tag, "264") {
        if code == 'b' {
            if s.publisher.as_str().is_empty() {
                s.publisher = trim_end_in_exec(t, ",. ");
            }
        } else if code == 'c' {
            if s.year.as_str().is_empty() {
                if let Some(y) = extract_4digit_year(t) {
                    s.year = y;
                }
            }
        }
    }
}

/// Apply a text event to a record; `false` when the `008` year cannot be
/// cut out of it.
fn marc_text_exec(s: &mut RecordState, t: &str) -> (ok: bool)
    ensures
        match marc_text(old(s)@, t@) {
            TextStep::Cut => !ok,
            TextStep::Next(n) => ok && final(s)@ == n,
        },
{
    proof {
        encode_utf8_valid_utf8(t@);
    }
    if s.in_controlfield && str_eq(s.tag.as_str(), "008") {
        let tb = t.as_bytes();
        if tb.len() >= 11 && s.year.as_str().is_empty() {
            if !(t.is_char_boundary(7) && t.is_char_boundary(11)) {
                return false;
            }
            let (_a, rest) = t.split_at(7);
            proof {
                encode_utf8_valid_utf8(rest@);
                encode_utf8_decode_utf8(rest@);
            }
            proof {
                let tbs = t.spec_bytes();
                let rb = rest.spec_bytes();
                valid_utf8_split(tbs, 7);
                assert(rb =~= tbs.subrange(7, tbs.len() as int));
                if 11 < tbs.len() {
                    is_char_boundary_iff_not_is_continuation_byte(tbs, 11);
                    is_char_boundary_iff_not_is_continuation_byte(rb, 4);
                    assert(rb[4] == tbs[11]);
                } else {
                    is_char_boundary_start_end_of_seq(rb);
                }
            }
            let (yp, _b) = rest.split_at(4);
            proof {
                encode_utf8_decode_utf8(yp@);
                assert(yp.spec_bytes() =~= t.spec_bytes().subrange(7, 11));
            }
            let yc = str_chars(yp);
            let mut k: usize = 0;
            let mut digits = true;
            while k < yc.len()
                invariant
                    k <= yc@.len(),
                    digits == (forall|j: int| 0 <= j < k ==> is_digit(#[trigger] yc@[j])),
                decreases yc@.len() - k,
            {
                if !is_digit_exec(yc[k]) {
                    digits = false;
                }
                k = k + 1;
            }
            if digits {
                s.year = yp.to_owned();
            }
        }
        return true;
    }
    if s.in_subfield {
        subfield_text_exec(s, t);
    }
    true
}

/// The result of reading a MARCXML document.
pub open spec fn marc_records(xml: Seq<u8>) -> Result<Seq<ClioV>, Seq<char>> {
    match marc_run(xml_events(xml, true), 0, MarcV { rec: None, records: seq![] }) {
        MarcEnd::Done(rs) => Ok(rs),
        MarcEnd::Failed(m) => Err(m),
        MarcEnd::Cut => Err("control field 008 is cut inside a character"@),
    }
}

/// Read the events of a MARCXML document into catalog records.
pub fn marc_scan(events: &Vec<XmlEvent>) -> (r: Result<Vec<ClioRecord>, Option<String>>)
    ensures
        match marc_run(events_view(events@), 0, MarcV { rec: None, records: seq![] }) {
            MarcEnd::Done(rs) => r matches Ok(v) && records_view(v@) == rs,
            MarcEnd::Failed(m) => r matches Err(Some(e)) && e@ == m,
            MarcEnd::Cut => r matches Err(None),
        },
{
    let ghost evs = events_view(events@);
    let mut rec: Option<RecordState> = None;
    let mut records: Vec<ClioRecord> = Vec::new();
    assert(records_view(records@) =~= seq![]);
    let mut i: usize = 0;
    while i < events.len()
        invariant
            i <= events@.len(),
            evs == events_view(events@),
            marc_run(evs, 0, MarcV { rec: None, records: seq![] })
                == marc_run(evs, i as int, MarcV { rec: rec_view(rec), records: records_view(records@) }),
        decreases events@.len() - i,
    {
        assert(evs[i as int] == events@[i as int]@);
        match &events[i] {
            XmlEvent::Start(n, a, empty) => {
                if !*empty {
                    marc_start_exec(&mut rec, n.as_slice(), a);
                }
            },
            XmlEvent::End(n) => marc_end_exec(&mut rec, &mut records, n.as_slice()),
            XmlEvent::Text(t) => {
                match &mut rec {
                    None => {},
                    Some(s) => {
                        let text = event_text(t.as_slice());
                        if !marc_text_exec(s, text.as_str()) {
                            return Err(None);
                        }
                    },
                }
            },
            XmlEvent::Eof => return Ok(records),
            XmlEvent::Error(e) => {
                let mut m = "XML parse error: ".to_owned();
                m.append(e.as_str());
                return Err(Some(m));
            },
            XmlEvent::Other => {},
        }
        i = i + 1;
    }
    Ok(records)
}

/// Parse a raw (uncompressed) MARCXML buffer into catalog records, keeping
/// the records that have a title.
pub fn parse_marcxml(xml: &[u8]) -> (r: Result<Vec<ClioRecord>, String>)
    ensures
        match marc_records(xml@) {
            Ok(rs) => r matches Ok(v) && records_view(v@) == rs,
            Err(m) => r matches Err(e) && e@ == m,
        },
{
    let events = read_xml_events(xml, true);
    match marc_scan(&events) {
        Ok(v) => Ok(v),
        Err(Some(m)) => Err(m),
        Err(None) => Err("control field 008 is cut inside a character".to_owned()),
    }
}

/// The bytes a gzip stream decompresses to, or the decoder's error message.
pub uninterp spec fn gunzipped(gz: Seq<u8>) -> Result<Seq<u8>, Seq<char>>;

/// `flate2::read::GzDecoder` read to the end: the decompressed bytes, or
/// the I/O error's message. The claim is that the outcome depends on the
/// compressed bytes alone.
#[verifier::external_body]
fn gunzip(gz: &[u8]) -> (r: Result<Vec<u8>, String>)
    ensures
        match r {
            Ok(v) => gunzipped(gz@) == Ok::<Seq<u8>, Seq<char>>(v@),
            Err(e) => gunzipped(gz@) == Err::<Seq<u8>, Seq<char>>(e@),
        },
{
    let mut out = Vec::new();
    match std::io::Read::read_to_end(&mut flate2::read::GzDecoder::new(gz), &mut out) {
        Ok(_) => Ok(out),
        Err(e) => Err(e.to_string()),
    }
}

/// Parse a gzipped MARCXML buffer into catalog records.
pub fn parse_marcxml_gz(gz_bytes: &[u8]) -> (r: Result<Vec<ClioRecord>, String>)
    ensures
        match gunzipped(gz_bytes@) {
            Err(m) => r matches Err(e) && e@ == m,
            Ok(xml) => match marc_records(xml) {
                Ok(rs) => r matches Ok(v) && records_view(v@) == rs,
                Err(m) => r matches Err(e) && e@ == m,
            },
        },
{
    match gunzip(gz_bytes) {
        Ok(xml) => parse_marcxml(xml.as_slice()),
        Err(e) => Err(e),
    }
}

} // verus!
