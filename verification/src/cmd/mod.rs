//! The decisions and text processing behind the command-line subcommands.

pub mod clean;
pub mod verify;
pub mod source;
pub mod download;
pub mod search;
pub mod add;
pub mod misc;
pub mod check;
pub mod clio;
pub mod read;
pub mod path;
pub mod open;

use vstd::prelude::*;
use crate::api::{PaperResult, PaperV, strs_view};
use crate::text::{join, join_strings, push_all, push_str, str_chars, string_from_chars};
use crate::json::{Json, JsonV, entries_view, str_array, opt_entry, push_entry, push_opt_entry, json_str_array, lemma_object_entries};
use crate::api::opt_view;

verus! {

/// Lookup result containing a paper and optional BibTeX.
#[derive(Debug)]
pub struct LookupResult {
    pub paper: PaperResult,
    pub bibtex: Option<String>,
}

/// The Semantic Scholar identifier of a paper: its S2 ID, else `DOI:` and
/// its DOI, else `ARXIV:` and its arXiv ID.
pub open spec fn s2_id_of(p: PaperV) -> Option<Seq<char>> {
    match (p.s2_id, p.doi, p.arxiv_id) {
        (Some(id), _, _) => Some(id),
        (None, Some(d), _) => Some("DOI:"@ + d),
        (None, None, Some(a)) => Some("ARXIV:"@ + a),
        (None, None, None) => None,
    }
}

/// Get a Semantic Scholar API identifier from a PaperResult.
///
/// Prefers s2_id, then DOI (prefixed), then arXiv ID (prefixed).
pub fn s2_api_id(p: &PaperResult) -> (r: Option<String>)
    ensures
        crate::api::opt_view(r) == s2_id_of(p@),
{
    if let Some(id) = &p.s2_id {
        return Some(id.clone());
    }
    if let Some(doi) = &p.doi {
        let mut v: Vec<char> = Vec::new();
        push_str(&mut v, "DOI:");
        push_str(&mut v, doi.as_str());
        return Some(string_from_chars(v.as_slice()));
    }
    if let Some(a) = &p.arxiv_id {
        let mut v: Vec<char> = Vec::new();
        push_str(&mut v, "ARXIV:");
        push_str(&mut v, a.as_str());
        return Some(string_from_chars(v.as_slice()));
    }
    None
}

/// Mark `id` visited: true when it was not visited before (`HashSet::insert`).
pub fn visit(visited: &mut Vec<String>, id: &str) -> (r: bool)
    ensures
        r == !strs_view(old(visited)@).contains(id@),
        strs_view(final(visited)@) == if r { strs_view(old(visited)@).push(id@) } else { strs_view(old(visited)@) },
{
    let mut i: usize = 0;
    while i < visited.len()
        invariant
            i <= visited@.len(),
            visited@ == old(visited)@,
            forall|k: int| 0 <= k < i ==> visited@[k]@ != id@,
        decreases visited@.len() - i,
    {
        if crate::text::str_eq(visited[i].as_str(), id) {
            assert(strs_view(visited@)[i as int] == id@);
            return false;
        }
        i = i + 1;
    }
    assert forall|k: int| 0 <= k < strs_view(visited@).len() implies strs_view(visited@)[k] != id@ by {
        assert(strs_view(visited@)[k] == visited@[k]@);
    }
    let ghost before = strs_view(visited@);
    visited.push(id.to_owned());
    assert(strs_view(visited@) =~= before.push(id@));
    true
}

/// An arXiv record completed by Semantic Scholar: each of its S2 ID, DOI,
/// citation count, venue and PDF link that is missing is taken from `s2`.
pub open spec fn enriched(p: PaperV, s2: PaperV) -> PaperV {
    PaperV {
        s2_id: if p.s2_id is None { s2.s2_id } else { p.s2_id },
        doi: if p.doi is None { s2.doi } else { p.doi },
        citations: if p.citations is None { s2.citations } else { p.citations },
        venue: if p.venue is None { s2.venue } else { p.venue },
        pdf_url: if p.pdf_url is None { s2.pdf_url } else { p.pdf_url },
        ..p
    }
}

/// Fill the missing identifiers and metadata of an arXiv record from its
/// Semantic Scholar record.
pub fn enrich_from_s2(result: PaperResult, s2: &PaperResult) -> (r: PaperResult)
    ensures
        r@ == enriched(result@, s2@),
{
    let mut result = result;
    if result.s2_id.is_none() {
        result.s2_id = s2.s2_id.clone();
    }
    if result.doi.is_none() {
        result.doi = s2.doi.clone();
    }
    if result.citations.is_none() {
        result.citations = s2.citations;
    }
    if result.venue.is_none() {
        result.venue = s2.venue.clone();
    }
    if result.pdf_url.is_none() {
        result.pdf_url = s2.pdf_url.clone();
    }
    result
}

/// The authors as displayed: the first three and `et al.` when there are
/// more, else all of them, joined by `, `.
pub open spec fn authors_shown(authors: Seq<Seq<char>>) -> Seq<char> {
    if authors.len() > 3 {
        join(authors.subrange(0, 3), ", "@) + " et al."@
    } else {
        join(authors, ", "@)
    }
}

/// Format an author list for display.
pub fn authors_display(authors: &Vec<String>) -> (r: String)
    ensures
        r@ == authors_shown(strs_view(authors@)),
{
    if authors.len() > 3 {
        let mut first: Vec<String> = Vec::new();
        let mut i: usize = 0;
        while i < 3
            invariant
                i <= 3 < authors@.len(),
                strs_view(first@) == strs_view(authors@).subrange(0, i as int),
            decreases 3 - i,
        {
            let ghost prev = strs_view(first@);
            assert(strs_view(authors@)[i as int] == authors@[i as int]@);
            first.push(authors[i].clone());
            assert(strs_view(first@) =~= prev.push(authors@[i as int]@));
            assert(strs_view(first@) =~= strs_view(authors@).subrange(0, i + 1));
            i = i + 1;
        }
        assert(first@.map_values(|a: String| a@) =~= strs_view(first@));
        let j = join_strings(first.as_slice(), ", ");
        let mut v = str_chars(j.as_str());
        push_str(&mut v, " et al.");
        string_from_chars(v.as_slice())
    } else {
        assert(authors@.map_values(|a: String| a@) =~= strs_view(authors@));
        join_strings(authors.as_slice(), ", ")
    }
}

/// An abstract as the brief listing shows it: its first 150 characters and
/// `...` when it is longer.
pub open spec fn brief_abstract_of(abs: Seq<char>) -> Seq<char> {
    if abs.len() > 150 {
        abs.subrange(0, 150) + "..."@
    } else {
        abs
    }
}

/// Shorten an abstract for the brief listing.
pub fn brief_abstract(abs: &str) -> (r: String)
    ensures
        r@ == brief_abstract_of(abs@),
{
    let c = str_chars(abs);
    if c.len() <= 150 {
        return abs.to_owned();
    }
    let mut v = crate::text::slice_vec(c.as_slice(), 0, 150);
    push_str(&mut v, "...");
    string_from_chars(v.as_slice())
}

/// The JSON members of a paper: title, authors and year, then each of DOI,
/// arXiv ID, venue, ISBN, PDF URL, abstract and citation count that it has,
/// its categories when it has any, and its published date when it has one.
pub open spec fn paper_entries(p: PaperV) -> Seq<(Seq<char>, JsonV)> {
    seq![("title"@, JsonV::Str(p.title)), ("authors"@, str_array(p.authors)), ("year"@, JsonV::Str(p.year))]
        + opt_entry("doi"@, p.doi) + opt_entry("arxiv_id"@, p.arxiv_id) + opt_entry("venue"@, p.venue)
        + opt_entry("isbn"@, p.isbn) + opt_entry("pdf_url"@, p.pdf_url) + opt_entry("abstract"@, p.abstract_text)
        + citations_entry(p.citations)
        + (if p.categories.len() > 0 { seq![("categories"@, str_array(p.categories))] } else { seq![] })
        + opt_entry("published_date"@, p.published_date)
}

/// The citation count member, when there is a count.
pub open spec fn citations_entry(c: Option<u64>) -> Seq<(Seq<char>, JsonV)> {
    match c {
        Some(n) => seq![("citations"@, JsonV::Number(Some(n)))],
        None => seq![],
    }
}

/// The brief JSON members of a paper: as `paper_entries` without PDF URL,
/// categories and published date, and with the abstract shortened.
pub open spec fn paper_brief_entries(p: PaperV) -> Seq<(Seq<char>, JsonV)> {
    seq![("title"@, JsonV::Str(p.title)), ("authors"@, str_array(p.authors)), ("year"@, JsonV::Str(p.year))]
        + opt_entry("doi"@, p.doi) + opt_entry("arxiv_id"@, p.arxiv_id) + opt_entry("venue"@, p.venue)
        + opt_entry("isbn"@, p.isbn)
        + (match p.abstract_text {
            Some(a) => seq![("abstract"@, JsonV::Str(brief_abstract_of(a)))],
            None => seq![],
        })
        + citations_entry(p.citations)
}

fn push_citations(ps: &mut Vec<(String, Json)>, c: Option<u64>)
    ensures
        entries_view(final(ps)@) == entries_view(old(ps)@) + citations_entry(c),
{
    match c {
        Some(n) => {
            push_entry(ps, "citations", Json::Number(Some(n)));
        },
        None => {},
    }
    assert(entries_view(ps@) =~= entries_view(old(ps)@) + citations_entry(c));
}

fn head_entries(paper: &PaperResult) -> (r: Vec<(String, Json)>)
    ensures
        entries_view(r@) == seq![("title"@, JsonV::Str(paper@.title)), ("authors"@, str_array(paper@.authors)), ("year"@, JsonV::Str(paper@.year))]
            + opt_entry("doi"@, paper@.doi) + opt_entry("arxiv_id"@, paper@.arxiv_id) + opt_entry("venue"@, paper@.venue)
            + opt_entry("isbn"@, paper@.isbn),
{
    let mut ps: Vec<(String, Json)> = Vec::new();
    push_entry(&mut ps, "title", Json::Str(paper.title.clone()));
    push_entry(&mut ps, "authors", json_str_array(&paper.authors));
    push_entry(&mut ps, "year", Json::Str(paper.year.clone()));
    let ghost h = entries_view(ps@);
    assert(h =~= seq![("title"@, JsonV::Str(paper@.title)), ("authors"@, str_array(paper@.authors)), ("year"@, JsonV::Str(paper@.year))]);
    push_opt_entry(&mut ps, "doi", &paper.doi);
    push_opt_entry(&mut ps, "arxiv_id", &paper.arxiv_id);
    push_opt_entry(&mut ps, "venue", &paper.venue);
    push_opt_entry(&mut ps, "isbn", &paper.isbn);
    ps
}

/// Convert a paper to a JSON object.
pub fn paper_to_json(paper: &PaperResult) -> (r: Json)
    ensures
        r@ == JsonV::Object(paper_entries(paper@)),
{
    let mut ps = head_entries(paper);
    let ghost h = entries_view(ps@);
    push_opt_entry(&mut ps, "pdf_url", &paper.pdf_url);
    push_opt_entry(&mut ps, "abstract", &paper.abstract_text);
    push_citations(&mut ps, paper.citations);
    let ghost m = entries_view(ps@);
    if paper.categories.len() > 0 {
        push_entry(&mut ps, "categories", json_str_array(&paper.categories));
    }
    assert(entries_view(ps@) =~= m + (if paper@.categories.len() > 0 { seq![("categories"@, str_array(paper@.categories))] } else { seq![] }));
    push_opt_entry(&mut ps, "published_date", &paper.published_date);
    assert(entries_view(ps@) =~= paper_entries(paper@));
    proof { lemma_object_entries(ps); }
    Json::Object(ps)
}

/// Convert a paper to a compact JSON object, for space-constrained output.
pub fn paper_to_json_brief(paper: &PaperResult) -> (r: Json)
    ensures
        r@ == JsonV::Object(paper_brief_entries(paper@)),
{
    let mut ps = head_entries(paper);
    let ghost h = entries_view(ps@);
    match &paper.abstract_text {
        Some(a) => {
            let b = brief_abstract(a.as_str());
            push_entry(&mut ps, "abstract", Json::Str(b));
        },
        None => {},
    }
    assert(entries_view(ps@) =~= h + (match paper@.abstract_text {
        Some(a) => seq![("abstract"@, JsonV::Str(brief_abstract_of(a)))],
        None => seq![],
    }));
    push_citations(&mut ps, paper.citations);
    assert(entries_view(ps@) =~= paper_brief_entries(paper@));
    proof { lemma_object_entries(ps); }
    Json::Object(ps)
}

/// A labelled line when the value is present, else nothing.
pub open spec fn opt_line(label: Seq<char>, o: Option<Seq<char>>) -> Seq<Seq<char>> {
    match o {
        Some(v) => seq![label + v],
        None => seq![],
    }
}

pub(crate) fn push_opt_line(out: &mut Vec<String>, label: &str, o: &Option<String>)
    ensures
        strs_view(final(out)@) == strs_view(old(out)@) + opt_line(label@, opt_view(*o)),
{
    match o {
        Some(v) => {
            out.push(crate::api::cat2(label, v.as_str()));
        },
        None => {},
    }
    assert(strs_view(out@) =~= strs_view(old(out)@) + opt_line(label@, opt_view(*o)));
}

pub(crate) fn push_line(out: &mut Vec<String>, label: &str, v: &str)
    ensures
        strs_view(final(out)@) == strs_view(old(out)@).push(label@ + v@),
{
    out.push(crate::api::cat2(label, v));
    assert(strs_view(out@) =~= strs_view(old(out)@).push(label@ + v@));
}

/// The metadata lines shown for a paper: its title; its authors when that
/// text is not empty; its published date, or its year when there is no
/// date and the year is known; its arXiv ID, DOI, venue and ISBN when
/// present; its categories when there are any; its PDF link; and, after a
/// blank line, its abstract.
pub open spec fn paper_lines_of(p: PaperV) -> Seq<Seq<char>> {
    paper_head_lines(p) + paper_id_lines(p) + paper_tail_lines(p)
}

/// Title, authors, and date or year.
pub open spec fn paper_head_lines(p: PaperV) -> Seq<Seq<char>> {
    seq!["Title: "@ + p.title]
        + (if authors_shown(p.authors).len() > 0 { seq!["Authors: "@ + authors_shown(p.authors)] } else { seq![] })
        + opt_line("Published: "@, p.published_date)
        + (if p.year != "?"@ && p.published_date is None { seq!["Year: "@ + p.year] } else { seq![] })
}

/// arXiv ID, DOI, venue and ISBN.
pub open spec fn paper_id_lines(p: PaperV) -> Seq<Seq<char>> {
    opt_line("arXiv: "@, p.arxiv_id) + opt_line("DOI: "@, p.doi) + opt_line("Venue: "@, p.venue)
        + opt_line("ISBN: "@, p.isbn)
}

/// Categories, PDF link and abstract.
pub open spec fn paper_tail_lines(p: PaperV) -> Seq<Seq<char>> {
    (if p.categories.len() > 0 { seq!["Categories: "@ + join(p.categories, ", "@)] } else { seq![] })
        + opt_line("PDF: "@, p.pdf_url)
        + (match p.abstract_text {
            Some(a) => seq![Seq::<char>::empty(), "Abstract: "@ + a],
            None => seq![],
        })
}

fn push_head_lines(out: &mut Vec<String>, paper: &PaperResult)
    ensures
        strs_view(final(out)@) == strs_view(old(out)@) + paper_head_lines(paper@),
{
    let ghost l0 = strs_view(out@);
    push_line(out, "Title: ", paper.title.as_str());
    let ghost l1 = strs_view(out@);
    let ad = authors_display(&paper.authors);
    if !ad.as_str().is_empty() {
        push_line(out, "Authors: ", ad.as_str());
    }
    assert(strs_view(out@) =~= l1 + (if authors_shown(paper@.authors).len() > 0 { seq!["Authors: "@ + authors_shown(paper@.authors)] } else { seq![] }));
    push_opt_line(out, "Published: ", &paper.published_date);
    let ghost l2 = strs_view(out@);
    let known = !crate::text::str_eq(paper.year.as_str(), "?");
    if known && paper.published_date.is_none() {
        push_line(out, "Year: ", paper.year.as_str());
    }
    assert(strs_view(out@) =~= l2 + (if paper@.year != "?"@ && paper@.published_date is None { seq!["Year: "@ + paper@.year] } else { seq![] }));
    assert(strs_view(out@) =~= l0 + paper_head_lines(paper@));
}

fn push_id_lines(out: &mut Vec<String>, paper: &PaperResult)
    ensures
        strs_view(final(out)@) == strs_view(old(out)@) + paper_id_lines(paper@),
{
    let ghost l0 = strs_view(out@);
    push_opt_line(out, "arXiv: ", &paper.arxiv_id);
    push_opt_line(out, "DOI: ", &paper.doi);
    push_opt_line(out, "Venue: ", &paper.venue);
    push_opt_line(out, "ISBN: ", &paper.isbn);
    assert(strs_view(out@) =~= l0 + paper_id_lines(paper@));
}

fn push_tail_lines(out: &mut Vec<String>, paper: &PaperResult)
    ensures
        strs_view(final(out)@) == strs_view(old(out)@) + paper_tail_lines(paper@),
{
    let ghost l0 = strs_view(out@);
    if paper.categories.len() > 0 {
        let c = join_strings(paper.categories.as_slice(), ", ");
        assert(paper.categories@.map_values(|x: String| x@) =~= paper@.categories);
        push_line(out, "Categories: ", c.as_str());
    }
    assert(strs_view(out@) =~= l0 + (if paper@.categories.len() > 0 { seq!["Categories: "@ + join(paper@.categories, ", "@)] } else { seq![] }));
    let ghost l1 = strs_view(out@);
    push_opt_line(out, "PDF: ", &paper.pdf_url);
    let ghost l2 = strs_view(out@);
    match &paper.abstract_text {
        Some(a) => {
            out.push(String::new());
            push_line(out, "Abstract: ", a.as_str());
        },
        None => {},
    }
    assert(strs_view(out@) =~= l2 + (match paper@.abstract_text {
        Some(a) => seq![Seq::<char>::empty(), "Abstract: "@ + a],
        None => seq![],
    }));
    assert(strs_view(out@) =~= l0 + paper_tail_lines(paper@));
}

/// The lines printed to show a paper's metadata.
pub fn paper_lines(paper: &PaperResult) -> (r: Vec<String>)
    ensures
        strs_view(r@) == paper_lines_of(paper@),
{
    let mut out: Vec<String> = Vec::new();
    push_head_lines(&mut out, paper);
    push_id_lines(&mut out, paper);
    push_tail_lines(&mut out, paper);
    assert(strs_view(out@) =~= paper_lines_of(paper@));
    out
}

/// Which results of one fetch of references or citations are collected,
/// starting at result `i`: while there is room, each result is taken unless
/// its Semantic Scholar ID was seen already; a taken result's ID, when it
/// has one, is marked seen. Gives the positions taken with their IDs, and
/// the IDs seen afterwards.
pub open spec fn admit_from(ps: Seq<PaperV>, i: int, seen: Seq<Seq<char>>, room: nat)
    -> (Seq<(int, Option<Seq<char>>)>, Seq<Seq<char>>)
    decreases ps.len() - i,
{
    if i < 0 || i >= ps.len() || room == 0 {
        (seq![], seen)
    } else {
        match s2_id_of(ps[i]) {
            Some(c) => if seen.contains(c) {
                admit_from(ps, i + 1, seen, room)
            } else {
                let (a, v) = admit_from(ps, i + 1, seen.push(c), (room - 1) as nat);
                (seq![(i, Some(c))] + a, v)
            },
            None => {
                let (a, v) = admit_from(ps, i + 1, seen, (room - 1) as nat);
                (seq![(i, None::<Seq<char>>)] + a, v)
            },
        }
    }
}

/// What collecting related papers keeps, from result `i` on: at most `room`
/// results are taken, in order of position, each with its own ID; no ID
/// taken was seen before or is taken twice; and every ID seen before, or
/// taken, is seen afterwards.
pub open spec fn admit_law(ps: Seq<PaperV>, i: int, seen: Seq<Seq<char>>, room: nat) -> bool {
    let (a, v) = admit_from(ps, i, seen, room);
    &&& a.len() <= room
    &&& forall|k: int| 0 <= k < a.len() ==> i <= (#[trigger] a[k]).0 < ps.len() && a[k].1 == s2_id_of(ps[a[k].0])
    &&& forall|k: int, l: int| 0 <= k < l < a.len() ==> (#[trigger] a[k]).0 < (#[trigger] a[l]).0
    &&& forall|k: int| 0 <= k < a.len() ==> ((#[trigger] a[k]).1 matches Some(c) ==> !seen.contains(c) && v.contains(c))
    &&& forall|k: int, l: int| 0 <= k < l < a.len() ==> ((#[trigger] a[k]).1 matches Some(c) ==> (#[trigger] a[l]).1 != Some(c))
    &&& forall|x: Seq<char>| seen.contains(x) ==> v.contains(x)
}

proof fn lemma_admit_from(ps: Seq<PaperV>, i: int, seen: Seq<Seq<char>>, room: nat)
    requires
        0 <= i,
    ensures
        admit_law(ps, i, seen, room),
    decreases ps.len() - i,
{
    if i >= ps.len() || room == 0 {
        return;
    }
    match s2_id_of(ps[i]) {
        Some(c) => {
            if seen.contains(c) {
                lemma_admit_from(ps, i + 1, seen, room);
            } else {
                let s2 = seen.push(c);
                lemma_admit_from(ps, i + 1, s2, (room - 1) as nat);
                let (a1, v) = admit_from(ps, i + 1, s2, (room - 1) as nat);
                let a = seq![(i, Some(c))] + a1;
                assert(admit_from(ps, i, seen, room) == (a, v));
                assert(s2.contains(c)) by { assert(s2[s2.len() - 1] == c); }
                assert forall|x: Seq<char>| seen.contains(x) implies v.contains(x) by {
                    let j = choose|j: int| 0 <= j < seen.len() && seen[j] == x;
                    assert(s2[j] == x);
                }
                assert forall|k: int| 0 <= k < a.len() implies i <= (#[trigger] a[k]).0 < ps.len() && a[k].1 == s2_id_of(ps[a[k].0]) by {
                    if k > 0 { assert(a[k] == a1[k - 1]); }
                }
                assert forall|k: int, l: int| 0 <= k < l < a.len() implies (#[trigger] a[k]).0 < (#[trigger] a[l]).0 by {
                    assert(a[l] == a1[l - 1]);
                    if k > 0 { assert(a[k] == a1[k - 1]); }
                }
                assert forall|k: int| 0 <= k < a.len() implies ((#[trigger] a[k]).1 matches Some(d) ==> !seen.contains(d) && v.contains(d)) by {
                    if k > 0 {
                        assert(a[k] == a1[k - 1]);
                        if let Some(d) = a[k].1 {
                            if seen.contains(d) {
                                let j = choose|j: int| 0 <= j < seen.len() && seen[j] == d;
                                assert(s2[j] == d);
                            }
                        }
                    }
                }
                assert forall|k: int, l: int| 0 <= k < l < a.len() implies ((#[trigger] a[k]).1 matches Some(d) ==> (#[trigger] a[l]).1 != Some(d)) by {
                    assert(a[l] == a1[l - 1]);
                    if k > 0 { assert(a[k] == a1[k - 1]); }
                }
            }
        },
        None => {
            lemma_admit_from(ps, i + 1, seen, (room - 1) as nat);
            let (a1, v) = admit_from(ps, i + 1, seen, (room - 1) as nat);
            let a = seq![(i, None::<Seq<char>>)] + a1;
            assert(admit_from(ps, i, seen, room) == (a, v));
            assert forall|k: int| 0 <= k < a.len() implies i <= (#[trigger] a[k]).0 < ps.len() && a[k].1 == s2_id_of(ps[a[k].0]) by {
                if k > 0 { assert(a[k] == a1[k - 1]); }
            }
            assert forall|k: int, l: int| 0 <= k < l < a.len() implies (#[trigger] a[k]).0 < (#[trigger] a[l]).0 by {
                assert(a[l] == a1[l - 1]);
                if k > 0 { assert(a[k] == a1[k - 1]); }
            }
            assert forall|k: int| 0 <= k < a.len() implies ((#[trigger] a[k]).1 matches Some(d) ==> !seen.contains(d) && v.contains(d)) by {
                if k > 0 { assert(a[k] == a1[k - 1]); }
            }
            assert forall|k: int, l: int| 0 <= k < l < a.len() implies ((#[trigger] a[k]).1 matches Some(d) ==> (#[trigger] a[l]).1 != Some(d)) by {
                assert(a[l] == a1[l - 1]);
                if k > 0 { assert(a[k] == a1[k - 1]); }
            }
        },
    }
}

/// Collecting related papers never takes more than there is room for,
/// takes results in order, each with its own Semantic Scholar ID, never
/// takes an ID twice nor one seen before (such as the starting paper's), and
/// marks every ID it takes as seen, forgetting none seen before.
pub proof fn lemma_admit_related(ps: Seq<PaperV>, seen: Seq<Seq<char>>, room: nat)
    ensures
        admit_law(ps, 0, seen, room),
{
    lemma_admit_from(ps, 0, seen, room);
}

/// The view of the positions taken with their IDs.
pub open spec fn admitted_view(v: Seq<(usize, Option<String>)>) -> Seq<(int, Option<Seq<char>>)> {
    v.map_values(|e: (usize, Option<String>)| (e.0 as int, crate::api::opt_view(e.1)))
}

/// Decide which results of one fetch of references or citations to
/// collect, when `collected` papers were collected already and at most
/// `max_papers` are wanted; `seen` holds the IDs seen so far and gains
/// those of the results taken.
pub fn admit_related(results: &Vec<PaperResult>, seen: &mut Vec<String>, collected: usize, max_papers: usize)
    -> (r: Vec<(usize, Option<String>)>)
    ensures
        ({
            let room: nat = if collected >= max_papers { 0 } else { (max_papers - collected) as nat };
            let (a, v) = admit_from(crate::api::papers_view(results@), 0, strs_view(old(seen)@), room);
            &&& admitted_view(r@) == a
            &&& strs_view(final(seen)@) == v
        }),
{
    let ghost ps = crate::api::papers_view(results@);
    let mut room: usize = if collected >= max_papers { 0 } else { max_papers - collected };
    let ghost room0: nat = room as nat;
    let ghost goal = admit_from(ps, 0, strs_view(seen@), room0);
    let mut out: Vec<(usize, Option<String>)> = Vec::new();
    let mut i: usize = 0;
    while i < results.len() && room > 0
        invariant
            i <= results@.len(),
            ps == crate::api::papers_view(results@),
            goal == admit_from(ps, 0, strs_view(old(seen)@), room0),
            ({
                let (a, v) = admit_from(ps, i as int, strs_view(seen@), room as nat);
                &&& admitted_view(out@) + a == goal.0
                &&& v == goal.1
            }),
        decreases results@.len() - i,
    {
        let ghost before = admitted_view(out@);
        let ghost sv = strs_view(seen@);
        assert(ps[i as int] == results@[i as int]@);
        match s2_api_id(&results[i]) {
            Some(c) => {
                if visit(seen, c.as_str()) {
                    out.push((i, Some(c)));
                    assert(admitted_view(out@) =~= before.push((i as int, Some(c@))));
                    let ghost (a, v) = admit_from(ps, i + 1, strs_view(seen@), (room - 1) as nat);
                    assert(admit_from(ps, i as int, sv, room as nat) == (seq![(i as int, Some(c@))] + a, v));
                    assert(admitted_view(out@) + a =~= before + (seq![(i as int, Some(c@))] + a));
                    room = room - 1;
                }
            },
            None => {
                out.push((i, None));
                assert(admitted_view(out@) =~= before.push((i as int, None::<Seq<char>>)));
                let ghost (a, v) = admit_from(ps, i + 1, sv, (room - 1) as nat);
                assert(admit_from(ps, i as int, sv, room as nat) == (seq![(i as int, None::<Seq<char>>)] + a, v));
                assert(admitted_view(out@) + a =~= before + (seq![(i as int, None::<Seq<char>>)] + a));
                room = room - 1;
            },
        }
        i = i + 1;
    }
    proof {
        let (a, v) = admit_from(ps, i as int, strs_view(seen@), room as nat);
        assert(a =~= Seq::<(int, Option<Seq<char>>)>::empty());
        assert(admitted_view(out@) + a =~= admitted_view(out@));
    }
    out
}

} // verus!

