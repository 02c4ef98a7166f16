//! What `lit add` fetches for an input, the BibTeX entries it writes, where
//! an entry goes in a `.bib` file (guarding a key that names another
//! paper), and how keys are read back.
use vstd::prelude::*;
use crate::api::{PaperResult, strs_view};
use crate::bibtex::{BibEntry, BibV, entries_view, field_value};
use crate::cmd::clean::dup_norm;
use crate::citekey::citekey;
use crate::db::{cache_key, cache_key_of};
use crate::detect::{
    arxiv_normalized, classify, detect_type, doi_normalized, input_matches, normalize_arxiv, normalize_doi, normalize_isbn,
    strip_isbn_separators, InputType,
};
use crate::text::{
    join, join_strings, lowercase, lowercase_chars, push_all, push_str, split_words, str_chars, string_from_chars, trim,
    trim_vec, index_of, index_of_exec, words,
};

verus! {

/// What `lit add` and `lit misc` report: the key and the entry written.
#[derive(Debug)]
pub struct AddResult {
    /// The BibTeX citation key (e.g. "schulman2017ppo").
    pub entry_key: String,
    /// The full BibTeX entry text.
    pub bib_text: String,
}

/// A `  name = {value}` line of an entry.
pub open spec fn field_line(name: Seq<char>, value: Seq<char>) -> Seq<char> {
    "  "@ + name + " = {"@ + value + "}"@
}

fn push_field(v: &mut Vec<char>, name: &str, value: &str)
    ensures
        final(v)@ == old(v)@ + field_line(name@, value@),
{
    push_str(v, "  ");
    push_str(v, name);
    push_str(v, " = {");
    push_str(v, value);
    push_str(v, "}");
    proof {
        reveal_strlit("  ");
        reveal_strlit(" = {");
        reveal_strlit("}");
    }
    assert(v@ =~= old(v)@ + field_line(name@, value@));
}

/// The entry written for an arXiv paper: an `@article` keyed by the
/// generated citation key, with its eprint.
pub open spec fn arxiv_bibtex(key: Seq<char>, title: Seq<char>, authors: Seq<Seq<char>>, year: Seq<char>, eprint: Seq<char>) -> Seq<char> {
    "@article{"@ + key + ",\n"@ + field_line("title"@, title) + ",\n"@ + field_line("author"@, join(authors, " and "@))
        + ",\n"@ + field_line("year"@, year) + ",\n"@ + field_line("eprint"@, eprint) + ",\n"@
        + field_line("archivePrefix"@, "arXiv"@) + ",\n}"@
}

/// Generate BibTeX for an arXiv paper from a PaperResult.
pub fn generate_arxiv_bibtex(result: &PaperResult, arxiv_id: &str) -> (r: String)
    ensures
        r@ == arxiv_bibtex(citekey(result@.authors, result@.year, result@.title), result@.title,
            result@.authors, result@.year, arxiv_id@),
{
    assert(result.authors@.map_values(|a: String| a@) =~= strs_view(result.authors@));
    let key = crate::citekey::generate(result.authors.as_slice(), result.year.as_str(), result.title.as_str());
    let authors = join_strings(result.authors.as_slice(), " and ");
    let mut v: Vec<char> = Vec::new();
    push_str(&mut v, "@article{");
    push_str(&mut v, key.as_str());
    push_str(&mut v, ",\n");
    push_field(&mut v, "title", result.title.as_str());
    push_str(&mut v, ",\n");
    push_field(&mut v, "author", authors.as_str());
    push_str(&mut v, ",\n");
    push_field(&mut v, "year", result.year.as_str());
    push_str(&mut v, ",\n");
    push_field(&mut v, "eprint", arxiv_id);
    push_str(&mut v, ",\n");
    push_field(&mut v, "archivePrefix", "arXiv");
    push_str(&mut v, ",\n}");
    string_from_chars(v.as_slice())
}

/// The fields of a book entry: title, first author (or `Unknown`), year,
/// and publisher and ISBN when known.
pub open spec fn book_fields(title: Seq<char>, authors: Seq<Seq<char>>, year: Seq<char>, venue: Option<Seq<char>>, isbn: Option<Seq<char>>) -> Seq<char> {
    field_line("title"@, title) + ",\n"@ + field_line("author"@, if authors.len() > 0 { authors[0] } else { "Unknown"@ })
        + ",\n"@ + field_line("year"@, year)
        + (match venue { Some(v) => ",\n"@ + field_line("publisher"@, v), None => seq![] })
        + (match isbn { Some(i) => ",\n"@ + field_line("isbn"@, i), None => seq![] })
}

fn opt_field(v: &mut Vec<char>, name: &str, value: &Option<String>)
    ensures
        final(v)@ == old(v)@ + match crate::api::opt_view(*value) { Some(x) => ",\n"@ + field_line(name@, x), None => seq![] },
{
    match value {
        Some(x) => {
            let ghost a = v@;
            push_str(v, ",\n");
            push_field(v, name, x.as_str());
            assert(v@ =~= a + (",\n"@ + field_line(name@, x@)));
        },
        None => {
            assert(v@ =~= v@ + Seq::<char>::empty());
        },
    }
}

fn book_fields_exec(result: &PaperResult) -> (r: Vec<char>)
    ensures
        r@ == book_fields(result@.title, result@.authors, result@.year, result@.venue, result@.isbn),
{
    proof {
        reveal_strlit("Unknown");
    }
    let mut v: Vec<char> = Vec::new();
    push_field(&mut v, "title", result.title.as_str());
    push_str(&mut v, ",\n");
    if result.authors.len() > 0 {
        assert(strs_view(result.authors@)[0] == result.authors@[0]@);
        push_field(&mut v, "author", result.authors[0].as_str());
    } else {
        push_field(&mut v, "author", "Unknown");
    }
    push_str(&mut v, ",\n");
    push_field(&mut v, "year", result.year.as_str());
    let ghost a = v@;
    opt_field(&mut v, "publisher", &result.venue);
    opt_field(&mut v, "isbn", &result.isbn);
    v
}

/// Generate BibTeX for a book from a PaperResult.
pub fn generate_book_bibtex(result: &PaperResult) -> (r: String)
    ensures
        r@ == "@book{"@ + citekey(result@.authors, result@.year, result@.title) + ",\n"@
            + book_fields(result@.title, result@.authors, result@.year, result@.venue, result@.isbn) + "\n}"@,
{
    proof {
        reveal_strlit("Unknown");
    }
    let key = crate::citekey::generate(result.authors.as_slice(), result.year.as_str(), result.title.as_str());
    assert(result.authors@.map_values(|a: String| a@) =~= strs_view(result.authors@));
    let mut v: Vec<char> = Vec::new();
    push_str(&mut v, "@book{");
    push_str(&mut v, key.as_str());
    push_str(&mut v, ",\n");
    let f = book_fields_exec(result);
    push_all(&mut v, f.as_slice());
    push_str(&mut v, "\n}");
    string_from_chars(v.as_slice())
}

/// The entry made from search metadata alone: an `@inproceedings` with
/// title, authors, year and, when known, the venue as booktitle.
pub open spec fn metadata_bibtex(key: Seq<char>, title: Seq<char>, authors: Seq<Seq<char>>, year: Seq<char>, venue: Option<Seq<char>>) -> Seq<char> {
    "@inproceedings{"@ + key + ",\n"@ + field_line("title"@, title) + ",\n"@ + field_line("author"@, join(authors, " and "@))
        + ",\n"@ + field_line("year"@, year)
        + (match venue { Some(v) => ",\n"@ + field_line("booktitle"@, v), None => seq![] }) + "\n}"@
}

/// Generate BibTeX from search metadata when no identifier is known.
pub fn generate_metadata_bibtex(result: &PaperResult) -> (r: String)
    ensures
        r@ == metadata_bibtex(citekey(result@.authors, result@.year, result@.title), result@.title,
            result@.authors, result@.year, result@.venue),
{
    assert(result.authors@.map_values(|a: String| a@) =~= strs_view(result.authors@));
    let key = crate::citekey::generate(result.authors.as_slice(), result.year.as_str(), result.title.as_str());
    let authors = join_strings(result.authors.as_slice(), " and ");
    let mut v: Vec<char> = Vec::new();
    push_str(&mut v, "@inproceedings{");
    push_str(&mut v, key.as_str());
    push_str(&mut v, ",\n");
    push_field(&mut v, "title", result.title.as_str());
    push_str(&mut v, ",\n");
    push_field(&mut v, "author", authors.as_str());
    push_str(&mut v, ",\n");
    push_field(&mut v, "year", result.year.as_str());
    match &result.venue {
        Some(b) => {
            push_str(&mut v, ",\n");
            push_field(&mut v, "booktitle", b.as_str());
        },
        None => {},
    }
    push_str(&mut v, "\n}");
    string_from_chars(v.as_slice())
}

/// How the BibTeX of a search result is obtained: by DOI, else by arXiv
/// ID, else by ISBN, else from its metadata.
#[derive(Debug)]
pub enum Resolution {
    Doi(String),
    Arxiv(String),
    Isbn(String),
    Metadata,
}

/// Choose how to get the BibTeX of a search result.
pub fn resolution_for(result: &PaperResult) -> (r: Resolution)
    ensures
        match (result@.doi, result@.arxiv_id, result@.isbn) {
            (Some(d), _, _) => r matches Resolution::Doi(x) && x@ == d,
            (None, Some(a), _) => r matches Resolution::Arxiv(x) && x@ == a,
            (None, None, Some(i)) => r matches Resolution::Isbn(x) && x@ == i,
            (None, None, None) => r is Metadata,
        },
{
    match (&result.doi, &result.arxiv_id, &result.isbn) {
        (Some(d), _, _) => Resolution::Doi(d.clone()),
        (None, Some(a), _) => Resolution::Arxiv(a.clone()),
        (None, None, Some(i)) => Resolution::Isbn(i.clone()),
        (None, None, None) => Resolution::Metadata,
    }
}

/// The first line of a text.
pub open spec fn first_line(s: Seq<char>) -> Seq<char> {
    let i = index_of(s, '\n');
    let l = s.subrange(0, i);
    if l.len() > 0 && l.last() == '\r' { l.drop_last() } else { l }
}

/// `s` without its trailing commas.
pub open spec fn without_trailing_commas(s: Seq<char>) -> Seq<char>
    decreases s.len(),
{
    if s.len() > 0 && s.last() == ',' { without_trailing_commas(s.drop_last()) } else { s }
}

/// The key of an entry: what follows the first `{` of its first line, its
/// trailing commas and surrounding blanks removed; `unknown` when the line
/// has no `{` (or the text no line).
pub open spec fn entry_key_of(bib: Seq<char>) -> Seq<char> {
    let l = first_line(bib);
    let b = index_of(l, '{');
    if bib.len() > 0 && 0 <= b < l.len() {
        trim(without_trailing_commas(l.subrange(b + 1, l.len() as int)))
    } else {
        "unknown"@
    }
}

/// Read the citation key back from the text of an entry.
pub fn entry_key(bib_text: &str) -> (r: String)
    ensures
        r@ == entry_key_of(bib_text@),
{
    proof {
        reveal_strlit("unknown");
        crate::text::lemma_index_of(bib_text@, '\n');
    }
    let c = str_chars(bib_text);
    if c.len() == 0 {
        return "unknown".to_owned();
    }
    let nl = index_of_exec(&c, 0, c.len(), '\n');
    assert(c@.subrange(0, c@.len() as int) =~= c@);
    let mut line = crate::text::slice_vec(c.as_slice(), 0, nl);
    if line.len() > 0 && line[line.len() - 1] == '\r' {
        line.pop();
    }
    assert(line@ == first_line(bib_text@));
    proof {
        crate::text::lemma_index_of(line@, '{');
    }
    let b = index_of_exec(&line, 0, line.len(), '{');
    assert(line@.subrange(0, line@.len() as int) =~= line@);
    if b >= line.len() {
        return "unknown".to_owned();
    }
    let mut rest = crate::text::slice_vec(line.as_slice(), b + 1, line.len());
    let ghost r0 = rest@;
    while rest.len() > 0 && rest[rest.len() - 1] == ','
        invariant
            without_trailing_commas(r0) == without_trailing_commas(rest@),
        decreases rest@.len(),
    {
        assert(rest@.drop_last() == rest@.subrange(0, rest@.len() - 1));
        rest.pop();
    }
    string_from_chars(trim_vec(rest.as_slice()).as_slice())
}

/// The text fetched for an entry, trimmed; an error when it is not an entry
/// (does not start with `@`).
pub fn checked_bibtex(text: &str) -> (r: Result<String, String>)
    ensures
        match r {
            Ok(t) => t@ == trim(text@) && trim(text@).len() > 0 && trim(text@)[0] == '@',
            Err(e) => !(trim(text@).len() > 0 && trim(text@)[0] == '@') && e@ == "Failed to fetch BibTeX"@,
        },
{
    let t = trim_vec(str_chars(text).as_slice());
    if t.len() > 0 && t[0] == '@' {
        Ok(string_from_chars(t.as_slice()))
    } else {
        Err("Failed to fetch BibTeX".to_owned())
    }
}

/// What `lit add` fetches for an input, by the input's type.
#[derive(Debug)]
pub enum AddFetch {
    /// The arXiv record of `id`, cached under `key`, from `url`.
    Arxiv { id: String, key: String, url: String },
    /// Crossref's BibTeX for `doi`, from `url` (uncached).
    Doi { doi: String, url: String },
    /// Open Library's record of `isbn`, cached under `key`, from `url`.
    Isbn { isbn: String, key: String, url: String },
    /// The BibTeX of the top search result for the input.
    Search,
}

/// The error for an input whose BibTeX cannot be fetched.
pub open spec fn cannot_fetch_message(input: Seq<char>) -> Seq<char> {
    "Cannot fetch BibTeX for: "@ + input + "\nProvide an arXiv ID, DOI, ISBN, or a search query"@
}

/// Decide what to fetch for an input of `lit add`: an arXiv ID's record, a
/// DOI's BibTeX, an ISBN's record, or the top search result; a DBLP or
/// Semantic Scholar URL is refused.
pub fn add_fetch(input: &str) -> (r: Result<AddFetch, String>)
    ensures
        match classify(input_matches(input@)) {
            InputType::Arxiv => r matches Ok(AddFetch::Arxiv { id, key, url })
                && id@ == arxiv_normalized(input@)
                && key@ == cache_key_of("arxiv"@, arxiv_normalized(input@))
                && url@ == "https://export.arxiv.org/api/query?id_list="@ + arxiv_normalized(input@),
            InputType::Doi => r matches Ok(AddFetch::Doi { doi, url })
                && doi@ == doi_normalized(input@)
                && url@ == "https://api.crossref.org/works/"@ + doi_normalized(input@) + "/transform/application/x-bibtex"@,
            InputType::Isbn => r matches Ok(AddFetch::Isbn { isbn, key, url })
                && isbn@ == strip_isbn_separators(input@)
                && key@ == cache_key_of("isbn"@, strip_isbn_separators(input@))
                && url@ == "https://openlibrary.org/api/books?bibkeys=ISBN:"@ + strip_isbn_separators(input@) + "&format=json&jscmd=data"@,
            InputType::Search => r matches Ok(AddFetch::Search),
            _ => r matches Err(e) && e@ == cannot_fetch_message(input@),
        },
{
    match detect_type(input) {
        InputType::Arxiv => {
            let id = normalize_arxiv(input);
            let key = cache_key("arxiv", id.as_str());
            let url = crate::api::arxiv::query_url(id.as_str());
            Ok(AddFetch::Arxiv { id, key, url })
        },
        InputType::Doi => {
            let doi = normalize_doi(input);
            let url = crate::api::crossref::bibtex_url(doi.as_str());
            Ok(AddFetch::Doi { doi, url })
        },
        InputType::Isbn => {
            let isbn = normalize_isbn(input);
            let key = cache_key("isbn", isbn.as_str());
            let url = crate::api::openlibrary::isbn_url(isbn.as_str());
            Ok(AddFetch::Isbn { isbn, key, url })
        },
        InputType::Search => Ok(AddFetch::Search),
        _ => Err(crate::api::cat3("Cannot fetch BibTeX for: ", input,
            "\nProvide an arXiv ID, DOI, ISBN, or a search query")),
    }
}

/// The title of an entry, empty when it has none.
pub open spec fn title_of(e: BibV) -> Seq<char> {
    match field_value(e.fields, "title"@) {
        Some(t) => t,
        None => seq![],
    }
}

/// Whether two titles are the same ignoring case and runs of whitespace.
pub open spec fn same_title(a: Seq<char>, b: Seq<char>) -> bool {
    words(lowercase(a)) == words(lowercase(b))
}

/// The first entry, from `i` on, whose key is `key`.
pub open spec fn key_index_from(es: Seq<BibV>, key: Seq<char>, i: int) -> Option<int>
    decreases es.len() - i,
{
    if i < 0 || i >= es.len() {
        None
    } else if es[i].key == key {
        Some(i)
    } else {
        key_index_from(es, key, i + 1)
    }
}

/// Whether two entries are the same paper: they share an `eprint` or a
/// `doi` (trimmed and lower-cased), as duplicates are found by `lit clean`.
pub open spec fn same_paper(a: BibV, b: BibV) -> bool {
    ||| (dup_norm(a.fields, "eprint"@) is Some && dup_norm(a.fields, "eprint"@) == dup_norm(b.fields, "eprint"@))
    ||| (dup_norm(a.fields, "doi"@) is Some && dup_norm(a.fields, "doi"@) == dup_norm(b.fields, "doi"@))
}

/// The first entry, from `i` on, that is the same paper as `e`.
pub open spec fn paper_index_from(es: Seq<BibV>, e: BibV, i: int) -> Option<int>
    decreases es.len() - i,
{
    if i < 0 || i >= es.len() {
        None
    } else if same_paper(es[i], e) {
        Some(i)
    } else {
        paper_index_from(es, e, i + 1)
    }
}

/// Where an incoming entry goes in a `.bib` file.
#[derive(Debug, PartialEq, Eq)]
pub enum UpsertPlan {
    /// In place of the entry at this position, which has the same key.
    Replace(usize),
    /// At the end of the file.
    Append,
    /// Nowhere: the paper is already there under this key.
    AlreadyPresent(String),
}

/// The view of an [`UpsertPlan`].
pub enum UpsertPlanV {
    Replace(int),
    Append,
    AlreadyPresent(Seq<char>),
}

/// The view of a plan.
pub open spec fn plan_view(p: UpsertPlan) -> UpsertPlanV {
    match p {
        UpsertPlan::Replace(i) => UpsertPlanV::Replace(i as int),
        UpsertPlan::Append => UpsertPlanV::Append,
        UpsertPlan::AlreadyPresent(k) => UpsertPlanV::AlreadyPresent(k@),
    }
}

/// The error for an incoming entry whose key already names another paper.
pub open spec fn collision_message(key: Seq<char>, old_title: Seq<char>, new_title: Seq<char>) -> Seq<char> {
    "citekey '"@ + key + "' already names \""@ + old_title + "\"; the new entry is \""@ + new_title
        + "\". Pass --key to give it another key, or --force to overwrite it."@
}

/// Where an incoming entry goes among the entries of a `.bib` file: over
/// the entry with its key when that is the same paper by title (or with
/// `force`), else an error naming both titles; with a new key, nowhere when
/// the paper is already there under another key (unless `force`), else at
/// the end.
pub open spec fn upsert_outcome(es: Seq<BibV>, e: BibV, force: bool) -> Result<UpsertPlanV, Seq<char>> {
    match key_index_from(es, e.key, 0) {
        Some(i) => if force || same_title(title_of(es[i]), title_of(e)) {
            Ok(UpsertPlanV::Replace(i))
        } else {
            Err(collision_message(e.key, title_of(es[i]), title_of(e)))
        },
        None => match paper_index_from(es, e, 0) {
            Some(j) => if force { Ok(UpsertPlanV::Append) } else { Ok(UpsertPlanV::AlreadyPresent(es[j].key)) },
            None => Ok(UpsertPlanV::Append),
        },
    }
}

fn title_exec(e: &BibEntry) -> (r: Vec<char>)
    ensures
        r@ == title_of(e@),
{
    proof { reveal_strlit("title"); }
    match e.get_field("title") {
        Some(t) => str_chars(t),
        None => Vec::new(),
    }
}

fn same_title_exec(a: &Vec<char>, b: &Vec<char>) -> (r: bool)
    ensures
        r == same_title(a@, b@),
{
    let wa = split_words(lowercase_chars(a.as_slice()).as_slice());
    let wb = split_words(lowercase_chars(b.as_slice()).as_slice());
    let ghost sa = words(lowercase(a@));
    let ghost sb = words(lowercase(b@));
    if wa.len() != wb.len() {
        assert(sa.len() != sb.len());
        return false;
    }
    let mut i: usize = 0;
    while i < wa.len()
        invariant
            i <= wa@.len(),
            wa@.len() == wb@.len(),
            sa == words(lowercase(a@)),
            sb == words(lowercase(b@)),
            wa@.len() == sa.len(),
            wb@.len() == sb.len(),
            forall|k: int| 0 <= k < wa@.len() ==> (#[trigger] wa@[k])@ == sa[k],
            forall|k: int| 0 <= k < wb@.len() ==> (#[trigger] wb@[k])@ == sb[k],
            forall|k: int| 0 <= k < i ==> sa[k] == sb[k],
        decreases wa@.len() - i,
    {
        if !crate::text::chars_eq(wa[i].as_slice(), wb[i].as_slice()) {
            assert(wa@[i as int]@ == sa[i as int]);
            assert(wb@[i as int]@ == sb[i as int]);
            assert(sa[i as int] != sb[i as int]);
            assert(sa != sb);
            return false;
        }
        i = i + 1;
    }
    assert(sa =~= sb);
    true
}

fn same_paper_exec(a: &BibEntry, b: &BibEntry) -> (r: bool)
    ensures
        r == same_paper(a@, b@),
{
    proof { reveal_strlit("eprint"); reveal_strlit("doi"); }
    let ea = crate::cmd::clean::dup_norm_exec(a, "eprint");
    let eb = crate::cmd::clean::dup_norm_exec(b, "eprint");
    let e = match (&ea, &eb) {
        (Some(x), Some(y)) => crate::text::str_eq(x.as_str(), y.as_str()),
        _ => false,
    };
    if e {
        return true;
    }
    let da = crate::cmd::clean::dup_norm_exec(a, "doi");
    let db = crate::cmd::clean::dup_norm_exec(b, "doi");
    match (&da, &db) {
        (Some(x), Some(y)) => crate::text::str_eq(x.as_str(), y.as_str()),
        _ => false,
    }
}

fn collision_exec(key: &str, old_title: &Vec<char>, new_title: &Vec<char>) -> (r: String)
    ensures
        r@ == collision_message(key@, old_title@, new_title@),
{
    let mut v = str_chars("citekey '");
    push_str(&mut v, key);
    push_str(&mut v, "' already names \"");
    push_all(&mut v, old_title.as_slice());
    push_str(&mut v, "\"; the new entry is \"");
    push_all(&mut v, new_title.as_slice());
    push_str(&mut v, "\". Pass --key to give it another key, or --force to overwrite it.");
    string_from_chars(v.as_slice())
}

fn key_index(entries: &Vec<BibEntry>, key: &str) -> (r: Option<usize>)
    ensures
        match key_index_from(entries_view(entries@), key@, 0) {
            Some(i) => r matches Some(k) && k as int == i && i < entries@.len(),
            None => r is None,
        },
{
    let ghost es = entries_view(entries@);
    let mut i: usize = 0;
    while i < entries.len()
        invariant
            i <= entries@.len(),
            es == entries_view(entries@),
            key_index_from(es, key@, 0) == key_index_from(es, key@, i as int),
        decreases entries@.len() - i,
    {
        assert(es[i as int] == entries@[i as int]@);
        if crate::text::str_eq(entries[i].key.as_str(), key) {
            return Some(i);
        }
        i = i + 1;
    }
    None
}

fn paper_index(entries: &Vec<BibEntry>, incoming: &BibEntry) -> (r: Option<usize>)
    ensures
        match paper_index_from(entries_view(entries@), incoming@, 0) {
            Some(i) => r matches Some(k) && k as int == i && i < entries@.len(),
            None => r is None,
        },
{
    let ghost es = entries_view(entries@);
    let mut j: usize = 0;
    while j < entries.len()
        invariant
            j <= entries@.len(),
            es == entries_view(entries@),
            paper_index_from(es, incoming@, 0) == paper_index_from(es, incoming@, j as int),
        decreases entries@.len() - j,
    {
        assert(es[j as int] == entries@[j as int]@);
        if same_paper_exec(&entries[j], incoming) {
            return Some(j);
        }
        j = j + 1;
    }
    None
}

/// Decide where an incoming entry goes among the entries of a `.bib` file,
/// guarding a key that already names a different paper.
pub fn upsert_plan(entries: &Vec<BibEntry>, incoming: &BibEntry, force: bool) -> (r: Result<UpsertPlan, String>)
    ensures
        match upsert_outcome(entries_view(entries@), incoming@, force) {
            Ok(p) => r matches Ok(q) && plan_view(q) == p,
            Err(m) => r matches Err(e) && e@ == m,
        },
{
    let ghost es = entries_view(entries@);
    match key_index(entries, incoming.key.as_str()) {
        Some(i) => {
            assert(es[i as int] == entries@[i as int]@);
            let old_t = title_exec(&entries[i]);
            let new_t = title_exec(incoming);
            if force || same_title_exec(&old_t, &new_t) {
                Ok(UpsertPlan::Replace(i))
            } else {
                Err(collision_exec(incoming.key.as_str(), &old_t, &new_t))
            }
        },
        None => match paper_index(entries, incoming) {
            Some(j) => {
                assert(es[j as int] == entries@[j as int]@);
                if force {
                    Ok(UpsertPlan::Append)
                } else {
                    Ok(UpsertPlan::AlreadyPresent(entries[j].key.as_str().to_owned()))
                }
            },
            None => Ok(UpsertPlan::Append),
        },
    }
}

} // verus!
