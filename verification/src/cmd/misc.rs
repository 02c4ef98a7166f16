//! `@misc` entries for works without an arXiv ID or DOI (blog posts, forum
//! posts, technical reports), and the `source.yaml` of their artifacts.
use vstd::prelude::*;
use crate::api::strs_view;
use crate::cmd::add::field_line;
use crate::cmd::source::quotes_escaped;
use crate::text::{join, join_strings, push_all, push_str, replace_str, str_chars, string_from_chars};

pub use crate::cmd::add::AddResult;

verus! {

/// Parameters for a `@misc` BibTeX entry.
#[derive(Debug)]
pub struct MiscParams {
    /// BibTeX citation key (e.g. "chan2022causal").
    pub citekey: String,
    /// Full title of the work.
    pub title: String,
    /// Author names in "First Last" format.
    pub authors: Vec<String>,
    /// Publication year.
    pub year: String,
    /// Where the work is published (e.g. `\url{https://...}`).
    pub howpublished: Option<String>,
    /// Optional note field.
    pub note: Option<String>,
}

/// The lines of an optional field, with the separator before it.
pub open spec fn opt_line(name: Seq<char>, v: Option<Seq<char>>) -> Seq<char> {
    match v {
        Some(x) => ",\n"@ + field_line(name, x),
        None => seq![],
    }
}

/// The `@misc` entry for a work: title, authors joined by ` and `, year,
/// then howpublished and note when given.
pub open spec fn misc_bibtex(key: Seq<char>, title: Seq<char>, authors: Seq<Seq<char>>, year: Seq<char>, howpublished: Option<Seq<char>>, note: Option<Seq<char>>) -> Seq<char> {
    "@misc{"@ + key + ",\n"@ + field_line("title"@, title) + ",\n"@ + field_line("author"@, join(authors, " and "@))
        + ",\n"@ + field_line("year"@, year) + opt_line("howpublished"@, howpublished) + opt_line("note"@, note) + ",\n}"@
}

fn push_line(v: &mut Vec<char>, name: &str, value: &str)
    ensures
        final(v)@ == old(v)@ + field_line(name@, value@),
{
    push_str(v, "  ");
    push_str(v, name);
    push_str(v, " = {");
    push_str(v, value);
    push_str(v, "}");
    proof {
        reveal_strlit("  ");
        reveal_strlit(" = {");
        reveal_strlit("}");
    }
    assert(v@ =~= old(v)@ + field_line(name@, value@));
}

fn push_opt_line(v: &mut Vec<char>, name: &str, value: &Option<String>)
    ensures
        final(v)@ == old(v)@ + opt_line(name@, crate::api::opt_view(*value)),
{
    match value {
        Some(x) => {
            let ghost a = v@;
            push_str(v, ",\n");
            push_line(v, name, x.as_str());
            assert(v@ =~= a + (",\n"@ + field_line(name@, x@)));
        },
        None => {
            assert(v@ =~= v@ + Seq::<char>::empty());
        },
    }
}

/// Generate the `@misc` BibTeX entry of a work, with its key.
pub fn misc_entry(params: &MiscParams) -> (r: AddResult)
    ensures
        r.entry_key@ == params.citekey@,
        r.bib_text@ == misc_bibtex(params.citekey@, params.title@, strs_view(params.authors@), params.year@,
            crate::api::opt_view(params.howpublished), crate::api::opt_view(params.note)),
{
    assert(params.authors@.map_values(|a: String| a@) =~= strs_view(params.authors@));
    let authors = join_strings(params.authors.as_slice(), " and ");
    let mut v: Vec<char> = Vec::new();
    push_str(&mut v, "@misc{");
    push_str(&mut v, params.citekey.as_str());
    push_str(&mut v, ",\n");
    push_line(&mut v, "title", params.title.as_str());
    push_str(&mut v, ",\n");
    push_line(&mut v, "author", authors.as_str());
    push_str(&mut v, ",\n");
    push_line(&mut v, "year", params.year.as_str());
    push_opt_line(&mut v, "howpublished", &params.howpublished);
    push_opt_line(&mut v, "note", &params.note);
    push_str(&mut v, ",\n}");
    AddResult { entry_key: params.citekey.clone(), bib_text: string_from_chars(v.as_slice()) }
}

/// An optional quoted line of `source.yaml`.
pub open spec fn yaml_opt(name: Seq<char>, v: Option<Seq<char>>) -> Seq<char> {
    match v {
        Some(x) => name + ": \""@ + quotes_escaped(x) + "\"\n"@,
        None => seq![],
    }
}

/// The `source.yaml` of a work's artifact.
pub open spec fn misc_source_yaml(title: Seq<char>, authors: Seq<Seq<char>>, year: Seq<char>, howpublished: Option<Seq<char>>, note: Option<Seq<char>>, retrieved: Seq<char>) -> Seq<char> {
    "title: \""@ + quotes_escaped(title) + "\"\n"@ + "authors: \""@ + quotes_escaped(join(authors, " and "@)) + "\"\n"@
        + "year: "@ + year + "\n"@ + yaml_opt("howpublished"@, howpublished) + yaml_opt("note"@, note)
        + "retrieved: \""@ + retrieved + "\"\n"@
}

fn push_yaml_opt(v: &mut Vec<char>, name: &str, value: &Option<String>)
    ensures
        final(v)@ == old(v)@ + yaml_opt(name@, crate::api::opt_view(*value)),
{
    proof {
        reveal_strlit("\"");
    }
    match value {
        Some(x) => {
            let ghost a = v@;
            let e = replace_str(str_chars(x.as_str()).as_slice(), "\"", "\\\"");
            push_str(v, name);
            push_str(v, ": \"");
            push_all(v, e.as_slice());
            push_str(v, "\"\n");
            assert(v@ =~= a + yaml_opt(name@, Some(x@)));
        },
        None => {
            assert(v@ =~= v@ + Seq::<char>::empty());
        },
    }
}

/// Build the `source.yaml` of a work's artifact: quoted title and authors,
/// bare year, howpublished and note when given, quoted retrieval date.
pub fn build_misc_source_yaml(params: &MiscParams, retrieved: &str) -> (r: String)
    ensures
        r@ == misc_source_yaml(params.title@, strs_view(params.authors@), params.year@,
            crate::api::opt_view(params.howpublished), crate::api::opt_view(params.note), retrieved@),
{
    proof {
        reveal_strlit("\"");
    }
    assert(params.authors@.map_values(|a: String| a@) =~= strs_view(params.authors@));
    let authors = join_strings(params.authors.as_slice(), " and ");
    let t = replace_str(str_chars(params.title.as_str()).as_slice(), "\"", "\\\"");
    let a = replace_str(str_chars(authors.as_str()).as_slice(), "\"", "\\\"");
    let mut v: Vec<char> = Vec::new();
    push_str(&mut v, "title: \"");
    push_all(&mut v, t.as_slice());
    push_str(&mut v, "\"\n");
    push_str(&mut v, "authors: \"");
    push_all(&mut v, a.as_slice());
    push_str(&mut v, "\"\n");
    push_str(&mut v, "year: ");
    push_str(&mut v, params.year.as_str());
    push_str(&mut v, "\n");
    push_yaml_opt(&mut v, "howpublished", &params.howpublished);
    push_yaml_opt(&mut v, "note", &params.note);
    push_str(&mut v, "retrieved: \"");
    push_str(&mut v, retrieved);
    push_str(&mut v, "\"\n");
    string_from_chars(v.as_slice())
}

} // verus!
