//! BibTeX sanitization.
//!
//! Every entry written by the tool goes through `sanitize_bibtex`.
//!
//! Transformations, per field value:
//! - HTML entities (named and numeric) decoded, round after round until
//!   none is left, then LaTeX-escaped:
//!   `&` -> `\&`, `<`/`>` -> `\textless{}`/`\textgreater{}`.
//! - Unicode en/em dashes -> `--`/`---`.
//! - `month` field normalized to bare three-letter macros (`month = jun`);
//!   unmappable values pass through unchanged with a warning.
//!
//! Exemptions: `url` and `doi` fields are untouched; `\url{...}` spans inside
//! other fields are untouched.
//!
//! The pass is meant to be idempotent: its outputs contain none of its
//! inputs' trigger patterns. `lemma_entities_decoded_fixed` shows that no
//! entity survives decoding and `lemma_latex_escape_idempotent` that escaping
//! escaped text changes nothing.
use vstd::prelude::*;
use vstd::utf8::is_scalar;
use crate::text::{contains, find_from, first_occurrence, lemma_first_occurrence, join, str_eq};
use crate::bibtex::{BibEntry, BibV, fields_view, entries_view, parse_bib, parse_bib_file};
use crate::text::{
    eq_str, lowercase, lowercase_chars, push_all, push_str, replace_all, replace_str, slice_vec,
    str_chars, string_from_chars, trim, trim_vec,
};

verus! {

/// The twelve bare BibTeX month macros.
pub open spec fn month_macros() -> Seq<Seq<char>> {
    seq!["jan"@, "feb"@, "mar"@, "apr"@, "may"@, "jun"@, "jul"@, "aug"@, "sep"@, "oct"@, "nov"@, "dec"@]
}

/// Returns true if `value` is a bare three-letter month macro.
pub fn is_month_macro(value: &str) -> (r: bool)
    ensures
        r == month_macros().contains(value@),
{
    let list: [&str; 12] = ["jan", "feb", "mar", "apr", "may", "jun", "jul", "aug", "sep", "oct", "nov", "dec"];
    let ghost ls = list@.map_values(|p: &str| p@);
    assert(ls =~= month_macros());
    let vc = str_chars(value);
    let mut i: usize = 0;
    while i < 12
        invariant
            i <= 12,
            vc@ == value@,
            ls == list@.map_values(|p: &str| p@),
            ls == month_macros(),
            forall|j: int| 0 <= j < i ==> ls[j] != value@,
        decreases 12 - i,
    {
        if eq_str(vc.as_slice(), list[i]) {
            assert(ls[i as int] == value@);
            return true;
        }
        i = i + 1;
    }
    proof {
        if month_macros().contains(value@) {
            let j = choose|j: int| 0 <= j < month_macros().len() && month_macros()[j] == value@;
            assert(ls[j] != value@);
        }
    }
    false
}

/// Named HTML entities decoded, in a fixed order of replacements.
pub open spec fn html_decoded(s: Seq<char>) -> Seq<char> {
    let a = replace_all(s, "&amp;"@, "&"@);
    let b = replace_all(a, "&lt;"@, "<"@);
    let c = replace_all(b, "&gt;"@, ">"@);
    let d = replace_all(c, "&quot;"@, "\""@);
    let e = replace_all(d, "&#39;"@, "'"@);
    let f = replace_all(e, "&#x27;"@, "'"@);
    replace_all(f, "&apos;"@, "'"@)
}

fn html_decode_chars(s: &[char]) -> (r: Vec<char>)
    ensures
        r@ == html_decoded(s@),
{
    proof {
        reveal_strlit("&amp;");
        reveal_strlit("&lt;");
        reveal_strlit("&gt;");
        reveal_strlit("&quot;");
        reveal_strlit("&#39;");
        reveal_strlit("&#x27;");
        reveal_strlit("&apos;");
    }
    let a = replace_str(s, "&amp;", "&");
    let b = replace_str(a.as_slice(), "&lt;", "<");
    let c = replace_str(b.as_slice(), "&gt;", ">");
    let d = replace_str(c.as_slice(), "&quot;", "\"");
    let e = replace_str(d.as_slice(), "&#39;", "'");
    let f = replace_str(e.as_slice(), "&#x27;", "'");
    replace_str(f.as_slice(), "&apos;", "'")
}

/// Decode common named HTML entities to their plain-text equivalents.
pub fn decode_html_entities(s: &str) -> (r: String)
    ensures
        r@ == html_decoded(s@),
{
    let c = str_chars(s);
    let d = html_decode_chars(c.as_slice());
    string_from_chars(d.as_slice())
}

/// Unicode em and en dashes replaced by `---` and `--`.
pub open spec fn dashes_normalized(s: Seq<char>) -> Seq<char> {
    replace_all(replace_all(s, seq!['\u{2014}'], "---"@), seq!['\u{2013}'], "--"@)
}

fn normalize_dashes_chars(s: &[char]) -> (r: Vec<char>)
    ensures
        r@ == dashes_normalized(s@),
{
    let mut em: Vec<char> = Vec::new();
    em.push('\u{2014}');
    let mut en: Vec<char> = Vec::new();
    en.push('\u{2013}');
    assert(em@ =~= seq!['\u{2014}']);
    assert(en@ =~= seq!['\u{2013}']);
    let three = str_chars("---");
    let two = str_chars("--");
    let a = crate::text::replace_chars(s, em.as_slice(), three.as_slice());
    crate::text::replace_chars(a.as_slice(), en.as_slice(), two.as_slice())
}

/// LaTeX escape of one character, given whether the character before it
/// was a backslash.
pub open spec fn escape_char(c: char, after_backslash: bool) -> Seq<char> {
    if c == '&' && !after_backslash {
        "\\&"@
    } else if c == '<' {
        "\\textless{}"@
    } else if c == '>' {
        "\\textgreater{}"@
    } else {
        seq![c]
    }
}

/// `&` (unless already escaped), `<` and `>` escaped for LaTeX.
pub open spec fn latex_escaped(s: Seq<char>) -> Seq<char>
    decreases s.len(),
{
    if s.len() == 0 {
        seq![]
    } else {
        latex_escaped(s.drop_last()) + escape_char(s.last(), s.len() >= 2 && s[s.len() - 2] == '\\')
    }
}

/// Text already in escaped form: no `<` or `>`, and every `&` right after
/// a backslash.
pub open spec fn escaped_form(s: Seq<char>) -> bool {
    forall|i: int| 0 <= i < s.len() ==> {
        &&& #[trigger] s[i] != '<'
        &&& s[i] != '>'
        &&& (s[i] == '&' ==> i >= 1 && s[i - 1] == '\\')
    }
}

proof fn lemma_escaped_form_fixed(s: Seq<char>)
    requires
        escaped_form(s),
    ensures
        latex_escaped(s) == s,
    decreases s.len(),
{
    if s.len() > 0 {
        let d = s.drop_last();
        assert forall|i: int| 0 <= i < d.len() implies {
            &&& #[trigger] d[i] != '<'
            &&& d[i] != '>'
            &&& (d[i] == '&' ==> i >= 1 && d[i - 1] == '\\')
        } by {
            assert(d[i] == s[i]);
            if i >= 1 {
                assert(d[i - 1] == s[i - 1]);
            }
        }
        lemma_escaped_form_fixed(d);
        let c = s.last();
        assert(s[s.len() - 1] == c);
        assert(escape_char(c, s.len() >= 2 && s[s.len() - 2] == '\\') == seq![c]);
        assert(d + seq![c] =~= s);
    }
}

proof fn lemma_escaped_is_escaped_form(s: Seq<char>)
    ensures
        escaped_form(latex_escaped(s)),
        s.len() > 0 && s.last() == '\\' ==> latex_escaped(s).len() > 0 && latex_escaped(s).last() == '\\',
    decreases s.len(),
{
    reveal_strlit("\\&");
    reveal_strlit("\\textless{}");
    reveal_strlit("\\textgreater{}");
    if s.len() > 0 {
        let d = s.drop_last();
        lemma_escaped_is_escaped_form(d);
        let l = latex_escaped(d);
        let ab = s.len() >= 2 && s[s.len() - 2] == '\\';
        let e = escape_char(s.last(), ab);
        let r = latex_escaped(s);
        assert(r == l + e);
        if ab {
            assert(d.last() == s[s.len() - 2]);
        }
        assert forall|i: int| 0 <= i < r.len() implies {
            &&& #[trigger] r[i] != '<'
            &&& r[i] != '>'
            &&& (r[i] == '&' ==> i >= 1 && r[i - 1] == '\\')
        } by {
            if i < l.len() {
                assert(r[i] == l[i]);
                if i >= 1 {
                    assert(r[i - 1] == l[i - 1]);
                }
            } else {
                let k = i - l.len();
                assert(r[i] == e[k]);
                if k >= 1 {
                    assert(r[i - 1] == e[k - 1]);
                } else if i >= 1 {
                    assert(r[i - 1] == l[l.len() - 1]);
                }
            }
        }
    }
}

/// Escaping for LaTeX is idempotent: escaping escaped text changes nothing.
pub proof fn lemma_latex_escape_idempotent(s: Seq<char>)
    ensures
        latex_escaped(latex_escaped(s)) == latex_escaped(s),
{
    lemma_escaped_is_escaped_form(s);
    lemma_escaped_form_fixed(latex_escaped(s));
}

fn latex_escape_chars(s: &[char]) -> (r: Vec<char>)
    ensures
        r@ == latex_escaped(s@),
{
    let mut out: Vec<char> = Vec::new();
    let mut prev_backslash = false;
    let mut i: usize = 0;
    while i < s.len()
        invariant
            i <= s.len(),
            out@ == latex_escaped(s@.subrange(0, i as int)),
            prev_backslash == (i >= 1 && s@[i - 1] == '\\'),
        decreases s.len() - i,
    {
        let c = s[i];
        let ghost before = out@;
        if c == '&' && !prev_backslash {
            push_str(&mut out, "\\&");
        } else if c == '<' {
            push_str(&mut out, "\\textless{}");
        } else if c == '>' {
            push_str(&mut out, "\\textgreater{}");
        } else {
            out.push(c);
        }
        proof {
            let t = s@.subrange(0, i + 1);
            assert(t.drop_last() =~= s@.subrange(0, i as int));
            assert(t.last() == c);
            assert(t.len() >= 2 ==> t[t.len() - 2] == s@[i - 1]);
            assert(out@ =~= before + escape_char(c, prev_backslash));
        }
        prev_backslash = c == '\\';
        i = i + 1;
    }
    assert(s@.subrange(0, s@.len() as int) =~= s@);
    out
}

/// `s` without its trailing dots (`str::trim_end_matches('.')`).
pub open spec fn trim_end_dots(s: Seq<char>) -> Seq<char>
    decreases s.len(),
{
    if s.len() > 0 && s.last() == '.' {
        trim_end_dots(s.drop_last())
    } else {
        s
    }
}

/// Bare month macro of a normalized (trimmed, dot-stripped, lower-cased)
/// month value.
pub open spec fn month_of_normalized(v: Seq<char>) -> Option<Seq<char>> {
    if v == "january"@ || v == "jan"@ { Some("jan"@) }
    else if v == "february"@ || v == "feb"@ { Some("feb"@) }
    else if v == "march"@ || v == "mar"@ { Some("mar"@) }
    else if v == "april"@ || v == "apr"@ { Some("apr"@) }
    else if v == "may"@ { Some("may"@) }
    else if v == "june"@ || v == "jun"@ { Some("jun"@) }
    else if v == "july"@ || v == "jul"@ { Some("jul"@) }
    else if v == "august"@ || v == "aug"@ { Some("aug"@) }
    else if v == "september"@ || v == "sept"@ || v == "sep"@ { Some("sep"@) }
    else if v == "october"@ || v == "oct"@ { Some("oct"@) }
    else if v == "november"@ || v == "nov"@ { Some("nov"@) }
    else if v == "december"@ || v == "dec"@ { Some("dec"@) }
    else { None }
}

/// Bare month macro of a month value, if recognizable: full names,
/// three-letter macros and `Sept`, case-insensitively, ignoring surrounding
/// whitespace and trailing dots.
pub open spec fn month_of(value: Seq<char>) -> Option<Seq<char>> {
    month_of_normalized(lowercase(trim_end_dots(trim(value))))
}

/// The English month names, January to December, lower-cased.
pub open spec fn month_names() -> Seq<Seq<char>> {
    seq!["january"@, "february"@, "march"@, "april"@, "may"@, "june"@, "july"@, "august"@, "september"@, "october"@, "november"@, "december"@]
}

/// Every month value that reads, once trimmed, stripped of trailing dots
/// and lower-cased, as the full name of the `k`-th month or as its macro
/// (`March`, ` MARCH `, `mar.`) maps to that month's macro.
pub proof fn lemma_month_names_map(value: Seq<char>, k: int)
    requires
        0 <= k < 12,
        lowercase(trim_end_dots(trim(value))) == month_names()[k]
            || lowercase(trim_end_dots(trim(value))) == month_macros()[k],
    ensures
        month_of(value) == Some(month_macros()[k]),
{
    reveal_strlit("apr");
    reveal_strlit("april");
    reveal_strlit("aug");
    reveal_strlit("august");
    reveal_strlit("dec");
    reveal_strlit("december");
    reveal_strlit("feb");
    reveal_strlit("february");
    reveal_strlit("jan");
    reveal_strlit("january");
    reveal_strlit("jul");
    reveal_strlit("july");
    reveal_strlit("jun");
    reveal_strlit("june");
    reveal_strlit("mar");
    reveal_strlit("march");
    reveal_strlit("may");
    reveal_strlit("nov");
    reveal_strlit("november");
    reveal_strlit("oct");
    reveal_strlit("october");
    reveal_strlit("sep");
    reveal_strlit("sept");
    reveal_strlit("september");
    let v = lowercase(trim_end_dots(trim(value)));
    if k == 0 {
        assert(month_names()[0] == "january"@);
        assert(month_macros()[0] == "jan"@);
        if v == "jan"@ {
            assert(v.len() == 3);
        }
        if v == "january"@ {
            assert(v.len() == 7);
        }
    }
    if k == 1 {
        assert(month_names()[1] == "february"@);
        assert(month_macros()[1] == "feb"@);
        if v == "feb"@ {
            assert(v.len() == 3);
            assert(v != "january"@) by { if v == "january"@ { assert(v.len() == 3); } }
            assert(v != "jan"@) by { if v == "jan"@ { assert(v[0] == "jan"@[0]); } }
        }
        if v == "february"@ {
            assert(v.len() == 8);
            assert(v != "january"@) by { if v == "january"@ { assert(v.len() == 8); } }
            assert(v != "jan"@) by { if v == "jan"@ { assert(v.len() == 8); } }
        }
    }
    if k == 2 {
        assert(month_names()[2] == "march"@);
        assert(month_macros()[2] == "mar"@);
        if v == "mar"@ {
            assert(v.len() == 3);
            assert(v != "january"@) by { if v == "january"@ { assert(v.len() == 3); } }
            assert(v != "jan"@) by { if v == "jan"@ { assert(v[0] == "jan"@[0]); } }
            assert(v != "february"@) by { if v == "february"@ { assert(v.len() == 3); } }
            assert(v != "feb"@) by { if v == "feb"@ { assert(v[0] == "feb"@[0]); } }
        }
        if v == "march"@ {
            assert(v.len() == 5);
            assert(v != "january"@) by { if v == "january"@ { assert(v.len() == 5); } }
            assert(v != "jan"@) by { if v == "jan"@ { assert(v.len() == 5); } }
            assert(v != "february"@) by { if v == "february"@ { assert(v.len() == 5); } }
            assert(v != "feb"@) by { if v == "feb"@ { assert(v.len() == 5); } }
        }
    }
    if k == 3 {
        assert(month_names()[3] == "april"@);
        assert(month_macros()[3] == "apr"@);
        if v == "apr"@ {
            assert(v.len() == 3);
            assert(v != "january"@) by { if v == "january"@ { assert(v.len() == 3); } }
            assert(v != "jan"@) by { if v == "jan"@ { assert(v[0] == "jan"@[0]); } }
            assert(v != "february"@) by { if v == "february"@ { assert(v.len() == 3); } }
            assert(v != "feb"@) by { if v == "feb"@ { assert(v[0] == "feb"@[0]); } }
            assert(v != "march"@) by { if v == "march"@ { assert(v.len() == 3); } }
            assert(v != "mar"@) by { if v == "mar"@ { assert(v[0] == "mar"@[0]); } }
        }
        if v == "april"@ {
            assert(v.len() == 5);
            assert(v != "january"@) by { if v == "january"@ { assert(v.len() == 5); } }
            assert(v != "jan"@) by { if v == "jan"@ { assert(v.len() == 5); } }
            assert(v != "february"@) by { if v == "february"@ { assert(v.len() == 5); } }
            assert(v != "feb"@) by { if v == "feb"@ { assert(v.len() == 5); } }
            assert(v != "march"@) by { if v == "march"@ { assert(v[0] == "march"@[0]); } }
            assert(v != "mar"@) by { if v == "mar"@ { assert(v.len() == 5); } }
        }
    }
    if k == 4 {
        assert(month_names()[4] == "may"@);
        assert(month_macros()[4] == "may"@);
        if v == "may"@ {
            assert(v.len() == 3);
            assert(v != "january"@) by { if v == "january"@ { assert(v.len() == 3); } }
            assert(v != "jan"@) by { if v == "jan"@ { assert(v[0] == "jan"@[0]); } }
            assert(v != "february"@) by { if v == "february"@ { assert(v.len() == 3); } }
            assert(v != "feb"@) by { if v == "feb"@ { assert(v[0] == "feb"@[0]); } }
            assert(v != "march"@) by { if v == "march"@ { assert(v.len() == 3); } }
            assert(v != "mar"@) by { if v == "mar"@ { assert(v[2] == "mar"@[2]); } }
            assert(v != "april"@) by { if v == "april"@ { assert(v.len() == 3); } }
            assert(v != "apr"@) by { if v == "apr"@ { assert(v[0] == "apr"@[0]); } }
        }
    }
    if k == 5 {
        assert(month_names()[5] == "june"@);
        assert(month_macros()[5] == "jun"@);
        if v == "jun"@ {
            assert(v.len() == 3);
            assert(v != "january"@) by { if v == "january"@ { assert(v.len() == 3); } }
            assert(v != "jan"@) by { if v == "jan"@ { assert(v[1] == "jan"@[1]); } }
            assert(v != "february"@) by { if v == "february"@ { assert(v.len() == 3); } }
            assert(v != "feb"@) by { if v == "feb"@ { assert(v[0] == "feb"@[0]); } }
            assert(v != "march"@) by { if v == "march"@ { assert(v.len() == 3); } }
            assert(v != "mar"@) by { if v == "mar"@ { assert(v[0] == "mar"@[0]); } }
            assert(v != "april"@) by { if v == "april"@ { assert(v.len() == 3); } }
            assert(v != "apr"@) by { if v == "apr"@ { assert(v[0] == "apr"@[0]); } }
            assert(v != "may"@) by { if v == "may"@ { assert(v[0] == "may"@[0]); } }
        }
        if v == "june"@ {
            assert(v.len() == 4);
            assert(v != "january"@) by { if v == "january"@ { assert(v.len() == 4); } }
            assert(v != "jan"@) by { if v == "jan"@ { assert(v.len() == 4); } }
            assert(v != "february"@) by { if v == "february"@ { assert(v.len() == 4); } }
            assert(v != "feb"@) by { if v == "feb"@ { assert(v.len() == 4); } }
            assert(v != "march"@) by { if v == "march"@ { assert(v.len() == 4); } }
            assert(v != "mar"@) by { if v == "mar"@ { assert(v.len() == 4); } }
            assert(v != "april"@) by { if v == "april"@ { assert(v.len() == 4); } }
            assert(v != "apr"@) by { if v == "apr"@ { assert(v.len() == 4); } }
            assert(v != "may"@) by { if v == "may"@ { assert(v.len() == 4); } }
        }
    }
    if k == 6 {
        assert(month_names()[6] == "july"@);
        assert(month_macros()[6] == "jul"@);
        if v == "jul"@ {
            assert(v.len() == 3);
            assert(v != "january"@) by { if v == "january"@ { assert(v.len() == 3); } }
            assert(v != "jan"@) by { if v == "jan"@ { assert(v[1] == "jan"@[1]); } }
            assert(v != "february"@) by { if v == "february"@ { assert(v.len() == 3); } }
            assert(v != "feb"@) by { if v == "feb"@ { assert(v[0] == "feb"@[0]); } }
            assert(v != "march"@) by { if v == "march"@ { assert(v.len() == 3); } }
            assert(v != "mar"@) by { if v == "mar"@ { assert(v[0] == "mar"@[0]); } }
            assert(v != "april"@) by { if v == "april"@ { assert(v.len() == 3); } }
            assert(v != "apr"@) by { if v == "apr"@ { assert(v[0] == "apr"@[0]); } }
            assert(v != "may"@) by { if v == "may"@ { assert(v[0] == "may"@[0]); } }
            assert(v != "june"@) by { if v == "june"@ { assert(v.len() == 3); } }
            assert(v != "jun"@) by { if v == "jun"@ { assert(v[2] == "jun"@[2]); } }
        }
        if v == "july"@ {
            assert(v.len() == 4);
            assert(v != "january"@) by { if v == "january"@ { assert(v.len() == 4); } }
            assert(v != "jan"@) by { if v == "jan"@ { assert(v.len() == 4); } }
            assert(v != "february"@) by { if v == "february"@ { assert(v.len() == 4); } }
            assert(v != "feb"@) by { if v == "feb"@ { assert(v.len() == 4); } }
            assert(v != "march"@) by { if v == "march"@ { assert(v.len() == 4); } }
            assert(v != "mar"@) by { if v == "mar"@ { assert(v.len() == 4); } }
            assert(v != "april"@) by { if v == "april"@ { assert(v.len() == 4); } }
            assert(v != "apr"@) by { if v == "apr"@ { assert(v.len() == 4); } }
            assert(v != "may"@) by { if v == "may"@ { assert(v.len() == 4); } }
            assert(v != "june"@) by { if v == "june"@ { assert(v[2] == "june"@[2]); } }
            assert(v != "jun"@) by { if v == "jun"@ { assert(v.len() == 4); } }
        }
    }
    if k == 7 {
        assert(month_names()[7] == "august"@);
        assert(month_macros()[7] == "aug"@);
        if v == "aug"@ {
            assert(v.len() == 3);
            assert(v != "january"@) by { if v == "january"@ { assert(v.len() == 3); } }
            assert(v != "jan"@) by { if v == "jan"@ { assert(v[0] == "jan"@[0]); } }
            assert(v != "february"@) by { if v == "february"@ { assert(v.len() == 3); } }
            assert(v != "feb"@) by { if v == "feb"@ { assert(v[0] == "feb"@[0]); } }
            assert(v != "march"@) by { if v == "march"@ { assert(v.len() == 3); } }
            assert(v != "mar"@) by { if v == "mar"@ { assert(v[0] == "mar"@[0]); } }
            assert(v != "april"@) by { if v == "april"@ { assert(v.len() == 3); } }
            assert(v != "apr"@) by { if v == "apr"@ { assert(v[1] == "apr"@[1]); } }
            assert(v != "may"@) by { if v == "may"@ { assert(v[0] == "may"@[0]); } }
            assert(v != "june"@) by { if v == "june"@ { assert(v.len() == 3); } }
            assert(v != "jun"@) by { if v == "jun"@ { assert(v[0] == "jun"@[0]); } }
            assert(v != "july"@) by { if v == "july"@ { assert(v.len() == 3); } }
            assert(v != "jul"@) by { if v == "jul"@ { assert(v[0] == "jul"@[0]); } }
        }
        if v == "august"@ {
            assert(v.len() == 6);
            assert(v != "january"@) by { if v == "january"@ { assert(v.len() == 6); } }
            assert(v != "jan"@) by { if v == "jan"@ { assert(v.len() == 6); } }
            assert(v != "february"@) by { if v == "february"@ { assert(v.len() == 6); } }
            assert(v != "feb"@) by { if v == "feb"@ { assert(v.len() == 6); } }
            assert(v != "march"@) by { if v == "march"@ { assert(v.len() == 6); } }
            assert(v != "mar"@) by { if v == "mar"@ { assert(v.len() == 6); } }
            assert(v != "april"@) by { if v == "april"@ { assert(v.len() == 6); } }
            assert(v != "apr"@) by { if v == "apr"@ { assert(v.len() == 6); } }
            assert(v != "may"@) by { if v == "may"@ { assert(v.len() == 6); } }
            assert(v != "june"@) by { if v == "june"@ { assert(v.len() == 6); } }
            assert(v != "jun"@) by { if v == "jun"@ { assert(v.len() == 6); } }
            assert(v != "july"@) by { if v == "july"@ { assert(v.len() == 6); } }
            assert(v != "jul"@) by { if v == "jul"@ { assert(v.len() == 6); } }
        }
    }
    if k == 8 {
        assert(month_names()[8] == "september"@);
        assert(month_macros()[8] == "sep"@);
        if v == "sep"@ {
            assert(v.len() == 3);
            assert(v != "january"@) by { if v == "january"@ { assert(v.len() == 3); } }
            assert(v != "jan"@) by { if v == "jan"@ { assert(v[0] == "jan"@[0]); } }
            assert(v != "february"@) by { if v == "february"@ { assert(v.len() == 3); } }
            assert(v != "feb"@) by { if v == "feb"@ { assert(v[0] == "feb"@[0]); } }
            assert(v != "march"@) by { if v == "march"@ { assert(v.len() == 3); } }
            assert(v != "mar"@) by { if v == "mar"@ { assert(v[0] == "mar"@[0]); } }
            assert(v != "april"@) by { if v == "april"@ { assert(v.len() == 3); } }
            assert(v != "apr"@) by { if v == "apr"@ { assert(v[0] == "apr"@[0]); } }
            assert(v != "may"@) by { if v == "may"@ { assert(v[0] == "may"@[0]); } }
            assert(v != "june"@) by { if v == "june"@ { assert(v.len() == 3); } }
            assert(v != "jun"@) by { if v == "jun"@ { assert(v[0] == "jun"@[0]); } }
            assert(v != "july"@) by { if v == "july"@ { assert(v.len() == 3); } }
            assert(v != "jul"@) by { if v == "jul"@ { assert(v[0] == "jul"@[0]); } }
            assert(v != "august"@) by { if v == "august"@ { assert(v.len() == 3); } }
            assert(v != "aug"@) by { if v == "aug"@ { assert(v[0] == "aug"@[0]); } }
        }
        if v == "september"@ {
            assert(v.len() == 9);
            assert(v != "january"@) by { if v == "january"@ { assert(v.len() == 9); } }
            assert(v != "jan"@) by { if v == "jan"@ { assert(v.len() == 9); } }
            assert(v != "february"@) by { if v == "february"@ { assert(v.len() == 9); } }
            assert(v != "feb"@) by { if v == "feb"@ { assert(v.len() == 9); } }
            assert(v != "march"@) by { if v == "march"@ { assert(v.len() == 9); } }
            assert(v != "mar"@) by { if v == "mar"@ { assert(v.len() == 9); } }
            assert(v != "april"@) by { if v == "april"@ { assert(v.len() == 9); } }
            assert(v != "apr"@) by { if v == "apr"@ { assert(v.len() == 9); } }
            assert(v != "may"@) by { if v == "may"@ { assert(v.len() == 9); } }
            assert(v != "june"@) by { if v == "june"@ { assert(v.len() == 9); } }
            assert(v != "jun"@) by { if v == "jun"@ { assert(v.len() == 9); } }
            assert(v != "july"@) by { if v == "july"@ { assert(v.len() == 9); } }
            assert(v != "jul"@) by { if v == "jul"@ { assert(v.len() == 9); } }
            assert(v != "august"@) by { if v == "august"@ { assert(v.len() == 9); } }
            assert(v != "aug"@) by { if v == "aug"@ { assert(v.len() == 9); } }
        }
    }
    if k == 9 {
        assert(month_names()[9] == "october"@);
        assert(month_macros()[9] == "oct"@);
        if v == "oct"@ {
            assert(v.len() == 3);
            assert(v != "january"@) by { if v == "january"@ { assert(v.len() == 3); } }
            assert(v != "jan"@) by { if v == "jan"@ { assert(v[0] == "jan"@[0]); } }
            assert(v != "february"@) by { if v == "february"@ { assert(v.len() == 3); } }
            assert(v != "feb"@) by { if v == "feb"@ { assert(v[0] == "feb"@[0]); } }
            assert(v != "march"@) by { if v == "march"@ { assert(v.len() == 3); } }
            assert(v != "mar"@) by { if v == "mar"@ { assert(v[0] == "mar"@[0]); } }
            assert(v != "april"@) by { if v == "april"@ { assert(v.len() == 3); } }
            assert(v != "apr"@) by { if v == "apr"@ { assert(v[0] == "apr"@[0]); } }
            assert(v != "may"@) by { if v == "may"@ { assert(v[0] == "may"@[0]); } }
            assert(v != "june"@) by { if v == "june"@ { assert(v.len() == 3); } }
            assert(v != "jun"@) by { if v == "jun"@ { assert(v[0] == "jun"@[0]); } }
            assert(v != "july"@) by { if v == "july"@ { assert(v.len() == 3); } }
            assert(v != "jul"@) by { if v == "jul"@ { assert(v[0] == "jul"@[0]); } }
            assert(v != "august"@) by { if v == "august"@ { assert(v.len() == 3); } }
            assert(v != "aug"@) by { if v == "aug"@ { assert(v[0] == "aug"@[0]); } }
            assert(v != "september"@) by { if v == "september"@ { assert(v.len() == 3); } }
            assert(v != "sept"@) by { if v == "sept"@ { assert(v.len() == 3); } }
            assert(v != "sep"@) by { if v == "sep"@ { assert(v[0] == "sep"@[0]); } }
        }
        if v == "october"@ {
            assert(v.len() == 7);
            assert(v != "january"@) by { if v == "january"@ { assert(v[0] == "january"@[0]); } }
            assert(v != "jan"@) by { if v == "jan"@ { assert(v.len() == 7); } }
            assert(v != "february"@) by { if v == "february"@ { assert(v.len() == 7); } }
            assert(v != "feb"@) by { if v == "feb"@ { assert(v.len() == 7); } }
            assert(v != "march"@) by { if v == "march"@ { assert(v.len() == 7); } }
            assert(v != "mar"@) by { if v == "mar"@ { assert(v.len() == 7); } }
            assert(v != "april"@) by { if v == "april"@ { assert(v.len() == 7); } }
            assert(v != "apr"@) by { if v == "apr"@ { assert(v.len() == 7); } }
            assert(v != "may"@) by { if v == "may"@ { assert(v.len() == 7); } }
            assert(v != "june"@) by { if v == "june"@ { assert(v.len() == 7); } }
            assert(v != "jun"@) by { if v == "jun"@ { assert(v.len() == 7); } }
            assert(v != "july"@) by { if v == "july"@ { assert(v.len() == 7); } }
            assert(v != "jul"@) by { if v == "jul"@ { assert(v.len() == 7); } }
            assert(v != "august"@) by { if v == "august"@ { assert(v.len() == 7); } }
            assert(v != "aug"@) by { if v == "aug"@ { assert(v.len() == 7); } }
            assert(v != "september"@) by { if v == "september"@ { assert(v.len() == 7); } }
            assert(v != "sept"@) by { if v == "sept"@ { assert(v.len() == 7); } }
            assert(v != "sep"@) by { if v == "sep"@ { assert(v.len() == 7); } }
        }
    }
    if k == 10 {
        assert(month_names()[10] == "november"@);
        assert(month_macros()[10] == "nov"@);
        if v == "nov"@ {
            assert(v.len() == 3);
            assert(v != "january"@) by { if v == "january"@ { assert(v.len() == 3); } }
            assert(v != "jan"@) by { if v == "jan"@ { assert(v[0] == "jan"@[0]); } }
            assert(v != "february"@) by { if v == "february"@ { assert(v.len() == 3); } }
            assert(v != "feb"@) by { if v == "feb"@ { assert(v[0] == "feb"@[0]); } }
            assert(v != "march"@) by { if v == "march"@ { assert(v.len() == 3); } }
            assert(v != "mar"@) by { if v == "mar"@ { assert(v[0] == "mar"@[0]); } }
            assert(v != "april"@) by { if v == "april"@ { assert(v.len() == 3); } }
            assert(v != "apr"@) by { if v == "apr"@ { assert(v[0] == "apr"@[0]); } }
            assert(v != "may"@) by { if v == "may"@ { assert(v[0] == "may"@[0]); } }
            assert(v != "june"@) by { if v == "june"@ { assert(v.len() == 3); } }
            assert(v != "jun"@) by { if v == "jun"@ { assert(v[0] == "jun"@[0]); } }
            assert(v != "july"@) by { if v == "july"@ { assert(v.len() == 3); } }
            assert(v != "jul"@) by { if v == "jul"@ { assert(v[0] == "jul"@[0]); } }
            assert(v != "august"@) by { if v == "august"@ { assert(v.len() == 3); } }
            assert(v != "aug"@) by { if v == "aug"@ { assert(v[0] == "aug"@[0]); } }
            assert(v != "september"@) by { if v == "september"@ { assert(v.len() == 3); } }
            assert(v != "sept"@) by { if v == "sept"@ { assert(v.len() == 3); } }
            assert(v != "sep"@) by { if v == "sep"@ { assert(v[0] == "sep"@[0]); } }
            assert(v != "october"@) by { if v == "october"@ { assert(v.len() == 3); } }
            assert(v != "oct"@) by { if v == "oct"@ { assert(v[0] == "oct"@[0]); } }
        }
        if v == "november"@ {
            assert(v.len() == 8);
            assert(v != "january"@) by { if v == "january"@ { assert(v.len() == 8); } }
            assert(v != "jan"@) by { if v == "jan"@ { assert(v.len() == 8); } }
            assert(v != "february"@) by { if v == "february"@ { assert(v[0] == "february"@[0]); } }
            assert(v != "feb"@) by { if v == "feb"@ { assert(v.len() == 8); } }
            assert(v != "march"@) by { if v == "march"@ { assert(v.len() == 8); } }
            assert(v != "mar"@) by { if v == "mar"@ { assert(v.len() == 8); } }
            assert(v != "april"@) by { if v == "april"@ { assert(v.len() == 8); } }
            assert(v != "apr"@) by { if v == "apr"@ { assert(v.len() == 8); } }
            assert(v != "may"@) by { if v == "may"@ { assert(v.len() == 8); } }
            assert(v != "june"@) by { if v == "june"@ { assert(v.len() == 8); } }
            assert(v != "jun"@) by { if v == "jun"@ { assert(v.len() == 8); } }
            assert(v != "july"@) by { if v == "july"@ { assert(v.len() == 8); } }
            assert(v != "jul"@) by { if v == "jul"@ { assert(v.len() == 8); } }
            assert(v != "august"@) by { if v == "august"@ { assert(v.len() == 8); } }
            assert(v != "aug"@) by { if v == "aug"@ { assert(v.len() == 8); } }
            assert(v != "september"@) by { if v == "september"@ { assert(v.len() == 8); } }
            assert(v != "sept"@) by { if v == "sept"@ { assert(v.len() == 8); } }
            assert(v != "sep"@) by { if v == "sep"@ { assert(v.len() == 8); } }
            assert(v != "october"@) by { if v == "october"@ { assert(v.len() == 8); } }
            assert(v != "oct"@) by { if v == "oct"@ { assert(v.len() == 8); } }
        }
    }
    if k == 11 {
        assert(month_names()[11] == "december"@);
        assert(month_macros()[11] == "dec"@);
        if v == "dec"@ {
            assert(v.len() == 3);
            assert(v != "january"@) by { if v == "january"@ { assert(v.len() == 3); } }
            assert(v != "jan"@) by { if v == "jan"@ { assert(v[0] == "jan"@[0]); } }
            assert(v != "february"@) by { if v == "february"@ { assert(v.len() == 3); } }
            assert(v != "feb"@) by { if v == "feb"@ { assert(v[0] == "feb"@[0]); } }
            assert(v != "march"@) by { if v == "march"@ { assert(v.len() == 3); } }
            assert(v != "mar"@) by { if v == "mar"@ { assert(v[0] == "mar"@[0]); } }
            assert(v != "april"@) by { if v == "april"@ { assert(v.len() == 3); } }
            assert(v != "apr"@) by { if v == "apr"@ { assert(v[0] == "apr"@[0]); } }
            assert(v != "may"@) by { if v == "may"@ { assert(v[0] == "may"@[0]); } }
            assert(v != "june"@) by { if v == "june"@ { assert(v.len() == 3); } }
            assert(v != "jun"@) by { if v == "jun"@ { assert(v[0] == "jun"@[0]); } }
            assert(v != "july"@) by { if v == "july"@ { assert(v.len() == 3); } }
            assert(v != "jul"@) by { if v == "jul"@ { assert(v[0] == "jul"@[0]); } }
            assert(v != "august"@) by { if v == "august"@ { assert(v.len() == 3); } }
            assert(v != "aug"@) by { if v == "aug"@ { assert(v[0] == "aug"@[0]); } }
            assert(v != "september"@) by { if v == "september"@ { assert(v.len() == 3); } }
            assert(v != "sept"@) by { if v == "sept"@ { assert(v.len() == 3); } }
            assert(v != "sep"@) by { if v == "sep"@ { assert(v[0] == "sep"@[0]); } }
            assert(v != "october"@) by { if v == "october"@ { assert(v.len() == 3); } }
            assert(v != "oct"@) by { if v == "oct"@ { assert(v[0] == "oct"@[0]); } }
            assert(v != "november"@) by { if v == "november"@ { assert(v.len() == 3); } }
            assert(v != "nov"@) by { if v == "nov"@ { assert(v[0] == "nov"@[0]); } }
        }
        if v == "december"@ {
            assert(v.len() == 8);
            assert(v != "january"@) by { if v == "january"@ { assert(v.len() == 8); } }
            assert(v != "jan"@) by { if v == "jan"@ { assert(v.len() == 8); } }
            assert(v != "february"@) by { if v == "february"@ { assert(v[0] == "february"@[0]); } }
            assert(v != "feb"@) by { if v == "feb"@ { assert(v.len() == 8); } }
            assert(v != "march"@) by { if v == "march"@ { assert(v.len() == 8); } }
            assert(v != "mar"@) by { if v == "mar"@ { assert(v.len() == 8); } }
            assert(v != "april"@) by { if v == "april"@ { assert(v.len() == 8); } }
            assert(v != "apr"@) by { if v == "apr"@ { assert(v.len() == 8); } }
            assert(v != "may"@) by { if v == "may"@ { assert(v.len() == 8); } }
            assert(v != "june"@) by { if v == "june"@ { assert(v.len() == 8); } }
            assert(v != "jun"@) by { if v == "jun"@ { assert(v.len() == 8); } }
            assert(v != "july"@) by { if v == "july"@ { assert(v.len() == 8); } }
            assert(v != "jul"@) by { if v == "jul"@ { assert(v.len() == 8); } }
            assert(v != "august"@) by { if v == "august"@ { assert(v.len() == 8); } }
            assert(v != "aug"@) by { if v == "aug"@ { assert(v.len() == 8); } }
            assert(v != "september"@) by { if v == "september"@ { assert(v.len() == 8); } }
            assert(v != "sept"@) by { if v == "sept"@ { assert(v.len() == 8); } }
            assert(v != "sep"@) by { if v == "sep"@ { assert(v.len() == 8); } }
            assert(v != "october"@) by { if v == "october"@ { assert(v.len() == 8); } }
            assert(v != "oct"@) by { if v == "oct"@ { assert(v.len() == 8); } }
            assert(v != "november"@) by { if v == "november"@ { assert(v[0] == "november"@[0]); } }
            assert(v != "nov"@) by { if v == "nov"@ { assert(v.len() == 8); } }
        }
    }
}

/// Map a month value to its bare macro, if recognizable.
pub fn map_month(value: &str) -> (r: Option<&'static str>)
    ensures
        os_static(r) == month_of(value@),
{
    let c = str_chars(value);
    let t = trim_vec(c.as_slice());
    let mut k = t.len();
    assert(t@.subrange(0, k as int) =~= t@);
    while k > 0 && t[k - 1] == '.'
        invariant
            k <= t@.len(),
            trim_end_dots(t@) == trim_end_dots(t@.subrange(0, k as int)),
        decreases k,
    {
        assert(t@.subrange(0, k as int).drop_last() =~= t@.subrange(0, k - 1));
        k = k - 1;
    }
    let d = slice_vec(t.as_slice(), 0, k);
    assert(trim_end_dots(d@) == d@);
    let v = lowercase_chars(d.as_slice());
    let s = v.as_slice();
    if eq_str(s, "january") || eq_str(s, "jan") { Some("jan") }
    else if eq_str(s, "february") || eq_str(s, "feb") { Some("feb") }
    else if eq_str(s, "march") || eq_str(s, "mar") { Some("mar") }
    else if eq_str(s, "april") || eq_str(s, "apr") { Some("apr") }
    else if eq_str(s, "may") { Some("may") }
    else if eq_str(s, "june") || eq_str(s, "jun") { Some("jun") }
    else if eq_str(s, "july") || eq_str(s, "jul") { Some("jul") }
    else if eq_str(s, "august") || eq_str(s, "aug") { Some("aug") }
    else if eq_str(s, "september") || eq_str(s, "sept") || eq_str(s, "sep") { Some("sep") }
    else if eq_str(s, "october") || eq_str(s, "oct") { Some("oct") }
    else if eq_str(s, "november") || eq_str(s, "nov") { Some("nov") }
    else if eq_str(s, "december") || eq_str(s, "dec") { Some("dec") }
    else { None }
}

/// Characters of an optional static string.
pub open spec fn os_static(o: Option<&'static str>) -> Option<Seq<char>> {
    match o {
        Some(s) => Some(s@),
        None => None,
    }
}

/// `char::from_u32`: the character with scalar value `i`, if `i` is one.
pub assume_specification[ core::char::from_u32 ](i: u32) -> (r: Option<char>)
    ensures
        r == (if is_scalar(i) { Some(i as char) } else { None }),
;

/// Value of a digit in base 10 or 16 (either case), if it is one.
pub open spec fn digit_value(c: char, radix: nat) -> Option<nat> {
    if '0' <= c && c <= '9' {
        Some((c as u32 - '0' as u32) as nat)
    } else if radix == 16 && 'a' <= c && c <= 'f' {
        Some((c as u32 - 'a' as u32 + 10) as nat)
    } else if radix == 16 && 'A' <= c && c <= 'F' {
        Some((c as u32 - 'A' as u32 + 10) as nat)
    } else {
        None
    }
}

/// All characters of `s` are digits in base `radix`.
pub open spec fn all_digits(s: Seq<char>, radix: nat) -> bool {
    forall|i: int| 0 <= i < s.len() ==> (#[trigger] digit_value(s[i], radix)) is Some
}

/// Value of a digit string in base `radix`.
pub open spec fn digits_value(s: Seq<char>, radix: nat) -> nat
    decreases s.len(),
{
    if s.len() == 0 {
        0
    } else {
        digits_value(s.drop_last(), radix) * radix + digit_value(s.last(), radix).unwrap_or(0)
    }
}

/// `u32::from_str_radix(s, radix)` for radix 10 or 16: an optional `+`,
/// then at least one digit, with a value that fits in a `u32`.
pub open spec fn parse_u32_radix(s: Seq<char>, radix: nat) -> Option<u32> {
    let body = if s.len() > 0 && s[0] == '+' { s.drop_first() } else { s };
    if body.len() > 0 && all_digits(body, radix) && digits_value(body, radix) <= u32::MAX {
        Some(digits_value(body, radix) as u32)
    } else {
        None
    }
}

proof fn lemma_digits_value_step(s: Seq<char>, radix: nat, k: int)
    requires
        0 <= k < s.len(),
        radix >= 1,
    ensures
        s.subrange(0, k + 1).drop_last() == s.subrange(0, k),
        digits_value(s.subrange(0, k + 1), radix) == digits_value(s.subrange(0, k), radix) * radix
            + digit_value(s[k], radix).unwrap_or(0),
{
    assert(s.subrange(0, k + 1).drop_last() =~= s.subrange(0, k));
}

proof fn lemma_digits_value_mono(s: Seq<char>, radix: nat, k: int)
    requires
        0 <= k <= s.len(),
        radix >= 1,
    ensures
        digits_value(s.subrange(0, k), radix) <= digits_value(s, radix),
    decreases s.len() - k,
{
    if k < s.len() {
        lemma_digits_value_mono(s, radix, k + 1);
        lemma_digits_value_step(s, radix, k);
        let a = digits_value(s.subrange(0, k), radix);
        assert(a * radix >= a) by (nonlinear_arith)
            requires radix >= 1;
    } else {
        assert(s.subrange(0, k) =~= s);
    }
}

fn digit_value_exec(c: char, radix: u32) -> (r: Option<u32>)
    requires
        radix == 10 || radix == 16,
    ensures
        match r {
            Some(d) => digit_value(c, radix as nat) == Some(d as nat) && d < radix,
            None => digit_value(c, radix as nat) is None,
        },
{
    if '0' <= c && c <= '9' {
        Some((c as u32) - ('0' as u32))
    } else if radix == 16 && 'a' <= c && c <= 'f' {
        Some((c as u32) - ('a' as u32) + 10)
    } else if radix == 16 && 'A' <= c && c <= 'F' {
        Some((c as u32) - ('A' as u32) + 10)
    } else {
        None
    }
}

/// Parse `s[lo..hi]` as `u32::from_str_radix` does.
fn parse_u32_radix_exec(s: &[char], lo: usize, hi: usize, radix: u32) -> (r: Option<u32>)
    requires
        lo <= hi <= s.len(),
        radix == 10 || radix == 16,
    ensures
        r == parse_u32_radix(s@.subrange(lo as int, hi as int), radix as nat),
{
    let ghost w = s@.subrange(lo as int, hi as int);
    let mut b = lo;
    if b < hi && s[b] == '+' {
        b = b + 1;
    }
    let ghost body = s@.subrange(b as int, hi as int);
    assert(body == (if w.len() > 0 && w[0] == '+' { w.drop_first() } else { w }));
    if b == hi {
        return None;
    }
    let mut acc: u64 = 0;
    let mut i = b;
    while i < hi
        invariant
            b <= i <= hi <= s.len(),
            b < hi,
            radix == 10 || radix == 16,
            w == s@.subrange(lo as int, hi as int),
            body == (if w.len() > 0 && w[0] == '+' { w.drop_first() } else { w }),
            body == s@.subrange(b as int, hi as int),
            all_digits(body.subrange(0, i - b), radix as nat),
            acc == digits_value(body.subrange(0, i - b), radix as nat),
            acc <= u32::MAX,
        decreases hi - i,
    {
        let d = digit_value_exec(s[i], radix);
        proof {
            lemma_digits_value_step(body, radix as nat, i - b);
        }
        match d {
            None => {
                assert(digit_value(body[i - b], radix as nat) is None);
                return None;
            },
            Some(dv) => {
                assert(acc * (radix as u64) <= 0xFFFF_FFFFu64 * 16) by (nonlinear_arith)
                    requires acc <= 0xFFFF_FFFFu64, radix <= 16;
                let next: u64 = acc * (radix as u64) + (dv as u64);
                proof {
                    assert(all_digits(body.subrange(0, i - b + 1), radix as nat)) by {
                        assert forall|t: int| 0 <= t < i - b + 1 implies (#[trigger] digit_value(body.subrange(0, i - b + 1)[t], radix as nat)) is Some by {
                            if t < i - b {
                                assert(body.subrange(0, i - b + 1)[t] == body.subrange(0, i - b)[t]);
                            }
                        }
                    }
                }
                if next > 0xFFFF_FFFFu64 {
                    proof {
                        lemma_digits_value_mono(body, radix as nat, i - b + 1);
                    }
                    return None;
                }
                acc = next;
            },
        }
        i = i + 1;
    }
    assert(body.subrange(0, hi - b) =~= body);
    Some(acc as u32)
}

/// Decoding of the entity whose text follows `&#` (`after`), if it is one:
/// the character and how much of `after` it used.
#[verifier::opaque]
pub open spec fn entity_at(after: Seq<char>) -> Option<(char, int)> {
    let hex = after.len() > 0 && (after[0] == 'x' || after[0] == 'X');
    let ds: int = if hex { 1 } else { 0 };
    match first_occurrence(after, seq![';'], ds) {
        Some(j) => if j > ds {
            match parse_u32_radix(after.subrange(ds, j), if hex { 16 } else { 10 }) {
                Some(code) => if is_scalar(code) { Some((code as char, j + 1)) } else { None },
                None => None,
            }
        } else {
            None
        },
        None => None,
    }
}

/// Numeric entities `&#NNN;` and `&#xHH;` decoded, left to right.
#[verifier::opaque]
pub open spec fn numeric_decoded(s: Seq<char>) -> Seq<char>
    decreases s.len(),
{
    match first_occurrence(s, "&#"@, 0) {
        None => s,
        Some(start) => if 0 <= start && start + 2 <= s.len() {
            let after = s.subrange(start + 2, s.len() as int);
            match entity_at(after) {
                Some((c, used)) => if 0 <= used <= after.len() {
                    s.subrange(0, start) + seq![c] + numeric_decoded(after.subrange(used, after.len() as int))
                } else {
                    s
                },
                None => s.subrange(0, start + 2) + numeric_decoded(after),
            }
        } else {
            s
        },
    }
}

proof fn lemma_numeric_decoded_step(s: Seq<char>)
    ensures
        first_occurrence(s, "&#"@, 0) is None ==> numeric_decoded(s) == s,
        first_occurrence(s, "&#"@, 0) matches Some(start) ==> {
            let after = s.subrange(start + 2, s.len() as int);
            &&& 0 <= start
            &&& start + 2 <= s.len()
            &&& (entity_at(after) matches Some((c, used)) ==> numeric_decoded(s) == s.subrange(0, start) + seq![c]
                + numeric_decoded(after.subrange(used, after.len() as int)))
            &&& (entity_at(after) is None ==> numeric_decoded(s) == s.subrange(0, start + 2) + numeric_decoded(after))
        },
{
    reveal_strlit("&#");
    lemma_first_occurrence(s, "&#"@, 0);
    if let Some(start) = first_occurrence(s, "&#"@, 0) {
        let after = s.subrange(start + 2, s.len() as int);
        lemma_entity_at(after);
    }
    reveal(numeric_decoded);
}

proof fn lemma_entity_at(after: Seq<char>)
    ensures
        entity_at(after) matches Some((c, used)) ==> 2 <= used <= after.len(),
{
    reveal(entity_at);
    let hex = after.len() > 0 && (after[0] == 'x' || after[0] == 'X');
    let ds: int = if hex { 1 } else { 0 };
    lemma_first_occurrence(after, seq![';'], ds);
}

proof fn lemma_numeric_shrinks(s: Seq<char>)
    ensures
        numeric_decoded(s).len() <= s.len(),
        numeric_decoded(s).len() == s.len() ==> numeric_decoded(s) == s,
    decreases s.len(),
{
    lemma_numeric_decoded_step(s);
    if let Some(start) = first_occurrence(s, "&#"@, 0) {
        let after = s.subrange(start + 2, s.len() as int);
        lemma_entity_at(after);
        match entity_at(after) {
            Some((c, used)) => {
                lemma_numeric_shrinks(after.subrange(used, after.len() as int));
            },
            None => {
                lemma_numeric_shrinks(after);
                if numeric_decoded(s).len() == s.len() {
                    assert(s.subrange(0, start + 2) + after =~= s);
                }
            },
        }
    }
}

/// `join` of a list with one more item in front.
proof fn lemma_join_front(x: Seq<char>, ps: Seq<Seq<char>>, sep: Seq<char>)
    requires
        ps.len() >= 1,
    ensures
        join(seq![x] + ps, sep) == x + sep + join(ps, sep),
    decreases ps.len(),
{
    let q = seq![x] + ps;
    if ps.len() == 1 {
        assert(q.drop_last() =~= seq![x]);
        assert(q.last() == ps[0]);
        assert(join(seq![x], sep) == x);
        assert(join(ps, sep) == ps[0]);
        assert(join(q, sep) == join(q.drop_last(), sep) + sep + q.last());
    } else {
        lemma_join_front(x, ps.drop_last(), sep);
        assert(q.drop_last() =~= seq![x] + ps.drop_last());
        assert(q.last() == ps.last());
        assert(join(q, sep) == join(q.drop_last(), sep) + sep + q.last());
        assert(join(ps, sep) == join(ps.drop_last(), sep) + sep + ps.last());
        assert(join(q, sep) =~= x + sep + join(ps, sep));
    }
}

proof fn lemma_split_join_len(s: Seq<char>, pat: Seq<char>, rep: Seq<char>, i: int)
    requires
        pat.len() > 0,
        0 <= i <= s.len(),
    ensures
        crate::text::split_from(s, pat, i).len() >= 1,
        join(crate::text::split_from(s, pat, i), rep).len()
            + (crate::text::split_from(s, pat, i).len() - 1) * (pat.len() - rep.len()) == s.len() - i,
    decreases s.len() - i,
{
    crate::text::lemma_split_step(s, pat, i);
    match first_occurrence(s, pat, i) {
        Some(j) => {
            lemma_split_join_len(s, pat, rep, j + pat.len());
            let rest = crate::text::split_from(s, pat, j + pat.len());
            lemma_join_front(s.subrange(i, j), rest, rep);
            let ps = crate::text::split_from(s, pat, i);
            assert(ps == seq![s.subrange(i, j)] + rest);
            assert(ps.len() == rest.len() + 1);
            let d = pat.len() - rep.len();
            let n = rest.len() as int;
            assert(n * d == (n - 1) * d + d) by (nonlinear_arith);
            assert(join(ps, rep).len() == (j - i) + rep.len() + join(rest, rep).len());
        },
        None => {
            let ps = crate::text::split_from(s, pat, i);
            assert(ps == seq![s.subrange(i, s.len() as int)]);
            assert(join(ps, rep) == ps[0]);
        },
    }
}

/// Replacing a pattern by something shorter never lengthens the text, and
/// leaves it as it was when the length is kept.
proof fn lemma_replace_shrinks(s: Seq<char>, pat: Seq<char>, rep: Seq<char>)
    requires
        pat.len() > rep.len(),
    ensures
        crate::text::replace_all(s, pat, rep).len() <= s.len(),
        crate::text::replace_all(s, pat, rep).len() == s.len() ==> crate::text::replace_all(s, pat, rep) == s,
{
    lemma_split_join_len(s, pat, rep, 0);
    let ps = crate::text::split(s, pat);
    assert((ps.len() - 1) * (pat.len() - rep.len()) >= 0) by (nonlinear_arith)
        requires ps.len() >= 1, pat.len() > rep.len();
    if crate::text::replace_all(s, pat, rep).len() == s.len() {
        assert((ps.len() - 1) * (pat.len() - rep.len()) == 0);
        assert(ps.len() == 1) by (nonlinear_arith)
            requires (ps.len() - 1) * (pat.len() - rep.len()) == 0, ps.len() >= 1, pat.len() > rep.len();
        crate::text::lemma_split_step(s, pat, 0);
        if first_occurrence(s, pat, 0) is Some {
            let j = first_occurrence(s, pat, 0)->0;
            lemma_split_join_len(s, pat, rep, j + pat.len());
        }
        assert(s.subrange(0, s.len() as int) =~= s);
    }
}

proof fn lemma_html_shrinks(s: Seq<char>)
    ensures
        html_decoded(s).len() <= s.len(),
        html_decoded(s).len() == s.len() ==> html_decoded(s) == s,
{
    reveal_strlit("&amp;");
    reveal_strlit("&lt;");
    reveal_strlit("&gt;");
    reveal_strlit("&quot;");
    reveal_strlit("&#39;");
    reveal_strlit("&#x27;");
    reveal_strlit("&apos;");
    reveal_strlit("&");
    reveal_strlit("<");
    reveal_strlit(">");
    reveal_strlit("\"");
    reveal_strlit("'");
    let a = crate::text::replace_all(s, "&amp;"@, "&"@);
    let b = crate::text::replace_all(a, "&lt;"@, "<"@);
    let c = crate::text::replace_all(b, "&gt;"@, ">"@);
    let d = crate::text::replace_all(c, "&quot;"@, "\""@);
    let e = crate::text::replace_all(d, "&#39;"@, "'"@);
    let f = crate::text::replace_all(e, "&#x27;"@, "'"@);
    lemma_replace_shrinks(s, "&amp;"@, "&"@);
    lemma_replace_shrinks(a, "&lt;"@, "<"@);
    lemma_replace_shrinks(b, "&gt;"@, ">"@);
    lemma_replace_shrinks(c, "&quot;"@, "\""@);
    lemma_replace_shrinks(d, "&#39;"@, "'"@);
    lemma_replace_shrinks(e, "&#x27;"@, "'"@);
    lemma_replace_shrinks(f, "&apos;"@, "'"@);
}

/// One round of decoding: named entities, then numeric ones.
pub open spec fn decode_round(s: Seq<char>) -> Seq<char> {
    numeric_decoded(html_decoded(s))
}

/// Entities decoded until none is left: rounds of decoding while they
/// shorten the text.
pub open spec fn entities_decoded(s: Seq<char>) -> Seq<char>
    decreases s.len(),
{
    let t = decode_round(s);
    if t.len() < s.len() { entities_decoded(t) } else { t }
}

proof fn lemma_round_shrinks(s: Seq<char>)
    ensures
        decode_round(s).len() <= s.len(),
        decode_round(s).len() == s.len() ==> decode_round(s) == s,
{
    lemma_html_shrinks(s);
    lemma_numeric_shrinks(html_decoded(s));
}

/// Decoding goes on until a round changes nothing: the decoded text holds
/// no entity that a further round would decode.
pub proof fn lemma_entities_decoded_fixed(s: Seq<char>)
    ensures
        decode_round(entities_decoded(s)) == entities_decoded(s),
    decreases s.len(),
{
    let t = decode_round(s);
    lemma_round_shrinks(s);
    if t.len() < s.len() {
        lemma_entities_decoded_fixed(t);
    } else {
        assert(t == s);
    }
}

/// Decode the entity whose text is `after` (what follows `&#`).
fn entity_at_exec(after: &[char]) -> (r: Option<(char, usize)>)
    ensures
        match r {
            Some((c, u)) => entity_at(after@) == Some((c, u as int)),
            None => entity_at(after@) is None,
        },
{
    reveal(entity_at);
    let hex = after.len() > 0 && (after[0] == 'x' || after[0] == 'X');
    let ds: usize = if hex { 1 } else { 0 };
    let mut semi: Vec<char> = Vec::new();
    semi.push(';');
    assert(semi@ =~= seq![';']);
    let found = find_from(after, ds, semi.as_slice());
    proof {
        lemma_first_occurrence(after@, seq![';'], ds as int);
    }
    match found {
        None => None,
        Some(j) => {
            if j <= ds {
                return None;
            }
            let radix: u32 = if hex { 16 } else { 10 };
            match parse_u32_radix_exec(after, ds, j, radix) {
                None => None,
                Some(code) => match core::char::from_u32(code) {
                    Some(c) => Some((c, j + 1)),
                    None => None,
                },
            }
        },
    }
}

/// Decode `&#NNN;` and `&#xHH;` numeric entities.
fn decode_numeric_entities_chars(s: &[char]) -> (r: Vec<char>)
    ensures
        r@ == numeric_decoded(s@),
{
    let mut out: Vec<char> = Vec::new();
    let mut rest: Vec<char> = slice_vec(s, 0, s.len());
    assert(rest@ =~= s@);
    let amp = str_chars("&#");
    proof {
        reveal_strlit("&#");
    }
    loop
        invariant_except_break
            amp@ == "&#"@,
            out@ + numeric_decoded(rest@) == numeric_decoded(s@),
        ensures
            out@ == numeric_decoded(s@),
        decreases rest@.len(),
    {
        let found = find_from(rest.as_slice(), 0, amp.as_slice());
        proof {
            reveal_strlit("&#");
            lemma_first_occurrence(rest@, "&#"@, 0);
            lemma_numeric_decoded_step(rest@);
        }
        match found {
            None => {
                assert(numeric_decoded(rest@) == rest@);
                push_all(&mut out, rest.as_slice());
                break;
            },
            Some(start) => {
                let n = rest.len();
                assert(start + 2 <= rest@.len());
                let after = slice_vec(rest.as_slice(), start + 2, n);
                proof {
                    lemma_entity_at(after@);
                }
                match entity_at_exec(after.as_slice()) {
                    Some((c, used)) => {
                        let head = slice_vec(rest.as_slice(), 0, start);
                        let ghost o = out@;
                        push_all(&mut out, head.as_slice());
                        out.push(c);
                        let next = slice_vec(after.as_slice(), used, after.len());
                        proof {
                            assert(numeric_decoded(rest@) == head@ + seq![c] + numeric_decoded(next@));
                            assert(out@ =~= o + head@ + seq![c]);
                        }
                        rest = next;
                    },
                    None => {
                        let head = slice_vec(rest.as_slice(), 0, start + 2);
                        let ghost o = out@;
                        push_all(&mut out, head.as_slice());
                        proof {
                            assert(numeric_decoded(rest@) == head@ + numeric_decoded(after@));
                        }
                        rest = after;
                    },
                }
            },
        }
    }
    out
}

/// One text segment outside `\url{...}` spans: entities decoded until
/// none is left, dashes normalized, then LaTeX-escaped.
pub open spec fn segment_transformed(s: Seq<char>) -> Seq<char> {
    latex_escaped(dashes_normalized(entities_decoded(s)))
}

/// The pieces of `s` split on `pat` from `i` hold no `c` when `pat` is `c`
/// itself or `s` holds none.
proof fn lemma_split_free(s: Seq<char>, pat: Seq<char>, i: int, c: char)
    requires
        pat.len() > 0,
        0 <= i <= s.len(),
        pat == seq![c] || !s.contains(c),
    ensures
        forall|k: int| 0 <= k < crate::text::split_from(s, pat, i).len()
            ==> !(#[trigger] crate::text::split_from(s, pat, i)[k]).contains(c),
    decreases s.len() - i,
{
    crate::text::lemma_split_step(s, pat, i);
    lemma_first_occurrence(s, pat, i);
    let ps = crate::text::split_from(s, pat, i);
    assert forall|m: int| i <= m < s.len() && s[m] == c implies crate::text::occurs_at(s, pat, m) by {
        if pat == seq![c] {
            assert(s.subrange(m, m + 1) =~= seq![c]);
        } else {
            assert(s.contains(c));
        }
    }
    match first_occurrence(s, pat, i) {
        Some(j) => {
            lemma_split_free(s, pat, j + pat.len(), c);
            let rest = crate::text::split_from(s, pat, j + pat.len());
            assert(ps == seq![s.subrange(i, j)] + rest);
            assert forall|k: int| 0 <= k < ps.len() implies !(#[trigger] ps[k]).contains(c) by {
                if k == 0 {
                    if s.subrange(i, j).contains(c) {
                        let x = choose|x: int| 0 <= x < s.subrange(i, j).len() && s.subrange(i, j)[x] == c;
                        assert(s[i + x] == c);
                    }
                } else {
                    assert(ps[k] == rest[k - 1]);
                }
            }
        },
        None => {
            assert(ps == seq![s.subrange(i, s.len() as int)]);
            if s.subrange(i, s.len() as int).contains(c) {
                let x = choose|x: int| 0 <= x < s.subrange(i, s.len() as int).len() && s.subrange(i, s.len() as int)[x] == c;
                assert(s[i + x] == c);
            }
        },
    }
}

proof fn lemma_join_free(ps: Seq<Seq<char>>, sep: Seq<char>, c: char)
    requires
        forall|k: int| 0 <= k < ps.len() ==> !(#[trigger] ps[k]).contains(c),
        !sep.contains(c),
    ensures
        !join(ps, sep).contains(c),
    decreases ps.len(),
{
    if ps.len() == 1 {
        assert(!ps[0].contains(c));
    } else if ps.len() > 1 {
        let d = ps.drop_last();
        assert forall|k: int| 0 <= k < d.len() implies !(#[trigger] d[k]).contains(c) by {
            assert(d[k] == ps[k]);
        }
        lemma_join_free(d, sep, c);
        let a = join(d, sep);
        let l = ps.last();
        assert(!ps[ps.len() - 1].contains(c));
        let j = a + sep + l;
        assert(join(ps, sep) == j);
        if j.contains(c) {
            let x = choose|x: int| 0 <= x < j.len() && j[x] == c;
            if x < a.len() {
                assert(a[x] == c);
            } else if x < a.len() + sep.len() {
                assert(sep[x - a.len()] == c);
            } else {
                assert(l[x - a.len() - sep.len()] == c);
            }
        }
    }
}

/// Replacing a single character `c` (or any pattern, in text without `c`)
/// by text without `c` leaves no `c`.
proof fn lemma_replace_free(s: Seq<char>, pat: Seq<char>, rep: Seq<char>, c: char)
    requires
        pat.len() > 0,
        !rep.contains(c),
        pat == seq![c] || !s.contains(c),
    ensures
        !replace_all(s, pat, rep).contains(c),
{
    lemma_split_free(s, pat, 0, c);
    lemma_join_free(crate::text::split_from(s, pat, 0), rep, c);
}

/// Escaping for LaTeX brings in no Unicode dash.
proof fn lemma_escape_free(x: Seq<char>, c: char)
    requires
        c == '\u{2013}' || c == '\u{2014}',
        !x.contains(c),
    ensures
        !latex_escaped(x).contains(c),
    decreases x.len(),
{
    reveal_strlit("\\&");
    reveal_strlit("\\textless{}");
    reveal_strlit("\\textgreater{}");
    if x.len() > 0 {
        let d = x.drop_last();
        if d.contains(c) {
            let k = choose|k: int| 0 <= k < d.len() && d[k] == c;
            assert(x[k] == c);
        }
        lemma_escape_free(d, c);
        let l = latex_escaped(d);
        let e = escape_char(x.last(), x.len() >= 2 && x[x.len() - 2] == '\\');
        assert(x.last() != c) by { assert(x[x.len() - 1] == x.last()); }
        assert(!e.contains(c));
        let r = l + e;
        assert(latex_escaped(x) == r);
        if r.contains(c) {
            let k = choose|k: int| 0 <= k < r.len() && r[k] == c;
            if k < l.len() {
                assert(l[k] == c);
            } else {
                assert(e[k - l.len()] == c);
            }
        }
    }
}

/// Text as sanitizing leaves it: no Unicode en or em dash, no `<` or `>`,
/// and every `&` escaped by the backslash before it.
pub open spec fn clean_text(t: Seq<char>) -> bool {
    !t.contains('\u{2013}') && !t.contains('\u{2014}') && escaped_form(t)
}

/// A transformed segment is clean.
pub proof fn lemma_segment_clean(s: Seq<char>)
    ensures
        clean_text(segment_transformed(s)),
{
    reveal_strlit("---");
    reveal_strlit("--");
    let em = '\u{2014}';
    let en = '\u{2013}';
    let d = entities_decoded(s);
    let a = replace_all(d, seq![em], "---"@);
    assert(!"---"@.contains(em)) by {
        if "---"@.contains(em) {
            let k = choose|k: int| 0 <= k < "---"@.len() && "---"@[k] == em;
        }
    }
    assert(!"--"@.contains(em)) by {
        if "--"@.contains(em) {
            let k = choose|k: int| 0 <= k < "--"@.len() && "--"@[k] == em;
        }
    }
    assert(!"--"@.contains(en)) by {
        if "--"@.contains(en) {
            let k = choose|k: int| 0 <= k < "--"@.len() && "--"@[k] == en;
        }
    }
    lemma_replace_free(d, seq![em], "---"@, em);
    let b = replace_all(a, seq![en], "--"@);
    lemma_replace_free(a, seq![en], "--"@, en);
    lemma_replace_free(a, seq![en], "--"@, em);
    assert(b == dashes_normalized(d));
    lemma_escape_free(b, en);
    lemma_escape_free(b, em);
    lemma_escaped_is_escaped_form(b);
}

fn decode_entities_chars(s: &[char]) -> (r: Vec<char>)
    ensures
        r@ == entities_decoded(s@),
{
    let mut cur: Vec<char> = slice_vec(s, 0, s.len());
    assert(s@.subrange(0, s@.len() as int) =~= s@);
    loop
        invariant
            entities_decoded(cur@) == entities_decoded(s@),
        decreases cur@.len(),
    {
        let a = html_decode_chars(cur.as_slice());
        let t = decode_numeric_entities_chars(a.as_slice());
        if t.len() < cur.len() {
            cur = t;
        } else {
            return t;
        }
    }
}

fn transform_segment_chars(s: &[char]) -> (r: Vec<char>)
    ensures
        r@ == segment_transformed(s@),
{
    let b = decode_entities_chars(s);
    let c = normalize_dashes_chars(b.as_slice());
    latex_escape_chars(c.as_slice())
}

/// End of a `\url{` span whose content starts at `p` at brace depth `depth`:
/// just past the brace that closes it, or the length.
pub open spec fn url_span_end(s: Seq<char>, p: int, depth: int) -> int
    decreases s.len() - p,
{
    if p < 0 || p >= s.len() || depth <= 0 {
        p
    } else {
        let d = if s[p] == '{' { depth + 1 } else if s[p] == '}' { depth - 1 } else { depth };
        url_span_end(s, p + 1, d)
    }
}

proof fn lemma_url_span_end(s: Seq<char>, p: int, depth: int)
    requires
        0 <= p <= s.len(),
    ensures
        p <= url_span_end(s, p, depth) <= s.len(),
    decreases s.len() - p,
{
    if p < s.len() && depth > 0 {
        let d = if s[p] == '{' { depth + 1 } else if s[p] == '}' { depth - 1 } else { depth };
        lemma_url_span_end(s, p + 1, d);
    }
}

/// A field value transformed, `\url{...}` spans kept verbatim.
#[verifier::opaque]
pub open spec fn value_transformed(s: Seq<char>) -> Seq<char>
    decreases s.len(),
{
    match first_occurrence(s, "\\url{"@, 0) {
        None => segment_transformed(s),
        Some(i) => if 0 <= i && i + 5 <= s.len() {
            let e = url_span_end(s, i + 5, 1);
            if i < e <= s.len() {
                segment_transformed(s.subrange(0, i)) + s.subrange(i, e) + value_transformed(s.subrange(e, s.len() as int))
            } else {
                s
            }
        } else {
            s
        },
    }
}

proof fn lemma_value_transformed_step(s: Seq<char>)
    ensures
        first_occurrence(s, "\\url{"@, 0) is None ==> value_transformed(s) == segment_transformed(s),
        first_occurrence(s, "\\url{"@, 0) matches Some(i) ==> {
            let e = url_span_end(s, i + 5, 1);
            &&& 0 <= i
            &&& i + 5 <= e <= s.len()
            &&& value_transformed(s) == segment_transformed(s.subrange(0, i)) + s.subrange(i, e)
                + value_transformed(s.subrange(e, s.len() as int))
        },
{
    reveal_strlit("\\url{");
    lemma_first_occurrence(s, "\\url{"@, 0);
    if let Some(i) = first_occurrence(s, "\\url{"@, 0) {
        lemma_url_span_end(s, i + 5, 1);
    }
    reveal(value_transformed);
}

/// Transform a field value, leaving `\url{...}` spans verbatim.
fn transform_value_chars(value: &[char]) -> (r: Vec<char>)
    ensures
        r@ == value_transformed(value@),
{
    let mut out: Vec<char> = Vec::new();
    let mut rest: Vec<char> = slice_vec(value, 0, value.len());
    assert(rest@ =~= value@);
    let pat = str_chars("\\url{");
    loop
        invariant_except_break
            pat@ == "\\url{"@,
            out@ + value_transformed(rest@) == value_transformed(value@),
        ensures
            out@ == value_transformed(value@),
        decreases rest@.len(),
    {
        let found = find_from(rest.as_slice(), 0, pat.as_slice());
        proof {
            lemma_value_transformed_step(rest@);
        }
        match found {
            None => {
                let t = transform_segment_chars(rest.as_slice());
                push_all(&mut out, t.as_slice());
                break;
            },
            Some(idx) => {
                let n = rest.len();
                let mut pos = idx + 5;
                let mut depth: usize = 1;
                while pos < n && depth > 0
                    invariant
                        idx + 5 <= pos <= n,
                        n == rest@.len(),
                        depth <= pos - idx,
                        url_span_end(rest@, pos as int, depth as int) == url_span_end(rest@, idx + 5, 1),
                    decreases n - pos,
                {
                    if rest[pos] == '{' {
                        depth = depth + 1;
                    } else if rest[pos] == '}' {
                        depth = depth - 1;
                    }
                    pos = pos + 1;
                }
                let head = slice_vec(rest.as_slice(), 0, idx);
                let th = transform_segment_chars(head.as_slice());
                let span = slice_vec(rest.as_slice(), idx, pos);
                let next = slice_vec(rest.as_slice(), pos, n);
                let ghost o = out@;
                push_all(&mut out, th.as_slice());
                push_all(&mut out, span.as_slice());
                proof {
                    assert(out@ =~= o + segment_transformed(head@) + span@);
                }
                rest = next;
            },
        }
    }
    out
}

/// Sanitize a single field value (entities, dashes, escaping).
pub fn sanitize_field_value(value: &str) -> (r: String)
    ensures
        r@ == value_transformed(value@),
{
    let c = str_chars(value);
    let t = transform_value_chars(c.as_slice());
    string_from_chars(t.as_slice())
}

/// The sanitized value of field `name`: `url` and `doi` untouched, `month`
/// mapped to its macro when recognizable, every other field transformed.
pub open spec fn field_sanitized(name: Seq<char>, value: Seq<char>) -> Seq<char> {
    if name == "url"@ || name == "doi"@ {
        value
    } else if name == "month"@ {
        match month_of(value) {
            Some(m) => m,
            None => value,
        }
    } else {
        value_transformed(value)
    }
}

/// The warning a field raises: an unmappable month.
pub open spec fn field_warnings(key: Seq<char>, name: Seq<char>, value: Seq<char>) -> Seq<Seq<char>> {
    if name == "month"@ && month_of(value) is None {
        seq![key + ": unmappable month value '"@ + value + "' left unchanged"@]
    } else {
        seq![]
    }
}

/// Fields of an entry with their values sanitized.
pub open spec fn fields_sanitized(fs: Seq<(Seq<char>, Seq<char>)>) -> Seq<(Seq<char>, Seq<char>)> {
    fs.map_values(|f: (Seq<char>, Seq<char>)| (f.0, field_sanitized(f.0, f.1)))
}

/// Warnings raised by the fields `fs[..n]` of the entry keyed `key`.
pub open spec fn entry_warnings(key: Seq<char>, fs: Seq<(Seq<char>, Seq<char>)>) -> Seq<Seq<char>>
    decreases fs.len(),
{
    if fs.len() == 0 {
        seq![]
    } else {
        entry_warnings(key, fs.drop_last()) + field_warnings(key, fs.last().0, fs.last().1)
    }
}

/// An entry with its fields sanitized.
pub open spec fn entry_sanitized(e: BibV) -> BibV {
    BibV { fields: fields_sanitized(e.fields), ..e }
}

/// A sanitized field other than `url`, `doi` and `month` whose value holds
/// no `\url{...}` span is clean: no Unicode dash, no `<` or `>`, and no
/// unescaped `&`.
pub proof fn lemma_field_clean(name: Seq<char>, value: Seq<char>)
    requires
        name != "url"@,
        name != "doi"@,
        name != "month"@,
        !contains(value, "\\url{"@),
    ensures
        clean_text(field_sanitized(name, value)),
{
    lemma_first_occurrence(value, "\\url{"@, 0);
    lemma_value_transformed_step(value);
    lemma_segment_clean(value);
}

/// The entry with all field values transformed; warnings are recorded.
fn sanitize_entry_fields(entry: &BibEntry, warnings: &mut Vec<String>) -> (r: BibEntry)
    ensures
        r@ == entry_sanitized(entry@),
        final(warnings)@.map_values(|w: String| w@) == old(warnings)@.map_values(|w: String| w@)
            + entry_warnings(entry@.key, entry@.fields),
{
    let ghost fv = fields_view(entry.fields@);
    let ghost wv0 = warnings@.map_values(|w: String| w@);
    let mut out: Vec<(String, String)> = Vec::new();
    let mut i: usize = 0;
    while i < entry.fields.len()
        invariant
            i <= entry.fields.len(),
            fv == fields_view(entry.fields@),
            fields_view(out@) == fields_sanitized(fv.subrange(0, i as int)),
            warnings@.map_values(|w: String| w@) == wv0 + entry_warnings(entry.key@, fv.subrange(0, i as int)),
        decreases entry.fields.len() - i,
    {
        let name = entry.fields[i].0.as_str();
        let value = entry.fields[i].1.as_str();
        assert(fv[i as int] == (name@, value@));
        let ghost prev_w = warnings@.map_values(|w: String| w@);
        let ghost fw = field_warnings(entry.key@, name@, value@);
        let newval: String;
        if str_eq(name, "url") || str_eq(name, "doi") {
            newval = value.to_owned();
            proof {
                reveal_strlit("url");
                reveal_strlit("doi");
                reveal_strlit("month");
                assert(name@ == "url"@ || name@ == "doi"@);
                assert("url"@.len() == 3);
                assert("month"@.len() == 5);
                assert(name@ != "month"@);
            }
            assert(fw =~= seq![]);
            assert(warnings@.map_values(|w: String| w@) =~= prev_w + fw);
        } else if str_eq(name, "month") {
            match map_month(value) {
                Some(m) => {
                    newval = m.to_owned();
                    assert(fw =~= seq![]);
                    assert(warnings@.map_values(|w: String| w@) =~= prev_w + fw);
                },
                None => {
                    let mut w: Vec<char> = Vec::new();
                    push_str(&mut w, entry.key.as_str());
                    push_str(&mut w, ": unmappable month value '");
                    push_str(&mut w, value);
                    push_str(&mut w, "' left unchanged");
                    let ws = string_from_chars(w.as_slice());
                    assert(fw == seq![ws@]);
                    warnings.push(ws);
                    assert(warnings@.map_values(|w: String| w@) =~= prev_w + fw);
                    newval = value.to_owned();
                },
            }
        } else {
            let vc = str_chars(value);
            let t = transform_value_chars(vc.as_slice());
            newval = string_from_chars(t.as_slice());
            assert(fw =~= seq![]);
            assert(warnings@.map_values(|w: String| w@) =~= prev_w + fw);
        }
        assert(newval@ == field_sanitized(name@, value@));
        let ghost prev_out = fields_view(out@);
        out.push((name.to_owned(), newval));
        proof {
            let sub = fv.subrange(0, i + 1);
            assert(sub.drop_last() =~= fv.subrange(0, i as int));
            assert(sub.last() == (name@, value@));
            assert(fields_view(out@) =~= prev_out.push((name@, newval@)));
            assert(fields_sanitized(sub) =~= fields_sanitized(fv.subrange(0, i as int)).push((name@, field_sanitized(name@, value@))));
            assert(fields_view(out@) =~= fields_sanitized(sub));
            assert(entry_warnings(entry.key@, sub) == entry_warnings(entry.key@, fv.subrange(0, i as int)) + fw);
            assert(warnings@.map_values(|w: String| w@) =~= wv0 + entry_warnings(entry.key@, sub));
        }
        i = i + 1;
    }
    assert(fv.subrange(0, fv.len() as int) =~= fv);
    BibEntry { entry_type: entry.entry_type.as_str().to_owned(), key: entry.key.as_str().to_owned(), fields: out }
}

/// Rendering of field `i` of `n`, month macros emitted bare.
pub open spec fn serialized_field(name: Seq<char>, value: Seq<char>, last: bool) -> Seq<char> {
    let comma = if last { ""@ } else { ","@ };
    if name == "month"@ && month_macros().contains(value) {
        "  "@ + name + " = "@ + value + comma + "\n"@
    } else {
        "  "@ + name + " = {"@ + value + "}"@ + comma + "\n"@
    }
}

/// Rendering of `fields[i..]`.
pub open spec fn serialized_fields(fields: Seq<(Seq<char>, Seq<char>)>, i: int) -> Seq<char>
    decreases fields.len() - i,
{
    if i < 0 || i >= fields.len() {
        seq![]
    } else {
        serialized_field(fields[i].0, fields[i].1, i == fields.len() - 1) + serialized_fields(fields, i + 1)
    }
}

/// Canonical serialization of an entry.
pub open spec fn serialized(e: BibV) -> Seq<char> {
    "@"@ + e.entry_type + "{"@ + e.key + ",\n"@ + serialized_fields(e.fields, 0) + "}"@
}

/// Serialize an entry like `BibEntry::to_string`, but emit recognized month
/// macros bare (`month = jun`, no braces).
fn serialize_entry(entry: &BibEntry) -> (r: String)
    ensures
        r@ == serialized(entry@),
{
    let mut out: Vec<char> = Vec::new();
    push_str(&mut out, "@");
    push_str(&mut out, entry.entry_type.as_str());
    push_str(&mut out, "{");
    push_str(&mut out, entry.key.as_str());
    push_str(&mut out, ",\n");
    let ghost fv = fields_view(entry.fields@);
    let ghost head = out@;
    let mut i: usize = 0;
    while i < entry.fields.len()
        invariant
            i <= entry.fields.len(),
            fv == fields_view(entry.fields@),
            head + serialized_fields(fv, 0) == out@ + serialized_fields(fv, i as int),
        decreases entry.fields.len() - i,
    {
        let ghost before = out@;
        let name = entry.fields[i].0.as_str();
        let value = entry.fields[i].1.as_str();
        assert(fv[i as int] == (name@, value@));
        let comma = if i < entry.fields.len() - 1 { "," } else { "" };
        push_str(&mut out, "  ");
        push_str(&mut out, name);
        if str_eq(name, "month") && is_month_macro(value) {
            push_str(&mut out, " = ");
            push_str(&mut out, value);
        } else {
            push_str(&mut out, " = {");
            push_str(&mut out, value);
            push_str(&mut out, "}");
        }
        push_str(&mut out, comma);
        push_str(&mut out, "\n");
        proof {
            assert(out@ =~= before + serialized_field(name@, value@, i == fv.len() - 1));
            assert(before + serialized_fields(fv, i as int) =~= out@ + serialized_fields(fv, i + 1));
        }
        i = i + 1;
    }
    push_str(&mut out, "}");
    proof {
        assert(serialized_fields(fv, i as int) == Seq::<char>::empty());
        assert(out@ =~= serialized(entry@));
    }
    string_from_chars(out.as_slice())
}

/// Serializations of the sanitized entries `es`.
pub open spec fn sanitized_texts(es: Seq<BibV>) -> Seq<Seq<char>> {
    es.map_values(|e: BibV| serialized(entry_sanitized(e)))
}

/// Warnings raised by the entries `es`, in order.
pub open spec fn all_warnings(es: Seq<BibV>) -> Seq<Seq<char>>
    decreases es.len(),
{
    if es.len() == 0 {
        seq![]
    } else {
        all_warnings(es.drop_last()) + entry_warnings(es.last().key, es.last().fields)
    }
}

/// Result of sanitizing a BibTeX string.
pub struct SanitizeOutcome {
    /// Sanitized BibTeX text (canonical serialization).
    pub text: String,
    /// Human-readable warnings (e.g. unmappable month values).
    pub warnings: Vec<String>,
    /// Whether the output differs from the (trimmed) input.
    pub changed: bool,
}

/// The sanitized text of a BibTeX string: the input unchanged when it has no
/// parseable entry, otherwise the canonical serializations of its sanitized
/// entries separated by blank lines.
pub open spec fn sanitized_text(input: Seq<char>) -> Seq<char> {
    let es = parse_bib(input);
    if es.len() == 0 {
        input
    } else {
        join(sanitized_texts(es), "\n\n"@)
    }
}

/// Sanitize a BibTeX string (one or more entries).
///
/// Parses the input, transforms field values, and re-serializes in canonical
/// form. If the input contains no parseable entries it is returned unchanged.
pub fn sanitize_bibtex(input: &str) -> (r: SanitizeOutcome)
    ensures
        r.text@ == sanitized_text(input@),
        r.warnings@.map_values(|w: String| w@) == all_warnings(parse_bib(input@)),
        r.changed == (parse_bib(input@).len() > 0 && r.text@ != trim(input@)),
{
    let entries = parse_bib_file(input);
    let ghost es = entries_view(entries@);
    if entries.len() == 0 {
        assert(es.len() == 0);
        let w: Vec<String> = Vec::new();
        assert(w@.map_values(|w: String| w@) =~= seq![]);
        return SanitizeOutcome { text: input.to_owned(), warnings: w, changed: false };
    }
    let mut warnings: Vec<String> = Vec::new();
    let mut texts: Vec<Vec<char>> = Vec::new();
    let mut i: usize = 0;
    while i < entries.len()
        invariant
            i <= entries.len(),
            es == entries_view(entries@),
            texts@.len() == i,
            forall|k: int| 0 <= k < i ==> (#[trigger] texts@[k])@ == sanitized_texts(es)[k],
            warnings@.map_values(|w: String| w@) == all_warnings(es.subrange(0, i as int)),
        decreases entries.len() - i,
    {
        let ghost ev = entries[i as int]@;
        assert(es[i as int] == ev);
        let e = sanitize_entry_fields(&entries[i], &mut warnings);
        let t = serialize_entry(&e);
        texts.push(str_chars(t.as_str()));
        proof {
            let sub = es.subrange(0, i + 1);
            assert(sub.drop_last() =~= es.subrange(0, i as int));
            assert(e@ == entry_sanitized(ev));
        }
        i = i + 1;
    }
    assert(es.subrange(0, es.len() as int) =~= es);
    assert(texts@.map_values(|t: Vec<char>| t@) =~= sanitized_texts(es));
    let sep = str_chars("\n\n");
    let joined = crate::text::join_vecs(&texts, sep.as_slice());
    let text = string_from_chars(joined.as_slice());
    let ic = str_chars(input);
    let it = trim_vec(ic.as_slice());
    let changed = !crate::text::chars_eq(joined.as_slice(), it.as_slice());
    SanitizeOutcome { text, warnings, changed }
}

/// Escape `&` (unless already escaped), `<`, and `>` for LaTeX.
pub fn latex_escape(s: &str) -> (r: String)
    ensures
        r@ == latex_escaped(s@),
{
    let c = str_chars(s);
    let t = latex_escape_chars(c.as_slice());
    string_from_chars(t.as_slice())
}

/// Decode `&#NNN;` and `&#xHH;` numeric entities.
pub fn decode_numeric_entities(s: &str) -> (r: String)
    ensures
        r@ == numeric_decoded(s@),
{
    let c = str_chars(s);
    let t = decode_numeric_entities_chars(c.as_slice());
    string_from_chars(t.as_slice())
}

/// Normalize Unicode en/em dashes to LaTeX `--`/`---`.
pub fn normalize_dashes(s: &str) -> (r: String)
    ensures
        r@ == dashes_normalized(s@),
{
    let c = str_chars(s);
    let t = normalize_dashes_chars(c.as_slice());
    string_from_chars(t.as_slice())
}

/// Transform a field value, leaving `\url{...}` spans verbatim.
pub fn transform_value(value: &str) -> (r: String)
    ensures
        r@ == value_transformed(value@),
{
    let c = str_chars(value);
    let t = transform_value_chars(c.as_slice());
    string_from_chars(t.as_slice())
}

/// Decode entities, normalize dashes, then LaTeX-escape.
pub fn transform_segment(s: &str) -> (r: String)
    ensures
        r@ == segment_transformed(s@),
{
    let c = str_chars(s);
    let t = transform_segment_chars(c.as_slice());
    string_from_chars(t.as_slice())
}

/// The text appended to a `.bib` file for an entry: a blank line first when
/// the file is not empty, then the entry sanitized, then a line break.
pub open spec fn appended_text(file_nonempty: bool, entry: Seq<char>) -> Seq<char> {
    (if file_nonempty { "\n"@ } else { seq![] }) + sanitized_text(entry) + "\n"@
}

/// What appending an entry to a `.bib` file writes: every entry written goes
/// through `sanitize_bibtex`, separated by a blank line from what the file
/// already holds. The caller opens the file and writes this text.
pub fn append_text(file_nonempty: bool, entry: &str) -> (r: String)
    ensures
        r@ == appended_text(file_nonempty, entry@),
{
    let out = sanitize_bibtex(entry);
    let mut v: Vec<char> = Vec::new();
    if file_nonempty {
        push_str(&mut v, "\n");
    }
    push_str(&mut v, out.text.as_str());
    push_str(&mut v, "\n");
    proof { reveal_strlit("\n"); }
    assert(v@ =~= appended_text(file_nonempty, entry@));
    string_from_chars(v.as_slice())
}

} // verus!