//! Naming and describing a downloaded arXiv source directory.
//!
//! A source tarball is unpacked into a directory named like a citation key
//! (`harutyunyan2019hindsight`), next to a `source.yaml` that records the
//! paper's metadata and the day it was retrieved.
use vstd::prelude::*;
use vstd::string::StringSliceAdditionalSpecFns;
use crate::api::{PaperResult, strs_view};
use crate::citekey::{first_significant, is_skip_word, significant};
use crate::cmd::verify::{alphabetic, alphanumeric};
use crate::text::{
    join, join_strings, lowercase, lowercase_chars, push_all, push_str, replace_all, replace_str, split_words, str_chars,
    str_to_lowercase, string_from_chars, trim, trim_vec, u64_to_chars, words, decimal,
};

verus! {



/// The letters of `s`, in order.
pub open spec fn letters(s: Seq<char>) -> Seq<char>
    decreases s.len(),
{
    if s.len() == 0 {
        seq![]
    } else {
        letters(s.drop_last()) + if alphabetic(s.last()) { seq![s.last()] } else { seq![] }
    }
}

fn letters_exec(s: &[char]) -> (r: Vec<char>)
    ensures
        r@ == letters(s@),
{
    let mut out: Vec<char> = Vec::new();
    let mut i: usize = 0;
    while i < s.len()
        invariant
            i <= s@.len(),
            out@ == letters(s@.subrange(0, i as int)),
        decreases s@.len() - i,
    {
        assert(s@.subrange(0, i + 1).drop_last() =~= s@.subrange(0, i as int));
        if crate::cmd::verify::is_alphabetic(s[i]) {
            out.push(s[i]);
        }
        assert(out@ =~= letters(s@.subrange(0, i + 1)));
        i = i + 1;
    }
    assert(s@.subrange(0, s@.len() as int) =~= s@);
    out
}

/// The lower-cased letters of the last word of the first author, or
/// `unknown` when there is no author.
pub open spec fn dir_last_name(authors: Seq<Seq<char>>) -> Seq<char> {
    if authors.len() > 0 {
        let ws = words(trim(authors[0]));
        let last = if ws.len() > 0 { ws.last() } else { "unknown"@ };
        lowercase(letters(last))
    } else {
        "unknown"@
    }
}

/// Extract the lowercased last name of the first author.
pub fn extract_lastname(authors: &[String]) -> (r: String)
    ensures
        r@ == dir_last_name(strs_view(authors@)),
{
    proof {
        reveal_strlit("unknown");
    }
    if authors.len() == 0 {
        return "unknown".to_owned();
    }
    assert(strs_view(authors@)[0] == authors@[0]@);
    let t = trim_vec(str_chars(authors[0].as_str()).as_slice());
    let ws = split_words(t.as_slice());
    let last: Vec<char> = if ws.len() > 0 {
        let k = ws.len() - 1;
        assert(ws@[k as int]@ == words(t@)[k as int]);
        crate::text::slice_vec(ws[k].as_slice(), 0, ws[k].len())
    } else {
        str_chars("unknown")
    };
    assert(t@ == trim(strs_view(authors@)[0]));
    assert(ws@.len() == words(t@).len());
    assert(last@ == (if words(t@).len() > 0 { words(t@).last() } else { "unknown"@ }));
    let l = letters_exec(last.as_slice());
    str_to_lowercase(string_from_chars(l.as_slice()).as_str())
}

/// The end of the run of alphanumeric characters starting at `i`.
pub open spec fn alnum_end(s: Seq<char>, i: int) -> int
    decreases s.len() - i,
{
    if i < 0 || i >= s.len() || !alphanumeric(s[i]) {
        i
    } else {
        alnum_end(s, i + 1)
    }
}

proof fn lemma_alnum_end(s: Seq<char>, i: int)
    requires
        0 <= i <= s.len(),
    ensures
        i <= alnum_end(s, i) <= s.len(),
        forall|j: int| i <= j < alnum_end(s, i) ==> alphanumeric(#[trigger] s[j]),
        alnum_end(s, i) < s.len() ==> !alphanumeric(s[alnum_end(s, i)]),
    decreases s.len() - i,
{
    if i < s.len() && alphanumeric(s[i]) {
        lemma_alnum_end(s, i + 1);
    }
}

/// The non-empty runs of alphanumeric characters of `s[i..]` (`str::split`
/// on every other character, empty pieces dropped).
pub open spec fn alnum_words_from(s: Seq<char>, i: int) -> Seq<Seq<char>>
    decreases s.len() - i,
{
    if i < 0 || i >= s.len() {
        seq![]
    } else if !alphanumeric(s[i]) {
        alnum_words_from(s, i + 1)
    } else if i < alnum_end(s, i) <= s.len() {
        seq![s.subrange(i, alnum_end(s, i))] + alnum_words_from(s, alnum_end(s, i))
    } else {
        seq![]
    }
}

/// The first significant word of a title, lower-cased: the slug of a
/// directory name.
pub open spec fn title_slug(title: Seq<char>) -> Seq<char> {
    first_significant(alnum_words_from(title, 0))
}

/// Extract a short slug from the title: first significant word, lowercased.
pub fn extract_title_slug(title: &str) -> (r: String)
    ensures
        r@ == title_slug(title@),
{
    let s = str_chars(title);
    let n = s.len();
    let mut i: usize = 0;
    while i < n
        invariant
            i <= n == s@.len(),
            s@ == title@,
            title_slug(title@) == first_significant(alnum_words_from(s@, i as int)),
        decreases n - i,
    {
        if !crate::cmd::verify::is_alphanumeric(s[i]) {
            i = i + 1;
        } else {
            proof {
                lemma_alnum_end(s@, i as int);
                lemma_alnum_end(s@, i + 1);
            }
            let mut e = i + 1;
            while e < n && crate::cmd::verify::is_alphanumeric(s[e])
                invariant
                    i < e <= n == s@.len(),
                    alnum_end(s@, i as int) == alnum_end(s@, e as int),
                decreases n - e,
            {
                e = e + 1;
            }
            let w = crate::text::slice_vec(s.as_slice(), i, e);
            let low = lowercase_chars(w.as_slice());
            let ls = string_from_chars(low.as_slice());
            let lb = ls.as_str().as_bytes();
            let ghost ws = alnum_words_from(s@, i as int);
            assert(ws[0] == w@);
            assert(ws.drop_first() =~= alnum_words_from(s@, e as int));
            if !is_skip_word(low.as_slice()) && lb.len() > 2 {
                assert(significant(lowercase(w@)));
                return ls;
            }
            i = e;
        }
    }
    String::new()
}

/// The name of a paper's source directory: last name, year and title slug.
pub open spec fn dir_name_of(authors: Seq<Seq<char>>, year: Seq<char>, title: Seq<char>) -> Seq<char> {
    dir_last_name(authors) + year + title_slug(title)
}

/// Generate a directory name from paper metadata: `{lastname}{year}{slug}`.
pub fn generate_dir_name(paper: &PaperResult) -> (r: String)
    ensures
        r@ == dir_name_of(paper@.authors, paper@.year, paper@.title),
{
    let last = extract_lastname(paper.authors.as_slice());
    let slug = extract_title_slug(paper.title.as_str());
    let mut v: Vec<char> = Vec::new();
    push_str(&mut v, last.as_str());
    push_str(&mut v, paper.year.as_str());
    push_str(&mut v, slug.as_str());
    string_from_chars(v.as_slice())
}

/// `s` with each double quote escaped by a backslash.
pub open spec fn quotes_escaped(s: Seq<char>) -> Seq<char> {
    replace_all(s, "\""@, "\\\""@)
}

/// The text of `source.yaml` for a paper: title, authors joined by ` and `
/// (both with their quotes escaped), year, arXiv ID and retrieval date.
pub open spec fn source_yaml(title: Seq<char>, authors: Seq<Seq<char>>, year: Seq<char>, arxiv_id: Seq<char>, retrieved: Seq<char>) -> Seq<char> {
    "title: \""@ + quotes_escaped(title) + "\"\n"@
        + "authors: \""@ + quotes_escaped(join(authors, " and "@)) + "\"\n"@
        + "year: "@ + year + "\n"@
        + "arxiv: \""@ + arxiv_id + "\"\n"@
        + "retrieved: \""@ + retrieved + "\"\n"@
}

/// Build the source.yaml content.
pub fn build_source_yaml(paper: &PaperResult, arxiv_id: &str, retrieved: &str) -> (r: String)
    ensures
        r@ == source_yaml(paper@.title, paper@.authors, paper@.year, arxiv_id@, retrieved@),
{
    proof {
        reveal_strlit("\"");
    }
    assert(paper.authors@.map_values(|a: String| a@) =~= strs_view(paper.authors@));
    let authors = join_strings(paper.authors.as_slice(), " and ");
    let title = replace_str(str_chars(paper.title.as_str()).as_slice(), "\"", "\\\"");
    let auth = replace_str(str_chars(authors.as_str()).as_slice(), "\"", "\\\"");
    let mut v: Vec<char> = Vec::new();
    push_str(&mut v, "title: \"");
    push_all(&mut v, title.as_slice());
    push_str(&mut v, "\"\n");
    push_str(&mut v, "authors: \"");
    push_all(&mut v, auth.as_slice());
    push_str(&mut v, "\"\n");
    push_str(&mut v, "year: ");
    push_str(&mut v, paper.year.as_str());
    push_str(&mut v, "\n");
    push_str(&mut v, "arxiv: \"");
    push_str(&mut v, arxiv_id);
    push_str(&mut v, "\"\n");
    push_str(&mut v, "retrieved: \"");
    push_str(&mut v, retrieved);
    push_str(&mut v, "\"\n");
    string_from_chars(v.as_slice())
}

/// The civil date (year, month, day) of a day count since 1970-01-01, as
/// the days-to-civil algorithm of H. Hinnant computes it.
pub open spec fn civil_from_days(days: int) -> (int, int, int) {
    let z = days + 719468;
    let era = z / 146097;
    let doe = z - era * 146097;
    let yoe = (doe - doe / 1460 + doe / 36524 - doe / 146096) / 365;
    let y = yoe + era * 400;
    let doy = doe - (365 * yoe + yoe / 4 - yoe / 100);
    let mp = (5 * doy + 2) / 153;
    let d = doy - (153 * mp + 2) / 5 + 1;
    let m = if mp < 10 { mp + 3 } else { mp - 9 };
    (if m <= 2 { y + 1 } else { y }, m, d)
}

/// Convert days since Unix epoch to (year, month, day).
pub fn days_to_ymd(days: u64) -> (r: (u64, u64, u64))
    requires
        days <= u64::MAX - 719468,
    ensures
        (r.0 as int, r.1 as int, r.2 as int) == civil_from_days(days as int),
        1 <= r.1 <= 12,
        1 <= r.2 <= 31,
{
    let z = days + 719468;
    let era = z / 146097;
    let doe = z - era * 146097;
    assert(doe < 146097);
    let yoe = (doe - doe / 1460 + doe / 36524 - doe / 146096) / 365;
    assert(yoe <= 399);
    let y = yoe + era * 400;
    let doy = doe - (365 * yoe + yoe / 4 - yoe / 100);
    assert(doy <= 365);
    let mp = (5 * doy + 2) / 153;
    let d = doy - (153 * mp + 2) / 5 + 1;
    let m = if mp < 10 { mp + 3 } else { mp - 9 };
    let y = if m <= 2 { y + 1 } else { y };
    (y, m, d)
}

/// A number written with at least `width` digits, zero-padded (`{:0w}`).
pub open spec fn padded(n: nat, width: nat) -> Seq<char> {
    let d = decimal(n);
    if d.len() >= width { d } else { Seq::new((width - d.len()) as nat, |i: int| '0') + d }
}

fn padded_exec(n: u64, width: usize) -> (r: Vec<char>)
    ensures
        r@ == padded(n as nat, width as nat),
{
    let d = u64_to_chars(n);
    if d.len() >= width {
        return d;
    }
    let mut v: Vec<char> = Vec::new();
    let k = width - d.len();
    let mut i: usize = 0;
    while i < k
        invariant
            i <= k,
            v@ == Seq::new(i as nat, |j: int| '0'),
        decreases k - i,
    {
        v.push('0');
        assert(v@ =~= Seq::new((i + 1) as nat, |j: int| '0'));
        i = i + 1;
    }
    push_all(&mut v, d.as_slice());
    v
}

/// `YYYY-MM-DD` for a civil date (`{:04}-{:02}-{:02}`).
pub open spec fn date_text(y: nat, m: nat, d: nat) -> Seq<char> {
    padded(y, 4) + "-"@ + padded(m, 2) + "-"@ + padded(d, 2)
}

/// The date, as `YYYY-MM-DD`, of a time in seconds since the Unix epoch.
pub fn date_string(secs: u64) -> (r: String)
    ensures
        ({
            let (y, m, d) = civil_from_days((secs / 86400) as int);
            r@ == date_text(y as nat, m as nat, d as nat)
        }),
{
    let (y, m, d) = days_to_ymd(secs / 86400);
    let mut v = padded_exec(y, 4);
    v.push('-');
    push_all(&mut v, padded_exec(m, 2).as_slice());
    v.push('-');
    push_all(&mut v, padded_exec(d, 2).as_slice());
    proof {
        reveal_strlit("-");
    }
    string_from_chars(v.as_slice())
}

} // verus!
