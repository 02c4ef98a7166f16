//! `lit clean`: detect problematic `.bib` entries and rewrite the file
//! without them.
//!
//! Detects three problem categories:
//! - **Malformed**: the citekey contains `=` or `http`, or starts with a
//!   digit; or the entry has no title, author, or year.
//! - **Duplicates**: two entries share the same `eprint` or `doi` field
//!   (the first occurrence is kept).
//! - **Orphans**: entries not cited in any scanned `.tex` file.
//!
//! It also lints each entry for `&amp;` entities, Unicode dashes and
//! `month` values that are not bare macros.
use vstd::prelude::*;
use crate::api::{filter_mapped, strs_view};
use crate::bibtex::{lemma_scan_skipped, 
    BibEntry, BibV, Stop, stops, braced_end, braced_end_exec, entries_view, field_value, lemma_braced_end, lemma_scan, parse_bib,
    parse_bib_file, scan, scan_exec,
};
use crate::api::causalai::nonempty_trimmed;
use crate::text::{
    contains, contains_chars, first_occurrence, find_from, has_char, is_ascii_ws, is_ascii_ws_exec, is_digit, is_digit_exec,
    lemma_first_occurrence, lowercase, split, split_on, str_chars, str_eq, str_to_lowercase, string_from_chars, slice_vec,
    trim, trim_vec, push_all,
};

verus! {

/// Report from a clean scan.
#[derive(Debug)]
pub struct CleanReport {
    /// Citekeys that are malformed.
    pub malformed: Vec<String>,
    /// Pairs of (kept_key, removed_key) for duplicate entries.
    pub duplicates: Vec<(String, String)>,
    /// Citekeys not cited in any scanned .tex file (empty if none was scanned).
    pub orphans: Vec<String>,
    /// Citekeys that were actually removed (when applying).
    pub removed: Vec<String>,
    /// Lint findings as (citekey, message): `&amp;` entities, Unicode
    /// dashes, and `month` values that are not bare macros.
    pub lint: Vec<(String, String)>,
}

/// A field's value trimmed, empty when the field is missing.
pub open spec fn trimmed_field(fields: Seq<(Seq<char>, Seq<char>)>, name: Seq<char>) -> Seq<char> {
    match field_value(fields, name) {
        Some(v) => trim(v),
        None => seq![],
    }
}

/// A malformed entry: a citekey with `=` or `http` or a leading digit, or a
/// missing title, author or year.
pub open spec fn malformed(e: BibV) -> bool {
    ||| e.key.contains('=')
    ||| contains(e.key, "http"@)
    ||| (e.key.len() > 0 && is_digit(e.key[0]))
    ||| trimmed_field(e.fields, "title"@).len() == 0
    ||| trimmed_field(e.fields, "author"@).len() == 0
    ||| trimmed_field(e.fields, "year"@).len() == 0
}

fn trimmed_field_empty(e: &BibEntry, name: &str) -> (r: bool)
    ensures
        r == (trimmed_field(e@.fields, name@).len() == 0),
{
    match e.get_field(name) {
        Some(v) => trim_vec(str_chars(v).as_slice()).len() == 0,
        None => true,
    }
}

/// Returns true if a BibEntry is malformed.
///
/// Malformed means: the citekey contains `=` or `http` or starts with a
/// digit, or the entry is missing a title, author, or year.
pub fn is_malformed(entry: &BibEntry) -> (r: bool)
    ensures
        r == malformed(entry@),
{
    proof {
        reveal_strlit("http");
    }
    let k = str_chars(entry.key.as_str());
    if has_char(k.as_slice(), '=') || contains_chars(k.as_slice(), str_chars("http").as_slice())
        || (k.len() > 0 && is_digit_exec(k[0])) {
        return true;
    }
    trimmed_field_empty(entry, "title") || trimmed_field_empty(entry, "author") || trimmed_field_empty(entry, "year")
}

/// The keys of the malformed entries, in order.
pub open spec fn malformed_keys(es: Seq<BibV>) -> Seq<Seq<char>> {
    filter_mapped(es, |e: BibV| malformed_key(e))
}

/// A field normalised for duplicate detection: trimmed and lower-cased.
pub open spec fn dup_norm(fields: Seq<(Seq<char>, Seq<char>)>, name: Seq<char>) -> Option<Seq<char>> {
    match field_value(fields, name) {
        Some(v) => if lowercase(trim(v)).len() > 0 { Some(lowercase(trim(v))) } else { None },
        None => None,
    }
}

/// The key first recorded for `v` in `seen`.
pub open spec fn seen_key(seen: Seq<(Seq<char>, Seq<char>)>, v: Seq<char>) -> Option<Seq<char>>
    decreases seen.len(),
{
    if seen.len() == 0 {
        None
    } else if seen[0].0 == v {
        Some(seen[0].1)
    } else {
        seen_key(seen.drop_first(), v)
    }
}

/// The state of the duplicate scan: values seen by eprint and by DOI (each
/// with the key of its first entry), and the pairs found.
pub struct DupScan {
    pub eprints: Seq<(Seq<char>, Seq<char>)>,
    pub dois: Seq<(Seq<char>, Seq<char>)>,
    pub pairs: Seq<(Seq<char>, Seq<char>)>,
}

/// One step of the scan: a value either repeats an earlier one (a pair of
/// the first key and this one) or is recorded.
pub open spec fn dup_step(
    seen: Seq<(Seq<char>, Seq<char>)>,
    pairs: Seq<(Seq<char>, Seq<char>)>,
    v: Option<Seq<char>>,
    key: Seq<char>,
) -> (Seq<(Seq<char>, Seq<char>)>, Seq<(Seq<char>, Seq<char>)>) {
    match v {
        None => (seen, pairs),
        Some(n) => match seen_key(seen, n) {
            Some(first) => (seen, pairs.push((first, key))),
            None => (seen.push((n, key)), pairs),
        },
    }
}

/// Scan entries for duplicates by eprint, then DOI, entry by entry.
#[verifier::opaque]
pub open spec fn dup_scan(es: Seq<BibV>) -> DupScan
    decreases es.len(),
{
    if es.len() == 0 {
        DupScan { eprints: seq![], dois: seq![], pairs: seq![] }
    } else {
        let d = dup_scan(es.drop_last());
        let e = es.last();
        let (ep, p1) = dup_step(d.eprints, d.pairs, dup_norm(e.fields, "eprint"@), e.key);
        let (dv, p2) = dup_step(d.dois, p1, dup_norm(e.fields, "doi"@), e.key);
        DupScan { eprints: ep, dois: dv, pairs: p2 }
    }
}

proof fn lemma_dup_scan_step(es: Seq<BibV>, i: int)
    requires
        0 <= i < es.len(),
    ensures
        ({
            let d = dup_scan(es.subrange(0, i));
            let e = es[i];
            let (ep, p1) = dup_step(d.eprints, d.pairs, dup_norm(e.fields, "eprint"@), e.key);
            let (dv, p2) = dup_step(d.dois, p1, dup_norm(e.fields, "doi"@), e.key);
            dup_scan(es.subrange(0, i + 1)) == DupScan { eprints: ep, dois: dv, pairs: p2 }
        }),
{
    let sub = es.subrange(0, i + 1);
    assert(sub.drop_last() =~= es.subrange(0, i));
    assert(sub.last() == es[i]);
    reveal(dup_scan);
}

proof fn lemma_dup_scan_empty(es: Seq<BibV>)
    requires
        es.len() == 0,
    ensures
        dup_scan(es) == (DupScan { eprints: seq![], dois: seq![], pairs: seq![] }),
{
    reveal(dup_scan);
}

pub(crate) fn dup_norm_exec(e: &BibEntry, name: &str) -> (r: Option<String>)
    ensures
        match r {
            Some(s) => dup_norm(e@.fields, name@) == Some(s@),
            None => dup_norm(e@.fields, name@) is None,
        },
{
    match e.get_field(name) {
        Some(v) => {
            let t = string_from_chars(trim_vec(str_chars(v).as_slice()).as_slice());
            let l = str_to_lowercase(t.as_str());
            if l.as_str().is_empty() { None } else { Some(l) }
        },
        None => None,
    }
}

/// The views of a list of string pairs.
pub open spec fn pairs_view(v: Seq<(String, String)>) -> Seq<(Seq<char>, Seq<char>)> {
    v.map_values(|p: (String, String)| (p.0@, p.1@))
}

fn seen_key_exec(seen: &Vec<(String, String)>, v: &str) -> (r: Option<String>)
    ensures
        match r {
            Some(k) => seen_key(pairs_view(seen@), v@) == Some(k@),
            None => seen_key(pairs_view(seen@), v@) is None,
        },
{
    let ghost sv = pairs_view(seen@);
    let mut i: usize = 0;
    assert(sv.subrange(0, sv.len() as int) =~= sv);
    while i < seen.len()
        invariant
            i <= seen@.len(),
            sv == pairs_view(seen@),
            seen_key(sv, v@) == seen_key(sv.subrange(i as int, sv.len() as int), v@),
        decreases seen@.len() - i,
    {
        let ghost rest = sv.subrange(i as int, sv.len() as int);
        assert(rest[0] == (seen@[i as int].0@, seen@[i as int].1@));
        if str_eq(seen[i].0.as_str(), v) {
            return Some(seen[i].1.clone());
        }
        assert(rest.drop_first() =~= sv.subrange(i + 1, sv.len() as int));
        i = i + 1;
    }
    None
}

fn dup_step_exec(seen: &mut Vec<(String, String)>, pairs: &mut Vec<(String, String)>, v: Option<String>, key: &str)
    ensures
        (pairs_view(final(seen)@), pairs_view(final(pairs)@))
            == dup_step(pairs_view(old(seen)@), pairs_view(old(pairs)@), match v { Some(s) => Some(s@), None => None }, key@),
{
    match v {
        None => {},
        Some(n) => match seen_key_exec(seen, n.as_str()) {
            Some(first) => {
                let ghost prev = pairs_view(pairs@);
                let ghost fv = first@;
                pairs.push((first, key.to_owned()));
                assert(pairs_view(pairs@) =~= prev.push((fv, key@)));
            },
            None => {
                let ghost prev = pairs_view(seen@);
                let ghost nv = n@;
                seen.push((n, key.to_owned()));
                assert(pairs_view(seen@) =~= prev.push((nv, key@)));
            },
        },
    }
}

/// Pairs of (kept, removed) keys for entries sharing an `eprint` or a `doi`
/// (trimmed, case-insensitively), the first occurrence kept.
pub fn find_duplicates(entries: &Vec<BibEntry>) -> (r: Vec<(String, String)>)
    ensures
        pairs_view(r@) == dup_scan(entries_view(entries@)).pairs,
{
    let ghost es = entries_view(entries@);
    let mut eprints: Vec<(String, String)> = Vec::new();
    let mut dois: Vec<(String, String)> = Vec::new();
    let mut pairs: Vec<(String, String)> = Vec::new();
    assert(pairs_view(eprints@) =~= seq![]);
    assert(pairs_view(dois@) =~= seq![]);
    assert(pairs_view(pairs@) =~= seq![]);
    proof {
        lemma_dup_scan_empty(es.subrange(0, 0));
    }
    let mut i: usize = 0;
    while i < entries.len()
        invariant
            i <= entries@.len(),
            es == entries_view(entries@),
            dup_scan(es.subrange(0, i as int)).eprints == pairs_view(eprints@),
            dup_scan(es.subrange(0, i as int)).dois == pairs_view(dois@),
            dup_scan(es.subrange(0, i as int)).pairs == pairs_view(pairs@),
        decreases entries@.len() - i,
    {
        let ghost sub = es.subrange(0, i + 1);
        proof {
            lemma_dup_scan_step(es, i as int);
        }
        let e = &entries[i];
        assert(es[i as int] == e@);
        let ve = dup_norm_exec(e, "eprint");
        dup_step_exec(&mut eprints, &mut pairs, ve, e.key.as_str());
        let vd = dup_norm_exec(e, "doi");
        dup_step_exec(&mut dois, &mut pairs, vd, e.key.as_str());
        i = i + 1;
    }
    assert(es.subrange(0, es.len() as int) =~= es);
    pairs
}

/// The citekeys cited from position `pos` of a LaTeX text: each
/// `\cite...{a, b}` command yields its comma-separated keys, trimmed.
pub open spec fn cite_keys_from(s: Seq<char>, pos: int) -> Seq<Seq<char>>
    decreases s.len() - pos,
{
    if pos < 0 || pos >= s.len() {
        seq![]
    } else {
        match first_occurrence(s, "\\cite"@, pos) {
            None => seq![],
            Some(o) => {
                let p2 = scan(s, o + 5, Stop::BraceOrNewline);
                if p2 <= pos || p2 > s.len() {
                    seq![]
                } else if p2 >= s.len() || s[p2] != '{' {
                    cite_keys_from(s, p2)
                } else {
                    let e = braced_end(s, p2 + 1, 1);
                    let next = if e < s.len() { e + 1 } else { e };
                    if next <= pos || next > s.len() {
                        seq![]
                    } else {
                        filter_mapped(split(s.subrange(p2 + 1, e), ","@), |k: Seq<char>| nonempty_trimmed(k))
                            + cite_keys_from(s, next)
                    }
                }
            },
        }
    }
}

/// The citekeys of a LaTeX text, in order of appearance.
pub open spec fn cite_keys(s: Seq<char>) -> Seq<Seq<char>> {
    cite_keys_from(s, 0)
}

fn keys_of_group(s: &[char], lo: usize, hi: usize) -> (r: Vec<String>)
    requires
        lo <= hi <= s@.len(),
    ensures
        strs_view(r@) == filter_mapped(split(s@.subrange(lo as int, hi as int), ","@), |k: Seq<char>| nonempty_trimmed(k)),
{
    proof {
        reveal_strlit(",");
    }
    let g = slice_vec(s, lo, hi);
    let sep = str_chars(",");
    let parts = split_on(g.as_slice(), sep.as_slice());
    let ghost ps = split(g@, ","@);
    let ghost f = |k: Seq<char>| nonempty_trimmed(k);
    let mut out: Vec<String> = Vec::new();
    let mut i: usize = 0;
    while i < parts.len()
        invariant
            i <= parts@.len(),
            ps.len() == parts@.len(),
            f == (|k: Seq<char>| nonempty_trimmed(k)),
            forall|k: int| 0 <= k < parts@.len() ==> (#[trigger] parts@[k])@ == ps[k],
            strs_view(out@) == filter_mapped(ps.subrange(0, i as int), f),
        decreases parts@.len() - i,
    {
        let ghost sub = ps.subrange(0, i + 1);
        assert(sub.drop_last() =~= ps.subrange(0, i as int));
        assert(sub.last() == parts@[i as int]@);
        let t = trim_vec(parts[i].as_slice());
        if t.len() > 0 {
            let ghost prev = strs_view(out@);
            let k = string_from_chars(t.as_slice());
            out.push(k);
            assert(strs_view(out@) =~= prev.push(k@));
        }
        i = i + 1;
    }
    assert(ps.subrange(0, ps.len() as int) =~= ps);
    out
}

/// Extract all citekeys from a LaTeX string using a simple parser.
///
/// Handles `\cite{a,b}`, `\citep{a}`, `\citet{a}`, and similar variants.
pub fn extract_citekeys(content: &str) -> (r: Vec<String>)
    ensures
        strs_view(r@) == cite_keys(content@),
{
    let c = str_chars(content);
    let n = c.len();
    let pat = str_chars("\\cite");
    proof {
        reveal_strlit("\\cite");
    }
    assert(pat@.len() == 5);
    let mut out: Vec<String> = Vec::new();
    let mut pos: usize = 0;
    assert(strs_view(out@) + cite_keys_from(c@, 0) =~= cite_keys_from(c@, 0));
    while pos < n
        invariant
            pos <= n == c@.len(),
            c@ == content@,
            pat@ == "\\cite"@,
            pat@.len() == 5,
            strs_view(out@) + cite_keys_from(c@, pos as int) == cite_keys(content@),
        ensures
            strs_view(out@) == cite_keys(content@),
        decreases n - pos,
    {
        let ghost before = strs_view(out@);
        match find_from(c.as_slice(), pos, pat.as_slice()) {
            None => {
                assert(cite_keys_from(c@, pos as int) =~= Seq::<Seq<char>>::empty());
                assert(before + Seq::<Seq<char>>::empty() =~= before);
                break;
            },
            Some(o) => {
                proof {
                    lemma_first_occurrence(c@, pat@, pos as int);
                    lemma_scan(c@, o + 5, Stop::BraceOrNewline);
                }
                let p2 = scan_exec(c.as_slice(), o + 5, Stop::BraceOrNewline);
                if p2 >= n || c[p2] != '{' {
                    pos = p2;
                    if pos >= n {
                        assert(cite_keys_from(c@, pos as int) =~= Seq::<Seq<char>>::empty());
                        assert(strs_view(out@) + Seq::<Seq<char>>::empty() =~= strs_view(out@));
                    }
                } else {
                    proof {
                        lemma_braced_end(c@, p2 + 1, 1);
                    }
                    let e = braced_end_exec(c.as_slice(), p2 + 1);
                    let keys = keys_of_group(c.as_slice(), p2 + 1, e);
                    let mut k: usize = 0;
                    while k < keys.len()
                        invariant
                            k <= keys@.len(),
                            strs_view(out@) == before + strs_view(keys@).subrange(0, k as int),
                        decreases keys@.len() - k,
                    {
                        let ghost prev = strs_view(out@);
                        let kk = keys[k].clone();
                        out.push(kk);
                        assert(strs_view(out@) =~= prev.push(kk@));
                        assert(strs_view(keys@)[k as int] == kk@);
                        assert(strs_view(out@) =~= before + strs_view(keys@).subrange(0, k + 1));
                        k = k + 1;
                    }
                    let next = if e < n { e + 1 } else { e };
                    assert(strs_view(keys@).subrange(0, keys@.len() as int) =~= strs_view(keys@));
                    assert(strs_view(out@) + cite_keys_from(c@, next as int) =~= before + cite_keys_from(c@, pos as int));
                    pos = next;
                    if pos >= n {
                        assert(cite_keys_from(c@, pos as int) =~= Seq::<Seq<char>>::empty());
                        assert(strs_view(out@) + Seq::<Seq<char>>::empty() =~= strs_view(out@));
                    }
                }
            },
        }
    }
    out
}

/// The text kept when the entries whose keys are in `rm` are removed,
/// scanning from `pos` with `out` kept so far; `keep` tells whether the
/// text from `pos` on, up to the next entry, is kept: it is when the entry
/// before it was kept (or at the start of the file). `@comment`,
/// `@preamble` and `@string` blocks are always kept.
pub open spec fn kept_from(s: Seq<char>, pos: int, keep: bool, out: Seq<char>, rm: Seq<Seq<char>>) -> Seq<char>
    decreases s.len() - pos,
{
    let rest = if keep && 0 <= pos < s.len() { out + s.subrange(pos, s.len() as int) } else { out };
    if pos < 0 || pos >= s.len() {
        rest
    } else {
        let at = scan(s, pos, Stop::At);
        if at >= s.len() {
            rest
        } else {
            let te = scan(s, at + 1, Stop::TypeEnd);
            let etype = lowercase(s.subrange(at + 1, te));
            let b = scan(s, te, Stop::OpenBrace);
            if b >= s.len() {
                rest
            } else {
                let k0 = scan(s, b + 1, Stop::NonSpace);
                let k1 = scan(s, k0, Stop::KeyEnd);
                let key = trim(s.subrange(k0, k1));
                let be = braced_end(s, k1, 1);
                let e = if be < s.len() { be + 1 } else { be };
                if e <= pos || e > s.len() || at < pos {
                    rest
                } else {
                    let before = out + (if keep { s.subrange(pos, at) } else { seq![] });
                    if etype == "comment"@ || etype == "preamble"@ || etype == "string"@ || !rm.contains(key) {
                        kept_from(s, e, true, before + s.subrange(at, e), rm)
                    } else {
                        kept_from(s, e, false, before, rm)
                    }
                }
            }
        }
    }
}

/// The text of a `.bib` file without the entries whose keys are in `rm`:
/// each removed entry goes together with the text that follows it up to the
/// next entry.
pub open spec fn kept_blocks(s: Seq<char>, rm: Seq<Seq<char>>) -> Seq<char> {
    kept_from(s, 0, true, seq![], rm)
}

proof fn lemma_kept_from_all(s: Seq<char>, pos: int)
    requires
        0 <= pos <= s.len(),
    ensures
        kept_from(s, pos, true, s.subrange(0, pos), seq![]) == s,
    decreases s.len() - pos,
{
    let out = s.subrange(0, pos);
    if pos < s.len() {
        assert(out + s.subrange(pos, s.len() as int) =~= s);
        lemma_scan(s, pos, Stop::At);
        let at = scan(s, pos, Stop::At);
        if at < s.len() {
            lemma_scan(s, at + 1, Stop::TypeEnd);
            let te = scan(s, at + 1, Stop::TypeEnd);
            lemma_scan(s, te, Stop::OpenBrace);
            let b = scan(s, te, Stop::OpenBrace);
            if b < s.len() {
                lemma_scan(s, b + 1, Stop::NonSpace);
                let k0 = scan(s, b + 1, Stop::NonSpace);
                lemma_scan(s, k0, Stop::KeyEnd);
                let k1 = scan(s, k0, Stop::KeyEnd);
                if k1 < s.len() {
                    lemma_braced_end(s, k1, 1);
                }
                let key = trim(s.subrange(k0, k1));
                let be = braced_end(s, k1, 1);
                let e = if be < s.len() { be + 1 } else { be };
                if !(e <= pos || e > s.len() || at < pos) {
                    assert(!Seq::<Seq<char>>::empty().contains(key));
                    assert(out + s.subrange(pos, at) + s.subrange(at, e) =~= s.subrange(0, e));
                    lemma_kept_from_all(s, e);
                }
            }
        }
    } else {
        assert(out =~= s);
    }
}

/// With no key to remove, cleaning gives back the file unchanged.
pub proof fn lemma_nothing_removed_keeps_file(s: Seq<char>)
    ensures
        kept_blocks(s, seq![]) == s,
{
    lemma_kept_from_all(s, 0);
    assert(s.subrange(0, 0) =~= Seq::<char>::empty());
}

pub(crate) fn contains_key(v: &Vec<String>, s: &[char]) -> (r: bool)
    ensures
        r == strs_view(v@).contains(s@),
{
    let mut i: usize = 0;
    while i < v.len()
        invariant
            i <= v@.len(),
            forall|k: int| 0 <= k < i ==> v@[k]@ != s@,
        decreases v@.len() - i,
    {
        if crate::text::eq_str(s, v[i].as_str()) {
            assert(strs_view(v@)[i as int] == s@);
            return true;
        }
        i = i + 1;
    }
    assert forall|k: int| 0 <= k < strs_view(v@).len() implies strs_view(v@)[k] != s@ by {
        assert(strs_view(v@)[k] == v@[k]@);
    }
    false
}

fn is_kept_type(t: &[char]) -> (r: bool)
    ensures
        r == (lowercase(t@) == "comment"@ || lowercase(t@) == "preamble"@ || lowercase(t@) == "string"@),
{
    let l = str_to_lowercase(string_from_chars(t).as_str());
    str_eq(l.as_str(), "comment") || str_eq(l.as_str(), "preamble") || str_eq(l.as_str(), "string")
}

/// Extract raw text blocks for entries not in `to_remove`, preserving
/// intervening text.
///
/// Scans for `@type{key,` start positions, tracks brace depth to find each
/// entry's end, then includes or excludes each block. Text between entries
/// (comments, blank lines) is preserved when the preceding entry is kept.
pub fn extract_kept_blocks(content: &str, to_remove: &Vec<String>) -> (r: String)
    ensures
        r@ == kept_blocks(content@, strs_view(to_remove@)),
{
    let c = str_chars(content);
    let n = c.len();
    let ghost rm = strs_view(to_remove@);
    let mut out: Vec<char> = Vec::new();
    let mut pos: usize = 0;
    let mut keep: bool = true;
    while pos < n
        invariant
            pos <= n == c@.len(),
            c@ == content@,
            rm == strs_view(to_remove@),
            kept_from(c@, pos as int, keep, out@, rm) == kept_blocks(content@, rm),
        ensures
            kept_blocks(content@, rm) == (if keep && pos < n { out@ + c@.subrange(pos as int, n as int) } else { out@ }),
        decreases n - pos,
    {
        proof {
            lemma_scan(c@, pos as int, Stop::At);
        }
        let at = scan_exec(c.as_slice(), pos, Stop::At);
        if at >= n {
            break;
        }
        proof {
            lemma_scan(c@, at + 1, Stop::TypeEnd);
        }
        let te = scan_exec(c.as_slice(), at + 1, Stop::TypeEnd);
        let t = slice_vec(c.as_slice(), at + 1, te);
        let kept_type = is_kept_type(t.as_slice());
        proof {
            lemma_scan(c@, te as int, Stop::OpenBrace);
        }
        let b = scan_exec(c.as_slice(), te, Stop::OpenBrace);
        if b >= n {
            break;
        }
        proof {
            lemma_scan(c@, b + 1, Stop::NonSpace);
        }
        let k0 = scan_exec(c.as_slice(), b + 1, Stop::NonSpace);
        proof {
            lemma_scan(c@, k0 as int, Stop::KeyEnd);
        }
        let k1 = scan_exec(c.as_slice(), k0, Stop::KeyEnd);
        let key = trim_vec(slice_vec(c.as_slice(), k0, k1).as_slice());
        let remove = contains_key(to_remove, key.as_slice());
        let be = if k1 < n {
            proof {
                lemma_braced_end(c@, k1 as int, 1);
            }
            braced_end_exec(c.as_slice(), k1)
        } else {
            k1
        };
        assert(be as int == braced_end(c@, k1 as int, 1));
        let e = if be < n { be + 1 } else { be };
        assert(at >= pos);
        assert(e > pos);
        if keep {
            let gap = slice_vec(c.as_slice(), pos, at);
            push_all(&mut out, gap.as_slice());
        } else {
            assert(out@ + seq![] =~= out@);
        }
        if kept_type || !remove {
            let piece = slice_vec(c.as_slice(), at, e);
            push_all(&mut out, piece.as_slice());
            keep = true;
        } else {
            keep = false;
        }
        pos = e;
    }
    if keep && pos < n {
        let tail = slice_vec(c.as_slice(), pos, n);
        push_all(&mut out, tail.as_slice());
    }
    string_from_chars(out.as_slice())
}

/// Keys in the order of their first occurrence, each once.
pub open spec fn dedup_keys(s: Seq<Seq<char>>) -> Seq<Seq<char>>
    decreases s.len(),
{
    if s.len() == 0 {
        seq![]
    } else {
        let d = dedup_keys(s.drop_last());
        if d.contains(s.last()) { d } else { d.push(s.last()) }
    }
}

/// The keys of the entries that no scanned `.tex` file cites, in order.
pub open spec fn orphan_keys(es: Seq<BibV>, cited: Seq<Seq<char>>) -> Seq<Seq<char>> {
    filter_mapped(es, |e: BibV| if cited.contains(e.key) { None } else { Some(e.key) })
}

/// The second key of each duplicate pair: the entries to drop.
pub open spec fn second_keys(pairs: Seq<(Seq<char>, Seq<char>)>) -> Seq<Seq<char>> {
    pairs.map_values(|p: (Seq<char>, Seq<char>)| p.1)
}

/// What an applied clean removes: malformed entries, the later entry of
/// each duplicate pair and, when pruning, the orphans; each key once.
pub open spec fn removal_keys(es: Seq<BibV>, orphans: Seq<Seq<char>>, prune: bool) -> Seq<Seq<char>> {
    dedup_keys(malformed_keys(es) + second_keys(dup_scan(es).pairs) + if prune { orphans } else { seq![] })
}

/// The orphans of a scan: none when no `.tex` file was scanned.
pub open spec fn orphans_of(es: Seq<BibV>, cited: Option<Seq<Seq<char>>>) -> Seq<Seq<char>> {
    match cited {
        Some(c) => orphan_keys(es, c),
        None => seq![],
    }
}

proof fn lemma_push_contains(d: Seq<Seq<char>>, l: Seq<char>, k: Seq<char>)
    ensures
        d.push(l).contains(k) <==> (d.contains(k) || k == l),
{
    if d.push(l).contains(k) && k != l {
        let i = choose|i: int| 0 <= i < d.push(l).len() && d.push(l)[i] == k;
        assert(d[i] == k);
    }
    if d.contains(k) {
        let i = choose|i: int| 0 <= i < d.len() && d[i] == k;
        assert(d.push(l)[i] == k);
    }
    if k == l {
        assert(d.push(l)[d.len() as int] == k);
    }
}

/// A removal list holds no key twice, and holds just the keys it was made of.
pub proof fn lemma_dedup_keys(s: Seq<Seq<char>>)
    ensures
        dedup_keys(s).no_duplicates(),
        forall|k: Seq<char>| dedup_keys(s).contains(k) <==> s.contains(k),
    decreases s.len(),
{
    if s.len() > 0 {
        let p = s.drop_last();
        let l = s.last();
        lemma_dedup_keys(p);
        let d = dedup_keys(p);
        assert(s =~= p.push(l));
        assert forall|k: Seq<char>| dedup_keys(s).contains(k) <==> s.contains(k) by {
            lemma_push_contains(p, l, k);
            lemma_push_contains(d, l, k);
        }
        if !d.contains(l) {
            assert forall|i: int, j: int| 0 <= i < j < d.push(l).len() implies d.push(l)[i] != d.push(l)[j] by {
                if j == d.len() {
                    assert(d.push(l)[i] == d[i]);
                }
            }
        }
    }
}

/// The key of an entry if it is malformed.
#[verifier::opaque]
pub open spec fn malformed_key(e: BibV) -> Option<Seq<char>> {
    if malformed(e) { Some(e.key) } else { None }
}

fn malformed_list(entries: &Vec<BibEntry>) -> (r: Vec<String>)
    ensures
        strs_view(r@) == malformed_keys(entries_view(entries@)),
{
    let ghost es = entries_view(entries@);
    let ghost f = |e: BibV| malformed_key(e);
    let mut out: Vec<String> = Vec::new();
    let mut i: usize = 0;
    assert(es.subrange(0, 0) =~= Seq::<BibV>::empty());
    assert(strs_view(out@) =~= filter_mapped(es.subrange(0, 0), f));
    while i < entries.len()
        invariant
            i <= entries@.len(),
            es == entries_view(entries@),
            f == (|e: BibV| malformed_key(e)),
            strs_view(out@) == filter_mapped(es.subrange(0, i as int), f),
        decreases entries@.len() - i,
    {
        let ghost prev = strs_view(out@);
        assert(es.subrange(0, i + 1).drop_last() =~= es.subrange(0, i as int));
        assert(es.subrange(0, i + 1).last() == entries@[i as int]@);
        let m = is_malformed(&entries[i]);
        assert(malformed_key(entries@[i as int]@) == if m { Some(entries@[i as int]@.key) } else { None }) by {
            reveal(malformed_key);
        }
        if m {
            out.push(entries[i].key.clone());
            assert(strs_view(out@) =~= prev + seq![entries@[i as int]@.key]);
        } else {
            assert(prev + Seq::<Seq<char>>::empty() =~= prev);
        }
        i = i + 1;
    }
    assert(es.subrange(0, es.len() as int) =~= es);
    out
}

fn orphan_list(entries: &Vec<BibEntry>, cited: &Vec<String>) -> (r: Vec<String>)
    ensures
        strs_view(r@) == orphan_keys(entries_view(entries@), strs_view(cited@)),
{
    let ghost es = entries_view(entries@);
    let ghost cs = strs_view(cited@);
    let ghost f = |e: BibV| if cs.contains(e.key) { None } else { Some(e.key) };
    let mut out: Vec<String> = Vec::new();
    let mut i: usize = 0;
    assert(es.subrange(0, 0) =~= Seq::<BibV>::empty());
    assert(strs_view(out@) =~= filter_mapped(es.subrange(0, 0), f));
    while i < entries.len()
        invariant
            i <= entries@.len(),
            es == entries_view(entries@),
            cs == strs_view(cited@),
            f == (|e: BibV| if cs.contains(e.key) { None } else { Some(e.key) }),
            strs_view(out@) == filter_mapped(es.subrange(0, i as int), f),
        decreases entries@.len() - i,
    {
        let ghost prev = strs_view(out@);
        assert(es.subrange(0, i + 1).drop_last() =~= es.subrange(0, i as int));
        assert(es.subrange(0, i + 1).last() == entries@[i as int]@);
        let k = str_chars(entries[i].key.as_str());
        if contains_key(cited, k.as_slice()) {
            assert(prev + Seq::<Seq<char>>::empty() =~= prev);
        } else {
            out.push(entries[i].key.clone());
            assert(strs_view(out@) =~= prev + seq![entries@[i as int]@.key]);
        }
        i = i + 1;
    }
    assert(es.subrange(0, es.len() as int) =~= es);
    assert(orphan_keys(es, cs) == filter_mapped(es, f));
    out
}

/// Appends each key of `keys` that `out` does not hold yet.
fn push_new_keys(out: &mut Vec<String>, keys: &Vec<String>)
    requires
        exists|s: Seq<Seq<char>>| strs_view(old(out)@) == dedup_keys(s),
    ensures
        forall|s: Seq<Seq<char>>| strs_view(old(out)@) == #[trigger] dedup_keys(s)
            ==> strs_view(final(out)@) == dedup_keys(s + strs_view(keys@)),
{
    let ghost start = strs_view(out@);
    let mut i: usize = 0;
    assert forall|s: Seq<Seq<char>>| start == #[trigger] dedup_keys(s) implies strs_view(out@) == dedup_keys(s + strs_view(keys@).subrange(0, 0)) by {
        assert(s + strs_view(keys@).subrange(0, 0) =~= s);
    }
    while i < keys.len()
        invariant
            i <= keys@.len(),
            forall|s: Seq<Seq<char>>| start == #[trigger] dedup_keys(s)
                ==> strs_view(out@) == dedup_keys(s + strs_view(keys@).subrange(0, i as int)),
        decreases keys@.len() - i,
    {
        let ghost prev = strs_view(out@);
        let k = str_chars(keys[i].as_str());
        let ghost kv = keys@[i as int]@;
        assert(strs_view(keys@)[i as int] == kv);
        if !contains_key(out, k.as_slice()) {
            out.push(keys[i].clone());
            assert(strs_view(out@) =~= prev.push(kv));
        }
        assert forall|s: Seq<Seq<char>>| start == #[trigger] dedup_keys(s) implies strs_view(out@) == dedup_keys(s + strs_view(keys@).subrange(0, i + 1)) by {
            let t = s + strs_view(keys@).subrange(0, i + 1);
            assert(t.drop_last() =~= s + strs_view(keys@).subrange(0, i as int));
            assert(t.last() == kv);
        }
        i = i + 1;
    }
    assert(strs_view(keys@).subrange(0, keys@.len() as int) =~= strs_view(keys@));
}

/// The lint messages for one field: an `&amp;` entity or a Unicode en or
/// em dash in any field but `url` and `doi`, and a `month` whose value is
/// not a bare month macro.
pub open spec fn field_lint(name: Seq<char>, value: Seq<char>) -> Seq<Seq<char>> {
    let plain = name != "url"@ && name != "doi"@;
    (if plain && contains(value, "&amp;"@) { seq![name + ": HTML entity &amp;"@] } else { seq![] })
    + (if plain && (value.contains('\u{2013}') || value.contains('\u{2014}')) { seq![name + ": Unicode dash"@] } else { seq![] })
    + (if name == "month"@ && !crate::sanitize::month_macros().contains(value) {
        seq!["month: '"@ + value + "' is not a bare month macro"@]
    } else {
        seq![]
    })
}

/// The lint findings of the fields `fs` of the entry keyed `key`, in order.
pub open spec fn entry_lint(key: Seq<char>, fs: Seq<(Seq<char>, Seq<char>)>) -> Seq<(Seq<char>, Seq<char>)>
    decreases fs.len(),
{
    if fs.len() == 0 {
        seq![]
    } else {
        entry_lint(key, fs.drop_last())
            + field_lint(fs.last().0, fs.last().1).map_values(|m: Seq<char>| (key, m))
    }
}

/// The lint findings of the entries `es`, in order.
pub open spec fn lint_of(es: Seq<BibV>) -> Seq<(Seq<char>, Seq<char>)>
    decreases es.len(),
{
    if es.len() == 0 {
        seq![]
    } else {
        lint_of(es.drop_last()) + entry_lint(es.last().key, es.last().fields)
    }
}

fn push_finding(out: &mut Vec<(String, String)>, key: &str, msg: Vec<char>)
    ensures
        pairs_view(final(out)@) == pairs_view(old(out)@).push((key@, msg@)),
{
    let ghost prev = pairs_view(out@);
    out.push((key.to_owned(), string_from_chars(msg.as_slice())));
    assert(pairs_view(out@) =~= prev.push((key@, msg@)));
}

fn field_lint_exec(out: &mut Vec<(String, String)>, key: &str, name: &str, value: &str)
    ensures
        pairs_view(final(out)@) == pairs_view(old(out)@)
            + field_lint(name@, value@).map_values(|m: Seq<char>| (key@, m)),
{
    proof {
        reveal_strlit("url");
        reveal_strlit("doi");
        reveal_strlit("month");
    }
    let ghost start = pairs_view(out@);
    let ghost a: Seq<Seq<char>> = if name@ != "url"@ && name@ != "doi"@ && contains(value@, "&amp;"@) {
        seq![name@ + ": HTML entity &amp;"@] } else { seq![] };
    let ghost d: Seq<Seq<char>> = if name@ != "url"@ && name@ != "doi"@
        && (value@.contains('\u{2013}') || value@.contains('\u{2014}')) { seq![name@ + ": Unicode dash"@] } else { seq![] };
    let ghost m: Seq<Seq<char>> = if name@ == "month"@ && !crate::sanitize::month_macros().contains(value@) {
        seq!["month: '"@ + value@ + "' is not a bare month macro"@] } else { seq![] };
    let plain = !str_eq(name, "url") && !str_eq(name, "doi");
    let vc = str_chars(value);
    if plain && contains_chars(vc.as_slice(), str_chars("&amp;").as_slice()) {
        let mut msg = str_chars(name);
        crate::text::push_str(&mut msg, ": HTML entity &amp;");
        push_finding(out, key, msg);
    }
    let ghost after_a = pairs_view(out@);
    assert(after_a =~= start + a.map_values(|x: Seq<char>| (key@, x)));
    if plain && (has_char(vc.as_slice(), '\u{2013}') || has_char(vc.as_slice(), '\u{2014}')) {
        let mut msg = str_chars(name);
        crate::text::push_str(&mut msg, ": Unicode dash");
        push_finding(out, key, msg);
    }
    let ghost after_d = pairs_view(out@);
    assert(after_d =~= start + (a + d).map_values(|x: Seq<char>| (key@, x)));
    if str_eq(name, "month") && !crate::sanitize::is_month_macro(value) {
        let mut msg = str_chars("month: '");
        crate::text::push_str(&mut msg, value);
        crate::text::push_str(&mut msg, "' is not a bare month macro");
        push_finding(out, key, msg);
    }
    assert(field_lint(name@, value@) == a + d + m);
    assert(pairs_view(out@) =~= start + (a + d + m).map_values(|x: Seq<char>| (key@, x)));
}

/// The lint findings of the parsed entries: for each entry, field by field,
/// an `&amp;` entity, a Unicode dash, or a `month` that is not a bare macro.
pub fn lint_entries(entries: &Vec<BibEntry>) -> (r: Vec<(String, String)>)
    ensures
        pairs_view(r@) == lint_of(entries_view(entries@)),
{
    let ghost es = entries_view(entries@);
    let mut out: Vec<(String, String)> = Vec::new();
    let mut i: usize = 0;
    while i < entries.len()
        invariant
            i <= entries@.len(),
            es == entries_view(entries@),
            pairs_view(out@) == lint_of(es.subrange(0, i as int)),
        decreases entries@.len() - i,
    {
        let e = &entries[i];
        let ghost before = pairs_view(out@);
        let ghost fv = e@.fields;
        assert(es[i as int] == e@);
        let mut j: usize = 0;
        assert(fv.subrange(0, 0) =~= Seq::<(Seq<char>, Seq<char>)>::empty());
        while j < e.fields.len()
            invariant
                j <= e.fields@.len(),
                fv == e@.fields,
                fv.len() == e.fields@.len(),
                forall|k: int| 0 <= k < fv.len() ==> #[trigger] fv[k] == (e.fields@[k].0@, e.fields@[k].1@),
                pairs_view(out@) == before + entry_lint(e.key@, fv.subrange(0, j as int)),
            decreases e.fields@.len() - j,
        {
            let ghost prev = pairs_view(out@);
            field_lint_exec(&mut out, e.key.as_str(), e.fields[j].0.as_str(), e.fields[j].1.as_str());
            proof {
                let sub = fv.subrange(0, j + 1);
                assert(sub.drop_last() =~= fv.subrange(0, j as int));
                assert(sub.last() == fv[j as int]);
            }
            j = j + 1;
        }
        proof {
            assert(fv.subrange(0, fv.len() as int) =~= fv);
            let sub = es.subrange(0, i + 1);
            assert(sub.drop_last() =~= es.subrange(0, i as int));
            assert(sub.last() == e@);
        }
        i = i + 1;
    }
    assert(es.subrange(0, es.len() as int) =~= es);
    out
}

fn kept_text(content: &str, removed: &Vec<String>) -> (r: String)
    ensures
        r@ == kept_blocks(content@, strs_view(removed@)),
        removed@.len() == 0 ==> r@ == content@,
{
    let kept = extract_kept_blocks(content, removed);
    proof {
        if removed@.len() == 0 {
            assert(strs_view(removed@) =~= Seq::<Seq<char>>::empty());
            lemma_nothing_removed_keeps_file(content@);
        }
    }
    kept
}

/// Scans a `.bib` text for malformed entries, duplicates, lint findings
/// and (when the citekeys of the `.tex` files are given) orphans. When applying, also
/// gives the text without the removed entries, to be written back.
pub fn clean_bib(content: &str, cited: &Option<Vec<String>>, apply: bool, prune: bool) -> (r: (CleanReport, Option<String>))
    ensures
        ({
            let es = parse_bib(content@);
            let cv = match cited { Some(c) => Some(strs_view(c@)), None => None };
            let orphans = orphans_of(es, cv);
            &&& strs_view(r.0.malformed@) == malformed_keys(es)
            &&& pairs_view(r.0.duplicates@) == dup_scan(es).pairs
            &&& strs_view(r.0.orphans@) == orphans
            &&& pairs_view(r.0.lint@) == lint_of(es)
            &&& apply ==> strs_view(r.0.removed@) == removal_keys(es, orphans, prune)
            &&& apply ==> (r.1 matches Some(t) && t@ == kept_blocks(content@, removal_keys(es, orphans, prune)))
            &&& !apply ==> r.0.removed@.len() == 0 && r.1 is None
            &&& (apply && r.0.removed@.len() == 0) ==> (r.1 matches Some(t) && t@ == content@)
        }),
{
    let entries = parse_bib_file(content);
    let ghost es = entries_view(entries@);
    let malformed = malformed_list(&entries);
    let duplicates = find_duplicates(&entries);
    let orphans = match cited {
        Some(c) => orphan_list(&entries, c),
        None => Vec::new(),
    };
    assert(strs_view(orphans@) =~= orphans_of(es, match cited { Some(c) => Some(strs_view(c@)), None => None }));
    let lint = lint_entries(&entries);
    if !apply {
        return (CleanReport { malformed, duplicates, orphans, removed: Vec::new(), lint }, None);
    }
    let mut second: Vec<String> = Vec::new();
    let mut i: usize = 0;
    while i < duplicates.len()
        invariant
            i <= duplicates@.len(),
            strs_view(second@) == second_keys(pairs_view(duplicates@)).subrange(0, i as int),
        decreases duplicates@.len() - i,
    {
        let ghost prev = strs_view(second@);
        assert(pairs_view(duplicates@)[i as int] == (duplicates@[i as int].0@, duplicates@[i as int].1@));
        assert(second_keys(pairs_view(duplicates@))[i as int] == duplicates@[i as int].1@);
        second.push(duplicates[i].1.clone());
        assert(strs_view(second@) =~= prev.push(duplicates@[i as int].1@));
        assert(strs_view(second@) =~= second_keys(pairs_view(duplicates@)).subrange(0, i + 1));
        i = i + 1;
    }
    assert(strs_view(second@) =~= second_keys(pairs_view(duplicates@)));
    let mut removed: Vec<String> = Vec::new();
    let ghost e0 = Seq::<Seq<char>>::empty();
    assert(strs_view(removed@) =~= dedup_keys(e0));
    push_new_keys(&mut removed, &malformed);
    let ghost s1 = e0 + strs_view(malformed@);
    push_new_keys(&mut removed, &second);
    let ghost s2 = s1 + strs_view(second@);
    let ghost s3 = if prune { s2 + strs_view(orphans@) } else { s2 };
    if prune {
        push_new_keys(&mut removed, &orphans);
    }
    assert(s3 =~= malformed_keys(es) + second_keys(dup_scan(es).pairs) + if prune { strs_view(orphans@) } else { seq![] });
    let kept = kept_text(content, &removed);
    (CleanReport { malformed, duplicates, orphans, removed, lint }, Some(kept))
}

/// Each key on a line of its own, indented by two spaces.
pub open spec fn key_lines(keys: Seq<Seq<char>>) -> Seq<Seq<char>> {
    keys.map_values(|k: Seq<char>| "  "@ + k)
}

/// A titled section of a report: `title (n):`, one line per item, a blank
/// line; nothing when there are no items.
pub open spec fn section(title: Seq<char>, items: Seq<Seq<char>>) -> Seq<Seq<char>> {
    if items.len() == 0 {
        seq![]
    } else {
        seq![title + " ("@ + crate::text::decimal(items.len()) + "):"@] + items + seq![Seq::<char>::empty()]
    }
}

/// The line of each duplicate pair.
pub open spec fn duplicate_lines(ds: Seq<(Seq<char>, Seq<char>)>) -> Seq<Seq<char>> {
    ds.map_values(|d: (Seq<char>, Seq<char>)| "  keep:"@ + d.0 + " remove:"@ + d.1)
}

/// The closing lines of a report: what was removed when applying, else a
/// dry-run summary of the number of issues.
pub open spec fn report_close(removed: Seq<Seq<char>>, apply: bool, total: nat) -> Seq<Seq<char>> {
    if apply {
        if removed.len() == 0 {
            seq!["No entries removed."@]
        } else {
            seq!["Removed "@ + crate::text::decimal(removed.len()) + " entr"@
                + (if removed.len() == 1 { "y"@ } else { "ies"@ }) + ":"@] + key_lines(removed)
        }
    } else {
        seq!["Dry run: "@ + crate::text::decimal(total) + " issue"@ + (if total == 1 { ""@ } else { "s"@ })
            + " found. Pass --apply to remove malformed + duplicate entries."@]
    }
}

/// The printed summary of a report: `None` when it holds no issue (the
/// caller says so), else the malformed, duplicate and orphan sections and
/// the closing lines.
pub open spec fn report_text(malformed: Seq<Seq<char>>, dups: Seq<(Seq<char>, Seq<char>)>, orphans: Seq<Seq<char>>,
    lint: Seq<(Seq<char>, Seq<char>)>, removed: Seq<Seq<char>>, apply: bool) -> Option<Seq<Seq<char>>> {
    let total = malformed.len() + dups.len() + orphans.len() + lint.len();
    if total == 0 {
        None
    } else {
        Some(section("Malformed"@, key_lines(malformed)) + section("Duplicates"@, duplicate_lines(dups))
            + section("Orphans"@, key_lines(orphans)) + section("Lint"@, lint_lines(lint))
            + report_close(removed, apply, total))
    }
}

/// The line of each lint finding: its citekey and message.
pub open spec fn lint_lines(ls: Seq<(Seq<char>, Seq<char>)>) -> Seq<Seq<char>> {
    ls.map_values(|d: (Seq<char>, Seq<char>)| "  "@ + d.0 + ": "@ + d.1)
}

fn lint_lines_exec(ds: &Vec<(String, String)>) -> (r: Vec<String>)
    ensures
        strs_view(r@) == lint_lines(pairs_view(ds@)),
{
    let ghost dv = pairs_view(ds@);
    let mut out: Vec<String> = Vec::new();
    let mut i: usize = 0;
    while i < ds.len()
        invariant
            i <= ds@.len(),
            dv == pairs_view(ds@),
            strs_view(out@) == lint_lines(dv).subrange(0, i as int),
        decreases ds@.len() - i,
    {
        let ghost before = strs_view(out@);
        let mut v: Vec<char> = Vec::new();
        crate::text::push_str(&mut v, "  ");
        crate::text::push_str(&mut v, ds[i].0.as_str());
        crate::text::push_str(&mut v, ": ");
        crate::text::push_str(&mut v, ds[i].1.as_str());
        let line = string_from_chars(v.as_slice());
        assert(dv[i as int] == (ds@[i as int].0@, ds@[i as int].1@));
        assert(line@ =~= "  "@ + dv[i as int].0 + ": "@ + dv[i as int].1);
        crate::api::push_string(&mut out, line);
        assert(lint_lines(dv).subrange(0, i + 1) =~= before.push(line@));
        i = i + 1;
    }
    assert(lint_lines(dv).subrange(0, dv.len() as int) =~= lint_lines(dv));
    out
}

fn indented_keys(keys: &Vec<String>) -> (r: Vec<String>)
    ensures
        strs_view(r@) == key_lines(strs_view(keys@)),
{
    let ghost kv = strs_view(keys@);
    let mut out: Vec<String> = Vec::new();
    let mut i: usize = 0;
    while i < keys.len()
        invariant
            i <= keys@.len(),
            kv == strs_view(keys@),
            strs_view(out@) == key_lines(kv).subrange(0, i as int),
        decreases keys@.len() - i,
    {
        let ghost before = strs_view(out@);
        crate::api::push_string(&mut out, crate::api::cat2("  ", keys[i].as_str()));
        assert(kv[i as int] == keys@[i as int]@);
        assert(key_lines(kv).subrange(0, i + 1) =~= before.push("  "@ + kv[i as int]));
        i = i + 1;
    }
    assert(key_lines(kv).subrange(0, keys@.len() as int) =~= key_lines(kv));
    out
}

fn dup_lines_exec(ds: &Vec<(String, String)>) -> (r: Vec<String>)
    ensures
        strs_view(r@) == duplicate_lines(pairs_view(ds@)),
{
    let ghost dv = pairs_view(ds@);
    let mut out: Vec<String> = Vec::new();
    let mut i: usize = 0;
    while i < ds.len()
        invariant
            i <= ds@.len(),
            dv == pairs_view(ds@),
            strs_view(out@) == duplicate_lines(dv).subrange(0, i as int),
        decreases ds@.len() - i,
    {
        let ghost before = strs_view(out@);
        let mut v: Vec<char> = Vec::new();
        crate::text::push_str(&mut v, "  keep:");
        crate::text::push_str(&mut v, ds[i].0.as_str());
        crate::text::push_str(&mut v, " remove:");
        crate::text::push_str(&mut v, ds[i].1.as_str());
        let line = string_from_chars(v.as_slice());
        assert(dv[i as int] == (ds@[i as int].0@, ds@[i as int].1@));
        assert(line@ =~= "  keep:"@ + dv[i as int].0 + " remove:"@ + dv[i as int].1);
        crate::api::push_string(&mut out, line);
        assert(duplicate_lines(dv).subrange(0, i + 1) =~= before.push(line@));
        i = i + 1;
    }
    assert(duplicate_lines(dv).subrange(0, ds@.len() as int) =~= duplicate_lines(dv));
    out
}

fn count_line(title: &str, n: usize) -> (r: String)
    ensures
        r@ == title@ + " ("@ + crate::text::decimal(n as nat) + "):"@,
{
    let mut v: Vec<char> = Vec::new();
    crate::text::push_str(&mut v, title);
    crate::text::push_str(&mut v, " (");
    let d = crate::text::u64_to_chars(n as u64);
    push_all(&mut v, d.as_slice());
    crate::text::push_str(&mut v, "):");
    assert(v@ =~= title@ + " ("@ + crate::text::decimal(n as nat) + "):"@);
    string_from_chars(v.as_slice())
}

fn push_section(out: &mut Vec<String>, title: &str, items: Vec<String>)
    ensures
        strs_view(final(out)@) == strs_view(old(out)@) + section(title@, strs_view(items@)),
{
    if items.len() == 0 {
        assert(strs_view(out@) =~= strs_view(old(out)@) + section(title@, strs_view(items@)));
        return;
    }
    crate::api::push_string(out, count_line(title, items.len()));
    crate::api::append_strings(out, &items);
    crate::api::push_string(out, String::new());
    assert(strs_view(out@) =~= strs_view(old(out)@) + section(title@, strs_view(items@)));
}

fn removed_line(n: usize) -> (r: String)
    ensures
        r@ == "Removed "@ + crate::text::decimal(n as nat) + " entr"@ + (if n == 1 { "y"@ } else { "ies"@ }) + ":"@,
{
    let mut v: Vec<char> = Vec::new();
    crate::text::push_str(&mut v, "Removed ");
    let d = crate::text::u64_to_chars(n as u64);
    push_all(&mut v, d.as_slice());
    crate::text::push_str(&mut v, " entr");
    if n == 1 {
        crate::text::push_str(&mut v, "y");
    } else {
        crate::text::push_str(&mut v, "ies");
    }
    crate::text::push_str(&mut v, ":");
    assert(v@ =~= "Removed "@ + crate::text::decimal(n as nat) + " entr"@ + (if n == 1 { "y"@ } else { "ies"@ }) + ":"@);
    string_from_chars(v.as_slice())
}

fn dry_run_line(total: usize) -> (r: String)
    ensures
        r@ == "Dry run: "@ + crate::text::decimal(total as nat) + " issue"@ + (if total == 1 { ""@ } else { "s"@ })
            + " found. Pass --apply to remove malformed + duplicate entries."@,
{
    let mut v: Vec<char> = Vec::new();
    crate::text::push_str(&mut v, "Dry run: ");
    let d = crate::text::u64_to_chars(total as u64);
    push_all(&mut v, d.as_slice());
    crate::text::push_str(&mut v, " issue");
    if total != 1 {
        crate::text::push_str(&mut v, "s");
    }
    crate::text::push_str(&mut v, " found. Pass --apply to remove malformed + duplicate entries.");
    proof { reveal_strlit(""); }
    assert(v@ =~= "Dry run: "@ + crate::text::decimal(total as nat) + " issue"@ + (if total == 1 { ""@ } else { "s"@ })
        + " found. Pass --apply to remove malformed + duplicate entries."@);
    string_from_chars(v.as_slice())
}

fn close_lines(removed: &Vec<String>, apply: bool, total: usize) -> (r: Vec<String>)
    ensures
        strs_view(r@) == report_close(strs_view(removed@), apply, total as nat),
{
    let mut out: Vec<String> = Vec::new();
    if apply {
        if removed.len() == 0 {
            crate::api::push_string(&mut out, "No entries removed.".to_owned());
        } else {
            crate::api::push_string(&mut out, removed_line(removed.len()));
            let ks = indented_keys(removed);
            crate::api::append_strings(&mut out, &ks);
        }
    } else {
        crate::api::push_string(&mut out, dry_run_line(total));
    }
    assert(strs_view(out@) =~= report_close(strs_view(removed@), apply, total as nat));
    out
}

/// The lines printed for a report (`None` when there is no issue: the
/// caller reports that there is none).
pub fn report_lines(report: &CleanReport, apply: bool) -> (r: Option<Vec<String>>)
    requires
        report.malformed@.len() + report.duplicates@.len() + report.orphans@.len() + report.lint@.len() <= usize::MAX,
    ensures
        match r {
            Some(v) => report_text(strs_view(report.malformed@), pairs_view(report.duplicates@), strs_view(report.orphans@),
                pairs_view(report.lint@), strs_view(report.removed@), apply) == Some(strs_view(v@)),
            None => report_text(strs_view(report.malformed@), pairs_view(report.duplicates@), strs_view(report.orphans@),
                pairs_view(report.lint@), strs_view(report.removed@), apply) is None,
        },
{
    let total = report.malformed.len() + report.duplicates.len() + report.orphans.len() + report.lint.len();
    if total == 0 {
        return None;
    }
    let mut out: Vec<String> = Vec::new();
    push_section(&mut out, "Malformed", indented_keys(&report.malformed));
    push_section(&mut out, "Duplicates", dup_lines_exec(&report.duplicates));
    push_section(&mut out, "Orphans", indented_keys(&report.orphans));
    push_section(&mut out, "Lint", lint_lines_exec(&report.lint));
    let c = close_lines(&report.removed, apply, total);
    crate::api::append_strings(&mut out, &c);
    assert(strs_view(out@) =~= section("Malformed"@, key_lines(strs_view(report.malformed@)))
        + section("Duplicates"@, duplicate_lines(pairs_view(report.duplicates@)))
        + section("Orphans"@, key_lines(strs_view(report.orphans@)))
        + section("Lint"@, lint_lines(pairs_view(report.lint@)))
        + report_close(strs_view(report.removed@), apply, total as nat));
    Some(out)
}

} // verus!
