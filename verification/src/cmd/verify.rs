//! Checking `.bib` entries against several bibliographic services.
//!
//! Each entry is looked up by DOI (CrossRef), by eprint (arXiv), by title
//! (OpenAlex, then Semantic Scholar) and, for books, on OpenLibrary; the
//! first good match is compared with the entry for year, author and title.
//! The lookups themselves are made by the caller: this module decides which
//! request comes next and what each reply means.
use vstd::prelude::*;
use crate::api::{PaperResult, PaperV, filter_mapped, first_author_lastname, first_author_lastname_of, papers_view, strs_view};
use crate::api::arxiv::arxiv_entry;
use crate::api::crossref::cr_doi_message;
use crate::api::openalex::works_response;
use crate::api::openlibrary::ol_search_doc;
use crate::api::semantic_scholar::data_response;
use crate::json::{JsonV, jarr, jget, json_parsed};
use vstd::utf8::encode_utf8;
use crate::db::{cache_key, cache_key_of};
use crate::bibtex::{BibEntry, BibV, entries_view, field_value, parse_bib, parse_bib_file};
use crate::text::{
    contains, contains_chars, first_occurrence, has_prefix, join, starts_with_str, join_strings, lowercase, replace_all, replace_str, str_eq, slice_vec, split, split_on, split_words, str_chars, str_to_lowercase,
    string_from_chars, words, occurs_at,
};

verus! {

/// `char::is_alphanumeric`: the Unicode `Alphabetic` or `Numeric` property,
/// a function of the character alone.
pub uninterp spec fn alphanumeric(c: char) -> bool;

/// `char::is_alphabetic`: the Unicode `Alphabetic` property.
pub uninterp spec fn alphabetic(c: char) -> bool;

/// `char::to_lowercase`: the characters of the Unicode lower-case mapping
/// of `c`, a function of `c` alone.
pub uninterp spec fn char_lower(c: char) -> Seq<char>;

/// Calls `char::is_alphanumeric`; its result is named, not described.
#[verifier::external_body]
pub(crate) fn is_alphanumeric(c: char) -> (r: bool)
    ensures
        r == alphanumeric(c),
{
    c.is_alphanumeric()
}

/// Calls `char::is_alphabetic`; its result is named, not described.
#[verifier::external_body]
pub(crate) fn is_alphabetic(c: char) -> (r: bool)
    ensures
        r == alphabetic(c),
{
    c.is_alphabetic()
}

/// Calls `char::to_lowercase` and collects the characters it yields.
#[verifier::external_body]
fn to_lower_chars(c: char) -> (r: Vec<char>)
    ensures
        r@ == char_lower(c),
{
    c.to_lowercase().collect()
}

/// The characters of `s` that pass `keep`, each lower-cased.
pub open spec fn lowered_kept(s: Seq<char>, keep: spec_fn(char) -> bool) -> Seq<char>
    decreases s.len(),
{
    if s.len() == 0 {
        seq![]
    } else {
        lowered_kept(s.drop_last(), keep) + if keep(s.last()) { char_lower(s.last()) } else { seq![] }
    }
}

/// A title normalised for fuzzy matching: its alphanumeric characters,
/// lower-cased.
pub open spec fn norm_title(s: Seq<char>) -> Seq<char> {
    lowered_kept(s, |c: char| alphanumeric(c))
}

/// An author name normalised for matching: its letters, lower-cased.
pub open spec fn norm_author(s: Seq<char>) -> Seq<char> {
    lowered_kept(s, |c: char| alphabetic(c))
}

fn lower_kept(s: &str, alnum: bool) -> (r: String)
    ensures
        alnum ==> r@ == norm_title(s@),
        !alnum ==> r@ == norm_author(s@),
{
    let c = str_chars(s);
    let ghost keep = if alnum { |c: char| alphanumeric(c) } else { |c: char| alphabetic(c) };
    let mut out: Vec<char> = Vec::new();
    let mut i: usize = 0;
    assert(c@.subrange(0, 0) =~= Seq::<char>::empty());
    while i < c.len()
        invariant
            i <= c@.len(),
            c@ == s@,
            keep == (if alnum { |c: char| alphanumeric(c) } else { |c: char| alphabetic(c) }),
            out@ == lowered_kept(c@.subrange(0, i as int), keep),
        decreases c@.len() - i,
    {
        let ghost sub = c@.subrange(0, i + 1);
        assert(sub.drop_last() =~= c@.subrange(0, i as int));
        assert(sub.last() == c@[i as int]);
        let ch = c[i];
        let k = if alnum { is_alphanumeric(ch) } else { is_alphabetic(ch) };
        assert(k == keep(ch));
        if k {
            let l = to_lower_chars(ch);
            let mut j: usize = 0;
            let ghost prev = out@;
            while j < l.len()
                invariant
                    j <= l@.len(),
                    out@ == prev + l@.subrange(0, j as int),
                decreases l@.len() - j,
            {
                out.push(l[j]);
                assert(out@ =~= prev + l@.subrange(0, j + 1));
                j = j + 1;
            }
            assert(l@.subrange(0, l@.len() as int) =~= l@);
        } else {
            assert(out@ =~= out@ + Seq::<char>::empty());
        }
        i = i + 1;
    }
    assert(c@.subrange(0, c@.len() as int) =~= c@);
    string_from_chars(out.as_slice())
}

/// Normalize a title for fuzzy matching: lowercase, strip non-alphanumeric.
pub fn normalize_title(title: &str) -> (r: String)
    ensures
        r@ == norm_title(title@),
{
    lower_kept(title, true)
}

/// Normalize an author name for matching: lowercase, strip non-alpha.
pub fn normalize_author(author: &str) -> (r: String)
    ensures
        r@ == norm_author(author@),
{
    lower_kept(author, false)
}

/// The number of leading characters on which `a` and `b` agree.
pub open spec fn prefix_len(a: Seq<char>, b: Seq<char>) -> nat
    decreases a.len(),
{
    if a.len() == 0 || b.len() == 0 || a[0] != b[0] {
        0
    } else {
        1 + prefix_len(a.drop_first(), b.drop_first())
    }
}

proof fn lemma_prefix_len_step(a: Seq<char>, b: Seq<char>, i: int)
    requires
        0 <= i < a.len(),
        i < b.len(),
        a[i] == b[i],
    ensures
        prefix_len(a.subrange(i, a.len() as int), b.subrange(i, b.len() as int))
            == 1 + prefix_len(a.subrange(i + 1, a.len() as int), b.subrange(i + 1, b.len() as int)),
{
    assert(a.subrange(i, a.len() as int).drop_first() =~= a.subrange(i + 1, a.len() as int));
    assert(b.subrange(i, b.len() as int).drop_first() =~= b.subrange(i + 1, b.len() as int));
}

/// Compute the length of the common prefix between two strings.
pub fn common_prefix_len(a: &str, b: &str) -> (r: usize)
    ensures
        r == prefix_len(a@, b@),
{
    let x = str_chars(a);
    let y = str_chars(b);
    let mut i: usize = 0;
    assert(x@.subrange(0, x@.len() as int) =~= x@);
    assert(y@.subrange(0, y@.len() as int) =~= y@);
    while i < x.len() && i < y.len() && x[i] == y[i]
        invariant
            i <= x@.len(),
            i <= y@.len(),
            x@ == a@,
            y@ == b@,
            prefix_len(a@, b@) == i + prefix_len(x@.subrange(i as int, x@.len() as int), y@.subrange(i as int, y@.len() as int)),
        decreases x@.len() - i,
    {
        proof {
            lemma_prefix_len_step(x@, y@, i as int);
        }
        i = i + 1;
    }
    i
}

/// The number of bytes in the UTF-8 encoding of `c` (`char::len_utf8`).
pub open spec fn utf8_width(c: char) -> int {
    if (c as u32) < 0x80 {
        1
    } else if (c as u32) < 0x800 {
        2
    } else if (c as u32) < 0x10000 {
        3
    } else {
        4
    }
}

/// The byte length of the UTF-8 encoding of `s` (`str::len`).
pub open spec fn utf8_len(s: Seq<char>) -> int
    decreases s.len(),
{
    if s.len() == 0 { 0 } else { utf8_len(s.drop_last()) + utf8_width(s.last()) }
}

/// The characters of `s` whose encoding is exactly the first `n` bytes:
/// `&s[..n]` (`str::get(..n)`), when byte `n` is a character boundary.
pub open spec fn byte_prefix(s: Seq<char>, n: int) -> Option<Seq<char>>
    decreases s.len(),
{
    if n == 0 {
        Some(seq![])
    } else if n < 0 || s.len() == 0 {
        None
    } else {
        match byte_prefix(s.drop_first(), n - utf8_width(s[0])) {
            Some(p) => Some(seq![s[0]] + p),
            None => None,
        }
    }
}

fn utf8_width_exec(c: char) -> (r: usize)
    ensures
        r == utf8_width(c),
{
    let u = c as u32;
    if u < 0x80 {
        1
    } else if u < 0x800 {
        2
    } else if u < 0x10000 {
        3
    } else {
        4
    }
}

proof fn lemma_utf8_len_push(s: Seq<char>, c: char)
    ensures
        utf8_len(s.push(c)) == utf8_len(s) + utf8_width(c),
{
    assert(s.push(c).drop_last() =~= s);
}

proof fn lemma_utf8_len_nonneg(s: Seq<char>)
    ensures
        utf8_len(s) >= s.len(),
    decreases s.len(),
{
    if s.len() > 0 {
        lemma_utf8_len_nonneg(s.drop_last());
    }
}

/// Whether the UTF-8 encoding of `s` is at least `n` bytes long.
pub(crate) fn utf8_len_at_least(s: &[char], n: usize) -> (r: bool)
    ensures
        r == (utf8_len(s@) >= n),
{
    if n == 0 {
        proof {
            lemma_utf8_len_nonneg(s@);
        }
        return true;
    }
    let mut total: usize = 0;
    let mut i: usize = 0;
    while i < s.len()
        invariant
            i <= s@.len(),
            total == utf8_len(s@.subrange(0, i as int)),
            total < n,
        decreases s@.len() - i,
    {
        proof {
            lemma_utf8_len_push(s@.subrange(0, i as int), s@[i as int]);
            assert(s@.subrange(0, i as int).push(s@[i as int]) =~= s@.subrange(0, i + 1));
        }
        let w = utf8_width_exec(s[i]);
        if w >= n - total {
            proof {
                lemma_utf8_len_monotone(s@, i + 1);
            }
            return true;
        }
        total = total + w;
        i = i + 1;
    }
    assert(s@.subrange(0, s@.len() as int) =~= s@);
    false
}

proof fn lemma_utf8_len_monotone(s: Seq<char>, i: int)
    requires
        0 <= i <= s.len(),
    ensures
        utf8_len(s.subrange(0, i)) <= utf8_len(s),
    decreases s.len() - i,
{
    if i < s.len() {
        lemma_utf8_len_monotone(s, i + 1);
        lemma_utf8_len_push(s.subrange(0, i), s[i]);
        assert(s.subrange(0, i).push(s[i]) =~= s.subrange(0, i + 1));
    } else {
        assert(s.subrange(0, i) =~= s);
    }
}

/// `str::get(..n)` on the characters of a string.
pub(crate) fn byte_prefix_exec(s: &[char], n: usize) -> (r: Option<Vec<char>>)
    ensures
        match byte_prefix(s@, n as int) {
            Some(p) => r matches Some(v) && v@ == p,
            None => r is None,
        },
{
    let mut out: Vec<char> = Vec::new();
    let mut rem: usize = n;
    let mut i: usize = 0;
    assert(s@.subrange(0, s@.len() as int) =~= s@);
    while rem > 0
        invariant
            i <= s@.len(),
            rem <= n,
            out@ == s@.subrange(0, i as int),
            byte_prefix(s@, n as int) == match byte_prefix(s@.subrange(i as int, s@.len() as int), rem as int) {
                Some(p) => Some(out@ + p),
                None => None,
            },
        decreases rem,
    {
        let ghost rest = s@.subrange(i as int, s@.len() as int);
        if i >= s.len() {
            assert(rest.len() == 0);
            return None;
        }
        let w = utf8_width_exec(s[i]);
        assert(rest[0] == s@[i as int]);
        assert(rest.drop_first() =~= s@.subrange(i + 1, s@.len() as int));
        if w > rem {
            assert(byte_prefix(rest.drop_first(), rem - w) is None);
            return None;
        }
        out.push(s[i]);
        assert(out@ =~= s@.subrange(0, i + 1));
        proof {
            match byte_prefix(rest.drop_first(), rem - w) {
                Some(p) => {
                    assert(out@ + p =~= s@.subrange(0, i as int) + (seq![s@[i as int]] + p));
                },
                None => {},
            }
        }
        rem = rem - w;
        i = i + 1;
    }
    assert(byte_prefix(s@.subrange(i as int, s@.len() as int), 0) == Some(Seq::<char>::empty()));
    assert(out@ + Seq::<char>::empty() =~= out@);
    Some(out)
}

/// Whether a normalised bib author occurs among the names found: its first
/// four characters anywhere in them (lower-cased), or, for a shorter name,
/// the name as a whole word.
pub open spec fn author_match(bib_author: Seq<char>, found_names: Seq<char>) -> bool {
    let a = norm_author(bib_author);
    let names = lowercase(found_names);
    if a.len() == 0 {
        true
    } else if a.len() >= 4 {
        contains(names, a.subrange(0, 4))
    } else {
        contains(" "@ + names + " "@, " "@ + a + " "@)
    }
}

/// Whether `a` occurs in `s` at `i` as a whole word: at the start of `s` or
/// after a space, and at its end or before a space.
pub open spec fn occurs_as_word(s: Seq<char>, a: Seq<char>, i: int) -> bool {
    &&& 0 <= i
    &&& i + a.len() <= s.len()
    &&& s.subrange(i, i + a.len()) == a
    &&& (i == 0 || s[i - 1] == ' ')
    &&& (i + a.len() == s.len() || s[i + a.len()] == ' ')
}

/// A short author name (under four letters once normalised) matches only as
/// a whole word of the lower-cased names found, never inside a longer name:
/// `Ho` matches `ho chen` but not `thomas smith`.
pub proof fn lemma_short_author_whole_word(bib_author: Seq<char>, found_names: Seq<char>)
    requires
        0 < norm_author(bib_author).len() < 4,
    ensures
        author_match(bib_author, found_names)
            <==> exists|i: int| occurs_as_word(lowercase(found_names), norm_author(bib_author), i),
{
    reveal_strlit(" ");
    let a = norm_author(bib_author);
    let n = lowercase(found_names);
    let p = " "@ + n + " "@;
    let q = " "@ + a + " "@;
    assert(p.len() == n.len() + 2);
    assert(q.len() == a.len() + 2);
    assert forall|k: int| 1 <= k <= n.len() implies #[trigger] p[k] == n[k - 1] by {}
    assert(p[0] == ' ' && p[n.len() as int + 1] == ' ');
    assert forall|k: int| 1 <= k <= a.len() implies #[trigger] q[k] == a[k - 1] by {}
    assert(q[0] == ' ' && q[a.len() as int + 1] == ' ');
    if author_match(bib_author, found_names) {
        assert(contains(p, q));
        let j = choose|j: int| 0 <= j && #[trigger] occurs_at(p, q, j);
        assert(p.subrange(j, j + q.len()) == q);
        assert forall|t: int| 0 <= t < a.len() implies #[trigger] n.subrange(j, j + a.len())[t] == a[t] by {
            assert(p.subrange(j, j + q.len())[t + 1] == q[t + 1]);
        }
        assert(n.subrange(j, j + a.len()) =~= a);
        assert(p.subrange(j, j + q.len())[0] == q[0]);
        assert(p.subrange(j, j + q.len())[a.len() as int + 1] == q[a.len() as int + 1]);
        assert(occurs_as_word(n, a, j));
    }
    if exists|i: int| occurs_as_word(n, a, i) {
        let i = choose|i: int| occurs_as_word(n, a, i);
        assert forall|t: int| 0 <= t < q.len() implies #[trigger] p.subrange(i, i + q.len())[t] == q[t] by {
            if 1 <= t <= a.len() {
                assert(n.subrange(i, i + a.len())[t - 1] == a[t - 1]);
            }
        }
        assert(p.subrange(i, i + q.len()) =~= q);
        assert(occurs_at(p, q, i));
        assert(contains(p, q));
    }
}

/// Whether the first four characters of `a` stand in `s` from position `i`.
pub open spec fn first_four_at(s: Seq<char>, a: Seq<char>, i: int) -> bool {
    0 <= i && i + 4 <= s.len() && forall|t: int| 0 <= t < 4 ==> #[trigger] s[i + t] == a[t]
}

/// A longer author name (four letters or more once normalised) matches when
/// its first four letters occur, in order, somewhere in the lower-cased
/// names found, and only then.
pub proof fn lemma_long_author_prefix(bib_author: Seq<char>, found_names: Seq<char>)
    requires
        norm_author(bib_author).len() >= 4,
    ensures
        author_match(bib_author, found_names)
            <==> exists|i: int| #[trigger] first_four_at(lowercase(found_names), norm_author(bib_author), i),
{
    let a = norm_author(bib_author);
    let n = lowercase(found_names);
    let p = a.subrange(0, 4);
    if author_match(bib_author, found_names) {
        let j = choose|j: int| 0 <= j && #[trigger] occurs_at(n, p, j);
        assert forall|t: int| 0 <= t < 4 implies #[trigger] n[j + t] == a[t] by {
            assert(n.subrange(j, j + 4)[t] == p[t]);
        }
        assert(first_four_at(n, a, j));
    }
    if exists|i: int| #[trigger] first_four_at(n, a, i) {
        let i = choose|i: int| #[trigger] first_four_at(n, a, i);
        assert forall|t: int| 0 <= t < 4 implies #[trigger] n.subrange(i, i + 4)[t] == p[t] by {
            assert(n[i + t] == a[t]);
        }
        assert(n.subrange(i, i + 4) =~= p);
        assert(occurs_at(n, p, i));
    }
}

/// Check if author matches (first 4 chars of normalized last name, or exact
/// for short names).
pub fn author_matches(bib_author: &str, found_names: &str) -> (r: bool)
    ensures
        r == author_match(bib_author@, found_names@),
{
    let a = normalize_author(bib_author);
    let ac = str_chars(a.as_str());
    if ac.len() == 0 {
        return true;
    }
    let names = str_to_lowercase(found_names);
    let nc = str_chars(names.as_str());
    if ac.len() >= 4 {
        let p = crate::text::slice_vec(ac.as_slice(), 0, 4);
        contains_chars(nc.as_slice(), p.as_slice())
    } else {
        let mut hay: Vec<char> = Vec::new();
        hay.push(' ');
        crate::text::push_all(&mut hay, nc.as_slice());
        hay.push(' ');
        let mut needle: Vec<char> = Vec::new();
        needle.push(' ');
        crate::text::push_all(&mut needle, ac.as_slice());
        needle.push(' ');
        proof {
            reveal_strlit(" ");
        }
        assert(hay@ =~= " "@ + nc@ + " "@);
        assert(needle@ =~= " "@ + ac@ + " "@);
        contains_chars(hay.as_slice(), needle.as_slice())
    }
}

/// The value of a string as `str::parse::<i32>` reads it: an optional sign,
/// then one or more decimal digits, within the range of `i32`.
pub open spec fn parse_i32(s: Seq<char>) -> Option<int> {
    let neg = s.len() > 0 && s[0] == '-';
    let digits = if s.len() > 0 && (s[0] == '-' || s[0] == '+') { s.drop_first() } else { s };
    if digits.len() == 0 || !crate::text::all_dec_digits(digits) {
        None
    } else {
        let v: int = if neg { -(crate::text::dec_value(digits) as int) } else { crate::text::dec_value(digits) as int };
        if i32::MIN <= v <= i32::MAX { Some(v) } else { None }
    }
}

fn parse_i32_exec(s: &str) -> (r: Option<i64>)
    ensures
        match parse_i32(s@) {
            Some(v) => r == Some(v as i64),
            None => r is None,
        },
{
    let c = str_chars(s);
    let neg = c.len() > 0 && c[0] == '-';
    let start: usize = if c.len() > 0 && (c[0] == '-' || c[0] == '+') { 1 } else { 0 };
    let digits = crate::text::slice_vec(c.as_slice(), start, c.len());
    assert(start == 1 ==> digits@ =~= s@.drop_first());
    assert(start == 0 ==> digits@ =~= s@);
    if digits.len() == 0 || digits[0] == '+' {
        return None;
    }
    match crate::text::parse_decimal_exec(digits.as_slice(), 2147483648) {
        None => None,
        Some(v) => {
            let x: i64 = if neg { -(v as i64) } else { v as i64 };
            if x > 2147483647 {
                None
            } else {
                Some(x)
            }
        },
    }
}

/// Whether two year strings, both read as `i32`, are within `range` of each
/// other.
pub open spec fn within_years(a: Seq<char>, b: Seq<char>, range: int) -> bool {
    match (parse_i32(a), parse_i32(b)) {
        (Some(x), Some(y)) => -range <= x - y <= range,
        _ => false,
    }
}

/// Check if two year strings are within `range` of each other.
pub fn years_within(a: &str, b: &str, range: i32) -> (r: bool)
    ensures
        r == within_years(a@, b@, range as int),
{
    match (parse_i32_exec(a), parse_i32_exec(b)) {
        (Some(x), Some(y)) => {
            let d = x - y;
            -(range as i64) <= d && d <= range as i64
        },
        _ => false,
    }
}

/// A `.bib` entry as the checks see it.
#[derive(Debug, Clone)]
pub struct VerifyEntry {
    pub entry_type: String,
    pub key: String,
    /// The title without braces.
    pub title: String,
    /// The last name of the first author.
    pub author: String,
    pub year: String,
    pub doi: String,
    pub eprint: String,
}

/// Mathematical view of a [`VerifyEntry`].
pub struct VEntryV {
    pub entry_type: Seq<char>,
    pub key: Seq<char>,
    pub title: Seq<char>,
    pub author: Seq<char>,
    pub year: Seq<char>,
    pub doi: Seq<char>,
    pub eprint: Seq<char>,
}

impl View for VerifyEntry {
    type V = VEntryV;

    open spec fn view(&self) -> VEntryV {
        VEntryV {
            entry_type: self.entry_type@,
            key: self.key@,
            title: self.title@,
            author: self.author@,
            year: self.year@,
            doi: self.doi@,
            eprint: self.eprint@,
        }
    }
}

/// `s` without its braces.
pub open spec fn without_braces(s: Seq<char>) -> Seq<char>
    decreases s.len(),
{
    if s.len() == 0 {
        seq![]
    } else {
        without_braces(s.drop_last()) + if s.last() == '{' || s.last() == '}' { seq![] } else { seq![s.last()] }
    }
}

/// The first piece of `s` split on `sep`, empty when there is none.
pub open spec fn first_piece(s: Seq<char>, sep: Seq<char>) -> Seq<char> {
    if split(s, sep).len() > 0 { split(s, sep)[0] } else { seq![] }
}

/// The last name of the first author of a BibTeX `author` field: the last
/// word of the part before the first comma of the first name before ` and `.
pub open spec fn bib_first_last_name(a: Seq<char>) -> Seq<char> {
    let part = first_piece(first_piece(a, " and "@), ","@);
    if words(part).len() > 0 { words(part).last() } else { seq![] }
}

/// A field's value, empty when the field is missing.
pub open spec fn field_or_empty(fields: Seq<(Seq<char>, Seq<char>)>, name: Seq<char>) -> Seq<char> {
    match field_value(fields, name) {
        Some(v) => v,
        None => seq![],
    }
}

/// What the checks take from an entry: nothing when it has no title left
/// once braces are removed.
#[verifier::opaque]
pub open spec fn verify_entry_of(e: BibV) -> Option<VEntryV> {
    let title = without_braces(field_or_empty(e.fields, "title"@));
    if title.len() == 0 {
        None
    } else {
        Some(VEntryV {
            entry_type: e.entry_type,
            key: e.key,
            title: title,
            author: match field_value(e.fields, "author"@) {
                Some(a) => bib_first_last_name(a),
                None => seq![],
            },
            year: field_or_empty(e.fields, "year"@),
            doi: field_or_empty(e.fields, "doi"@),
            eprint: field_or_empty(e.fields, "eprint"@),
        })
    }
}

/// The entries of a `.bib` text to check, in order.
pub open spec fn verify_entries(content: Seq<char>) -> Seq<VEntryV> {
    filter_mapped(parse_bib(content), |e: BibV| verify_entry_of(e))
}

/// The views of a list of entries.
pub open spec fn ventries_view(v: Seq<VerifyEntry>) -> Seq<VEntryV> {
    v.map_values(|e: VerifyEntry| e@)
}

fn strip_braces(s: &str) -> (r: String)
    ensures
        r@ == without_braces(s@),
{
    let c = str_chars(s);
    let mut out: Vec<char> = Vec::new();
    let mut i: usize = 0;
    while i < c.len()
        invariant
            i <= c@.len(),
            c@ == s@,
            out@ == without_braces(c@.subrange(0, i as int)),
        decreases c@.len() - i,
    {
        assert(c@.subrange(0, i + 1).drop_last() =~= c@.subrange(0, i as int));
        if c[i] != '{' && c[i] != '}' {
            out.push(c[i]);
        }
        assert(out@ =~= without_braces(c@.subrange(0, i + 1)));
        i = i + 1;
    }
    assert(c@.subrange(0, c@.len() as int) =~= c@);
    string_from_chars(out.as_slice())
}

fn first_piece_exec(s: &[char], sep: &str) -> (r: Vec<char>)
    requires
        sep@.len() > 0,
    ensures
        r@ == first_piece(s@, sep@),
{
    let sc = str_chars(sep);
    let parts = split_on(s, sc.as_slice());
    if parts.len() > 0 {
        assert(parts@[0]@ == split(s@, sep@)[0]);
        slice_vec(parts[0].as_slice(), 0, parts[0].len())
    } else {
        Vec::new()
    }
}

fn first_last_name(a: &str) -> (r: String)
    ensures
        r@ == bib_first_last_name(a@),
{
    proof {
        reveal_strlit(" and ");
        reveal_strlit(",");
    }
    let c = str_chars(a);
    let first = first_piece_exec(c.as_slice(), " and ");
    let part = first_piece_exec(first.as_slice(), ",");
    let ws = split_words(part.as_slice());
    if ws.len() > 0 {
        let k = ws.len() - 1;
        assert(ws@[k as int]@ == words(part@)[k as int]);
        string_from_chars(ws[k].as_slice())
    } else {
        String::new()
    }
}

fn field_or_empty_exec(e: &BibEntry, name: &str) -> (r: String)
    ensures
        r@ == field_or_empty(e@.fields, name@),
{
    match e.get_field(name) {
        Some(v) => v.to_owned(),
        None => String::new(),
    }
}

fn entry_for_check(be: &BibEntry) -> (r: Option<VerifyEntry>)
    ensures
        match verify_entry_of(be@) {
            Some(v) => r matches Some(x) && x@ == v,
            None => r is None,
        },
{
    proof {
        reveal(verify_entry_of);
    }
    let title = strip_braces(field_or_empty_exec(be, "title").as_str());
    if title.as_str().is_empty() {
        return None;
    }
    let author = match be.get_field("author") {
        Some(a) => first_last_name(a),
        None => String::new(),
    };
    Some(VerifyEntry {
        entry_type: be.entry_type.clone(),
        key: be.key.clone(),
        title: title,
        author: author,
        year: field_or_empty_exec(be, "year"),
        doi: field_or_empty_exec(be, "doi"),
        eprint: field_or_empty_exec(be, "eprint"),
    })
}

/// Parse bib entries from file content, skipping those preceded by
/// `% lit:skip` and those without a title.
pub fn parse_entries(content: &str) -> (r: Vec<VerifyEntry>)
    ensures
        ventries_view(r@) == verify_entries(content@),
{
    let bib = parse_bib_file(content);
    let ghost es = entries_view(bib@);
    let ghost f = |e: BibV| verify_entry_of(e);
    let mut out: Vec<VerifyEntry> = Vec::new();
    let mut i: usize = 0;
    assert(es.subrange(0, 0) =~= Seq::<BibV>::empty());
    assert(ventries_view(out@) =~= filter_mapped(es.subrange(0, 0), f));
    while i < bib.len()
        invariant
            i <= bib@.len(),
            es == entries_view(bib@),
            es == parse_bib(content@),
            f == (|e: BibV| verify_entry_of(e)),
            ventries_view(out@) == filter_mapped(es.subrange(0, i as int), f),
        decreases bib@.len() - i,
    {
        let ghost prev = ventries_view(out@);
        let be = &bib[i];
        assert(es.subrange(0, i + 1).drop_last() =~= es.subrange(0, i as int));
        assert(es.subrange(0, i + 1).last() == be@);
        match entry_for_check(be) {
            None => {
                assert(prev + Seq::<VEntryV>::empty() =~= prev);
            },
            Some(ve) => {
                let ghost v = ve@;
                out.push(ve);
                assert(ventries_view(out@) =~= prev + seq![v]);
            },
        }
        i = i + 1;
    }
    assert(es.subrange(0, es.len() as int) =~= es);
    out
}

/// Whether a title match is good enough: a shared prefix of 15 characters,
/// or of 10 covering at least four fifths of the (byte) length of the
/// normalised bib title.
pub open spec fn title_match_ok(prefix: nat, title_norm: Seq<char>) -> bool {
    prefix >= 15 || (prefix >= 10 && title_norm.len() > 0 && 5 * prefix >= 4 * utf8_len(title_norm))
}

/// The names of a result's authors joined by spaces.
pub open spec fn names_of(p: PaperV) -> Seq<char> {
    join(p.authors, " "@)
}

/// How well an OpenAlex result fits an entry: the shared title prefix, plus
/// 10 for the same year and 15 for a matching author when the title fits;
/// and whether the author matches.
pub open spec fn oa_score(e: VEntryV, p: PaperV) -> (nat, bool) {
    let tn = norm_title(e.title);
    let prefix = prefix_len(tn, norm_title(p.title));
    let author_ok = norm_author(e.author).len() == 0 || author_match(e.author, names_of(p));
    let bonus: nat = if title_match_ok(prefix, tn) {
        (if e.year.len() > 0 && p.year == e.year { 10nat } else { 0nat }) + (if author_ok { 15nat } else { 0nat })
    } else {
        0
    };
    (prefix + bonus, author_ok)
}

/// The best-scoring result (the last of equal scores loses to the first),
/// with its score and author flag.
pub open spec fn oa_best(e: VEntryV, ps: Seq<PaperV>) -> Option<(int, nat, bool)>
    decreases ps.len(),
{
    if ps.len() == 0 {
        None
    } else {
        let (sc, am) = oa_score(e, ps.last());
        match oa_best(e, ps.drop_last()) {
            Some((i, bs, ba)) => if sc <= bs { Some((i, bs, ba)) } else { Some((ps.len() - 1, sc, am)) },
            None => Some((ps.len() - 1, sc, am)),
        }
    }
}

/// The OpenAlex match taken: the best result, if it scores 20 with a
/// matching author or 35 in any case, with its author flag.
pub open spec fn best_openalex(e: VEntryV, ps: Seq<PaperV>) -> Option<(int, bool)> {
    match oa_best(e, ps) {
        Some((i, sc, am)) => if (sc >= 20 && am) || sc >= 35 { Some((i, am)) } else { None },
        None => None,
    }
}

/// The first Semantic Scholar result whose title fits and whose authors
/// match (any authors do when the entry names none), from index `i` on.
pub open spec fn ss_first(e: VEntryV, ps: Seq<PaperV>, i: int) -> Option<int>
    decreases ps.len() - i,
{
    if i < 0 || i >= ps.len() {
        None
    } else {
        let tn = norm_title(e.title);
        let ok = title_match_ok(prefix_len(tn, norm_title(ps[i].title)), tn)
            && (e.author.len() == 0 || author_match(e.author, names_of(ps[i])));
        if ok { Some(i) } else { ss_first(e, ps, i + 1) }
    }
}

proof fn lemma_utf8_len_bound(s: Seq<char>)
    ensures
        utf8_len(s) <= 4 * s.len(),
    decreases s.len(),
{
    if s.len() > 0 {
        lemma_utf8_len_bound(s.drop_last());
    }
}

/// The byte length of the UTF-8 encoding of `s`.
fn utf8_len_exec(s: &[char]) -> (r: u128)
    ensures
        r == utf8_len(s@),
{
    let mut total: u128 = 0;
    let mut i: usize = 0;
    while i < s.len()
        invariant
            i <= s@.len(),
            total == utf8_len(s@.subrange(0, i as int)),
        decreases s@.len() - i,
    {
        proof {
            lemma_utf8_len_push(s@.subrange(0, i as int), s@[i as int]);
            assert(s@.subrange(0, i as int).push(s@[i as int]) =~= s@.subrange(0, i + 1));
            lemma_utf8_len_bound(s@.subrange(0, i + 1));
        }
        let w = utf8_width_exec(s[i]);
        total = total + w as u128;
        i = i + 1;
    }
    assert(s@.subrange(0, s@.len() as int) =~= s@);
    total
}

fn title_match_ok_exec(prefix: usize, title_norm: &[char]) -> (r: bool)
    ensures
        r == title_match_ok(prefix as nat, title_norm@),
{
    if prefix >= 15 {
        return true;
    }
    if prefix < 10 || title_norm.len() == 0 {
        return false;
    }
    let n = utf8_len_exec(title_norm);
    proof {
        lemma_utf8_len_bound(title_norm@);
    }
    5 * (prefix as u128) >= 4 * n
}

fn names_exec(p: &PaperResult) -> (r: String)
    ensures
        r@ == names_of(p@),
{
    assert(p.authors@.map_values(|a: String| a@) =~= strs_view(p.authors@));
    join_strings(p.authors.as_slice(), " ")
}

/// Find the best fuzzy match from OpenAlex results: its index and whether
/// its authors match, or `None` if no result is good enough.
pub fn find_best_openalex_match(results: &Vec<PaperResult>, entry: &VerifyEntry) -> (r: Option<(usize, bool)>)
    ensures
        match best_openalex(entry@, papers_view(results@)) {
            Some((i, am)) => r matches Some((x, y)) && x == i && y == am,
            None => r is None,
        },
        r matches Some((x, _)) ==> x < results@.len(),
{
    let ghost ps = papers_view(results@);
    let ghost e = entry@;
    let tn = normalize_title(entry.title.as_str());
    let title_norm = str_chars(tn.as_str());
    let author_norm = str_chars(normalize_author(entry.author.as_str()).as_str());
    let mut best: Option<(usize, u128, bool)> = None;
    let mut i: usize = 0;
    assert(ps.subrange(0, 0) =~= Seq::<PaperV>::empty());
    while i < results.len()
        invariant
            i <= results@.len(),
            ps == papers_view(results@),
            e == entry@,
            tn@ == norm_title(e.title),
            title_norm@ == norm_title(e.title),
            author_norm@ == norm_author(e.author),
            match oa_best(e, ps.subrange(0, i as int)) {
                Some((k, sc, am)) => best matches Some((bk, bs, ba)) && bk == k && bs == sc && ba == am && k < i,
                None => best is None,
            },
        decreases results@.len() - i,
    {
        let p = &results[i];
        assert(ps[i as int] == p@);
        let ghost sub = ps.subrange(0, i + 1);
        assert(sub.drop_last() =~= ps.subrange(0, i as int));
        assert(sub.last() == p@);
        let pt = normalize_title(p.title.as_str());
        let prefix = common_prefix_len(tn.as_str(), pt.as_str());
        let names = names_exec(p);
        let has_author = if author_norm.len() == 0 { true } else { author_matches(entry.author.as_str(), names.as_str()) };
        let title_ok = title_match_ok_exec(prefix, title_norm.as_slice());
        let mut score: u128 = prefix as u128;
        if title_ok {
            if !entry.year.as_str().is_empty() && str_eq(p.year.as_str(), entry.year.as_str()) {
                score = score + 10;
            }
            if has_author {
                score = score + 15;
            }
        }
        assert(oa_score(e, p@) == (score as nat, has_author));
        let dominated = match best {
            Some((_, bs, _)) => score <= bs,
            None => false,
        };
        if !dominated {
            best = Some((i, score, has_author));
        }
        i = i + 1;
    }
    assert(ps.subrange(0, ps.len() as int) =~= ps);
    match best {
        Some((k, sc, am)) => if (sc >= 20 && am) || sc >= 35 { Some((k, am)) } else { None },
        None => None,
    }
}

/// Find a Semantic Scholar fuzzy match: the index of the first result whose
/// title fits and whose authors match.
pub fn find_ss_match(results: &Vec<PaperResult>, entry: &VerifyEntry) -> (r: Option<usize>)
    ensures
        match ss_first(entry@, papers_view(results@), 0) {
            Some(i) => r matches Some(x) && x == i,
            None => r is None,
        },
        r matches Some(x) ==> x < results@.len(),
{
    let ghost ps = papers_view(results@);
    let ghost e = entry@;
    let tn = normalize_title(entry.title.as_str());
    let title_norm = str_chars(tn.as_str());
    let mut i: usize = 0;
    while i < results.len()
        invariant
            i <= results@.len(),
            ps == papers_view(results@),
            e == entry@,
            tn@ == norm_title(e.title),
            title_norm@ == norm_title(e.title),
            ss_first(e, ps, 0) == ss_first(e, ps, i as int),
        decreases results@.len() - i,
    {
        let p = &results[i];
        assert(ps[i as int] == p@);
        let pt = normalize_title(p.title.as_str());
        let prefix = common_prefix_len(tn.as_str(), pt.as_str());
        let names = names_exec(p);
        let has_author = if entry.author.as_str().is_empty() { true } else { author_matches(entry.author.as_str(), names.as_str()) };
        if title_match_ok_exec(prefix, title_norm.as_slice()) && has_author {
            return Some(i);
        }
        i = i + 1;
    }
    None
}

/// Verification outcome for a single entry.
#[derive(PartialEq, Eq, Structural, Clone, Copy, Debug)]
pub enum Status {
    Matched,
    Mismatch,
    Tentative,
    Book,
    Unknown,
}

/// The services asked, in the order they are asked.
#[derive(PartialEq, Eq, Structural, Clone, Copy, Debug)]
pub enum Stage {
    Doi,
    Arxiv,
    OpenAlex,
    SemanticScholar,
    OpenLibrary,
}

/// What the checks of one entry have found so far.
#[derive(Debug)]
pub struct VerifyState {
    pub status: Status,
    pub source: String,
    pub found_title: String,
    pub found_year: String,
    pub found_author: String,
    pub issues: Vec<String>,
}

/// Mathematical view of a [`VerifyState`].
pub struct VStateV {
    pub status: Status,
    pub source: Seq<char>,
    pub found_title: Seq<char>,
    pub found_year: Seq<char>,
    pub found_author: Seq<char>,
    pub issues: Seq<Seq<char>>,
}

impl View for VerifyState {
    type V = VStateV;

    open spec fn view(&self) -> VStateV {
        VStateV {
            status: self.status,
            source: self.source@,
            found_title: self.found_title@,
            found_year: self.found_year@,
            found_author: self.found_author@,
            issues: strs_view(self.issues@),
        }
    }
}

/// A request for the caller to make: the URL to fetch and the key under
/// which its reply is cached.
#[derive(Debug)]
pub struct Lookup {
    pub stage: Stage,
    pub url: String,
    pub cache_key: String,
}

/// The position of a stage in the order of the checks.
pub open spec fn stage_index(s: Stage) -> int {
    match s {
        Stage::Doi => 0,
        Stage::Arxiv => 1,
        Stage::OpenAlex => 2,
        Stage::SemanticScholar => 3,
        Stage::OpenLibrary => 4,
    }
}

/// The stage at a position.
pub open spec fn stage_at(k: int) -> Stage {
    if k <= 0 {
        Stage::Doi
    } else if k == 1 {
        Stage::Arxiv
    } else if k == 2 {
        Stage::OpenAlex
    } else if k == 3 {
        Stage::SemanticScholar
    } else {
        Stage::OpenLibrary
    }
}

/// Whether a stage is asked, given the entry and the status so far: DOI
/// when there is one; arXiv when there is an eprint and nothing was found;
/// OpenAlex by title when nothing was found; Semantic Scholar when nothing
/// or only a tentative match was found; OpenLibrary for a book not found.
pub open spec fn wanted(e: VEntryV, status: Status, s: Stage) -> bool {
    match s {
        Stage::Doi => e.doi.len() > 0,
        Stage::Arxiv => e.eprint.len() > 0 && status == Status::Unknown,
        Stage::OpenAlex => e.title.len() > 0 && status == Status::Unknown,
        Stage::SemanticScholar => e.title.len() > 0 && (status == Status::Unknown || status == Status::Tentative),
        Stage::OpenLibrary => e.entry_type == "book"@ && status == Status::Unknown,
    }
}

/// The first stage at position `k` or later that is asked.
pub open spec fn next_wanted(e: VEntryV, status: Status, k: int) -> Option<Stage>
    decreases 5 - k,
{
    if k >= 5 {
        None
    } else if k >= 0 && wanted(e, status, stage_at(k)) {
        Some(stage_at(k))
    } else {
        next_wanted(e, status, k + 1)
    }
}

/// The stages of a check are asked in their order, each at most once: the
/// next one asked after position `k` is a wanted stage at `k` or later; and
/// once an entry has matched, mismatched or been found as a book, no later
/// stage is asked.
pub proof fn lemma_lookup_order(e: VEntryV, status: Status, k: int)
    requires
        0 <= k,
    ensures
        next_wanted(e, status, k) matches Some(t) ==> stage_index(t) >= k && wanted(e, status, t),
        (k >= 1 && (status == Status::Matched || status == Status::Mismatch || status == Status::Book))
            ==> next_wanted(e, status, k) is None,
    decreases 5 - k,
{
    if k < 5 {
        lemma_lookup_order(e, status, k + 1);
    }
}

/// The longest start of `s` whose UTF-8 encoding fits in `max` bytes
/// (`format::safe_truncate`).
pub open spec fn bytes_within(s: Seq<char>, max: int) -> Seq<char>
    decreases s.len(),
{
    if s.len() == 0 || utf8_width(s[0]) > max {
        seq![]
    } else {
        seq![s[0]] + bytes_within(s.drop_first(), max - utf8_width(s[0]))
    }
}

/// The title searched on OpenAlex: at most 60 bytes, cut at the last space
/// when it had to be shortened.
pub open spec fn oa_search_title(t: Seq<char>) -> Seq<char> {
    if utf8_len(t) > 60 {
        let tr = bytes_within(t, 60);
        match crate::api::arxiv::last_index_of(tr, ' ') {
            Some(i) => tr.subrange(0, i),
            None => tr,
        }
    } else {
        t
    }
}

/// The URL asked at a stage.
pub open spec fn lookup_url(e: VEntryV, s: Stage) -> Seq<char> {
    match s {
        Stage::Doi => "https://api.crossref.org/works/"@ + e.doi,
        Stage::Arxiv => "https://export.arxiv.org/api/query?id_list="@ + e.eprint,
        Stage::OpenAlex => crate::api::query_url_text(
            "https://api.openalex.org/works?filter=title.search:"@,
            encode_utf8(oa_search_title(e.title)),
            "&per-page="@,
            5,
            ""@,
        ),
        Stage::SemanticScholar => crate::api::query_url_text(
            "https://api.semanticscholar.org/graph/v1/paper/search?query="@,
            encode_utf8(bytes_within(e.title, 80) + " "@ + e.author),
            "&limit="@,
            5,
            "&fields=title,authors,year,citationCount,externalIds"@,
        ),
        Stage::OpenLibrary => crate::api::query_url_text(
            "https://openlibrary.org/search.json?q="@,
            encode_utf8(bytes_within(e.title, 50) + " "@ + e.author),
            "&limit="@,
            5,
            ""@,
        ),
    }
}

/// The cache key of the reply at a stage.
pub open spec fn lookup_key(e: VEntryV, s: Stage) -> Seq<char> {
    match s {
        Stage::Doi => cache_key_of("verify_doi"@, e.doi),
        Stage::Arxiv => cache_key_of("verify_arxiv"@, e.eprint),
        Stage::OpenAlex => cache_key_of("verify_oa"@, e.title),
        Stage::SemanticScholar => cache_key_of("verify_ss"@, e.title),
        Stage::OpenLibrary => cache_key_of("verify_book"@, e.title),
    }
}

/// The state before any check: nothing found.
pub open spec fn start_state() -> VStateV {
    VStateV { status: Status::Unknown, source: seq![], found_title: seq![], found_year: seq![], found_author: seq![], issues: seq![] }
}

/// The state before any check: nothing found.
pub fn verify_start() -> (r: VerifyState)
    ensures
        r@ == start_state(),
{
    let r = VerifyState {
        status: Status::Unknown,
        source: String::new(),
        found_title: String::new(),
        found_year: String::new(),
        found_author: String::new(),
        issues: Vec::new(),
    };
    assert(r@.issues =~= Seq::<Seq<char>>::empty());
    r
}

fn stage_at_exec(k: usize) -> (r: Stage)
    ensures
        r == stage_at(k as int),
{
    if k == 0 {
        Stage::Doi
    } else if k == 1 {
        Stage::Arxiv
    } else if k == 2 {
        Stage::OpenAlex
    } else if k == 3 {
        Stage::SemanticScholar
    } else {
        Stage::OpenLibrary
    }
}

fn stage_index_exec(s: Stage) -> (r: usize)
    ensures
        r == stage_index(s),
{
    match s {
        Stage::Doi => 0,
        Stage::Arxiv => 1,
        Stage::OpenAlex => 2,
        Stage::SemanticScholar => 3,
        Stage::OpenLibrary => 4,
    }
}

fn wanted_exec(e: &VerifyEntry, status: Status, s: Stage) -> (r: bool)
    ensures
        r == wanted(e@, status, s),
{
    proof {
        reveal_strlit("book");
    }
    match s {
        Stage::Doi => !e.doi.as_str().is_empty(),
        Stage::Arxiv => !e.eprint.as_str().is_empty() && status == Status::Unknown,
        Stage::OpenAlex => !e.title.as_str().is_empty() && status == Status::Unknown,
        Stage::SemanticScholar => !e.title.as_str().is_empty() && (status == Status::Unknown || status == Status::Tentative),
        Stage::OpenLibrary => str_eq(e.entry_type.as_str(), "book") && status == Status::Unknown,
    }
}

/// The start of `s` that fits in `max` UTF-8 bytes.
fn bytes_within_exec(s: &[char], max: usize) -> (r: Vec<char>)
    ensures
        r@ == bytes_within(s@, max as int),
{
    let mut out: Vec<char> = Vec::new();
    let mut rem: usize = max;
    let mut i: usize = 0;
    assert(s@.subrange(0, s@.len() as int) =~= s@);
    while i < s.len()
        invariant
            i <= s@.len(),
            rem <= max,
            out@ == s@.subrange(0, i as int),
            bytes_within(s@, max as int) == out@ + bytes_within(s@.subrange(i as int, s@.len() as int), rem as int),
        decreases s@.len() - i,
    {
        let ghost rest = s@.subrange(i as int, s@.len() as int);
        assert(rest[0] == s@[i as int]);
        assert(rest.drop_first() =~= s@.subrange(i + 1, s@.len() as int));
        let w = utf8_width_exec(s[i]);
        if w > rem {
            assert(out@ + Seq::<char>::empty() =~= out@);
            return out;
        }
        out.push(s[i]);
        proof {
            let b = bytes_within(rest.drop_first(), rem - w);
            assert(out@ + b =~= s@.subrange(0, i as int) + (seq![s@[i as int]] + b));
        }
        rem = rem - w;
        i = i + 1;
    }
    assert(bytes_within(s@.subrange(i as int, s@.len() as int), rem as int) =~= Seq::<char>::empty());
    assert(out@ + Seq::<char>::empty() =~= out@);
    out
}

fn oa_search_title_exec(t: &str) -> (r: String)
    ensures
        r@ == oa_search_title(t@),
{
    let c = str_chars(t);
    if !utf8_len_at_least(c.as_slice(), 61) {
        return t.to_owned();
    }
    let tr = bytes_within_exec(c.as_slice(), 60);
    let sp = vec![' '];
    assert(sp@ =~= seq![' ']);
    match crate::api::arxiv::last_occurrence_exec(tr.as_slice(), sp.as_slice()) {
        Some(i) => string_from_chars(slice_vec(tr.as_slice(), 0, i).as_slice()),
        None => string_from_chars(tr.as_slice()),
    }
}

fn spaced(a: &[char], b: &str) -> (r: String)
    ensures
        r@ == a@ + " "@ + b@,
{
    let mut v: Vec<char> = Vec::new();
    crate::text::push_all(&mut v, a);
    v.push(' ');
    crate::text::push_str(&mut v, b);
    proof {
        reveal_strlit(" ");
    }
    assert(v@ =~= a@ + " "@ + b@);
    string_from_chars(v.as_slice())
}

fn lookup_for(e: &VerifyEntry, s: Stage) -> (r: Lookup)
    ensures
        r.stage == s,
        r.url@ == lookup_url(e@, s),
        r.cache_key@ == lookup_key(e@, s),
{
    match s {
        Stage::Doi => Lookup {
            stage: s,
            url: crate::api::crossref::doi_url(e.doi.as_str()),
            cache_key: cache_key("verify_doi", e.doi.as_str()),
        },
        Stage::Arxiv => Lookup {
            stage: s,
            url: crate::api::arxiv::query_url(e.eprint.as_str()),
            cache_key: cache_key("verify_arxiv", e.eprint.as_str()),
        },
        Stage::OpenAlex => {
            let q = oa_search_title_exec(e.title.as_str());
            Lookup {
                stage: s,
                url: crate::api::openalex::title_search_url(q.as_str(), 5),
                cache_key: cache_key("verify_oa", e.title.as_str()),
            }
        },
        Stage::SemanticScholar => {
            let t = bytes_within_exec(str_chars(e.title.as_str()).as_slice(), 80);
            let q = spaced(t.as_slice(), e.author.as_str());
            Lookup {
                stage: s,
                url: crate::api::semantic_scholar::search_url(q.as_str(), 5),
                cache_key: cache_key("verify_ss", e.title.as_str()),
            }
        },
        Stage::OpenLibrary => {
            let t = bytes_within_exec(str_chars(e.title.as_str()).as_slice(), 50);
            let q = spaced(t.as_slice(), e.author.as_str());
            Lookup {
                stage: s,
                url: crate::api::openlibrary::search_url(q.as_str(), 5),
                cache_key: cache_key("verify_book", e.title.as_str()),
            }
        },
    }
}

/// The next request for an entry: the first stage after `after` (from the
/// start when `None`) that the status so far calls for, or `None` when the
/// checks are done.
pub fn next_lookup(entry: &VerifyEntry, st: &VerifyState, after: Option<Stage>) -> (r: Option<Lookup>)
    ensures
        ({
            let k = match after { Some(a) => stage_index(a) + 1, None => 0 };
            match next_wanted(entry@, st.status, k) {
                Some(s) => r matches Some(l) && l.stage == s && l.url@ == lookup_url(entry@, s)
                    && l.cache_key@ == lookup_key(entry@, s),
                None => r is None,
            }
        }),
{
    let mut k: usize = match after {
        Some(a) => stage_index_exec(a) + 1,
        None => 0,
    };
    let ghost k0 = k;
    while k < 5
        invariant
            k <= 5,
            next_wanted(entry@, st.status, k0 as int) == next_wanted(entry@, st.status, k as int),
            k0 == (match after { Some(a) => stage_index(a) + 1, None => 0 }),
        decreases 5 - k,
    {
        let s = stage_at_exec(k);
        if wanted_exec(entry, st.status, s) {
            assert(next_wanted(entry@, st.status, k as int) == Some(s));
            let l = lookup_for(entry, s);
            return Some(l);
        }
        k = k + 1;
    }
    None
}

/// The state once a match `p` is taken, with its status and source.
pub open spec fn found_state(st: VStateV, p: PaperV, status: Status, source: Seq<char>) -> VStateV {
    VStateV {
        status: status,
        source: source,
        found_title: p.title,
        found_year: p.year,
        found_author: first_author_lastname_of(p.authors),
        issues: st.issues,
    }
}

/// A conference paper, whose arXiv DOI is not worth suggesting.
pub open spec fn is_proceedings(e: VEntryV) -> bool {
    e.entry_type == "inproceedings"@ || e.entry_type == "conference"@
}

/// The DOI suggestion an OpenAlex match gives an entry without a DOI, when
/// its author matches and its year is within three of the entry's: an
/// arXiv DOI (not for conference papers) or another DOI to add.
pub open spec fn doi_suggestion(e: VEntryV, p: PaperV, author_ok: bool) -> Seq<Seq<char>> {
    match p.doi {
        Some(d) => if e.doi.len() == 0 && author_ok && within_years(e.year, p.year, 3) {
            let clean = replace_all(d, "https://doi.org/"@, ""@);
            if contains(lowercase(clean), "arxiv"@) {
                if is_proceedings(e) { seq![] } else { seq!["arxiv-doi:"@ + clean] }
            } else {
                seq!["add-doi:"@ + clean]
            }
        } else {
            seq![]
        },
        None => seq![],
    }
}

/// The state after the OpenAlex results `ps`: the best match, if any, is
/// recorded (a match or, without a matching author, a tentative one, when
/// it has a title), with any DOI suggestion.
pub open spec fn openalex_state(e: VEntryV, st: VStateV, ps: Seq<PaperV>) -> VStateV {
    match best_openalex(e, ps) {
        None => st,
        Some((i, am)) => {
            let p = ps[i];
            let issues = st.issues + doi_suggestion(e, p, am);
            if p.title.len() > 0 {
                VStateV {
                    status: if am { Status::Matched } else { Status::Tentative },
                    source: "OpenAlex"@,
                    found_title: p.title,
                    found_year: p.year,
                    found_author: first_author_lastname_of(p.authors),
                    issues: issues,
                }
            } else {
                VStateV {
                    status: st.status,
                    source: st.source,
                    found_title: p.title,
                    found_year: p.year,
                    found_author: first_author_lastname_of(p.authors),
                    issues: issues,
                }
            }
        },
    }
}

/// The state after the Semantic Scholar results `ps`.
pub open spec fn ss_state(e: VEntryV, st: VStateV, ps: Seq<PaperV>) -> VStateV {
    match ss_first(e, ps, 0) {
        Some(i) => found_state(st, ps[i], Status::Matched, "SemanticScholar"@),
        None => st,
    }
}

/// How many bytes of two normalised titles OpenLibrary results are compared
/// on: 20, or fewer when either is shorter.
pub open spec fn ol_cmp_len(tn: Seq<char>, pn: Seq<char>) -> int {
    let a = if utf8_len(tn) < 20 { utf8_len(tn) } else { 20 };
    if utf8_len(pn) < a { utf8_len(pn) } else { a }
}

/// The first OpenLibrary result from `i` on whose normalised title starts
/// like the entry's; `None` when a title would have to be cut inside a
/// character first.
pub open spec fn ol_scan(tn: Seq<char>, ps: Seq<PaperV>, i: int) -> Option<Option<int>>
    decreases ps.len() - i,
{
    if i < 0 || i >= ps.len() {
        Some(None)
    } else {
        let pn = norm_title(ps[i].title);
        let c = ol_cmp_len(tn, pn);
        if c > 0 {
            match (byte_prefix(tn, c), byte_prefix(pn, c)) {
                (Some(a), Some(b)) => if a == b { Some(Some(i)) } else { ol_scan(tn, ps, i + 1) },
                _ => None,
            }
        } else {
            ol_scan(tn, ps, i + 1)
        }
    }
}

/// The state after the OpenLibrary results `ps`: the first result whose
/// title starts alike is taken as the book.
pub open spec fn ol_state(e: VEntryV, st: VStateV, ps: Seq<PaperV>) -> VStateV {
    match ol_scan(norm_title(e.title), ps, 0) {
        Some(Some(i)) => found_state(st, ps[i], Status::Book, "OpenLibrary"@),
        _ => st,
    }
}

/// The paper a DOI reply gives, if it names a title and parses.
pub open spec fn doi_reply(body: Seq<char>) -> Option<PaperV> {
    if contains(body, "\"title\""@) {
        match json_parsed(body) {
            Some(d) => Some(cr_doi_message(jget(d, "message"@))),
            None => None,
        }
    } else {
        None
    }
}

/// The paper an arXiv reply gives, if it holds an entry that parses.
pub open spec fn arxiv_reply(body: Seq<char>) -> Option<PaperV> {
    if contains(body, "<entry>"@) {
        match arxiv_entry(encode_utf8(body)) {
            Ok(p) => Some(p),
            Err(_) => None,
        }
    } else {
        None
    }
}

/// The results a search reply gives, if it has the expected list and parses.
pub open spec fn list_reply(s: Stage, body: Seq<char>) -> Option<Seq<PaperV>> {
    match s {
        Stage::OpenAlex => if contains(body, "\"results\""@) { works_response(body, "results"@) } else { None },
        Stage::SemanticScholar => if contains(body, "\"data\""@) { data_response(body, None) } else { None },
        Stage::OpenLibrary => if contains(body, "\"docs\""@) {
            match json_parsed(body) {
                Some(d) => match jarr(jget(d, "docs"@)) {
                    Some(docs) => Some(docs.map_values(|x: JsonV| ol_search_doc(x))),
                    None => None,
                },
                None => None,
            }
        } else {
            None
        },
        _ => None,
    }
}

/// The state after the reply to the request of stage `s` (`None` when the
/// request failed); `None` when the check would have to cut a name or a
/// title inside a character.
pub open spec fn reply_state(e: VEntryV, st: VStateV, s: Stage, body: Option<Seq<char>>) -> Option<VStateV> {
    match body {
        None => Some(st),
        Some(b) => match s {
            Stage::Doi => match doi_reply(b) {
                Some(p) => Some(found_state(st, p, Status::Matched, "DOI"@)),
                None => Some(st),
            },
            Stage::Arxiv => match arxiv_reply(b) {
                Some(p) => Some(found_state(st, p, Status::Matched, "arXiv"@)),
                None => Some(st),
            },
            Stage::OpenAlex => match list_reply(s, b) {
                Some(ps) => Some(openalex_state(e, st, ps)),
                None => Some(st),
            },
            Stage::SemanticScholar => match list_reply(s, b) {
                Some(ps) => Some(ss_state(e, st, ps)),
                None => Some(st),
            },
            Stage::OpenLibrary => match list_reply(s, b) {
                Some(ps) => if ol_scan(norm_title(e.title), ps, 0) is None { None } else { Some(ol_state(e, st, ps)) },
                None => Some(st),
            },
        },
    }
}

/// Records the match `p` with its status and source.
pub fn record_found(st: VerifyState, p: &PaperResult, status: Status, source: &str) -> (r: VerifyState)
    ensures
        r@ == found_state(st@, p@, status, source@),
{
    VerifyState {
        status: status,
        source: source.to_owned(),
        found_title: p.title.clone(),
        found_year: p.year.clone(),
        found_author: first_author_lastname(p.authors.as_slice()),
        issues: st.issues,
    }
}

fn doi_suggestion_exec(e: &VerifyEntry, p: &PaperResult, author_ok: bool) -> (r: Vec<String>)
    ensures
        strs_view(r@) == doi_suggestion(e@, p@, author_ok),
{
    proof {
        reveal_strlit("https://doi.org/");
        reveal_strlit("inproceedings");
        reveal_strlit("conference");
    }
    let mut out: Vec<String> = Vec::new();
    match &p.doi {
        Some(d) => {
            if e.doi.as_str().is_empty() && author_ok && years_within(e.year.as_str(), p.year.as_str(), 3) {
                let clean = replace_str(str_chars(d.as_str()).as_slice(), "https://doi.org/", "");
                let cs = string_from_chars(clean.as_slice());
                let low = str_to_lowercase(cs.as_str());
                let proceedings = str_eq(e.entry_type.as_str(), "inproceedings") || str_eq(e.entry_type.as_str(), "conference");
                if contains_chars(str_chars(low.as_str()).as_slice(), str_chars("arxiv").as_slice()) {
                    if !proceedings {
                        out.push(spaced_tag("arxiv-doi:", clean.as_slice()));
                    }
                } else {
                    out.push(spaced_tag("add-doi:", clean.as_slice()));
                }
            }
        },
        None => {},
    }
    assert(strs_view(out@) =~= doi_suggestion(e@, p@, author_ok));
    out
}

fn spaced_tag(tag: &str, v: &[char]) -> (r: String)
    ensures
        r@ == tag@ + v@,
{
    let mut o: Vec<char> = Vec::new();
    crate::text::push_str(&mut o, tag);
    crate::text::push_all(&mut o, v);
    string_from_chars(o.as_slice())
}

/// The state after the OpenAlex results: the best match is recorded with
/// any DOI suggestion.
pub fn openalex_outcome(entry: &VerifyEntry, st: VerifyState, results: &Vec<PaperResult>) -> (r: VerifyState)
    ensures
        r@ == openalex_state(entry@, st@, papers_view(results@)),
{
    let ghost ps = papers_view(results@);
    match find_best_openalex_match(results, entry) {
        None => st,
        Some((i, am)) => {
            let p = &results[i];
            assert(ps[i as int] == p@);
            let sugg = doi_suggestion_exec(entry, p, am);
            let mut issues = st.issues;
            let ghost before = strs_view(issues@);
            let mut k: usize = 0;
            while k < sugg.len()
                invariant
                    k <= sugg@.len(),
                    strs_view(issues@) == before + strs_view(sugg@).subrange(0, k as int),
                decreases sugg@.len() - k,
            {
                let ghost prev = strs_view(issues@);
                assert(strs_view(sugg@)[k as int] == sugg@[k as int]@);
                issues.push(sugg[k].clone());
                assert(strs_view(issues@) =~= prev.push(sugg@[k as int]@));
                assert(strs_view(issues@) =~= before + strs_view(sugg@).subrange(0, k + 1));
                k = k + 1;
            }
            assert(strs_view(sugg@).subrange(0, sugg@.len() as int) =~= strs_view(sugg@));
            proof {
                reveal_strlit("OpenAlex");
            }
            if !p.title.as_str().is_empty() {
                VerifyState {
                    status: if am { Status::Matched } else { Status::Tentative },
                    source: "OpenAlex".to_owned(),
                    found_title: p.title.clone(),
                    found_year: p.year.clone(),
                    found_author: first_author_lastname(p.authors.as_slice()),
                    issues: issues,
                }
            } else {
                VerifyState {
                    status: st.status,
                    source: st.source,
                    found_title: p.title.clone(),
                    found_year: p.year.clone(),
                    found_author: first_author_lastname(p.authors.as_slice()),
                    issues: issues,
                }
            }
        },
    }
}

/// The state after the Semantic Scholar results: the first fitting result
/// is taken.
pub fn ss_outcome(entry: &VerifyEntry, st: VerifyState, results: &Vec<PaperResult>) -> (r: VerifyState)
    ensures
        r@ == ss_state(entry@, st@, papers_view(results@)),
{
    match find_ss_match(results, entry) {
        Some(i) => {
            assert(papers_view(results@)[i as int] == results@[i as int]@);
            record_found(st, &results[i], Status::Matched, "SemanticScholar")
        },
        None => st,
    }
}

fn ol_scan_exec(tn: &[char], results: &Vec<PaperResult>) -> (r: Option<Option<usize>>)
    ensures
        match ol_scan(tn@, papers_view(results@), 0) {
            None => r is None,
            Some(None) => r == Some(None::<usize>),
            Some(Some(i)) => r matches Some(Some(x)) && x == i,
        },
        r matches Some(Some(x)) ==> x < results@.len(),
{
    let ghost ps = papers_view(results@);
    let tlen = utf8_len_exec(tn);
    let mut i: usize = 0;
    while i < results.len()
        invariant
            i <= results@.len(),
            ps == papers_view(results@),
            tlen == utf8_len(tn@),
            ol_scan(tn@, ps, 0) == ol_scan(tn@, ps, i as int),
        decreases results@.len() - i,
    {
        let p = &results[i];
        assert(ps[i as int] == p@);
        let pn = str_chars(normalize_title(p.title.as_str()).as_str());
        let plen = utf8_len_exec(pn.as_slice());
        let a: u128 = if tlen < 20 { tlen } else { 20 };
        let c: u128 = if plen < a { plen } else { a };
        if c > 0 {
            let cu = c as usize;
            match (byte_prefix_exec(tn, cu), byte_prefix_exec(pn.as_slice(), cu)) {
                (Some(x), Some(y)) => {
                    if crate::text::chars_eq(x.as_slice(), y.as_slice()) {
                        return Some(Some(i));
                    }
                },
                _ => {
                    return None;
                },
            }
        }
        i = i + 1;
    }
    Some(None)
}

/// The state after the OpenLibrary results: the first result whose title
/// starts like the entry's is taken as the book.
pub fn openlibrary_outcome(entry: &VerifyEntry, st: VerifyState, results: &Vec<PaperResult>) -> (r: VerifyState)
    requires
        ol_scan(norm_title(entry.title@), papers_view(results@), 0) is Some,
    ensures
        r@ == ol_state(entry@, st@, papers_view(results@)),
{
    let tn = str_chars(normalize_title(entry.title.as_str()).as_str());
    match ol_scan_exec(tn.as_slice(), results) {
        Some(Some(i)) => {
            assert(papers_view(results@)[i as int] == results@[i as int]@);
            record_found(st, &results[i], Status::Book, "OpenLibrary")
        },
        _ => st,
    }
}

fn body_has(body: &str, marker: &str) -> (r: bool)
    ensures
        r == contains(body@, marker@),
{
    contains_chars(str_chars(body).as_slice(), str_chars(marker).as_slice())
}

/// The state after the reply to the request of stage `stage` (`None` when
/// the request failed); `None` when the check would have to cut a name or
/// a title inside a character.
pub fn take_reply(entry: &VerifyEntry, st: VerifyState, stage: Stage, body: Option<String>) -> (r: Option<VerifyState>)
    ensures
        match reply_state(entry@, st@, stage, match body { Some(b) => Some(b@), None => None }) {
            Some(v) => r matches Some(x) && x@ == v,
            None => r is None,
        },
{
    let b = match body {
        None => return Some(st),
        Some(b) => b,
    };
    match stage {
        Stage::Doi => {
            if !body_has(b.as_str(), "\"title\"") {
                return Some(st);
            }
            match crate::api::crossref::parse_doi(b.as_str()) {
                Ok(p) => Some(record_found(st, &p, Status::Matched, "DOI")),
                Err(_) => Some(st),
            }
        },
        Stage::Arxiv => {
            if !body_has(b.as_str(), "<entry>") {
                return Some(st);
            }
            match crate::api::arxiv::parse_entry(b.as_str()) {
                Ok(p) => Some(record_found(st, &p, Status::Matched, "arXiv")),
                Err(_) => Some(st),
            }
        },
        Stage::OpenAlex => {
            if !body_has(b.as_str(), "\"results\"") {
                return Some(st);
            }
            match crate::api::openalex::parse_search(b.as_str()) {
                Ok(ps) => {
                    Some(openalex_outcome(entry, st, &ps))
                },
                Err(_) => Some(st),
            }
        },
        Stage::SemanticScholar => {
            if !body_has(b.as_str(), "\"data\"") {
                return Some(st);
            }
            match crate::api::semantic_scholar::parse_search(b.as_str()) {
                Ok(ps) => {
                    Some(ss_outcome(entry, st, &ps))
                },
                Err(_) => Some(st),
            }
        },
        Stage::OpenLibrary => {
            if !body_has(b.as_str(), "\"docs\"") {
                return Some(st);
            }
            match crate::api::openlibrary::parse_search(b.as_str()) {
                Ok(ps) => {
                    let tn = str_chars(normalize_title(entry.title.as_str()).as_str());
                    if ol_scan_exec(tn.as_slice(), &ps).is_none() {
                        return None;
                    }
                    Some(openlibrary_outcome(entry, st, &ps))
                },
                Err(_) => Some(st),
            }
        },
    }
}

/// Result of verifying one entry.
#[derive(Debug)]
pub struct VerifyResult {
    pub index: usize,
    pub status: Status,
    pub source: String,
    pub key: String,
    /// The entry's title cut to 50 bytes, for display.
    pub title: String,
    pub issues: Vec<String>,
}

/// Mathematical view of a [`VerifyResult`].
pub struct VResultV {
    pub index: usize,
    pub status: Status,
    pub source: Seq<char>,
    pub key: Seq<char>,
    pub title: Seq<char>,
    pub issues: Seq<Seq<char>>,
}

impl View for VerifyResult {
    type V = VResultV;

    open spec fn view(&self) -> VResultV {
        VResultV {
            index: self.index,
            status: self.status,
            source: self.source@,
            key: self.key@,
            title: self.title@,
            issues: strs_view(self.issues@),
        }
    }
}

/// The first 30 characters of `s`.
pub open spec fn first30(s: Seq<char>) -> Seq<char> {
    if s.len() <= 30 { s } else { s.subrange(0, 30) }
}

/// A year issue: both years known and different.
pub open spec fn year_issue(e: VEntryV, st: VStateV) -> Seq<Seq<char>> {
    if e.year.len() > 0 && st.found_year.len() > 0 && e.year != st.found_year {
        seq!["year:"@ + e.year + "->"@ + st.found_year]
    } else {
        seq![]
    }
}

/// An author issue: both authors known, and their normalised names differ
/// in their first four bytes (or as a whole, for a short bib name).
pub open spec fn author_issue(e: VEntryV, st: VStateV) -> Seq<Seq<char>> {
    if e.author.len() > 0 && st.found_author.len() > 0 {
        let a = norm_author(e.author);
        let f = norm_author(st.found_author);
        let mismatch = if utf8_len(a) >= 4 { byte_prefix(a, 4) != byte_prefix(f, 4) } else { a != f };
        if mismatch { seq!["author:"@ + e.author + "->"@ + st.found_author] } else { seq![] }
    } else {
        seq![]
    }
}

/// A title issue: both titles known, and their normalised forms differ in
/// their first 30 characters.
pub open spec fn title_issue(e: VEntryV, st: VStateV) -> Seq<Seq<char>> {
    if e.title.len() > 0 && st.found_title.len() > 0 && first30(norm_title(e.title)) != first30(norm_title(st.found_title)) {
        seq!["title-mismatch"@]
    } else {
        seq![]
    }
}

/// A DOI suggestion, as opposed to a real issue.
pub open spec fn is_suggestion(i: Seq<char>) -> bool {
    has_prefix(i, "add-doi:"@) || has_prefix(i, "arxiv-doi:"@)
}

/// Whether a list of issues holds one that is not a suggestion.
pub open spec fn has_real_issue(issues: Seq<Seq<char>>) -> bool {
    exists|k: int| 0 <= k < issues.len() && !is_suggestion(#[trigger] issues[k])
}

/// The issues of a match (or tentative match) once compared with the entry.
pub open spec fn final_issues(e: VEntryV, st: VStateV) -> Seq<Seq<char>> {
    if st.status == Status::Matched || st.status == Status::Tentative {
        st.issues + year_issue(e, st) + author_issue(e, st) + title_issue(e, st)
    } else {
        st.issues
    }
}

/// The final status: a match with a real issue is a mismatch.
pub open spec fn final_status(e: VEntryV, st: VStateV) -> Status {
    if st.status == Status::Matched && has_real_issue(final_issues(e, st)) {
        Status::Mismatch
    } else {
        st.status
    }
}

/// The result of the checks of entry number `index`.
pub open spec fn result_of(e: VEntryV, st: VStateV, index: usize) -> VResultV {
    VResultV {
        index: index,
        status: final_status(e, st),
        source: st.source,
        key: e.key,
        title: bytes_within(e.title, 50),
        issues: final_issues(e, st),
    }
}

fn push_tagged(out: &mut Vec<String>, a: &str, b: &str, c: &str)
    ensures
        strs_view(final(out)@) == strs_view(old(out)@).push(a@ + b@ + "->"@ + c@),
{
    let mut v: Vec<char> = Vec::new();
    crate::text::push_str(&mut v, a);
    crate::text::push_str(&mut v, b);
    crate::text::push_str(&mut v, "->");
    crate::text::push_str(&mut v, c);
    let ghost prev = strs_view(out@);
    let t = string_from_chars(v.as_slice());
    out.push(t);
    assert(strs_view(out@) =~= prev.push(a@ + b@ + "->"@ + c@));
}

fn first30_exec(s: &str) -> (r: Vec<char>)
    ensures
        r@ == first30(s@),
{
    let c = str_chars(s);
    if c.len() <= 30 { c } else { slice_vec(c.as_slice(), 0, 30) }
}

fn has_real_issue_exec(issues: &Vec<String>) -> (r: bool)
    ensures
        r == has_real_issue(strs_view(issues@)),
{
    proof {
        reveal_strlit("add-doi:");
        reveal_strlit("arxiv-doi:");
    }
    let mut i: usize = 0;
    while i < issues.len()
        invariant
            i <= issues@.len(),
            forall|k: int| 0 <= k < i ==> is_suggestion(#[trigger] strs_view(issues@)[k]),
        decreases issues@.len() - i,
    {
        let c = str_chars(issues[i].as_str());
        assert(strs_view(issues@)[i as int] == c@);
        if !starts_with_str(c.as_slice(), "add-doi:") && !starts_with_str(c.as_slice(), "arxiv-doi:") {
            return true;
        }
        i = i + 1;
    }
    false
}

/// Compare the match found with the entry and give the result of entry
/// number `index`: year, author and title issues for a match or tentative
/// match, and a match with a real issue becomes a mismatch.
pub fn verify_finish(entry: &VerifyEntry, st: VerifyState, index: usize) -> (r: VerifyResult)
    ensures
        r@ == result_of(entry@, st@, index),
{
    let ghost e = entry@;
    let ghost s0 = st@;
    let mut issues = st.issues;
    let mut status = st.status;
    if status == Status::Matched || status == Status::Tentative {
        let ghost i0 = strs_view(issues@);
        proof {
            reveal_strlit("year:");
            reveal_strlit("author:");
            reveal_strlit("->");
            reveal_strlit("title-mismatch");
        }
        if !entry.year.as_str().is_empty() && !st.found_year.as_str().is_empty()
            && !str_eq(entry.year.as_str(), st.found_year.as_str()) {
            push_tagged(&mut issues, "year:", entry.year.as_str(), st.found_year.as_str());
        }
        assert(strs_view(issues@) =~= i0 + year_issue(e, s0));
        let i1 = issues.len();
        let ghost v1 = strs_view(issues@);
        if !entry.author.as_str().is_empty() && !st.found_author.as_str().is_empty() {
            let a = str_chars(normalize_author(entry.author.as_str()).as_str());
            let f = str_chars(normalize_author(st.found_author.as_str()).as_str());
            let mismatch = if utf8_len_at_least(a.as_slice(), 4) {
                match (byte_prefix_exec(a.as_slice(), 4), byte_prefix_exec(f.as_slice(), 4)) {
                    (Some(x), Some(y)) => !crate::text::chars_eq(x.as_slice(), y.as_slice()),
                    (None, None) => false,
                    _ => true,
                }
            } else {
                !crate::text::chars_eq(a.as_slice(), f.as_slice())
            };
            if mismatch {
                push_tagged(&mut issues, "author:", entry.author.as_str(), st.found_author.as_str());
            }
        }
        assert(strs_view(issues@) =~= v1 + author_issue(e, s0));
        let ghost v2 = strs_view(issues@);
        if !entry.title.as_str().is_empty() && !st.found_title.as_str().is_empty() {
            let t = first30_exec(normalize_title(entry.title.as_str()).as_str());
            let f = first30_exec(normalize_title(st.found_title.as_str()).as_str());
            if !crate::text::chars_eq(t.as_slice(), f.as_slice()) {
                issues.push("title-mismatch".to_owned());
            }
        }
        assert(strs_view(issues@) =~= v2 + title_issue(e, s0));
        assert(strs_view(issues@) =~= final_issues(e, s0));
        if has_real_issue_exec(&issues) && status == Status::Matched {
            status = Status::Mismatch;
        }
    }
    let title = string_from_chars(bytes_within_exec(str_chars(entry.title.as_str()).as_slice(), 50).as_slice());
    VerifyResult {
        index: index,
        status: status,
        source: st.source,
        key: entry.key.clone(),
        title: title,
        issues: issues,
    }
}

/// How the results of a run add up: matches (tentative ones included),
/// mismatches, books and entries not found.
pub struct Tally {
    pub ok: usize,
    pub mismatch: usize,
    pub book: usize,
    pub unknown: usize,
}

/// The number of results in `rs` with a status in the class `k` (0: match
/// or tentative; 1: mismatch; 2: book; 3: not found).
pub open spec fn count_class(rs: Seq<VResultV>, k: int) -> nat
    decreases rs.len(),
{
    if rs.len() == 0 {
        0
    } else {
        count_class(rs.drop_last(), k) + if status_class(rs.last().status) == k { 1nat } else { 0nat }
    }
}

/// The class a status is counted in.
pub open spec fn status_class(s: Status) -> int {
    match s {
        Status::Matched | Status::Tentative => 0,
        Status::Mismatch => 1,
        Status::Book => 2,
        Status::Unknown => 3,
    }
}

/// The views of a list of results.
pub open spec fn results_view(v: Seq<VerifyResult>) -> Seq<VResultV> {
    v.map_values(|r: VerifyResult| r@)
}

proof fn lemma_count_class_bound(rs: Seq<VResultV>, k: int)
    ensures
        count_class(rs, k) <= rs.len(),
    decreases rs.len(),
{
    if rs.len() > 0 {
        lemma_count_class_bound(rs.drop_last(), k);
    }
}

/// Count the results of a run by status.
pub fn tally(results: &Vec<VerifyResult>) -> (r: Tally)
    ensures
        r.ok == count_class(results_view(results@), 0),
        r.mismatch == count_class(results_view(results@), 1),
        r.book == count_class(results_view(results@), 2),
        r.unknown == count_class(results_view(results@), 3),
{
    let ghost rs = results_view(results@);
    let mut t = Tally { ok: 0, mismatch: 0, book: 0, unknown: 0 };
    let mut i: usize = 0;
    while i < results.len()
        invariant
            i <= results@.len(),
            rs == results_view(results@),
            t.ok == count_class(rs.subrange(0, i as int), 0),
            t.mismatch == count_class(rs.subrange(0, i as int), 1),
            t.book == count_class(rs.subrange(0, i as int), 2),
            t.unknown == count_class(rs.subrange(0, i as int), 3),
        decreases results@.len() - i,
    {
        let ghost sub = rs.subrange(0, i + 1);
        assert(sub.drop_last() =~= rs.subrange(0, i as int));
        assert(sub.last() == results@[i as int]@);
        proof {
            lemma_count_class_bound(rs.subrange(0, i as int), 0);
            lemma_count_class_bound(rs.subrange(0, i as int), 1);
            lemma_count_class_bound(rs.subrange(0, i as int), 2);
            lemma_count_class_bound(rs.subrange(0, i as int), 3);
        }
        match results[i].status {
            Status::Matched | Status::Tentative => t.ok = t.ok + 1,
            Status::Mismatch => t.mismatch = t.mismatch + 1,
            Status::Book => t.book = t.book + 1,
            Status::Unknown => t.unknown = t.unknown + 1,
        }
        i = i + 1;
    }
    assert(rs.subrange(0, rs.len() as int) =~= rs);
    t
}

/// The number of non-overlapping occurrences of `pat` in `s` from `i` on
/// (`str::matches(..).count()`).
pub open spec fn occurrences_from(s: Seq<char>, pat: Seq<char>, i: int) -> nat
    decreases s.len() - i,
{
    if pat.len() == 0 || i < 0 || i > s.len() {
        0
    } else {
        match first_occurrence(s, pat, i) {
            Some(j) => if j >= i && j + pat.len() <= s.len() { 1 + occurrences_from(s, pat, j + pat.len()) } else { 0 },
            None => 0,
        }
    }
}

/// The number of `% lit:skip` markers in a `.bib` text: the entries skipped
/// by hand, counted as verified.
pub fn count_skip_markers(content: &str) -> (r: usize)
    ensures
        r == occurrences_from(content@, "% lit:skip"@, 0),
{
    proof {
        reveal_strlit("% lit:skip");
    }
    let c = str_chars(content);
    let pat = str_chars("% lit:skip");
    let mut n: usize = 0;
    let mut i: usize = 0;
    while i <= c.len()
        invariant
            i <= c@.len() + 1,
            c@ == content@,
            pat@ == "% lit:skip"@,
            pat@.len() == 10,
            n <= i,
            i <= c@.len() ==> occurrences_from(c@, pat@, 0) == n + occurrences_from(c@, pat@, i as int),
            i > c@.len() ==> occurrences_from(c@, pat@, 0) == n,
        decreases c@.len() + 1 - i,
    {
        proof {
            crate::text::lemma_first_occurrence(c@, pat@, i as int);
        }
        match crate::text::find_from(c.as_slice(), i, pat.as_slice()) {
            Some(j) => {
                n = n + 1;
                i = j + 10;
            },
            None => {
                return n;
            },
        }
    }
    n
}

/// The four counts of a run add up to the number of results.
pub proof fn lemma_tally_sums(rs: Seq<VResultV>)
    ensures
        count_class(rs, 0) + count_class(rs, 1) + count_class(rs, 2) + count_class(rs, 3) == rs.len(),
    decreases rs.len(),
{
    if rs.len() > 0 {
        lemma_tally_sums(rs.drop_last());
    }
}

/// The line printed for a result, if any: issues (`!`) for a match with
/// issues or a mismatch, `B` for a book, `x` for an entry not found; none
/// for a clean match.
pub open spec fn result_line_of(r: VResultV) -> Option<Seq<char>> {
    match r.status {
        Status::Matched | Status::Tentative => if r.issues.len() == 0 {
            None
        } else {
            Some("  ! "@ + r.key + " ["@ + r.source + "]: "@ + crate::text::join(r.issues, " "@))
        },
        Status::Mismatch => Some("  ! "@ + r.key + " ["@ + r.source + "]: "@ + crate::text::join(r.issues, " "@)),
        Status::Book => Some("  B "@ + r.key + " ["@ + r.source + "]: "@ + r.title),
        Status::Unknown => Some("  x "@ + r.key + ": "@ + r.title),
    }
}

/// The line printed for one result of a run, if any.
pub fn result_line(r: &VerifyResult) -> (out: Option<String>)
    ensures
        crate::api::opt_view(out) == result_line_of(r@),
{
    let issues_line = |r: &VerifyResult| -> (l: String)
        ensures
            l@ == "  ! "@ + r.key@ + " ["@ + r.source@ + "]: "@ + crate::text::join(strs_view(r.issues@), " "@),
    {
        let mut v = crate::text::str_chars("  ! ");
        crate::text::push_str(&mut v, r.key.as_str());
        crate::text::push_str(&mut v, " [");
        crate::text::push_str(&mut v, r.source.as_str());
        crate::text::push_str(&mut v, "]: ");
        assert(r.issues@.map_values(|x: String| x@) =~= strs_view(r.issues@));
        let j = crate::text::join_strings(r.issues.as_slice(), " ");
        crate::text::push_str(&mut v, j.as_str());
        crate::text::string_from_chars(v.as_slice())
    };
    match r.status {
        Status::Matched | Status::Tentative => {
            if r.issues.len() == 0 {
                None
            } else {
                Some(issues_line(r))
            }
        },
        Status::Mismatch => Some(issues_line(r)),
        Status::Book => {
            let mut v = crate::text::str_chars("  B ");
            crate::text::push_str(&mut v, r.key.as_str());
            crate::text::push_str(&mut v, " [");
            crate::text::push_str(&mut v, r.source.as_str());
            crate::text::push_str(&mut v, "]: ");
            crate::text::push_str(&mut v, r.title.as_str());
            Some(crate::text::string_from_chars(v.as_slice()))
        },
        Status::Unknown => {
            let mut v = crate::text::str_chars("  x ");
            crate::text::push_str(&mut v, r.key.as_str());
            crate::text::push_str(&mut v, ": ");
            crate::text::push_str(&mut v, r.title.as_str());
            Some(crate::text::string_from_chars(v.as_slice()))
        },
    }
}

/// The closing line of a run: the total, the entries found (those matched
/// automatically plus those marked to skip), then each count.
pub open spec fn summary_line_of(total: nat, ok: nat, mismatch: nat, book: nat, unknown: nat, manual: nat) -> Seq<char> {
    "Total: "@ + crate::text::decimal(total) + " | OK: "@ + crate::text::decimal(ok + manual) + " (auto:"@
        + crate::text::decimal(ok) + " manual:"@ + crate::text::decimal(manual) + ") | Mismatch: "@
        + crate::text::decimal(mismatch) + " | Books: "@ + crate::text::decimal(book) + " | Not found: "@
        + crate::text::decimal(unknown)
}

fn push_count(v: &mut Vec<char>, label: &str, n: u64)
    ensures
        final(v)@ == old(v)@ + label@ + crate::text::decimal(n as nat),
{
    crate::text::push_str(v, label);
    let d = crate::text::u64_to_chars(n);
    crate::text::push_all(v, d.as_slice());
}

/// The closing line of a run over `total` entries, `manual` of them marked
/// to skip.
pub fn summary_line(total: usize, t: &Tally, manual: usize) -> (r: String)
    requires
        t.ok + manual <= u64::MAX,
    ensures
        r@ == summary_line_of(total as nat, t.ok as nat, t.mismatch as nat, t.book as nat, t.unknown as nat, manual as nat),
{
    let mut v: Vec<char> = Vec::new();
    push_count(&mut v, "Total: ", total as u64);
    push_count(&mut v, " | OK: ", (t.ok as u64) + (manual as u64));
    push_count(&mut v, " (auto:", t.ok as u64);
    push_count(&mut v, " manual:", manual as u64);
    push_count(&mut v, ") | Mismatch: ", t.mismatch as u64);
    push_count(&mut v, " | Books: ", t.book as u64);
    push_count(&mut v, " | Not found: ", t.unknown as u64);
    assert(v@ =~= summary_line_of(total as nat, t.ok as nat, t.mismatch as nat, t.book as nat, t.unknown as nat, manual as nat));
    crate::text::string_from_chars(v.as_slice())
}

/// Whether a run found issues: some entry mismatched or was not found.
pub fn run_failed(t: &Tally) -> (r: bool)
    ensures
        r == (t.unknown > 0 || t.mismatch > 0),
{
    t.unknown > 0 || t.mismatch > 0
}

} // verus!
