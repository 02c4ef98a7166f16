//! Character-level building blocks shared by every module: conversions
//! between `&str` and `Vec<char>`, ASCII and Unicode character classes,
//! searching, trimming, splitting and decimal formatting.
use vstd::prelude::*;

verus! {

/// The characters of `s`, in order.
#[verifier::external_body]
pub(crate) fn str_chars(s: &str) -> (r: Vec<char>)
    ensures
        r@ == s@,
{
    s.chars().collect()
}

/// A `String` holding exactly the characters of `v`.
#[verifier::external_body]
pub(crate) fn string_from_chars(v: &[char]) -> (r: String)
    ensures
        r@ == v@,
{
    v.iter().collect()
}

/// ASCII decimal digit (`char::is_ascii_digit`).
pub open spec fn is_digit(c: char) -> bool {
    '0' <= c && c <= '9'
}

/// ASCII letter (`char::is_ascii_alphabetic`).
pub open spec fn is_alpha(c: char) -> bool {
    ('a' <= c && c <= 'z') || ('A' <= c && c <= 'Z')
}

/// ASCII whitespace as `u8::is_ascii_whitespace` defines it: space, tab,
/// line feed, form feed and carriage return.
pub open spec fn is_ascii_ws(c: char) -> bool {
    c == ' ' || c == '\t' || c == '\n' || c == '\x0C' || c == '\r'
}

/// Unicode `White_Space` (`char::is_whitespace`).
pub open spec fn is_white_space(c: char) -> bool {
    ||| ('\t' <= c && c <= '\r')
    ||| c == ' '
    ||| c == '\u{85}'
    ||| c == '\u{A0}'
    ||| c == '\u{1680}'
    ||| ('\u{2000}' <= c && c <= '\u{200A}')
    ||| c == '\u{2028}'
    ||| c == '\u{2029}'
    ||| c == '\u{202F}'
    ||| c == '\u{205F}'
    ||| c == '\u{3000}'
}

/// ASCII lower-casing of one character (`char::to_ascii_lowercase`).
pub open spec fn lower_ascii(c: char) -> char {
    if 'A' <= c && c <= 'Z' {
        ((c as u32) + 32) as char
    } else {
        c
    }
}

/// `s` lower-cased character by character in the ASCII range.
pub open spec fn lower_ascii_seq(s: Seq<char>) -> Seq<char> {
    s.map_values(|c: char| lower_ascii(c))
}

pub fn is_digit_exec(c: char) -> (r: bool)
    ensures
        r == is_digit(c),
{
    '0' <= c && c <= '9'
}

pub fn is_alpha_exec(c: char) -> (r: bool)
    ensures
        r == is_alpha(c),
{
    ('a' <= c && c <= 'z') || ('A' <= c && c <= 'Z')
}

pub fn is_ascii_ws_exec(c: char) -> (r: bool)
    ensures
        r == is_ascii_ws(c),
{
    c == ' ' || c == '\t' || c == '\n' || c == '\x0C' || c == '\r'
}

pub fn is_white_space_exec(c: char) -> (r: bool)
    ensures
        r == is_white_space(c),
{
    ('\t' <= c && c <= '\r') || c == ' ' || c == '\u{85}' || c == '\u{A0}' || c == '\u{1680}'
        || ('\u{2000}' <= c && c <= '\u{200A}') || c == '\u{2028}' || c == '\u{2029}'
        || c == '\u{202F}' || c == '\u{205F}' || c == '\u{3000}'
}

pub fn lower_ascii_exec(c: char) -> (r: char)
    ensures
        r == lower_ascii(c),
{
    if 'A' <= c && c <= 'Z' {
        let u: u8 = c as u8;
        (u + 32) as char
    } else {
        c
    }
}

/// `pat` occurs in `s` at index `i`.
pub open spec fn occurs_at(s: Seq<char>, pat: Seq<char>, i: int) -> bool {
    0 <= i && i + pat.len() <= s.len() && s.subrange(i, i + pat.len()) == pat
}

/// `s` contains `pat` somewhere at or after `from`.
pub open spec fn occurs_from(s: Seq<char>, pat: Seq<char>, from: int) -> bool {
    exists|i: int| from <= i && #[trigger] occurs_at(s, pat, i)
}

/// `s` contains `pat` (`str::contains`).
pub open spec fn contains(s: Seq<char>, pat: Seq<char>) -> bool {
    occurs_from(s, pat, 0)
}

/// First index at or after `from` where `pat` occurs (`str::find` on a suffix).
#[verifier::opaque]
pub open spec fn first_occurrence(s: Seq<char>, pat: Seq<char>, from: int) -> Option<int> {
    if occurs_from(s, pat, from) {
        Some(choose|i: int| from <= i && occurs_at(s, pat, i) && (forall|j: int| from <= j < i ==> !occurs_at(s, pat, j)))
    } else {
        None
    }
}

proof fn lemma_first_occurrence_unique(s: Seq<char>, pat: Seq<char>, from: int, i: int)
    requires
        from <= i,
        occurs_at(s, pat, i),
        forall|j: int| from <= j < i ==> !occurs_at(s, pat, j),
    ensures
        first_occurrence(s, pat, from) == Some(i),
{
    reveal(first_occurrence);
    assert(occurs_from(s, pat, from));
    let k = choose|k: int| from <= k && occurs_at(s, pat, k) && (forall|j: int| from <= j < k ==> !occurs_at(s, pat, j));
    assert(from <= i && occurs_at(s, pat, i) && (forall|j: int| from <= j < i ==> !occurs_at(s, pat, j)));
    if k < i {
        assert(!occurs_at(s, pat, k));
    } else if k > i {
        assert(!occurs_at(s, pat, i));
    }
}

/// Whether `pat` occurs in `s` at `i`.
pub fn matches_at(s: &[char], i: usize, pat: &[char]) -> (r: bool)
    ensures
        r == occurs_at(s@, pat@, i as int),
{
    if i > s.len() || pat.len() > s.len() - i {
        return false;
    }
    let mut k: usize = 0;
    while k < pat.len()
        invariant
            i + pat.len() <= s.len(),
            k <= pat.len(),
            forall|t: int| 0 <= t < k ==> s@[i + t] == pat@[t],
        decreases pat.len() - k,
    {
        if s[i + k] != pat[k] {
            proof {
                assert(s@.subrange(i as int, i + pat.len())[k as int] != pat@[k as int]);
            }
            return false;
        }
        k = k + 1;
    }
    assert(s@.subrange(i as int, i + pat.len()) =~= pat@);
    true
}

/// What `first_occurrence` promises.
pub proof fn lemma_first_occurrence(s: Seq<char>, pat: Seq<char>, from: int)
    ensures
        first_occurrence(s, pat, from) matches Some(i) ==> {
            &&& from <= i
            &&& occurs_at(s, pat, i)
            &&& forall|j: int| from <= j < i ==> !occurs_at(s, pat, j)
        },
        first_occurrence(s, pat, from) is None ==> forall|j: int| from <= j ==> !occurs_at(s, pat, j),
{
    reveal(first_occurrence);
    if occurs_from(s, pat, from) {
        let w = choose|i: int| from <= i && #[trigger] occurs_at(s, pat, i);
        lemma_least_occurrence(s, pat, from, w);
    }
}

proof fn lemma_least_occurrence(s: Seq<char>, pat: Seq<char>, from: int, w: int)
    requires
        from <= w,
        occurs_at(s, pat, w),
    ensures
        exists|i: int| from <= i && occurs_at(s, pat, i) && (forall|j: int| from <= j < i ==> !occurs_at(s, pat, j)),
    decreases w - from,
{
    if exists|j: int| from <= j < w && occurs_at(s, pat, j) {
        let j = choose|j: int| from <= j < w && occurs_at(s, pat, j);
        lemma_least_occurrence(s, pat, from, j);
    } else {
        assert(from <= w && occurs_at(s, pat, w) && (forall|j: int| from <= j < w ==> !occurs_at(s, pat, j)));
    }
}

/// First index at or after `from` where `pat` occurs in `s`.
pub fn find_from(s: &[char], from: usize, pat: &[char]) -> (r: Option<usize>)
    ensures
        match r {
            Some(i) => first_occurrence(s@, pat@, from as int) == Some(i as int),
            None => first_occurrence(s@, pat@, from as int) is None,
        },
{
    if from > s.len() {
        proof {
            assert forall|j: int| from <= j implies !#[trigger] occurs_at(s@, pat@, j) by {}
            lemma_first_occurrence(s@, pat@, from as int);
        }
        return None;
    }
    let mut i = from;
    while i < s.len()
        invariant
            from <= i <= s.len(),
            forall|j: int| from <= j < i ==> !occurs_at(s@, pat@, j),
        decreases s.len() - i,
    {
        if matches_at(s, i, pat) {
            proof {
                lemma_first_occurrence_unique(s@, pat@, from as int, i as int);
            }
            return Some(i);
        }
        i = i + 1;
    }
    if matches_at(s, i, pat) {
        proof {
            lemma_first_occurrence_unique(s@, pat@, from as int, i as int);
        }
        return Some(i);
    }
    proof {
        assert forall|j: int| from <= j implies !#[trigger] occurs_at(s@, pat@, j) by {
            if j > i {
                assert(j + pat@.len() > s@.len());
            }
        }
        lemma_first_occurrence(s@, pat@, from as int);
    }
    None
}

/// Whether `s` contains `pat`.
pub fn contains_chars(s: &[char], pat: &[char]) -> (r: bool)
    ensures
        r == contains(s@, pat@),
{
    proof {
        lemma_first_occurrence(s@, pat@, 0);
    }
    match find_from(s, 0, pat) {
        Some(i) => true,
        None => false,
    }
}

/// Whether `s` contains the character `c`.
pub fn has_char(s: &[char], c: char) -> (r: bool)
    ensures
        r == s@.contains(c),
{
    let mut i: usize = 0;
    while i < s.len()
        invariant
            i <= s.len(),
            forall|j: int| 0 <= j < i ==> s@[j] != c,
        decreases s.len() - i,
    {
        if s[i] == c {
            return true;
        }
        i = i + 1;
    }
    false
}

/// Whether two character sequences are equal.
pub fn chars_eq(a: &[char], b: &[char]) -> (r: bool)
    ensures
        r == (a@ == b@),
{
    if a.len() != b.len() {
        return false;
    }
    let mut i: usize = 0;
    while i < a.len()
        invariant
            a.len() == b.len(),
            i <= a.len(),
            forall|j: int| 0 <= j < i ==> a@[j] == b@[j],
        decreases a.len() - i,
    {
        if a[i] != b[i] {
            return false;
        }
        i = i + 1;
    }
    assert(a@ =~= b@);
    true
}

/// Append the characters of `s` to `v`.
pub fn push_all(v: &mut Vec<char>, s: &[char])
    ensures
        final(v)@ == old(v)@ + s@,
{
    let mut i: usize = 0;
    while i < s.len()
        invariant
            i <= s.len(),
            v@ == old(v)@ + s@.subrange(0, i as int),
        decreases s.len() - i,
    {
        v.push(s[i]);
        i = i + 1;
        assert(s@.subrange(0, i as int) =~= s@.subrange(0, i - 1).push(s@[i - 1]));
    }
    assert(s@.subrange(0, s@.len() as int) =~= s@);
}

/// Append the characters of `s` to `v`.
pub fn push_str(v: &mut Vec<char>, s: &str)
    ensures
        final(v)@ == old(v)@ + s@,
{
    let c = str_chars(s);
    push_all(v, c.as_slice());
}

/// Copy of `s[lo..hi]`.
pub fn slice_vec(s: &[char], lo: usize, hi: usize) -> (r: Vec<char>)
    requires
        lo <= hi <= s.len(),
    ensures
        r@ == s@.subrange(lo as int, hi as int),
{
    let mut r: Vec<char> = Vec::new();
    let mut i = lo;
    while i < hi
        invariant
            lo <= i <= hi,
            hi <= s.len(),
            r@ == s@.subrange(lo as int, i as int),
        decreases hi - i,
    {
        r.push(s[i]);
        i = i + 1;
        assert(s@.subrange(lo as int, i as int) =~= s@.subrange(lo as int, i - 1).push(s@[i - 1]));
    }
    r
}

/// `s` with leading Unicode whitespace removed (`str::trim_start`).
pub open spec fn trim_start(s: Seq<char>) -> Seq<char>
    decreases s.len(),
{
    if s.len() > 0 && is_white_space(s[0]) {
        trim_start(s.drop_first())
    } else {
        s
    }
}

/// `s` with trailing Unicode whitespace removed (`str::trim_end`).
pub open spec fn trim_end(s: Seq<char>) -> Seq<char>
    decreases s.len(),
{
    if s.len() > 0 && is_white_space(s.last()) {
        trim_end(s.drop_last())
    } else {
        s
    }
}

/// `s` with leading and trailing Unicode whitespace removed (`str::trim`).
pub open spec fn trim(s: Seq<char>) -> Seq<char> {
    trim_end(trim_start(s))
}

proof fn lemma_trim_start_range(s: Seq<char>, lo: int, hi: int)
    requires
        0 <= lo <= hi <= s.len(),
        forall|j: int| 0 <= j < lo ==> is_white_space(s[j]),
        lo == hi || !is_white_space(s[lo]),
    ensures
        trim_start(s.subrange(0, hi)) == s.subrange(lo, hi),
    decreases lo,
{
    if lo > 0 {
        let t = s.drop_first();
        assert(s.subrange(0, hi).drop_first() =~= t.subrange(0, hi - 1));
        assert(s.subrange(lo, hi) =~= t.subrange(lo - 1, hi - 1));
        lemma_trim_start_range(t, lo - 1, hi - 1);
    } else {
        assert(s.subrange(0, hi) =~= s.subrange(lo, hi));
    }
}

proof fn lemma_trim_end_range(s: Seq<char>, lo: int, hi: int)
    requires
        0 <= lo <= hi <= s.len(),
        forall|j: int| hi <= j < s.len() ==> is_white_space(s[j]),
        lo == hi || !is_white_space(s[hi - 1]),
    ensures
        trim_end(s.subrange(lo, s.len() as int)) == s.subrange(lo, hi),
    decreases s.len() - hi,
{
    if hi < s.len() {
        let t = s.drop_last();
        assert(s.subrange(lo, s.len() as int).drop_last() =~= t.subrange(lo, t.len() as int));
        assert(s.subrange(lo, hi) =~= t.subrange(lo, hi));
        lemma_trim_end_range(t, lo, hi);
    } else {
        assert(s.subrange(lo, s.len() as int) =~= s.subrange(lo, hi));
    }
}

/// Bounds of `trim(s[lo..hi])` within `s`.
pub fn trim_bounds(s: &[char], lo: usize, hi: usize) -> (r: (usize, usize))
    requires
        lo <= hi <= s.len(),
    ensures
        lo <= r.0 <= r.1 <= hi,
        s@.subrange(r.0 as int, r.1 as int) == trim(s@.subrange(lo as int, hi as int)),
{
    let ghost w = s@.subrange(lo as int, hi as int);
    let mut a = lo;
    while a < hi && is_white_space_exec(s[a])
        invariant
            lo <= a <= hi,
            hi <= s.len(),
            forall|j: int| lo <= j < a ==> is_white_space(s@[j]),
        decreases hi - a,
    {
        a = a + 1;
    }
    let mut b = hi;
    while b > a && is_white_space_exec(s[b - 1])
        invariant
            a <= b <= hi,
            hi <= s.len(),
            forall|j: int| b <= j < hi ==> is_white_space(s@[j]),
        decreases b - a,
    {
        b = b - 1;
    }
    proof {
        lemma_trim_start_range(w, a - lo, hi - lo);
        assert(w.subrange(0, hi - lo) =~= w);
        let u = w.subrange(a - lo, hi - lo);
        assert(u == s@.subrange(a as int, hi as int));
        lemma_trim_end_range(w, a - lo, b - lo);
        assert(w.subrange(a - lo, w.len() as int) =~= u);
        assert(w.subrange(a - lo, b - lo) =~= s@.subrange(a as int, b as int));
    }
    (a, b)
}

/// `trim(s)` as a new vector.
pub fn trim_vec(s: &[char]) -> (r: Vec<char>)
    ensures
        r@ == trim(s@),
{
    let (a, b) = trim_bounds(s, 0, s.len());
    assert(s@.subrange(0, s@.len() as int) =~= s@);
    slice_vec(s, a, b)
}


/// End of the run of non-whitespace characters starting at `i`.
pub open spec fn word_end(s: Seq<char>, i: int) -> int
    decreases s.len() - i,
{
    if i < 0 || i >= s.len() || is_white_space(s[i]) {
        i
    } else {
        word_end(s, i + 1)
    }
}

/// The whitespace-separated words of `s[i..]` (`str::split_whitespace`).
pub open spec fn words_from(s: Seq<char>, i: int) -> Seq<Seq<char>>
    decreases s.len() - i,
{
    if i < 0 || i >= s.len() {
        seq![]
    } else if is_white_space(s[i]) {
        words_from(s, i + 1)
    } else if i < word_end(s, i) <= s.len() {
        seq![s.subrange(i, word_end(s, i))] + words_from(s, word_end(s, i))
    } else {
        seq![]
    }
}

/// The whitespace-separated words of `s` (`str::split_whitespace`).
pub open spec fn words(s: Seq<char>) -> Seq<Seq<char>> {
    words_from(s, 0)
}

proof fn lemma_word_end(s: Seq<char>, i: int)
    requires
        0 <= i <= s.len(),
    ensures
        i <= word_end(s, i) <= s.len(),
        forall|j: int| i <= j < word_end(s, i) ==> !is_white_space(s[j]),
        word_end(s, i) < s.len() ==> is_white_space(s[word_end(s, i)]),
    decreases s.len() - i,
{
    if i < s.len() && !is_white_space(s[i]) {
        lemma_word_end(s, i + 1);
    }
}

proof fn lemma_word_end_from(s: Seq<char>, i: int, k: int)
    requires
        0 <= i <= k <= s.len(),
        forall|j: int| i <= j < k ==> !is_white_space(s[j]),
        k == s.len() || is_white_space(s[k]),
    ensures
        word_end(s, i) == k,
    decreases k - i,
{
    if i < k {
        lemma_word_end_from(s, i + 1, k);
    }
}

/// Bounds `(start, end)` of the words of `s`, left to right.
pub fn word_bounds(s: &[char]) -> (r: Vec<(usize, usize)>)
    ensures
        r@.len() == words(s@).len(),
        forall|k: int| 0 <= k < r@.len() ==> {
            &&& (#[trigger] r@[k]).0 < r@[k].1 <= s@.len()
            &&& s@.subrange(r@[k].0 as int, r@[k].1 as int) == words(s@)[k]
        },
{
    let mut r: Vec<(usize, usize)> = Vec::new();
    let mut i: usize = 0;
    let ghost mut acc: Seq<Seq<char>> = seq![];
    while i < s.len()
        invariant
            i <= s.len(),
            acc + words_from(s@, i as int) == words(s@),
            r@.len() == acc.len(),
            forall|k: int| 0 <= k < r@.len() ==> {
                &&& (#[trigger] r@[k]).0 < r@[k].1 <= s@.len()
                &&& s@.subrange(r@[k].0 as int, r@[k].1 as int) == acc[k]
            },
        decreases s.len() - i,
    {
        if is_white_space_exec(s[i]) {
            i = i + 1;
        } else {
            let start = i;
            while i < s.len() && !is_white_space_exec(s[i])
                invariant
                    start <= i <= s.len(),
                    forall|j: int| start <= j < i ==> !is_white_space(s@[j]),
                decreases s.len() - i,
            {
                i = i + 1;
            }
            proof {
                lemma_word_end_from(s@, start as int, i as int);
                lemma_word_end(s@, start as int);
                let w = s@.subrange(start as int, i as int);
                assert(words_from(s@, start as int) == seq![w] + words_from(s@, i as int));
                acc = acc.push(w);
                assert(acc + words_from(s@, i as int) =~= acc.drop_last() + (seq![w] + words_from(s@, i as int)));
            }
            r.push((start, i));
        }
    }
    assert(acc + words_from(s@, i as int) =~= acc);
    r
}

/// The words of `s` as separate vectors.
pub fn split_words(s: &[char]) -> (r: Vec<Vec<char>>)
    ensures
        r@.len() == words(s@).len(),
        forall|k: int| 0 <= k < r@.len() ==> (#[trigger] r@[k])@ == words(s@)[k],
{
    let b = word_bounds(s);
    let mut r: Vec<Vec<char>> = Vec::new();
    let mut k: usize = 0;
    while k < b.len()
        invariant
            k <= b.len(),
            b@.len() == words(s@).len(),
            forall|t: int| 0 <= t < b@.len() ==> {
                &&& (#[trigger] b@[t]).0 < b@[t].1 <= s@.len()
                &&& s@.subrange(b@[t].0 as int, b@[t].1 as int) == words(s@)[t]
            },
            r@.len() == k,
            forall|t: int| 0 <= t < k ==> (#[trigger] r@[t])@ == words(s@)[t],
        decreases b.len() - k,
    {
        let (lo, hi) = b[k];
        r.push(slice_vec(s, lo, hi));
        k = k + 1;
    }
    r
}

/// Pieces of `s[i..]` between occurrences of the non-empty separator `sep`
/// (`str::split` with a string pattern).
#[verifier::opaque]
pub open spec fn split_from(s: Seq<char>, sep: Seq<char>, i: int) -> Seq<Seq<char>>
    recommends
        sep.len() > 0,
    decreases s.len() - i,
{
    if sep.len() == 0 || i < 0 || i > s.len() {
        seq![]
    } else {
        match first_occurrence(s, sep, i) {
            Some(j) => if j >= i && j + sep.len() > i && j + sep.len() <= s.len() {
                seq![s.subrange(i, j)] + split_from(s, sep, j + sep.len())
            } else {
                seq![]
            },
            None => seq![s.subrange(i, s.len() as int)],
        }
    }
}

/// `str::split(sep)` for a non-empty separator.
pub open spec fn split(s: Seq<char>, sep: Seq<char>) -> Seq<Seq<char>> {
    split_from(s, sep, 0)
}

pub(crate) proof fn lemma_split_step(s: Seq<char>, sep: Seq<char>, i: int)
    requires
        sep.len() > 0,
        0 <= i <= s.len(),
    ensures
        first_occurrence(s, sep, i) matches Some(j) ==> {
            &&& i <= j
            &&& j + sep.len() <= s.len()
            &&& split_from(s, sep, i) == seq![s.subrange(i, j)] + split_from(s, sep, j + sep.len())
        },
        first_occurrence(s, sep, i) is None ==> split_from(s, sep, i) == seq![s.subrange(i, s.len() as int)],
{
    reveal(split_from);
    lemma_first_occurrence(s, sep, i);
}

/// The pieces of `s` between occurrences of `sep`.
pub fn split_on(s: &[char], sep: &[char]) -> (r: Vec<Vec<char>>)
    requires
        sep@.len() > 0,
    ensures
        r@.len() == split(s@, sep@).len(),
        forall|k: int| 0 <= k < r@.len() ==> (#[trigger] r@[k])@ == split(s@, sep@)[k],
{
    let mut r: Vec<Vec<char>> = Vec::new();
    let mut i: usize = 0;
    let ghost mut acc: Seq<Seq<char>> = seq![];
    loop
        invariant_except_break
            i <= s.len(),
            sep@.len() > 0,
            acc + split_from(s@, sep@, i as int) == split(s@, sep@),
            r@.len() == acc.len(),
            forall|t: int| 0 <= t < r@.len() ==> (#[trigger] r@[t])@ == acc[t],
        ensures
            r@.len() == split(s@, sep@).len(),
            forall|t: int| 0 <= t < r@.len() ==> (#[trigger] r@[t])@ == split(s@, sep@)[t],
        decreases s.len() - i,
    {
        let found = find_from(s, i, sep);
        proof {
            lemma_split_step(s@, sep@, i as int);
        }
        if let Some(j) = found {
            let piece = slice_vec(s, i, j);
            let ghost rest = split_from(s@, sep@, j + sep@.len());
            proof {
                acc = acc.push(piece@);
                assert(acc + rest =~= acc.drop_last() + (seq![piece@] + rest));
            }
            r.push(piece);
            i = j + sep.len();
        } else {
            let piece = slice_vec(s, i, s.len());
            proof {
                acc = acc.push(piece@);
                assert(acc =~= acc.drop_last() + seq![piece@]);
            }
            r.push(piece);
            break;
        }
    }
    r
}

/// `s` starts with `p`.
pub open spec fn has_prefix(s: Seq<char>, p: Seq<char>) -> bool {
    p.len() <= s.len() && s.subrange(0, p.len() as int) == p
}

/// `s` ends with `p`.
pub open spec fn has_suffix(s: Seq<char>, p: Seq<char>) -> bool {
    p.len() <= s.len() && s.subrange(s.len() - p.len(), s.len() as int) == p
}

/// Whether `s` starts with `p`.
pub fn starts_with(s: &[char], p: &[char]) -> (r: bool)
    ensures
        r == has_prefix(s@, p@),
{
    matches_at(s, 0, p)
}

/// Whether `s` starts with the characters of `p`.
pub fn starts_with_str(s: &[char], p: &str) -> (r: bool)
    ensures
        r == has_prefix(s@, p@),
{
    let pc = str_chars(p);
    matches_at(s, 0, pc.as_slice())
}

/// Whether `s` ends with the characters of `p`.
pub fn ends_with_str(s: &[char], p: &str) -> (r: bool)
    ensures
        r == has_suffix(s@, p@),
{
    let pc = str_chars(p);
    if pc.len() > s.len() {
        return false;
    }
    matches_at(s, s.len() - pc.len(), pc.as_slice())
}

/// `s` without the prefix `p`, when it has it (`str::strip_prefix`).
pub fn strip_prefix_str(s: &[char], p: &str) -> (r: Option<Vec<char>>)
    ensures
        match r {
            Some(t) => has_prefix(s@, p@) && t@ == s@.subrange(p@.len() as int, s@.len() as int),
            None => !has_prefix(s@, p@),
        },
{
    let pc = str_chars(p);
    if matches_at(s, 0, pc.as_slice()) {
        Some(slice_vec(s, pc.len(), s.len()))
    } else {
        None
    }
}

/// `s` without the suffix `p`, when it has it (`str::strip_suffix`).
pub fn strip_suffix_str(s: &[char], p: &str) -> (r: Option<Vec<char>>)
    ensures
        match r {
            Some(t) => has_suffix(s@, p@) && t@ == s@.subrange(0, s@.len() - p@.len()),
            None => !has_suffix(s@, p@),
        },
{
    let pc = str_chars(p);
    if pc.len() <= s.len() && matches_at(s, s.len() - pc.len(), pc.as_slice()) {
        Some(slice_vec(s, 0, s.len() - pc.len()))
    } else {
        None
    }
}

/// First index of `c` in `s`, or the length.
pub open spec fn index_of(s: Seq<char>, c: char) -> int
    decreases s.len(),
{
    if s.len() == 0 {
        0
    } else if s[0] == c {
        0
    } else {
        1 + index_of(s.drop_first(), c)
    }
}

pub proof fn lemma_index_of(s: Seq<char>, c: char)
    ensures
        0 <= index_of(s, c) <= s.len(),
        index_of(s, c) < s.len() ==> s[index_of(s, c)] == c,
        forall|k: int| 0 <= k < index_of(s, c) ==> s[k] != c,
    decreases s.len(),
{
    if s.len() > 0 && s[0] != c {
        lemma_index_of(s.drop_first(), c);
        assert forall|k: int| 0 <= k < index_of(s, c) implies s[k] != c by {
            if k > 0 {
                assert(s[k] == s.drop_first()[k - 1]);
            }
        }
    }
}

proof fn lemma_index_of_from(s: Seq<char>, c: char, j: int)
    requires
        0 <= j <= s.len(),
        j == s.len() || s[j] == c,
        forall|k: int| 0 <= k < j ==> s[k] != c,
    ensures
        index_of(s, c) == j,
    decreases j,
{
    if j > 0 {
        assert forall|k: int| 0 <= k < j - 1 implies s.drop_first()[k] != c by {
            assert(s.drop_first()[k] == s[k + 1]);
        }
        lemma_index_of_from(s.drop_first(), c, j - 1);
    }
}

pub fn index_of_exec(c: &Vec<char>, lo: usize, hi: usize, ch: char) -> (r: usize)
    requires
        lo <= hi <= c@.len(),
    ensures
        lo <= r <= hi,
        r - lo == index_of(c@.subrange(lo as int, hi as int), ch),
{
    let mut i = lo;
    while i < hi && c[i] != ch
        invariant
            lo <= i <= hi <= c@.len(),
            forall|k: int| lo <= k < i ==> c@[k] != ch,
        decreases hi - i,
    {
        i = i + 1;
    }
    proof {
        lemma_index_of_from(c@.subrange(lo as int, hi as int), ch, i - lo);
    }
    i
}

/// `s` with every trailing `c` removed (`str::trim_end_matches` with a char).
pub open spec fn trim_end_char(s: Seq<char>, c: char) -> Seq<char>
    decreases s.len(),
{
    if s.len() > 0 && s.last() == c {
        trim_end_char(s.drop_last(), c)
    } else {
        s
    }
}

/// `s` with every trailing copy of `p` removed (`str::trim_end_matches`
/// with a non-empty pattern).
pub open spec fn trim_end_pat(s: Seq<char>, p: Seq<char>) -> Seq<char>
    decreases s.len(),
{
    if p.len() > 0 && has_suffix(s, p) {
        trim_end_pat(s.subrange(0, s.len() - p.len()), p)
    } else {
        s
    }
}

/// Characters of `s` without its trailing `c`s.
pub fn trim_end_char_vec(s: &[char], c: char) -> (r: Vec<char>)
    ensures
        r@ == trim_end_char(s@, c),
{
    let mut end = s.len();
    assert(s@.subrange(0, end as int) =~= s@);
    while end > 0 && s[end - 1] == c
        invariant
            end <= s@.len(),
            trim_end_char(s@, c) == trim_end_char(s@.subrange(0, end as int), c),
        decreases end,
    {
        let ghost cur = s@.subrange(0, end as int);
        assert(cur.drop_last() =~= s@.subrange(0, end - 1));
        end = end - 1;
    }
    slice_vec(s, 0, end)
}

/// Characters of `s` without its trailing copies of `p` (non-empty).
pub fn trim_end_str_vec(s: &[char], p: &str) -> (r: Vec<char>)
    requires
        p@.len() > 0,
    ensures
        r@ == trim_end_pat(s@, p@),
{
    let pc = str_chars(p);
    let mut end = s.len();
    assert(s@.subrange(0, end as int) =~= s@);
    loop
        invariant
            end <= s@.len(),
            pc@ == p@,
            p@.len() > 0,
            trim_end_pat(s@, p@) == trim_end_pat(s@.subrange(0, end as int), p@),
        ensures
            end <= s@.len(),
            trim_end_pat(s@, p@) == s@.subrange(0, end as int),
        decreases end,
    {
        let ghost cur = s@.subrange(0, end as int);
        if pc.len() <= end && matches_at(s, end - pc.len(), pc.as_slice()) {
            assert(cur.subrange(cur.len() - p@.len(), cur.len() as int) =~= s@.subrange(end - pc@.len(), end - pc@.len() + pc@.len()));
            assert(cur.subrange(0, cur.len() - p@.len()) =~= s@.subrange(0, end - pc@.len()));
            end = end - pc.len();
        } else {
            proof {
                if has_suffix(cur, p@) {
                    assert(cur.subrange(cur.len() - p@.len(), cur.len() as int) =~= s@.subrange(end - pc@.len(), end - pc@.len() + pc@.len()));
                }
                assert(trim_end_pat(cur, p@) == cur);
            }
            break;
        }
    }
    slice_vec(s, 0, end)
}

/// `a` sorts strictly before `b` (`str` ordering: by code point, a proper
/// prefix first).
pub open spec fn lex_lt(a: Seq<char>, b: Seq<char>) -> bool
    decreases a.len(),
{
    if a.len() == 0 {
        b.len() > 0
    } else if b.len() == 0 {
        false
    } else if a[0] != b[0] {
        (a[0] as u32) < (b[0] as u32)
    } else {
        lex_lt(a.drop_first(), b.drop_first())
    }
}

/// Whether the characters `a` sort strictly before `b`.
pub fn chars_lt(a: &[char], b: &[char]) -> (r: bool)
    ensures
        r == lex_lt(a@, b@),
{
    let mut i: usize = 0;
    assert(a@.subrange(0, a@.len() as int) =~= a@);
    assert(b@.subrange(0, b@.len() as int) =~= b@);
    loop
        invariant
            i <= a@.len(),
            i <= b@.len(),
            lex_lt(a@, b@) == lex_lt(a@.subrange(i as int, a@.len() as int), b@.subrange(i as int, b@.len() as int)),
        decreases a@.len() - i,
    {
        let ghost sa = a@.subrange(i as int, a@.len() as int);
        let ghost sb = b@.subrange(i as int, b@.len() as int);
        if i == a.len() {
            return i < b.len();
        }
        if i == b.len() {
            return false;
        }
        assert(sa[0] == a@[i as int] && sb[0] == b@[i as int]);
        if a[i] != b[i] {
            return (a[i] as u32) < (b[i] as u32);
        }
        assert(sa.drop_first() =~= a@.subrange(i + 1, a@.len() as int));
        assert(sb.drop_first() =~= b@.subrange(i + 1, b@.len() as int));
        i = i + 1;
    }
}

/// Value of a string of decimal digits.
pub open spec fn dec_value(s: Seq<char>) -> nat
    decreases s.len(),
{
    if s.len() == 0 {
        0
    } else {
        dec_value(s.drop_last()) * 10 + ((s.last() as u32) - ('0' as u32)) as nat
    }
}

/// Every character of `s` is a decimal digit.
pub open spec fn all_dec_digits(s: Seq<char>) -> bool {
    forall|i: int| 0 <= i < s.len() ==> is_digit(#[trigger] s[i])
}

/// `FromStr` of an unsigned integer type whose largest value is `max`: an
/// optional `+`, then at least one decimal digit, with a value up to `max`.
pub open spec fn parse_decimal(s: Seq<char>, max: nat) -> Option<nat> {
    let body = if s.len() > 0 && s[0] == '+' { s.drop_first() } else { s };
    if body.len() > 0 && all_dec_digits(body) && dec_value(body) <= max {
        Some(dec_value(body))
    } else {
        None
    }
}

proof fn lemma_dec_value_mono(s: Seq<char>, k: int)
    requires
        0 <= k <= s.len(),
        forall|i: int| 0 <= i < s.len() ==> is_digit(#[trigger] s[i]),
    ensures
        dec_value(s.subrange(0, k)) <= dec_value(s),
    decreases s.len() - k,
{
    if k < s.len() {
        lemma_dec_value_mono(s, k + 1);
        assert(s.subrange(0, k + 1).drop_last() =~= s.subrange(0, k));
    } else {
        assert(s.subrange(0, k) =~= s);
    }
}

/// Parse the characters `s` as an unsigned integer of at most `max`.
pub fn parse_decimal_exec(s: &[char], max: u64) -> (r: Option<u64>)
    ensures
        match r {
            Some(v) => parse_decimal(s@, max as nat) == Some(v as nat),
            None => parse_decimal(s@, max as nat) is None,
        },
{
    let n = s.len();
    let mut b: usize = 0;
    if n > 0 && s[0] == '+' {
        b = 1;
    }
    let ghost body = s@.subrange(b as int, n as int);
    assert(body =~= (if s@.len() > 0 && s@[0] == '+' { s@.drop_first() } else { s@ }));
    if b == n {
        return None;
    }
    let mut j = b;
    while j < n
        invariant
            b <= j <= n == s@.len(),
            body == s@.subrange(b as int, n as int),
            body =~= (if s@.len() > 0 && s@[0] == '+' { s@.drop_first() } else { s@ }),
            forall|k: int| 0 <= k < j - b ==> is_digit(#[trigger] body[k]),
        decreases n - j,
    {
        assert(body[j - b] == s@[j as int]);
        if !is_digit_exec(s[j]) {
            assert(!is_digit(body[j - b]));
            return None;
        }
        j = j + 1;
    }
    let mut acc: u64 = 0;
    let mut i = b;
    while i < n
        invariant
            b <= i <= n == s@.len(),
            b < n,
            body == s@.subrange(b as int, n as int),
            body =~= (if s@.len() > 0 && s@[0] == '+' { s@.drop_first() } else { s@ }),
            forall|k: int| 0 <= k < body.len() ==> is_digit(#[trigger] body[k]),
            acc as nat == dec_value(body.subrange(0, i - b)),
            acc <= max,
        decreases n - i,
    {
        let c = s[i];
        assert(body[i - b] == c);
        assert(is_digit(body[i - b]));
        let d: u64 = ((c as u32) - ('0' as u32)) as u64;
        assert(body.subrange(0, i - b + 1).drop_last() =~= body.subrange(0, i - b));
        if d > max || acc > (max - d) / 10 {
            proof {
                assert(dec_value(body.subrange(0, i - b + 1)) > max) by (nonlinear_arith)
                    requires
                        dec_value(body.subrange(0, i - b + 1)) == acc * 10 + d,
                        d > max || acc > (max - d) / 10,
                        d <= 9,
                        acc >= 0;
                lemma_dec_value_mono(body, i - b + 1);
            }
            return None;
        }
        assert(acc * 10 + d <= max) by (nonlinear_arith)
            requires
                acc <= (max - d) / 10,
                d <= max;
        acc = acc * 10 + d;
        i = i + 1;
    }
    assert(body.subrange(0, n - b) =~= body);
    Some(acc)
}

/// Equality of a character sequence and the characters of a `&str`.
pub fn eq_str(s: &[char], t: &str) -> (r: bool)
    ensures
        r == (s@ == t@),
{
    let tc = str_chars(t);
    chars_eq(s, tc.as_slice())
}

/// Unicode lower-casing of a whole string (`str::to_lowercase`).
pub uninterp spec fn lowercase(s: Seq<char>) -> Seq<char>;

/// `str::to_lowercase`: the Unicode lower-case mapping of `s`, which is a
/// function of `s` alone; on ASCII text it maps `A`-`Z` to `a`-`z` and keeps
/// every other character (the ASCII case mapping of Unicode).
#[verifier::external_body]
pub(crate) fn str_to_lowercase(s: &str) -> (r: String)
    ensures
        r@ == lowercase(s@),
        (forall|i: int| 0 <= i < s@.len() ==> (#[trigger] s@[i] as u32) < 128) ==> r@ == lower_ascii_seq(s@),
{
    s.to_lowercase()
}

/// Lower-case the characters of `v` (`str::to_lowercase`).
pub fn lowercase_chars(v: &[char]) -> (r: Vec<char>)
    ensures
        r@ == lowercase(v@),
{
    let s = string_from_chars(v);
    let l = str_to_lowercase(s.as_str());
    str_chars(l.as_str())
}

/// ASCII lower-casing of a character sequence (`str::to_ascii_lowercase`).
pub fn lower_ascii_chars(v: &[char]) -> (r: Vec<char>)
    ensures
        r@ == lower_ascii_seq(v@),
{
    let mut out: Vec<char> = Vec::new();
    let mut i: usize = 0;
    while i < v.len()
        invariant
            i <= v.len(),
            out@ == lower_ascii_seq(v@.subrange(0, i as int)),
        decreases v.len() - i,
    {
        out.push(lower_ascii_exec(v[i]));
        i = i + 1;
        assert(out@ =~= lower_ascii_seq(v@.subrange(0, i as int)));
    }
    assert(v@.subrange(0, v@.len() as int) =~= v@);
    out
}

/// Equality of two strings.
pub fn str_eq(a: &str, b: &str) -> (r: bool)
    ensures
        r == (a@ == b@),
{
    let ac = str_chars(a);
    eq_str(ac.as_slice(), b)
}

/// `ps` joined with `sep` between consecutive pieces (`[T]::join`).
pub open spec fn join(ps: Seq<Seq<char>>, sep: Seq<char>) -> Seq<char>
    decreases ps.len(),
{
    if ps.len() == 0 {
        seq![]
    } else if ps.len() == 1 {
        ps[0]
    } else {
        join(ps.drop_last(), sep) + sep + ps.last()
    }
}

/// `s` with every non-overlapping occurrence of `pat`, left to right,
/// replaced by `rep` (`str::replace`).
pub open spec fn replace_all(s: Seq<char>, pat: Seq<char>, rep: Seq<char>) -> Seq<char> {
    join(split(s, pat), rep)
}

/// Join character vectors with `sep`.
pub fn join_vecs(ps: &Vec<Vec<char>>, sep: &[char]) -> (r: Vec<char>)
    ensures
        r@ == join(ps@.map_values(|p: Vec<char>| p@), sep@),
{
    let ghost pv = ps@.map_values(|p: Vec<char>| p@);
    let mut out: Vec<char> = Vec::new();
    let mut i: usize = 0;
    while i < ps.len()
        invariant
            i <= ps.len(),
            pv == ps@.map_values(|p: Vec<char>| p@),
            out@ == join(pv.subrange(0, i as int), sep@),
        decreases ps.len() - i,
    {
        let ghost prev = pv.subrange(0, i as int);
        assert(pv.subrange(0, i + 1).drop_last() =~= prev);
        if i > 0 {
            push_all(&mut out, sep);
        }
        push_all(&mut out, ps[i].as_slice());
        i = i + 1;
        proof {
            if i == 1 {
                assert(out@ =~= join(pv.subrange(0, i as int), sep@));
            }
        }
    }
    assert(pv.subrange(0, pv.len() as int) =~= pv);
    out
}

/// Join strings with `sep` (`[String]::join`).
pub fn join_strings(ps: &[String], sep: &str) -> (r: String)
    ensures
        r@ == join(ps@.map_values(|p: String| p@), sep@),
{
    let ghost pv = ps@.map_values(|p: String| p@);
    let mut v: Vec<Vec<char>> = Vec::new();
    let mut i: usize = 0;
    while i < ps.len()
        invariant
            i <= ps.len(),
            pv == ps@.map_values(|p: String| p@),
            v@.len() == i,
            forall|k: int| 0 <= k < i ==> (#[trigger] v@[k])@ == pv[k],
        decreases ps.len() - i,
    {
        let c = str_chars(ps[i].as_str());
        v.push(c);
        i = i + 1;
    }
    assert(v@.map_values(|p: Vec<char>| p@) =~= pv);
    let sc = str_chars(sep);
    let j = join_vecs(&v, sc.as_slice());
    string_from_chars(j.as_slice())
}

/// Replace every occurrence of the non-empty `pat` in `s` by `rep`.
pub fn replace_chars(s: &[char], pat: &[char], rep: &[char]) -> (r: Vec<char>)
    requires
        pat@.len() > 0,
    ensures
        r@ == replace_all(s@, pat@, rep@),
{
    let pieces = split_on(s, pat);
    assert(pieces@.map_values(|p: Vec<char>| p@) =~= split(s@, pat@));
    join_vecs(&pieces, rep)
}

/// Replace every occurrence of the non-empty literal `pat` in `s` by `rep`.
pub fn replace_str(s: &[char], pat: &str, rep: &str) -> (r: Vec<char>)
    requires
        pat@.len() > 0,
    ensures
        r@ == replace_all(s@, pat@, rep@),
{
    let pc = str_chars(pat);
    let rc = str_chars(rep);
    replace_chars(s, pc.as_slice(), rc.as_slice())
}

/// Decimal digits of `n` (`u64::to_string`).
pub open spec fn decimal(n: nat) -> Seq<char>
    decreases n,
{
    if n < 10 {
        seq![digit_char((n % 10) as nat)]
    } else {
        decimal(n / 10).push(digit_char((n % 10) as nat))
    }
}

pub open spec fn digit_char(d: nat) -> char {
    (('0' as u32) + d) as char
}

/// Decimal rendering of `n`.
pub fn u64_to_chars(n: u64) -> (r: Vec<char>)
    ensures
        r@ == decimal(n as nat),
    decreases n,
{
    let d: u8 = (n % 10) as u8;
    let c = (48u8 + d) as char;
    if n < 10 {
        let mut v: Vec<char> = Vec::new();
        v.push(c);
        assert(v@ =~= decimal(n as nat));
        v
    } else {
        let mut v = u64_to_chars(n / 10);
        v.push(c);
        v
    }
}

/// Decimal rendering of `n` as a `String`.
pub fn u64_to_string(n: u64) -> (r: String)
    ensures
        r@ == decimal(n as nat),
{
    let v = u64_to_chars(n);
    string_from_chars(v.as_slice())
}

/// A line without its trailing carriage return.
pub open spec fn without_cr(l: Seq<char>) -> Seq<char> {
    if l.len() > 0 && l.last() == '\r' { l.drop_last() } else { l }
}

/// The lines of `s` (`str::lines`): the pieces between line feeds, each
/// without a trailing carriage return, no empty last piece.
pub open spec fn lines_of(s: Seq<char>) -> Seq<Seq<char>> {
    let ps = split(s, "\n"@);
    let ps2 = if ps.len() > 0 && ps.last().len() == 0 { ps.drop_last() } else { ps };
    ps2.map_values(|l: Seq<char>| without_cr(l))
}

/// The lines of a text.
pub fn lines_exec(s: &str) -> (r: Vec<Vec<char>>)
    ensures
        r@.len() == lines_of(s@).len(),
        forall|k: int| 0 <= k < r@.len() ==> (#[trigger] r@[k])@ == lines_of(s@)[k],
{
    proof {
        reveal_strlit("\n");
    }
    let c = str_chars(s);
    let nl = str_chars("\n");
    let ps = split_on(c.as_slice(), nl.as_slice());
    let ghost sp = split(s@, "\n"@);
    let n = if ps.len() > 0 && ps[ps.len() - 1].len() == 0 { ps.len() - 1 } else { ps.len() };
    let ghost ps2 = if sp.len() > 0 && sp.last().len() == 0 { sp.drop_last() } else { sp };
    if ps.len() > 0 {
        assert(ps@[ps@.len() - 1]@ == sp[sp.len() - 1]);
    }
    assert(ps2.len() == n);
    let mut out: Vec<Vec<char>> = Vec::new();
    let mut i: usize = 0;
    while i < n
        invariant
            i <= n <= ps@.len(),
            ps@.len() == sp.len(),
            ps2.len() == n,
            forall|k: int| 0 <= k < n ==> ps2[k] == sp[k],
            forall|k: int| 0 <= k < ps@.len() ==> (#[trigger] ps@[k])@ == sp[k],
            out@.len() == i,
            forall|k: int| 0 <= k < i ==> (#[trigger] out@[k])@ == without_cr(ps2[k]),
        decreases n - i,
    {
        let mut l = slice_vec(ps[i].as_slice(), 0, ps[i].len());
        assert(l@ == sp[i as int]);
        if l.len() > 0 && l[l.len() - 1] == '\r' {
            l.pop();
        }
        out.push(l);
        i = i + 1;
    }
    out
}

} // verus!
