//! Citation key generation.
//!
//! Generates BibTeX citation keys in the format `lastname2017firstword`,
//! matching Google Scholar style.
use vstd::prelude::*;
use vstd::string::StringSliceAdditionalSpecFns;
use vstd::utf8::encode_utf8;
use crate::api::{extract_last_name, last_name_of};
use crate::pattern::{regex_replace_all, regex_replaced_all};
use crate::text::{
    is_alpha, is_alpha_exec, is_digit, is_digit_exec, is_white_space, is_white_space_exec,
    eq_str, lowercase, lowercase_chars, push_all, push_str, split_words, str_chars, str_to_lowercase,
    string_from_chars, trim, trim_vec, words,
};

verus! {

/// Words skipped when selecting the first significant title word.
pub open spec fn skip_words() -> Seq<Seq<char>> {
    seq![
        "the"@, "a"@, "an"@, "of"@, "and"@, "in"@, "on"@, "for"@, "to"@, "how"@, "what"@,
        "why"@, "when"@, "with"@, "from"@, "by"@, "is"@, "are"@, "at"@, "its"@,
    ]
}

/// Whether `w` is one of the skipped title words.
pub fn is_skip_word(w: &[char]) -> (r: bool)
    ensures
        r == skip_words().contains(w@),
{
    let list: [&str; 20] = [
        "the", "a", "an", "of", "and", "in", "on", "for", "to", "how", "what", "why", "when",
        "with", "from", "by", "is", "are", "at", "its",
    ];
    let ghost ls = list@.map_values(|p: &str| p@);
    assert(ls =~= skip_words());
    let mut i: usize = 0;
    while i < 20
        invariant
            i <= 20,
            ls == list@.map_values(|p: &str| p@),
            ls == skip_words(),
            forall|j: int| 0 <= j < i ==> ls[j] != w@,
        decreases 20 - i,
    {
        if eq_str(w, list[i]) {
            assert(ls[i as int] == w@);
            return true;
        }
        i = i + 1;
    }
    proof {
        if skip_words().contains(w@) {
            let j = choose|j: int| 0 <= j < skip_words().len() && skip_words()[j] == w@;
            assert(ls[j] != w@);
        }
    }
    false
}

/// Whether a lower-cased title word qualifies as the key's title word: not a
/// skipped word and longer than two bytes.
pub open spec fn significant(w: Seq<char>) -> bool {
    !skip_words().contains(w) && encode_utf8(w).len() > 2
}

/// The first lower-cased word of `ws` that is significant, or the empty word.
pub open spec fn first_significant(ws: Seq<Seq<char>>) -> Seq<char>
    decreases ws.len(),
{
    if ws.len() == 0 {
        seq![]
    } else if significant(lowercase(ws[0])) {
        lowercase(ws[0])
    } else {
        first_significant(ws.drop_first())
    }
}

/// The key's name part for an author list.
pub open spec fn key_last_name(authors: Seq<Seq<char>>) -> Seq<char> {
    if authors.len() > 0 {
        lowercase(regex_replaced_all(r"[^a-zA-Z]"@, last_name_of(trim(authors[0])), ""@))
    } else {
        "unknown"@
    }
}

/// Whether a title character is kept when the title word is chosen: an
/// ASCII letter, an ASCII digit, or whitespace.
pub open spec fn key_title_char(c: char) -> bool {
    is_alpha(c) || is_digit(c) || is_white_space(c)
}

/// [`key_title_char`] as a predicate.
pub open spec fn key_title_pred() -> spec_fn(char) -> bool {
    |c: char| key_title_char(c)
}

/// A title with every other character deleted (`[^a-zA-Z0-9\s]` removed).
pub open spec fn key_title_text(title: Seq<char>) -> Seq<char> {
    title.filter(key_title_pred())
}

/// The citation key for an author list, year and title.
pub open spec fn citekey(authors: Seq<Seq<char>>, year: Seq<char>, title: Seq<char>) -> Seq<char> {
    key_last_name(authors) + year + first_significant(words(key_title_text(title)))
}

/// A title character that is not kept is deleted, not replaced: removing it
/// from the title leaves the key as it was, so `Self-Supervised` gives the
/// title word `selfsupervised`, not `self`.
pub proof fn lemma_title_punctuation_deleted(authors: Seq<Seq<char>>, year: Seq<char>, t1: Seq<char>, c: char, t2: Seq<char>)
    requires
        !is_alpha(c),
        !is_digit(c),
        !is_white_space(c),
    ensures
        citekey(authors, year, t1 + seq![c] + t2) == citekey(authors, year, t1 + t2),
{
    reveal(Seq::filter);
    let f = key_title_pred();
    Seq::filter_distributes_over_add(t1 + seq![c], t2, f);
    Seq::filter_distributes_over_add(t1, seq![c], f);
    Seq::filter_distributes_over_add(t1, t2, f);
    assert(seq![c].drop_last() =~= Seq::<char>::empty());
    assert(Seq::<char>::empty().filter(f) =~= Seq::<char>::empty());
    assert(seq![c].filter(f) =~= Seq::<char>::empty());
    assert(key_title_text(t1 + seq![c] + t2) =~= key_title_text(t1 + t2));
}

/// ASCII letters, ASCII digits and whitespace of a title are kept, in
/// place, for choosing the title word.
pub proof fn lemma_title_letters_kept(t1: Seq<char>, c: char, t2: Seq<char>)
    requires
        is_alpha(c) || is_digit(c) || is_white_space(c),
    ensures
        key_title_text(t1 + seq![c] + t2) == key_title_text(t1) + seq![c] + key_title_text(t2),
{
    reveal(Seq::filter);
    let f = key_title_pred();
    Seq::filter_distributes_over_add(t1 + seq![c], t2, f);
    Seq::filter_distributes_over_add(t1, seq![c], f);
    assert(seq![c].drop_last() =~= Seq::<char>::empty());
    assert(Seq::<char>::empty().filter(f) =~= Seq::<char>::empty());
    assert(seq![c].filter(f) =~= seq![c]);
}

fn key_title_exec(title: &str) -> (r: Vec<char>)
    ensures
        r@ == key_title_text(title@),
{
    let c = str_chars(title);
    let mut out: Vec<char> = Vec::new();
    let mut i: usize = 0;
    while i < c.len()
        invariant
            i <= c@.len(),
            c@ == title@,
            out@ == c@.subrange(0, i as int).filter(key_title_pred()),
        decreases c@.len() - i,
    {
        let ch = c[i];
        let ghost sub = c@.subrange(0, i + 1);
        proof { reveal(Seq::filter); }
        assert(sub.drop_last() =~= c@.subrange(0, i as int));
        assert(sub.last() == ch);
        if is_alpha_exec(ch) || is_digit_exec(ch) || is_white_space_exec(ch) {
            out.push(ch);
        }
        i = i + 1;
    }
    assert(c@.subrange(0, c@.len() as int) =~= c@);
    out
}

/// Generate a citation key from author list, year, and title.
///
/// Format: `{last_name_of_first_author}{year}{first_significant_title_word}`
///
/// - Last name: last whitespace-delimited token of first author, lowercased,
///   non-alpha characters stripped.
/// - Year: used as-is (should be 4 digits).
/// - Title word: first word not in the skip list and longer than 2 bytes,
///   after stripping every character that is neither an ASCII letter, an
///   ASCII digit nor whitespace, lowercased. If no qualifying word, empty
///   string.
pub fn generate(authors: &[String], year: &str, title: &str) -> (r: String)
    ensures
        r@ == citekey(authors@.map_values(|a: String| a@), year@, title@),
{
    let ghost av = authors@.map_values(|a: String| a@);
    let mut out: Vec<char> = Vec::new();
    if authors.len() > 0 {
        assert(av[0] == authors@[0]@);
        let first = str_chars(authors[0].as_str());
        let t = trim_vec(first.as_slice());
        let ts = string_from_chars(t.as_slice());
        let last = extract_last_name(ts.as_str());
        let alpha = regex_replace_all(r"[^a-zA-Z]", last, "");
        let low = str_to_lowercase(alpha.as_str());
        push_str(&mut out, low.as_str());
    } else {
        push_str(&mut out, "unknown");
    }
    push_str(&mut out, year);
    let cc = key_title_exec(title);
    let ws = split_words(cc.as_slice());
    let ghost wsv = words(cc@);
    let ghost prefix = out@;
    assert(prefix == key_last_name(av) + year@);
    assert(wsv.subrange(0, wsv.len() as int) =~= wsv);
    let mut k: usize = 0;
    while k < ws.len()
        invariant
            k <= ws.len(),
            out@ == prefix,
            prefix == key_last_name(av) + year@,
            wsv == words(key_title_text(title@)),
            av == authors@.map_values(|a: String| a@),
            ws@.len() == wsv.len(),
            forall|t: int| 0 <= t < ws@.len() ==> (#[trigger] ws@[t])@ == wsv[t],
            first_significant(wsv) == first_significant(wsv.subrange(k as int, wsv.len() as int)),
        decreases ws.len() - k,
    {
        let low = lowercase_chars(ws[k].as_slice());
        let ls = string_from_chars(low.as_slice());
        let lb = ls.as_str().as_bytes();
        assert(wsv.subrange(k as int, wsv.len() as int)[0] == wsv[k as int]);
        if !is_skip_word(low.as_slice()) && lb.len() > 2 {
            assert(first_significant(wsv.subrange(k as int, wsv.len() as int)) == low@);
            push_all(&mut out, low.as_slice());
            return string_from_chars(out.as_slice());
        }
        assert(wsv.subrange(k as int, wsv.len() as int).drop_first() =~= wsv.subrange(k + 1, wsv.len() as int));
        k = k + 1;
    }
    assert(wsv.subrange(k as int, wsv.len() as int).len() == 0);
    string_from_chars(out.as_slice())
}

} // verus!
