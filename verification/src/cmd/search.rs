//! Searching the bibliographic services and ranking what they return.
//!
//! The services are asked in a cascade (Semantic Scholar, OpenAlex,
//! CrossRef, OpenLibrary, Clio) until one gives a relevant enough top
//! result; results are then deduplicated by DOI and ranked by how many
//! query words they contain, then by citations.
use vstd::prelude::*;
use vstd::string::StringSliceAdditionalSpecFns;
use crate::api::{PaperResult, PaperV, papers_view, query_url_text, strs_view};
use crate::db::{cache_key, cache_key_of};
use crate::cmd::source::{alnum_end, alnum_words_from};
use crate::cmd::verify::alphanumeric;
use crate::text::{decimal, push_all, push_str, u64_to_chars};
use crate::format::{truncate, truncated};
use crate::cmd::{opt_line, push_opt_line, push_line};
use crate::text::{contains, contains_chars, has_prefix, lowercase, lowercase_chars, starts_with_str, str_chars, str_eq, str_to_lowercase, string_from_chars};

verus! {

/// Search source selection.
#[derive(Clone, Copy, PartialEq, Eq, Structural, Debug)]
pub enum Source {
    Oa,
    Ss,
    Cr,
    Dblp,
    Book,
    PhilPapers,
    /// Columbia Clio catalog (live JSON API, no sync required)
    Clio,
    All,
}


/// The lower-cased alphanumeric words of `s`.
pub open spec fn tokens(s: Seq<char>) -> Seq<Seq<char>> {
    alnum_words_from(s, 0).map_values(|w: Seq<char>| lowercase(w))
}

proof fn lemma_alnum_end(s: Seq<char>, i: int)
    requires
        0 <= i <= s.len(),
    ensures
        i <= alnum_end(s, i) <= s.len(),
    decreases s.len() - i,
{
    if i < s.len() && alphanumeric(s[i]) {
        lemma_alnum_end(s, i + 1);
    }
}

/// Tokenize a string into lowercase alphanumeric words.
pub fn tokenize(s: &str) -> (r: Vec<String>)
    ensures
        strs_view(r@) == tokens(s@),
{
    let c = str_chars(s);
    let n = c.len();
    let mut out: Vec<String> = Vec::new();
    let mut i: usize = 0;
    while i < n
        invariant
            i <= n == c@.len(),
            c@ == s@,
            strs_view(out@) + alnum_words_from(c@, i as int).map_values(|w: Seq<char>| lowercase(w)) == tokens(s@),
        decreases n - i,
    {
        if !crate::cmd::verify::is_alphanumeric(c[i]) {
            i = i + 1;
        } else {
            proof {
                lemma_alnum_end(c@, i + 1);
            }
            let mut e = i + 1;
            while e < n && crate::cmd::verify::is_alphanumeric(c[e])
                invariant
                    i < e <= n == c@.len(),
                    alnum_end(c@, i as int) == alnum_end(c@, e as int),
                decreases n - e,
            {
                e = e + 1;
            }
            let w = crate::text::slice_vec(c.as_slice(), i, e);
            let low = lowercase_chars(w.as_slice());
            let ghost prev = strs_view(out@);
            let ghost ws = alnum_words_from(c@, i as int);
            assert(ws =~= seq![w@] + alnum_words_from(c@, e as int));
            assert(ws.map_values(|w: Seq<char>| lowercase(w)) =~= seq![lowercase(w@)]
                + alnum_words_from(c@, e as int).map_values(|w: Seq<char>| lowercase(w)));
            out.push(string_from_chars(low.as_slice()));
            assert(strs_view(out@) =~= prev + seq![lowercase(w@)]);
            i = e;
        }
    }
    assert(alnum_words_from(c@, i as int).map_values(|w: Seq<char>| lowercase(w)) =~= Seq::<Seq<char>>::empty());
    assert(strs_view(out@) + Seq::<Seq<char>>::empty() =~= strs_view(out@));
    out
}

/// The words of a paper: those of its title, then those of each author.
pub open spec fn paper_tokens(p: PaperV) -> Seq<Seq<char>>
    decreases p.authors.len(),
{
    if p.authors.len() == 0 {
        tokens(p.title)
    } else {
        paper_tokens(PaperV { authors: p.authors.drop_last(), ..p }) + tokens(p.authors.last())
    }
}

/// How many of the query words (with repeats) occur among the paper's words.
pub open spec fn match_count(qt: Seq<Seq<char>>, pt: Seq<Seq<char>>) -> nat
    decreases qt.len(),
{
    if qt.len() == 0 {
        0
    } else {
        match_count(qt.drop_last(), pt) + if pt.contains(qt.last()) { 1nat } else { 0nat }
    }
}

/// How relevant a paper is to the query words: the number of them it
/// contains (its relevance is that number over the number of query words).
pub open spec fn relevance(p: PaperV, qt: Seq<Seq<char>>) -> nat {
    match_count(qt, paper_tokens(p))
}

fn contains_string(v: &Vec<String>, s: &String) -> (r: bool)
    ensures
        r == strs_view(v@).contains(s@),
{
    let mut i: usize = 0;
    while i < v.len()
        invariant
            i <= v@.len(),
            forall|k: int| 0 <= k < i ==> v@[k]@ != s@,
        decreases v@.len() - i,
    {
        if str_eq(v[i].as_str(), s.as_str()) {
            assert(strs_view(v@)[i as int] == s@);
            return true;
        }
        i = i + 1;
    }
    assert forall|k: int| 0 <= k < strs_view(v@).len() implies strs_view(v@)[k] != s@ by {
        assert(strs_view(v@)[k] == v@[k]@);
    }
    false
}

fn paper_tokens_exec(p: &PaperResult) -> (r: Vec<String>)
    ensures
        strs_view(r@) == paper_tokens(p@),
{
    let mut out = tokenize(p.title.as_str());
    let mut i: usize = 0;
    assert(strs_view(out@) == paper_tokens(PaperV { authors: p@.authors.subrange(0, 0), ..p@ }));
    while i < p.authors.len()
        invariant
            i <= p.authors@.len(),
            strs_view(out@) == paper_tokens(PaperV { authors: p@.authors.subrange(0, i as int), ..p@ }),
        decreases p.authors@.len() - i,
    {
        let t = tokenize(p.authors[i].as_str());
        let ghost prev = strs_view(out@);
        let mut k: usize = 0;
        while k < t.len()
            invariant
                k <= t@.len(),
                strs_view(out@) == prev + strs_view(t@).subrange(0, k as int),
            decreases t@.len() - k,
        {
            let ghost before = strs_view(out@);
            assert(strs_view(t@)[k as int] == t@[k as int]@);
            out.push(t[k].clone());
            assert(strs_view(out@) =~= before.push(t@[k as int]@));
            assert(strs_view(out@) =~= prev + strs_view(t@).subrange(0, k + 1));
            k = k + 1;
        }
        assert(strs_view(t@).subrange(0, t@.len() as int) =~= strs_view(t@));
        let ghost q = PaperV { authors: p@.authors.subrange(0, i + 1), ..p@ };
        assert(q.authors.drop_last() =~= p@.authors.subrange(0, i as int));
        assert(PaperV { authors: q.authors.drop_last(), ..q } == PaperV { authors: p@.authors.subrange(0, i as int), ..p@ });
        assert(q.authors.last() == p.authors@[i as int]@);
        i = i + 1;
    }
    assert(p@.authors.subrange(0, p@.authors.len() as int) =~= p@.authors);
    assert(PaperV { authors: p@.authors, ..p@ } == p@);
    out
}

/// Score how relevant a paper result is to the query: the number of query
/// words that occur among its title and author words.
pub fn relevance_score(paper: &PaperResult, query_tokens: &Vec<String>) -> (r: usize)
    ensures
        r == relevance(paper@, strs_view(query_tokens@)),
{
    let pt = paper_tokens_exec(paper);
    let ghost qt = strs_view(query_tokens@);
    let mut n: usize = 0;
    let mut i: usize = 0;
    while i < query_tokens.len()
        invariant
            i <= query_tokens@.len(),
            qt == strs_view(query_tokens@),
            n == match_count(qt.subrange(0, i as int), strs_view(pt@)),
            n <= i,
        decreases query_tokens@.len() - i,
    {
        assert(qt.subrange(0, i + 1).drop_last() =~= qt.subrange(0, i as int));
        assert(qt.subrange(0, i + 1).last() == query_tokens@[i as int]@);
        if contains_string(&pt, &query_tokens[i]) {
            n = n + 1;
        }
        i = i + 1;
    }
    assert(qt.subrange(0, qt.len() as int) =~= qt);
    n
}

/// Whether a relevance of `m` out of `n` query words reaches the threshold
/// of 0.3 that stops the cascade (never when there are no query words).
pub open spec fn relevant_enough(m: nat, n: nat) -> bool {
    n > 0 && 10 * m >= 3 * n
}

/// Whether a title looks like a book review.
pub open spec fn book_review(title: Seq<char>) -> bool {
    let l = lowercase(title);
    contains(l, "book review"@) || has_prefix(l, "review of "@) || contains(l, "reviews:"@)
}

/// Returns true if the title looks like a book review that should not stop
/// the cascade.
pub fn is_book_review(title: &str) -> (r: bool)
    ensures
        r == book_review(title@),
{
    let l = str_chars(str_to_lowercase(title).as_str());
    contains_chars(l.as_slice(), str_chars("book review").as_slice())
        || starts_with_str(l.as_slice(), "review of ")
        || contains_chars(l.as_slice(), str_chars("reviews:").as_slice())
}

/// Whether results from a source end the cascade: their top result is not
/// a book review and is relevant enough.
pub open spec fn cascade_stops(ps: Seq<PaperV>, qt: Seq<Seq<char>>) -> bool {
    ps.len() > 0 && !book_review(ps[0].title) && relevant_enough(relevance(ps[0], qt), qt.len())
}

/// Decide whether the results of one source of the cascade are good enough
/// to stop at.
pub fn cascade_done(results: &Vec<PaperResult>, query_tokens: &Vec<String>) -> (r: bool)
    ensures
        r == cascade_stops(papers_view(results@), strs_view(query_tokens@)),
{
    if results.len() == 0 {
        return false;
    }
    assert(papers_view(results@)[0] == results@[0]@);
    if is_book_review(results[0].title.as_str()) {
        return false;
    }
    let m = relevance_score(&results[0], query_tokens);
    let n = query_tokens.len();
    n > 0 && (m as u128) * 10 >= (n as u128) * 3
}

/// The order of the cascade: Semantic Scholar, OpenAlex, CrossRef, books,
/// Clio.
pub open spec fn cascade() -> Seq<Source> {
    seq![Source::Ss, Source::Oa, Source::Cr, Source::Book, Source::Clio]
}

/// The sources of the cascade, in order.
pub fn cascade_sources() -> (r: Vec<Source>)
    ensures
        r@ == cascade(),
{
    let r = vec![Source::Ss, Source::Oa, Source::Cr, Source::Book, Source::Clio];
    assert(r@ =~= cascade());
    r
}

/// Whether `p` has a DOI whose lower-case form is `x`.
pub open spec fn doi_is(p: PaperV, x: Seq<char>) -> bool {
    match p.doi {
        Some(e) => lowercase(e) == x,
        None => false,
    }
}

/// Whether `p` has a DOI equal, ignoring case, to one in `ps`.
pub open spec fn doi_seen(ps: Seq<PaperV>, p: PaperV) -> bool {
    match p.doi {
        Some(d) => exists|k: int| 0 <= k < ps.len() && doi_is(#[trigger] ps[k], lowercase(d)),
        None => false,
    }
}

/// `ps` without the results whose DOI (ignoring case) an earlier result has.
pub open spec fn doi_deduped(ps: Seq<PaperV>) -> Seq<PaperV>
    decreases ps.len(),
{
    if ps.len() == 0 {
        seq![]
    } else {
        let d = doi_deduped(ps.drop_last());
        if doi_seen(d, ps.last()) { d } else { d.push(ps.last()) }
    }
}

/// Whether a result with relevance `a` and citations `ca` goes before one
/// with relevance `b` and citations `cb`.
pub open spec fn ranks_before(a: nat, ca: nat, b: nat, cb: nat) -> bool {
    a > b || (a == b && ca > cb)
}

/// The citation count a result is ranked by (none counts as 0).
pub open spec fn cites(p: PaperV) -> nat {
    match p.citations {
        Some(c) => c as nat,
        None => 0,
    }
}

/// `s` with `e` inserted before the first result it ranks before.
pub open spec fn insert_ranked(s: Seq<PaperV>, e: PaperV, qt: Seq<Seq<char>>) -> Seq<PaperV>
    decreases s.len(),
{
    if s.len() == 0 {
        seq![e]
    } else if ranks_before(relevance(e, qt), cites(e), relevance(s[0], qt), cites(s[0])) {
        seq![e] + s
    } else {
        seq![s[0]] + insert_ranked(s.drop_first(), e, qt)
    }
}

/// `s` ranked by relevance, then citations, both descending; results that
/// tie keep their order (a stable sort, as `slice::sort_by` is).
pub open spec fn ranked(s: Seq<PaperV>, qt: Seq<Seq<char>>) -> Seq<PaperV>
    decreases s.len(),
{
    if s.len() == 0 {
        s
    } else {
        insert_ranked(ranked(s.drop_last(), qt), s.last(), qt)
    }
}

/// The results of a search for `query`, deduplicated by DOI and ranked.
pub open spec fn reranked(ps: Seq<PaperV>, query: Seq<char>) -> Seq<PaperV> {
    ranked(doi_deduped(ps), tokens(query))
}

proof fn lemma_insert_ranked_at(s: Seq<PaperV>, e: PaperV, qt: Seq<Seq<char>>, p: int)
    requires
        0 <= p <= s.len(),
        forall|k: int| 0 <= k < p ==> !ranks_before(relevance(e, qt), cites(e), relevance(#[trigger] s[k], qt), cites(s[k])),
        p < s.len() ==> ranks_before(relevance(e, qt), cites(e), relevance(s[p], qt), cites(s[p])),
    ensures
        insert_ranked(s, e, qt) == s.insert(p, e),
    decreases s.len(),
{
    if s.len() == 0 {
        assert(s.insert(p, e) =~= seq![e]);
    } else if p == 0 {
        assert(s.insert(p, e) =~= seq![e] + s);
    } else {
        let t = s.drop_first();
        assert forall|k: int| 0 <= k < p - 1 implies !ranks_before(relevance(e, qt), cites(e), relevance(#[trigger] t[k], qt), cites(t[k])) by {
            assert(t[k] == s[k + 1]);
        }
        if p - 1 < t.len() {
            assert(t[p - 1] == s[p]);
        }
        lemma_insert_ranked_at(t, e, qt, p - 1);
        assert(s.insert(p, e) =~= seq![s[0]] + t.insert(p - 1, e));
    }
}

/// Whether `a` ranks at least as high as `b`: `b` does not rank before it.
pub open spec fn at_least(a: PaperV, b: PaperV, qt: Seq<Seq<char>>) -> bool {
    !ranks_before(relevance(b, qt), cites(b), relevance(a, qt), cites(a))
}

/// Results in ranking order: none ranks before one that precedes it.
pub open spec fn rank_ordered(s: Seq<PaperV>, qt: Seq<Seq<char>>) -> bool {
    forall|i: int, j: int| 0 <= i < j < s.len() ==> at_least(#[trigger] s[i], #[trigger] s[j], qt)
}

/// Whether two results have DOIs that are equal ignoring case.
pub open spec fn same_doi(a: PaperV, b: PaperV) -> bool {
    match (a.doi, b.doi) {
        (Some(x), Some(y)) => lowercase(x) == lowercase(y),
        _ => false,
    }
}

/// No two results of `s` share a DOI, ignoring case.
pub open spec fn doi_distinct(s: Seq<PaperV>) -> bool {
    forall|i: int, j: int| 0 <= i < j < s.len() ==> !same_doi(#[trigger] s[i], #[trigger] s[j])
}

/// Where `insert_ranked` puts the new result: after every result it does
/// not rank before, and before the first one it does.
proof fn insert_pos(s: Seq<PaperV>, e: PaperV, qt: Seq<Seq<char>>) -> (p: int)
    ensures
        0 <= p <= s.len(),
        insert_ranked(s, e, qt) == s.insert(p, e),
        forall|k: int| 0 <= k < p ==> at_least(#[trigger] s[k], e, qt),
        p < s.len() ==> ranks_before(relevance(e, qt), cites(e), relevance(s[p], qt), cites(s[p])),
    decreases s.len(),
{
    if s.len() == 0 {
        assert(s.insert(0, e) =~= seq![e]);
        0
    } else if ranks_before(relevance(e, qt), cites(e), relevance(s[0], qt), cites(s[0])) {
        assert(s.insert(0, e) =~= seq![e] + s);
        0
    } else {
        let t = s.drop_first();
        let q = insert_pos(t, e, qt);
        assert(s.insert(q + 1, e) =~= seq![s[0]] + t.insert(q, e));
        assert forall|k: int| 0 <= k < q + 1 implies at_least(#[trigger] s[k], e, qt) by {
            if k > 0 {
                assert(s[k] == t[k - 1]);
            }
        }
        if q + 1 < s.len() {
            assert(s[q + 1] == t[q]);
        }
        q + 1
    }
}

proof fn lemma_insert_ordered(s: Seq<PaperV>, e: PaperV, qt: Seq<Seq<char>>)
    requires
        rank_ordered(s, qt),
    ensures
        rank_ordered(insert_ranked(s, e, qt), qt),
{
    let p = insert_pos(s, e, qt);
    let r = s.insert(p, e);
    assert forall|i: int, j: int| 0 <= i < j < r.len() implies at_least(#[trigger] r[i], #[trigger] r[j], qt) by {
        if j < p {
            assert(r[i] == s[i] && r[j] == s[j]);
        } else if j == p {
            assert(r[i] == s[i]);
        } else if i < p {
            assert(r[i] == s[i] && r[j] == s[j - 1]);
        } else if i == p {
            assert(r[j] == s[j - 1]);
            assert(at_least(s[p], s[j - 1], qt) || p == j - 1);
        } else {
            assert(r[i] == s[i - 1] && r[j] == s[j - 1]);
        }
    }
}

/// The results of `ranked(s)` are those of `s`, in some order.
proof fn lemma_ranked_contents(s: Seq<PaperV>, qt: Seq<Seq<char>>)
    ensures
        ranked(s, qt).len() == s.len(),
        ranked(s, qt).to_multiset() == s.to_multiset(),
        rank_ordered(ranked(s, qt), qt),
    decreases s.len(),
{
    if s.len() > 0 {
        let d = s.drop_last();
        lemma_ranked_contents(d, qt);
        let rd = ranked(d, qt);
        let p = insert_pos(rd, s.last(), qt);
        lemma_insert_ordered(rd, s.last(), qt);
        rd.to_multiset_ensures();
        vstd::seq_lib::lemma_multiset_commutative(d, seq![s.last()]);
        assert(s =~= d + seq![s.last()]);
        assert(rd.insert(p, s.last()) =~= rd.subrange(0, p) + seq![s.last()] + rd.subrange(p, rd.len() as int));
        vstd::seq_lib::lemma_multiset_commutative(rd.subrange(0, p), seq![s.last()]);
        vstd::seq_lib::lemma_multiset_commutative(rd.subrange(0, p) + seq![s.last()], rd.subrange(p, rd.len() as int));
        vstd::seq_lib::lemma_multiset_commutative(rd.subrange(0, p), rd.subrange(p, rd.len() as int));
        assert(rd =~= rd.subrange(0, p) + rd.subrange(p, rd.len() as int));
    }
}

proof fn lemma_deduped_distinct(ps: Seq<PaperV>)
    ensures
        doi_distinct(doi_deduped(ps)),
        forall|k: int| 0 <= k < doi_deduped(ps).len() ==> ps.contains(#[trigger] doi_deduped(ps)[k]),
    decreases ps.len(),
{
    if ps.len() > 0 {
        let d = doi_deduped(ps.drop_last());
        lemma_deduped_distinct(ps.drop_last());
        assert forall|k: int| 0 <= k < d.len() implies ps.contains(#[trigger] d[k]) by {
            let j = choose|j: int| 0 <= j < ps.drop_last().len() && ps.drop_last()[j] == d[k];
            assert(ps[j] == d[k]);
        }
        if !doi_seen(d, ps.last()) {
            let r = d.push(ps.last());
            assert forall|i: int, j: int| 0 <= i < j < r.len() implies !same_doi(#[trigger] r[i], #[trigger] r[j]) by {
                if j == d.len() {
                    if same_doi(r[i], r[j]) {
                        let x = ps.last().doi->0;
                        assert(r[i] == d[i]);
                        assert(doi_is(d[i], lowercase(x)));
                    }
                } else {
                    assert(r[i] == d[i] && r[j] == d[j]);
                }
            }
            assert(r[d.len() as int] == ps.last());
            assert(ps[ps.len() - 1] == ps.last());
        }
    }
}

/// Two equal multisets: an element occurs in one sequence exactly when it
/// occurs in the other.
proof fn lemma_same_multiset_contains(a: Seq<PaperV>, b: Seq<PaperV>, x: PaperV)
    requires
        a.to_multiset() == b.to_multiset(),
    ensures
        a.contains(x) <==> b.contains(x),
{
    a.to_multiset_ensures();
    b.to_multiset_ensures();
    assert(a.contains(x) <==> a.to_multiset().count(x) > 0);
    assert(b.contains(x) <==> b.to_multiset().count(x) > 0);
}

/// Reranking keeps what `rerank` promises: its results come in ranking
/// order (relevance, then citations, both descending), no two of them share
/// a DOI ignoring case, and each was among the results given.
pub proof fn lemma_reranked_ordered_unique(ps: Seq<PaperV>, query: Seq<char>)
    ensures
        rank_ordered(reranked(ps, query), tokens(query)),
        doi_distinct(reranked(ps, query)),
        forall|k: int| 0 <= k < reranked(ps, query).len() ==> ps.contains(#[trigger] reranked(ps, query)[k]),
{
    let qt = tokens(query);
    let d = doi_deduped(ps);
    lemma_deduped_distinct(ps);
    lemma_ranked_contents(d, qt);
    lemma_ranked_distinct(d, qt);
    let r = ranked(d, qt);
    assert forall|k: int| 0 <= k < r.len() implies ps.contains(#[trigger] r[k]) by {
        assert(r.contains(r[k]));
        lemma_same_multiset_contains(r, d, r[k]);
        let j = choose|j: int| 0 <= j < d.len() && d[j] == r[k];
        assert(ps.contains(d[j]));
    }
}

/// Reranked results go by relevance, highest first, and results of equal
/// relevance by citation count, highest first: of two results, the earlier
/// is at least as relevant, and at least as cited when equally relevant.
pub proof fn lemma_reranked_by_relevance_then_citations(ps: Seq<PaperV>, query: Seq<char>)
    ensures
        forall|i: int, j: int| 0 <= i < j < reranked(ps, query).len() ==> {
            let qt = tokens(query);
            let a = #[trigger] reranked(ps, query)[i];
            let b = #[trigger] reranked(ps, query)[j];
            &&& relevance(a, qt) >= relevance(b, qt)
            &&& (relevance(a, qt) == relevance(b, qt) ==> cites(a) >= cites(b))
        },
{
    lemma_reranked_ordered_unique(ps, query);
    let r = reranked(ps, query);
    let qt = tokens(query);
    assert forall|i: int, j: int| 0 <= i < j < r.len() implies {
        let a = #[trigger] r[i];
        let b = #[trigger] r[j];
        &&& relevance(a, qt) >= relevance(b, qt)
        &&& (relevance(a, qt) == relevance(b, qt) ==> cites(a) >= cites(b))
    } by {
        assert(at_least(r[i], r[j], qt));
    }
}

/// Ranking keeps DOIs distinct.
proof fn lemma_ranked_distinct(s: Seq<PaperV>, qt: Seq<Seq<char>>)
    requires
        doi_distinct(s),
    ensures
        doi_distinct(ranked(s, qt)),
    decreases s.len(),
{
    if s.len() > 0 {
        let d = s.drop_last();
        let e = s.last();
        assert forall|i: int, j: int| 0 <= i < j < d.len() implies !same_doi(#[trigger] d[i], #[trigger] d[j]) by {
            assert(d[i] == s[i] && d[j] == s[j]);
        }
        lemma_ranked_distinct(d, qt);
        lemma_ranked_contents(d, qt);
        let rd = ranked(d, qt);
        let p = insert_pos(rd, e, qt);
        let r = rd.insert(p, e);
        assert forall|k: int| 0 <= k < rd.len() implies !same_doi(#[trigger] rd[k], e) && !same_doi(e, rd[k]) by {
            assert(rd.contains(rd[k]));
            lemma_same_multiset_contains(rd, d, rd[k]);
            let j = choose|j: int| 0 <= j < d.len() && d[j] == rd[k];
            assert(s[j] == d[j]);
            assert(s[s.len() - 1] == e);
            assert(!same_doi(s[j], s[s.len() - 1]));
        }
        assert forall|i: int, j: int| 0 <= i < j < r.len() implies !same_doi(#[trigger] r[i], #[trigger] r[j]) by {
            if j < p {
                assert(r[i] == rd[i] && r[j] == rd[j]);
            } else if j == p {
                assert(r[i] == rd[i] && r[j] == e);
            } else if i < p {
                assert(r[i] == rd[i] && r[j] == rd[j - 1]);
            } else if i == p {
                assert(r[i] == e && r[j] == rd[j - 1]);
            } else {
                assert(r[i] == rd[i - 1] && r[j] == rd[j - 1]);
            }
        }
    }
}

fn lower_doi(p: &PaperResult) -> (r: Option<String>)
    ensures
        match p@.doi {
            Some(d) => r matches Some(x) && x@ == lowercase(d),
            None => r is None,
        },
{
    match &p.doi {
        Some(d) => Some(str_to_lowercase(d.as_str())),
        None => None,
    }
}

/// Rerank results by relevance to the query, then by citation count, after
/// dropping those whose DOI an earlier result has.
pub fn rerank(results: Vec<PaperResult>, query: &str) -> (r: Vec<PaperResult>)
    ensures
        papers_view(r@) == reranked(papers_view(results@), query@),
{
    let ghost ps = papers_view(results@);
    // Deduplicate by DOI, keeping the first occurrence.
    let mut kept: Vec<PaperResult> = Vec::new();
    let mut kept_dois: Vec<Option<String>> = Vec::new();
    let mut i: usize = 0;
    assert(ps.subrange(0, 0) =~= Seq::<PaperV>::empty());
    while i < results.len()
        invariant
            i <= results@.len(),
            ps == papers_view(results@),
            papers_view(kept@) == doi_deduped(ps.subrange(0, i as int)),
            kept_dois@.len() == kept@.len(),
            forall|k: int| 0 <= k < kept@.len() ==> match (#[trigger] kept@[k])@.doi {
                Some(d) => kept_dois@[k] matches Some(x) && x@ == lowercase(d),
                None => kept_dois@[k] is None,
            },
        decreases results@.len() - i,
    {
        let p = &results[i];
        let ghost sub = ps.subrange(0, i + 1);
        assert(sub.drop_last() =~= ps.subrange(0, i as int));
        assert(sub.last() == p@);
        let ld = lower_doi(p);
        let ghost d = papers_view(kept@);
        let seen = match &ld {
            None => false,
            Some(x) => {
                let mut found = false;
                let mut k: usize = 0;
                while k < kept_dois.len()
                    invariant
                        k <= kept_dois@.len(),
                        kept_dois@.len() == kept@.len(),
                        d == papers_view(kept@),
                        forall|j: int| 0 <= j < kept@.len() ==> match (#[trigger] kept@[j])@.doi {
                            Some(dd) => kept_dois@[j] matches Some(y) && y@ == lowercase(dd),
                            None => kept_dois@[j] is None,
                        },
                        found ==> exists|j: int| 0 <= j < d.len() && doi_is(#[trigger] d[j], x@),
                        !found ==> forall|j: int| 0 <= j < k ==> !doi_is(#[trigger] d[j], x@),
                    decreases kept_dois@.len() - k,
                {
                    assert(d[k as int] == kept@[k as int]@);
                    match &kept_dois[k] {
                        Some(y) => {
                            if str_eq(y.as_str(), x.as_str()) {
                                found = true;
                            }
                        },
                        None => {},
                    }
                    k = k + 1;
                }
                found
            },
        };
        assert(seen == doi_seen(d, p@));
        if !seen {
            let ghost before = papers_view(kept@);
            kept.push(p.clone_paper());
            kept_dois.push(ld);
            assert(papers_view(kept@) =~= before.push(p@));
        }
        i = i + 1;
    }
    assert(ps.subrange(0, ps.len() as int) =~= ps);
    let qt = tokenize(query);
    let ghost qv = strs_view(qt@);
    let ghost dd = papers_view(kept@);
    // Stable insertion by (relevance, citations), both descending.
    let mut out: Vec<PaperResult> = Vec::new();
    let mut keys: Vec<(usize, u64)> = Vec::new();
    let mut j: usize = 0;
    assert(dd.subrange(0, 0) =~= Seq::<PaperV>::empty());
    while j < kept.len()
        invariant
            j <= kept@.len(),
            dd == papers_view(kept@),
            qv == strs_view(qt@),
            papers_view(out@) == ranked(dd.subrange(0, j as int), qv),
            keys@.len() == out@.len(),
            forall|k: int| 0 <= k < out@.len() ==> (#[trigger] keys@[k]).0 == relevance(out@[k]@, qv) && keys@[k].1 == cites(out@[k]@),
        decreases kept@.len() - j,
    {
        let p = &kept[j];
        let ghost sub = dd.subrange(0, j + 1);
        assert(sub.drop_last() =~= dd.subrange(0, j as int));
        assert(sub.last() == p@);
        let sc = relevance_score(p, &qt);
        let ct: u64 = match p.citations {
            Some(c) => c,
            None => 0,
        };
        let ghost s = papers_view(out@);
        let mut pos: usize = 0;
        while pos < out.len() && !(sc > keys[pos].0 || (sc == keys[pos].0 && ct > keys[pos].1))
            invariant
                pos <= out@.len(),
                keys@.len() == out@.len(),
                s == papers_view(out@),
                forall|k: int| 0 <= k < out@.len() ==> (#[trigger] keys@[k]).0 == relevance(out@[k]@, qv) && keys@[k].1 == cites(out@[k]@),
                forall|k: int| 0 <= k < pos ==> !ranks_before(relevance(p@, qv), cites(p@), relevance(#[trigger] s[k], qv), cites(s[k])),
                sc == relevance(p@, qv),
                ct == cites(p@),
            decreases out@.len() - pos,
        {
            assert(s[pos as int] == out@[pos as int]@);
            pos = pos + 1;
        }
        proof {
            if pos < out@.len() {
                assert(s[pos as int] == out@[pos as int]@);
            }
            lemma_insert_ranked_at(s, p@, qv, pos as int);
        }
        let ghost kb = keys@;
        out.insert(pos, p.clone_paper());
        keys.insert(pos, (sc, ct));
        assert(papers_view(out@) =~= s.insert(pos as int, p@));
        assert forall|k: int| 0 <= k < out@.len() implies (#[trigger] keys@[k]).0 == relevance(out@[k]@, qv) && keys@[k].1 == cites(out@[k]@) by {
            if k < pos {
                assert(keys@[k] == kb[k]);
            } else if k > pos {
                assert(keys@[k] == kb[k - 1]);
            }
        }
        j = j + 1;
    }
    assert(dd.subrange(0, dd.len() as int) =~= dd);
    out
}

/// The cache prefix of a source's search replies.
pub open spec fn backend_prefix(s: Source) -> Seq<char> {
    match s {
        Source::Ss => "ss"@,
        Source::Oa => "oa"@,
        Source::Cr => "cr"@,
        Source::Dblp => "dblp"@,
        Source::Book => "book"@,
        Source::PhilPapers => "philpapers"@,
        Source::Clio => "clio"@,
        Source::All => ""@,
    }
}

/// The search URL of a source for a query and a number of results.
pub open spec fn backend_url(s: Source, q: Seq<u8>, limit: nat) -> Seq<char> {
    match s {
        Source::Ss => query_url_text("https://api.semanticscholar.org/graph/v1/paper/search?query="@, q, "&limit="@, limit,
            "&fields=title,authors,year,citationCount,externalIds"@),
        Source::Oa => query_url_text("https://api.openalex.org/works?search="@, q, "&per-page="@, limit, ""@),
        Source::Cr => query_url_text("https://api.crossref.org/works?query="@, q, "&rows="@, limit, "&sort=relevance"@),
        Source::Dblp => query_url_text("https://dblp.org/search/publ/api?q="@, q, "&format=json&h="@, limit, ""@),
        Source::Book => query_url_text("https://openlibrary.org/search.json?q="@, q, "&limit="@, limit, ""@),
        Source::PhilPapers => query_url_text("https://philpapers.org/api/search?q="@, q, "&format=json&limit="@, limit, ""@),
        Source::Clio => query_url_text("https://clio.columbia.edu/catalog.json?q="@, q, "&per_page="@, limit, ""@),
        Source::All => ""@,
    }
}

/// The request for a search of one source: its URL and cache key; `None`
/// for `All`, which stands for every source.
pub fn backend_lookup(source: Source, query: &str, limit: usize) -> (r: Option<(String, String)>)
    ensures
        source == Source::All <==> r is None,
        r matches Some((url, key)) ==> url@ == backend_url(source, query.spec_bytes(), limit as nat)
            && key@ == cache_key_of(backend_prefix(source), query@),
{
    match source {
        Source::Ss => Some((crate::api::semantic_scholar::search_url(query, limit), cache_key("ss", query))),
        Source::Oa => Some((crate::api::openalex::search_url(query, limit), cache_key("oa", query))),
        Source::Cr => Some((crate::api::crossref::search_url(query, limit), cache_key("cr", query))),
        Source::Dblp => Some((crate::api::dblp::search_url(query, limit), cache_key("dblp", query))),
        Source::Book => Some((crate::api::openlibrary::search_url(query, limit), cache_key("book", query))),
        Source::PhilPapers => Some((crate::api::philpapers::search_url(query, limit), cache_key("philpapers", query))),
        Source::Clio => Some((crate::api::clio::search_url(query, limit), cache_key("clio", query))),
        Source::All => None,
    }
}

/// The first author of a result, or `?`.
pub open spec fn first_author(p: PaperV) -> Seq<char> {
    if p.authors.len() > 0 { p.authors[0] } else { "?"@ }
}

/// The identifier shown for a result: its arXiv ID, else its DOI, else its
/// ISBN, each with its label, else nothing.
pub open spec fn id_label(p: PaperV) -> Seq<char> {
    match p.arxiv_id {
        Some(a) => "arXiv:"@ + a,
        None => match p.doi {
            Some(d) => "DOI:"@ + d,
            None => match p.isbn {
                Some(i) => "ISBN:"@ + i,
                None => seq![],
            },
        },
    }
}

/// The one line shown for a result in the short listing.
pub open spec fn brief_result_line(rank: nat, p: PaperV) -> Seq<char> {
    decimal(rank) + ". "@ + first_author(p) + " "@ + p.year + " | "@ + truncated(p.title, 70) + " | "@ + id_label(p)
}

/// The lines shown for a result in the verbose listing.
pub open spec fn verbose_result_lines(rank: nat, p: PaperV) -> Seq<Seq<char>> {
    seq![
        decimal(rank) + ". "@ + p.title + " ("@ + p.year + ")"@,
        "   Author: "@ + first_author(p) + " | Citations: "@
            + (match p.citations { Some(c) => decimal(c as nat), None => seq![] }),
    ]
        + opt_line("   arXiv: "@, p.arxiv_id) + opt_line("   DOI: "@, p.doi)
        + opt_line("   Venue: "@, p.venue) + opt_line("   ISBN: "@, p.isbn)
        + seq![Seq::<char>::empty()]
}

/// The lines for the first `n` results, ranked from 1.
pub open spec fn result_blocks(ps: Seq<PaperV>, n: nat, verbose: bool) -> Seq<Seq<char>>
    decreases n,
{
    if n == 0 {
        seq![]
    } else {
        result_blocks(ps, (n - 1) as nat, verbose)
            + (if verbose { verbose_result_lines(n, ps[n - 1]) } else { seq![brief_result_line(n, ps[n - 1])] })
    }
}

/// The listing of search results.
pub open spec fn results_listing(ps: Seq<PaperV>, verbose: bool) -> Seq<Seq<char>> {
    if ps.len() == 0 { seq!["No results found"@] } else { result_blocks(ps, ps.len(), verbose) }
}

fn id_label_exec(p: &PaperResult) -> (r: String)
    ensures
        r@ == id_label(p@),
{
    match &p.arxiv_id {
        Some(a) => crate::api::cat2("arXiv:", a.as_str()),
        None => match &p.doi {
            Some(d) => crate::api::cat2("DOI:", d.as_str()),
            None => match &p.isbn {
                Some(i) => crate::api::cat2("ISBN:", i.as_str()),
                None => String::new(),
            },
        },
    }
}

fn first_author_exec(p: &PaperResult) -> (r: String)
    ensures
        r@ == first_author(p@),
{
    if p.authors.len() > 0 {
        assert(p@.authors[0] == p.authors@[0]@);
        p.authors[0].clone()
    } else {
        "?".to_owned()
    }
}

fn brief_line_exec(rank: u64, p: &PaperResult) -> (r: String)
    ensures
        r@ == brief_result_line(rank as nat, p@),
{
    let mut v: Vec<char> = u64_to_chars(rank);
    push_str(&mut v, ". ");
    let a = first_author_exec(p);
    push_str(&mut v, a.as_str());
    push_str(&mut v, " ");
    push_str(&mut v, p.year.as_str());
    push_str(&mut v, " | ");
    let t = truncate(p.title.as_str(), 70);
    push_str(&mut v, t.as_str());
    push_str(&mut v, " | ");
    let id = id_label_exec(p);
    push_str(&mut v, id.as_str());
    assert(v@ =~= brief_result_line(rank as nat, p@));
    string_from_chars(v.as_slice())
}

fn push_verbose_lines(out: &mut Vec<String>, rank: u64, p: &PaperResult)
    ensures
        strs_view(final(out)@) == strs_view(old(out)@) + verbose_result_lines(rank as nat, p@),
{
    let ghost l0 = strs_view(out@);
    let mut v: Vec<char> = u64_to_chars(rank);
    push_str(&mut v, ". ");
    push_str(&mut v, p.title.as_str());
    push_str(&mut v, " (");
    push_str(&mut v, p.year.as_str());
    push_str(&mut v, ")");
    out.push(string_from_chars(v.as_slice()));
    let mut w: Vec<char> = Vec::new();
    push_str(&mut w, "   Author: ");
    let a = first_author_exec(p);
    push_str(&mut w, a.as_str());
    push_str(&mut w, " | Citations: ");
    match p.citations {
        Some(c) => {
            let d = u64_to_chars(c);
            push_all(&mut w, d.as_slice());
        },
        None => {},
    }
    out.push(string_from_chars(w.as_slice()));
    let ghost l1 = strs_view(out@);
    assert(l1 =~= l0 + seq![
        decimal(rank as nat) + ". "@ + p@.title + " ("@ + p@.year + ")"@,
        "   Author: "@ + first_author(p@) + " | Citations: "@
            + (match p@.citations { Some(c) => decimal(c as nat), None => seq![] }),
    ]);
    push_opt_line(out, "   arXiv: ", &p.arxiv_id);
    push_opt_line(out, "   DOI: ", &p.doi);
    push_opt_line(out, "   Venue: ", &p.venue);
    push_opt_line(out, "   ISBN: ", &p.isbn);
    let ghost l2 = strs_view(out@);
    out.push(String::new());
    assert(strs_view(out@) =~= l2.push(Seq::<char>::empty()));
    assert(strs_view(out@) =~= l0 + verbose_result_lines(rank as nat, p@));
}

/// The lines printed for search results, short or verbose.
pub fn result_lines(results: &Vec<PaperResult>, verbose: bool) -> (r: Vec<String>)
    ensures
        strs_view(r@) == results_listing(crate::api::papers_view(results@), verbose),
{
    let ghost ps = crate::api::papers_view(results@);
    let mut out: Vec<String> = Vec::new();
    if results.len() == 0 {
        out.push("No results found".to_owned());
        assert(strs_view(out@) =~= seq!["No results found"@]);
        return out;
    }
    let mut i: usize = 0;
    while i < results.len()
        invariant
            i <= results@.len(),
            ps == crate::api::papers_view(results@),
            strs_view(out@) == result_blocks(ps, i as nat, verbose),
        decreases results@.len() - i,
    {
        let rank: u64 = (i + 1) as u64;
        let ghost before = strs_view(out@);
        assert(ps[i as int] == results@[i as int]@);
        if verbose {
            push_verbose_lines(&mut out, rank, &results[i]);
        } else {
            let l = brief_line_exec(rank, &results[i]);
            out.push(l);
            assert(strs_view(out@) =~= before + seq![brief_result_line(rank as nat, ps[i as int])]);
        }
        i = i + 1;
    }
    out
}

} // verus!
