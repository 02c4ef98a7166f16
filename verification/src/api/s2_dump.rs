//! The data of a local Semantic Scholar bulk dump: papers, papers found by
//! a closure query over the citation graph, and where a release is kept.
use vstd::prelude::*;
use crate::api::strs_view;
use crate::text::{split, split_on, str_chars, string_from_chars};

verus! {

/// Direction of closure traversal over the citation graph.
#[derive(Debug, Clone, Copy, PartialEq, Eq, Structural)]
pub enum Direction {
    /// Papers that cite a seed (incoming edges).
    Cites,
    /// Papers that a seed cites (outgoing edges).
    Refs,
    /// Union of both directions.
    Both,
}

/// A paper row materialised from the local dump.
#[derive(Debug, Clone, Default)]
pub struct Paper {
    /// Semantic Scholar paper ID (the `id` column).
    pub id: String,
    pub title: String,
    pub abstract_text: Option<String>,
    pub year: Option<u32>,
    pub venue: Option<String>,
    pub citation_count: Option<u64>,
    /// Raw JSON blob from the `external_ids` column (arbitrary keys: `ArXiv`, `DOI`, ...).
    pub external_ids: Option<String>,
}

/// A paper produced by a multi-seed closure query, annotated with which seeds
/// it connects to and the seed count (used as the primary ranking key).
#[derive(Debug, Clone, Default)]
pub struct ClosurePaper {
    pub paper: Paper,
    /// Seeds linked to this paper (in no particular order).
    pub linked_seeds: Vec<String>,
    /// `linked_seeds.len()` as `u32` (matches the SQL `seed_count` column).
    pub seed_count: u32,
}

/// Where a release is installed on disk (`~/.lit/s2/<release-id>/`).
#[derive(Debug, Clone)]
pub struct ReleaseLayout {
    pub root: String,
    pub release_id: String,
}

/// Manifest written next to the DuckDB file after a successful load.
#[derive(Debug, Clone)]
pub struct Manifest {
    pub release_id: String,
    /// RFC3339 timestamp of when the download/ingest finished.
    pub download_date: String,
    /// Record counts for sanity checks.
    pub papers: u64,
    pub citations: u64,
}

/// The non-empty pieces of `s` between unit separators (U+001F).
pub open spec fn seed_pieces(s: Seq<char>) -> Seq<Seq<char>> {
    crate::api::filter_mapped(split(s, seq!['\u{1f}']), |p: Seq<char>| if p.len() > 0 { Some(p) } else { None })
}

/// The seeds a closure row links to: its aggregated seed list split on the
/// unit separator, empty pieces dropped; none when the list is missing.
pub fn split_linked_seeds(raw: &Option<String>) -> (r: Vec<String>)
    ensures
        strs_view(r@) == match raw { Some(s) => seed_pieces(s@), None => seq![] },
{
    match raw {
        None => {
            let r: Vec<String> = Vec::new();
            assert(strs_view(r@) =~= seq![]);
            r
        },
        Some(s) => {
            let sep = vec!['\u{1f}'];
            assert(sep@ =~= seq!['\u{1f}']);
            let parts = split_on(str_chars(s.as_str()).as_slice(), sep.as_slice());
            let ghost sp = split(s@, seq!['\u{1f}']);
            let ghost f = |p: Seq<char>| if p.len() > 0 { Some(p) } else { None };
            let mut out: Vec<String> = Vec::new();
            let mut i: usize = 0;
            assert(sp.subrange(0, 0) =~= Seq::<Seq<char>>::empty());
            assert(strs_view(out@) =~= crate::api::filter_mapped(sp.subrange(0, 0), f));
            while i < parts.len()
                invariant
                    i <= parts@.len(),
                    parts@.len() == sp.len(),
                    forall|k: int| 0 <= k < parts@.len() ==> (#[trigger] parts@[k])@ == sp[k],
                    f == (|p: Seq<char>| if p.len() > 0 { Some(p) } else { None }),
                    strs_view(out@) == crate::api::filter_mapped(sp.subrange(0, i as int), f),
                decreases parts@.len() - i,
            {
                let ghost prev = strs_view(out@);
                assert(sp.subrange(0, i + 1).drop_last() =~= sp.subrange(0, i as int));
                assert(sp.subrange(0, i + 1).last() == parts@[i as int]@);
                if parts[i].len() > 0 {
                    let t = string_from_chars(parts[i].as_slice());
                    let ghost tv = t@;
                    out.push(t);
                    assert(strs_view(out@) =~= prev + seq![tv]);
                } else {
                    assert(prev + Seq::<Seq<char>>::empty() =~= prev);
                }
                i = i + 1;
            }
            assert(sp.subrange(0, sp.len() as int) =~= sp);
            out
        },
    }
}

/// Materialise a dump row into a [`Paper`]: a missing title is empty, the
/// year and citation count are read as the unsigned values they store.
pub fn paper_from_row(
    id: String,
    title: Option<String>,
    abstract_text: Option<String>,
    year: Option<i32>,
    venue: Option<String>,
    citation_count: Option<i64>,
    external_ids: Option<String>,
) -> (r: Paper)
    ensures
        r.id@ == id@,
        r.title@ == match title { Some(t) => t@, None => seq![] },
        r.abstract_text == abstract_text,
        r.year == match year { Some(y) => Some(y as u32), None => None },
        r.venue == venue,
        r.citation_count == match citation_count { Some(c) => Some(c as u64), None => None },
        r.external_ids == external_ids,
{
    Paper {
        id: id,
        title: match title {
            Some(t) => t,
            None => String::new(),
        },
        abstract_text: abstract_text,
        year: match year {
            Some(y) => Some(#[verifier::truncate] (y as u32)),
            None => None,
        },
        venue: venue,
        citation_count: match citation_count {
            Some(c) => Some(#[verifier::truncate] (c as u64)),
            None => None,
        },
        external_ids: external_ids,
    }
}

} // verus!
