//! Reading a paper directory's `source.yaml` back into a database row.
use vstd::prelude::*;
use crate::api::{filter_mapped, opt_view, strs_view};
use crate::db::{PaperRow, PaperRowV, empty_row, json_text_of_names, names_to_json};
use crate::text::{index_of, index_of_exec, lines_exec, lines_of, slice_vec, split, split_on, str_chars, str_eq, string_from_chars, trim, trim_vec};

verus! {

/// The key and value of a `source.yaml` line: the text around its first
/// colon, trimmed, the value without surrounding double quotes; nothing for
/// a blank line, a comment or a line without a colon.
pub open spec fn yaml_pair(line: Seq<char>) -> Option<(Seq<char>, Seq<char>)> {
    let t = trim(line);
    let i = index_of(t, ':');
    if t.len() == 0 || t[0] == '#' || i >= t.len() {
        None
    } else {
        let v = trim(t.subrange(i + 1, t.len() as int));
        let value = if v.len() >= 2 && v[0] == '"' && v.last() == '"' { v.subrange(1, v.len() - 1) } else { v };
        Some((trim(t.subrange(0, i)), value))
    }
}

/// The key-value lines of a `source.yaml`, in order.
pub open spec fn yaml_pairs(content: Seq<char>) -> Seq<(Seq<char>, Seq<char>)> {
    filter_mapped(lines_of(content), |l: Seq<char>| yaml_pair(l))
}

/// The value of the last pair whose key is `k1` or `k2`.
pub open spec fn last_value(ps: Seq<(Seq<char>, Seq<char>)>, k1: Seq<char>, k2: Seq<char>) -> Option<Seq<char>>
    decreases ps.len(),
{
    if ps.len() == 0 {
        None
    } else if ps.last().0 == k1 || ps.last().0 == k2 {
        Some(ps.last().1)
    } else {
        last_value(ps.drop_last(), k1, k2)
    }
}

fn yaml_pair_exec(line: &[char]) -> (r: Option<(String, String)>)
    ensures
        match yaml_pair(line@) {
            Some((k, v)) => r matches Some(p) && p.0@ == k && p.1@ == v,
            None => r is None,
        },
{
    let t = trim_vec(line);
    if t.len() == 0 || t[0] == '#' {
        return None;
    }
    proof {
        crate::text::lemma_index_of(t@, ':');
    }
    let i = index_of_exec(&t, 0, t.len(), ':');
    assert(t@.subrange(0, t@.len() as int) =~= t@);
    if i >= t.len() {
        return None;
    }
    let key = trim_vec(slice_vec(t.as_slice(), 0, i).as_slice());
    let v = trim_vec(slice_vec(t.as_slice(), i + 1, t.len()).as_slice());
    let value = if v.len() >= 2 && v[0] == '"' && v[v.len() - 1] == '"' {
        slice_vec(v.as_slice(), 1, v.len() - 1)
    } else {
        v
    };
    Some((string_from_chars(key.as_slice()), string_from_chars(value.as_slice())))
}

fn yaml_pairs_exec(content: &str) -> (r: Vec<(String, String)>)
    ensures
        crate::cmd::clean::pairs_view(r@) == yaml_pairs(content@),
{
    let ls = lines_exec(content);
    let ghost lv = lines_of(content@);
    let ghost f = |l: Seq<char>| yaml_pair(l);
    let mut out: Vec<(String, String)> = Vec::new();
    let mut i: usize = 0;
    assert(lv.subrange(0, 0) =~= Seq::<Seq<char>>::empty());
    assert(crate::cmd::clean::pairs_view(out@) =~= filter_mapped(lv.subrange(0, 0), f));
    while i < ls.len()
        invariant
            i <= ls@.len(),
            ls@.len() == lv.len(),
            lv == lines_of(content@),
            forall|k: int| 0 <= k < ls@.len() ==> (#[trigger] ls@[k])@ == lv[k],
            f == (|l: Seq<char>| yaml_pair(l)),
            crate::cmd::clean::pairs_view(out@) == filter_mapped(lv.subrange(0, i as int), f),
        decreases ls@.len() - i,
    {
        let ghost prev = crate::cmd::clean::pairs_view(out@);
        assert(lv.subrange(0, i + 1).drop_last() =~= lv.subrange(0, i as int));
        assert(lv.subrange(0, i + 1).last() == ls@[i as int]@);
        match yaml_pair_exec(ls[i].as_slice()) {
            Some(p) => {
                let ghost pv = (p.0@, p.1@);
                out.push(p);
                assert(crate::cmd::clean::pairs_view(out@) =~= prev + seq![pv]);
            },
            None => {
                assert(prev + Seq::<(Seq<char>, Seq<char>)>::empty() =~= prev);
            },
        }
        i = i + 1;
    }
    assert(lv.subrange(0, lv.len() as int) =~= lv);
    out
}

fn last_value_exec(ps: &Vec<(String, String)>, k1: &str, k2: &str) -> (r: Option<String>)
    ensures
        opt_view(r) == last_value(crate::cmd::clean::pairs_view(ps@), k1@, k2@),
{
    let ghost pv = crate::cmd::clean::pairs_view(ps@);
    let mut i: usize = ps.len();
    assert(pv.subrange(0, pv.len() as int) =~= pv);
    while i > 0
        invariant
            i <= ps@.len(),
            pv == crate::cmd::clean::pairs_view(ps@),
            last_value(pv, k1@, k2@) == last_value(pv.subrange(0, i as int), k1@, k2@),
        decreases i,
    {
        let ghost sub = pv.subrange(0, i as int);
        assert(sub.last() == (ps@[i - 1].0@, ps@[i - 1].1@));
        assert(sub.drop_last() =~= pv.subrange(0, i - 1));
        if str_eq(ps[i - 1].0.as_str(), k1) || str_eq(ps[i - 1].0.as_str(), k2) {
            return Some(ps[i - 1].1.clone());
        }
        i = i - 1;
    }
    None
}

/// The author names of a `source.yaml` authors line: the pieces between
/// ` and `, trimmed.
pub open spec fn yaml_names(a: Seq<char>) -> Seq<Seq<char>> {
    split(a, " and "@).map_values(|n: Seq<char>| trim(n))
}

/// The database row a `source.yaml` describes, stored under `local_path`.
pub open spec fn source_row(content: Seq<char>, local_path: Seq<char>) -> PaperRowV {
    let ps = yaml_pairs(content);
    PaperRowV {
        title: match last_value(ps, "title"@, "title"@) { Some(t) => t, None => "unknown"@ },
        authors: match last_value(ps, "authors"@, "author"@) {
            Some(a) => json_text_of_names(yaml_names(a)),
            None => "[]"@,
        },
        year: last_value(ps, "year"@, "year"@),
        arxiv_id: last_value(ps, "arxiv"@, "arxiv"@),
        doi: last_value(ps, "doi"@, "doi"@),
        journal: last_value(ps, "journal"@, "journal"@),
        volume: last_value(ps, "volume"@, "volume"@),
        number: last_value(ps, "number"@, "number"@),
        pages: last_value(ps, "pages"@, "pages"@),
        url: last_value(ps, "url"@, "url"@),
        publisher: last_value(ps, "publisher"@, "publisher"@),
        booktitle: last_value(ps, "booktitle"@, "booktitle"@),
        local_path: Some(local_path),
        ..empty_row()
    }
}

fn one(ps: &Vec<(String, String)>, k: &str) -> (r: Option<String>)
    ensures
        opt_view(r) == last_value(crate::cmd::clean::pairs_view(ps@), k@, k@),
{
    last_value_exec(ps, k, k)
}

/// Parse a `source.yaml` into a database row stored under `local_path`:
/// the last value of each known key, the authors as a JSON array of the
/// names between ` and `, the title `unknown` when there is none.
pub fn parse_source_yaml(content: &str, local_path: &str) -> (r: PaperRow)
    ensures
        r@ == source_row(content@, local_path@),
{
    proof {
        reveal_strlit("unknown");
        reveal_strlit(" and ");
    }
    let ps = yaml_pairs_exec(content);
    let title = match one(&ps, "title") {
        Some(t) => t,
        None => "unknown".to_owned(),
    };
    let authors = match last_value_exec(&ps, "authors", "author") {
        Some(a) => {
            let parts = split_on(str_chars(a.as_str()).as_slice(), str_chars(" and ").as_slice());
            let mut names: Vec<String> = Vec::new();
            let mut i: usize = 0;
            while i < parts.len()
                invariant
                    i <= parts@.len(),
                    parts@.len() == split(a@, " and "@).len(),
                    forall|k: int| 0 <= k < parts@.len() ==> (#[trigger] parts@[k])@ == split(a@, " and "@)[k],
                    strs_view(names@) == yaml_names(a@).subrange(0, i as int),
                decreases parts@.len() - i,
            {
                let ghost prev = strs_view(names@);
                let t = string_from_chars(trim_vec(parts[i].as_slice()).as_slice());
                let ghost tv = t@;
                names.push(t);
                assert(strs_view(names@) =~= prev.push(tv));
                assert(strs_view(names@) =~= yaml_names(a@).subrange(0, i + 1));
                i = i + 1;
            }
            assert(yaml_names(a@).subrange(0, parts@.len() as int) =~= yaml_names(a@));
            names_to_json(&names)
        },
        None => "[]".to_owned(),
    };
    let r = PaperRow {
        title: title,
        authors: authors,
        year: one(&ps, "year"),
        arxiv_id: one(&ps, "arxiv"),
        doi: one(&ps, "doi"),
        journal: one(&ps, "journal"),
        volume: one(&ps, "volume"),
        number: one(&ps, "number"),
        pages: one(&ps, "pages"),
        url: one(&ps, "url"),
        publisher: one(&ps, "publisher"),
        booktitle: one(&ps, "booktitle"),
        local_path: Some(local_path.to_owned()),
        id: None,
        entry_type: None,
        isbn: None,
        s2_id: None,
        openalex_id: None,
        abstract_text: None,
        pdf_url: None,
        categories: None,
        citation_count: None,
    };
    r
}

/// `s` cut to `max` characters with `...` appended when it was longer.
pub open spec fn truncated_str(s: Seq<char>, max: nat) -> Seq<char> {
    if s.len() <= max { s } else { s.subrange(0, max as int) + "..."@ }
}

/// Cut a string to `max` characters, appending `...` when it was longer.
pub fn truncate_str(s: &str, max: usize) -> (r: String)
    ensures
        r@ == truncated_str(s@, max as nat),
{
    let c = str_chars(s);
    if c.len() <= max {
        return s.to_owned();
    }
    let mut t = slice_vec(c.as_slice(), 0, max);
    crate::text::push_str(&mut t, "...");
    string_from_chars(t.as_slice())
}

} // verus!
