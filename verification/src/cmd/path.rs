//! Finding the shortest citation path between two papers.
//!
//! A bidirectional breadth-first search: from each end, the papers that a
//! paper cites and those that cite it are its neighbours, and the search
//! stops when the two sides meet. The caller fetches the neighbours; this
//! module keeps the two search trees and reads the path off them.
use vstd::prelude::*;
use crate::text::{str_eq, push_str, string_from_chars, u64_to_chars, decimal};
use crate::format::{truncate, truncated};

verus! {

/// Maximum hops to search in each direction before giving up.
pub const MAX_HOPS: usize = 5;

/// Maximum total API calls before giving up.
pub const MAX_API_CALLS: usize = 200;

/// A search tree: each node (in the order it was reached) with the node it
/// was reached from (none for the root).
pub type Tree = Vec<(String, Option<String>)>;

/// The view of a tree.
pub open spec fn tree_view(t: Seq<(String, Option<String>)>) -> Seq<(Seq<char>, Option<Seq<char>>)> {
    t.map_values(|e: (String, Option<String>)| (e.0@, crate::api::opt_view(e.1)))
}

/// The position of `id` in a tree, if it is there.
pub open spec fn pos_of(t: Seq<(Seq<char>, Option<Seq<char>>)>, id: Seq<char>) -> Option<int> {
    if exists|k: int| 0 <= k < t.len() && t[k].0 == id {
        Some(choose|k: int| 0 <= k < t.len() && t[k].0 == id && forall|j: int| 0 <= j < k ==> t[j].0 != id)
    } else {
        None
    }
}

/// A well-formed tree: the root first and without a parent, every other
/// node with one, no node twice, and each node's parent reached before it.
pub open spec fn tree_ok(t: Seq<(Seq<char>, Option<Seq<char>>)>) -> bool {
    &&& t.len() > 0
    &&& t[0].1 is None
    &&& forall|k: int| 0 < k < t.len() ==> (#[trigger] t[k]).1 is Some
    &&& forall|i: int, j: int| 0 <= i < j < t.len() ==> t[i].0 != t[j].0
    &&& forall|k: int| 0 <= k < t.len() && (#[trigger] t[k]).1 is Some ==> exists|j: int| 0 <= j < k && t[j].0 == t[k].1->0
}

/// The title last recorded for `id`, or the ID itself.
pub open spec fn title_of(titles: Seq<(Seq<char>, Seq<char>)>, id: Seq<char>) -> Seq<char>
    decreases titles.len(),
{
    if titles.len() == 0 {
        id
    } else if titles.last().0 == id {
        titles.last().1
    } else {
        title_of(titles.drop_last(), id)
    }
}

/// The nodes from the node at position `k` back to the root, following
/// parents (each strictly earlier in a well-formed tree).
pub open spec fn walk(t: Seq<(Seq<char>, Option<Seq<char>>)>, k: int) -> Seq<Seq<char>>
    decreases k,
{
    if k < 0 || k >= t.len() {
        seq![]
    } else {
        match t[k].1 {
            Some(p) => match pos_of(t, p) {
                Some(j) => if 0 <= j < k { seq![t[k].0] + walk(t, j) } else { seq![t[k].0] },
                None => seq![t[k].0],
            },
            None => seq![t[k].0],
        }
    }
}

/// A search from `a` to `b`: the two trees and the titles seen.
#[derive(Debug)]
pub struct PathSearch {
    pub tree_a: Tree,
    pub tree_b: Tree,
    pub titles: Vec<(String, String)>,
}

/// The views of a list of string pairs.
pub open spec fn titles_view(v: Seq<(String, String)>) -> Seq<(Seq<char>, Seq<char>)> {
    crate::cmd::clean::pairs_view(v)
}

/// A search whose trees are well formed.
pub open spec fn search_ok(s: PathSearch) -> bool {
    tree_ok(tree_view(s.tree_a@)) && tree_ok(tree_view(s.tree_b@))
}

/// Start a search between two papers: each tree holds its root.
pub fn new_search(a: &str, b: &str) -> (r: PathSearch)
    ensures
        search_ok(r),
        tree_view(r.tree_a@) == seq![(a@, None::<Seq<char>>)],
        tree_view(r.tree_b@) == seq![(b@, None::<Seq<char>>)],
        r.titles@.len() == 0,
{
    let mut ta: Tree = Vec::new();
    ta.push((a.to_owned(), None));
    let mut tb: Tree = Vec::new();
    tb.push((b.to_owned(), None));
    let r = PathSearch { tree_a: ta, tree_b: tb, titles: Vec::new() };
    assert(tree_view(r.tree_a@) =~= seq![(a@, None::<Seq<char>>)]);
    assert(tree_view(r.tree_b@) =~= seq![(b@, None::<Seq<char>>)]);
    r
}

fn find(t: &Tree, id: &str) -> (r: Option<usize>)
    ensures
        match pos_of(tree_view(t@), id@) {
            Some(k) => r matches Some(x) && x == k,
            None => r is None,
        },
{
    let ghost tv = tree_view(t@);
    let mut i: usize = 0;
    while i < t.len()
        invariant
            i <= t@.len(),
            tv == tree_view(t@),
            forall|j: int| 0 <= j < i ==> tv[j].0 != id@,
        decreases t@.len() - i,
    {
        assert(tv[i as int].0 == t@[i as int].0@);
        if str_eq(t[i].0.as_str(), id) {
            assert(pos_of(tv, id@) == Some(i as int)) by {
                let k = choose|k: int| 0 <= k < tv.len() && tv[k].0 == id@ && forall|j: int| 0 <= j < k ==> tv[j].0 != id@;
                assert(tv[i as int].0 == id@);
                if k < i {
                } else if k > i {
                    assert(tv[i as int].0 != id@);
                }
            }
            return Some(i);
        }
        i = i + 1;
    }
    None
}

fn title_exec(titles: &Vec<(String, String)>, id: &str) -> (r: String)
    ensures
        r@ == title_of(titles_view(titles@), id@),
{
    let ghost tv = titles_view(titles@);
    let mut i: usize = titles.len();
    assert(tv.subrange(0, tv.len() as int) =~= tv);
    while i > 0
        invariant
            i <= titles@.len(),
            tv == titles_view(titles@),
            title_of(tv, id@) == title_of(tv.subrange(0, i as int), id@),
        decreases i,
    {
        let ghost sub = tv.subrange(0, i as int);
        assert(sub.last() == (titles@[i - 1].0@, titles@[i - 1].1@));
        assert(sub.drop_last() =~= tv.subrange(0, i - 1));
        if str_eq(titles[i - 1].0.as_str(), id) {
            return titles[i - 1].1.clone();
        }
        i = i - 1;
    }
    id.to_owned()
}

/// One side of a search after taking in the neighbours `ns` of `from`: its
/// tree, the titles, the nodes for the next round, and where the two sides
/// met, if they did.
pub open spec fn absorbed(
    mine: Seq<(Seq<char>, Option<Seq<char>>)>,
    other: Seq<(Seq<char>, Option<Seq<char>>)>,
    titles: Seq<(Seq<char>, Seq<char>)>,
    next: Seq<Seq<char>>,
    from: Seq<char>,
    ns: Seq<(Seq<char>, Seq<char>)>,
) -> (Seq<(Seq<char>, Option<Seq<char>>)>, Seq<(Seq<char>, Seq<char>)>, Seq<Seq<char>>, Option<Seq<char>>)
    decreases ns.len(),
{
    if ns.len() == 0 {
        (mine, titles, next, None)
    } else {
        let id = ns[0].0;
        let titles2 = titles.push(ns[0]);
        let fresh = pos_of(mine, id) is None;
        let mine2 = if fresh { mine.push((id, Some(from))) } else { mine };
        let next2 = if fresh { next.push(id) } else { next };
        if pos_of(other, id) is Some {
            (mine2, titles2, next2, Some(id))
        } else {
            absorbed(mine2, other, titles2, next2, from, ns.drop_first())
        }
    }
}

/// Take in the neighbours of `from` on one side (`side_a` for the tree
/// grown from `a`): record each title, add each node not yet in that tree
/// (with `from` as its parent) to the tree and to `next`, and stop at the
/// first neighbour that the other tree already holds: where the two meet.
pub fn absorb(search: &mut PathSearch, side_a: bool, from: &str, neighbors: &Vec<(String, String)>, next: &mut Vec<String>) -> (r: Option<String>)
    requires
        search_ok(*old(search)),
        pos_of(tree_view(if side_a { old(search).tree_a@ } else { old(search).tree_b@ }), from@) is Some,
    ensures
        search_ok(*final(search)),
        side_a ==> final(search).tree_b@ == old(search).tree_b@,
        !side_a ==> final(search).tree_a@ == old(search).tree_a@,
        r matches Some(m) ==> pos_of(tree_view(final(search).tree_a@), m@) is Some && pos_of(tree_view(final(search).tree_b@), m@) is Some,
        ({
            let (mine, other) = if side_a { (old(search).tree_a@, old(search).tree_b@) } else { (old(search).tree_b@, old(search).tree_a@) };
            let (m2, t2, n2, met) = absorbed(tree_view(mine), tree_view(other), titles_view(old(search).titles@),
                crate::api::strs_view(old(next)@), from@, titles_view(neighbors@));
            &&& tree_view(if side_a { final(search).tree_a@ } else { final(search).tree_b@ }) == m2
            &&& titles_view(final(search).titles@) == t2
            &&& crate::api::strs_view(final(next)@) == n2
            &&& crate::api::opt_view(r) == met
        }),
{
    let ghost goal = absorbed(
        tree_view(if side_a { search.tree_a@ } else { search.tree_b@ }),
        tree_view(if side_a { search.tree_b@ } else { search.tree_a@ }),
        titles_view(search.titles@), crate::api::strs_view(next@), from@, titles_view(neighbors@));
    let ghost nv = titles_view(neighbors@);
    let mut i: usize = 0;
    assert(nv.subrange(0, nv.len() as int) =~= nv);
    while i < neighbors.len()
        invariant
            i <= neighbors@.len(),
            nv == titles_view(neighbors@),
            goal == absorbed(
                tree_view(if side_a { search.tree_a@ } else { search.tree_b@ }),
                tree_view(if side_a { search.tree_b@ } else { search.tree_a@ }),
                titles_view(search.titles@), crate::api::strs_view(next@), from@, nv.subrange(i as int, nv.len() as int)),
            goal == absorbed(
                tree_view(if side_a { old(search).tree_a@ } else { old(search).tree_b@ }),
                tree_view(if side_a { old(search).tree_b@ } else { old(search).tree_a@ }),
                titles_view(old(search).titles@), crate::api::strs_view(old(next)@), from@, nv),
            search_ok(*search),
            side_a ==> search.tree_b@ == old(search).tree_b@,
            !side_a ==> search.tree_a@ == old(search).tree_a@,
            pos_of(tree_view(if side_a { search.tree_a@ } else { search.tree_b@ }), from@) is Some,
        decreases neighbors@.len() - i,
    {
        let ghost rest = nv.subrange(i as int, nv.len() as int);
        assert(rest[0] == (neighbors@[i as int].0@, neighbors@[i as int].1@));
        assert(rest.drop_first() =~= nv.subrange(i + 1, nv.len() as int));
        let nid = &neighbors[i].0;
        let ghost tb = titles_view(search.titles@);
        search.titles.push((nid.clone(), neighbors[i].1.clone()));
        assert(titles_view(search.titles@) =~= tb.push(rest[0]));
        let ghost nb = crate::api::strs_view(next@);
        if side_a {
            if find(&search.tree_a, nid.as_str()).is_none() {
                add_child(&mut search.tree_a, nid.as_str(), from);
                next.push(nid.clone());
                assert(crate::api::strs_view(next@) =~= nb.push(nid@));
            }
            if find(&search.tree_b, nid.as_str()).is_some() {
                return Some(nid.clone());
            }
        } else {
            if find(&search.tree_b, nid.as_str()).is_none() {
                add_child(&mut search.tree_b, nid.as_str(), from);
                next.push(nid.clone());
                assert(crate::api::strs_view(next@) =~= nb.push(nid@));
            }
            if find(&search.tree_a, nid.as_str()).is_some() {
                return Some(nid.clone());
            }
        }
        i = i + 1;
    }
    assert(nv.subrange(i as int, nv.len() as int) =~= Seq::<(Seq<char>, Seq<char>)>::empty());
    None
}

/// Append `id` with parent `parent` to a tree that lacks it and holds the
/// parent: the tree stays well formed.
fn add_child(t: &mut Tree, id: &str, parent: &str)
    requires
        tree_ok(tree_view(old(t)@)),
        pos_of(tree_view(old(t)@), id@) is None,
        pos_of(tree_view(old(t)@), parent@) is Some,
    ensures
        tree_ok(tree_view(final(t)@)),
        tree_view(final(t)@) == tree_view(old(t)@).push((id@, Some(parent@))),
        pos_of(tree_view(final(t)@), id@) is Some,
        forall|x: Seq<char>| pos_of(tree_view(old(t)@), x) is Some ==> pos_of(tree_view(final(t)@), x) is Some,
{
    let ghost tv = tree_view(t@);
    t.push((id.to_owned(), Some(parent.to_owned())));
    let ghost nv = tree_view(t@);
    assert(nv =~= tv.push((id@, Some(parent@))));
    proof {
        let pk = pos_of(tv, parent@)->0;
        assert(tv[pk].0 == parent@);
        assert forall|i: int, j: int| 0 <= i < j < nv.len() implies nv[i].0 != nv[j].0 by {
            if j == tv.len() {
                assert(nv[i] == tv[i]);
                if tv[i].0 == id@ {
                    assert(exists|k: int| 0 <= k < tv.len() && tv[k].0 == id@);
                }
            } else {
                assert(nv[i] == tv[i] && nv[j] == tv[j]);
            }
        }
        assert(nv[0] == tv[0]);
        assert forall|k: int| 0 < k < nv.len() implies (#[trigger] nv[k]).1 is Some by {
            if k < tv.len() {
                assert(nv[k] == tv[k]);
            }
        }
        assert forall|k: int| 0 <= k < nv.len() && (#[trigger] nv[k]).1 is Some implies exists|j: int| 0 <= j < k && nv[j].0 == nv[k].1->0 by {
            if k == tv.len() {
                assert(nv[pk].0 == parent@);
            } else {
                assert(nv[k] == tv[k]);
                let j = choose|j: int| 0 <= j < k && tv[j].0 == tv[k].1->0;
                assert(nv[j] == tv[j]);
            }
        }
        assert(nv[tv.len() as int].0 == id@);
        assert(exists|k: int| 0 <= k < nv.len() && nv[k].0 == id@);
        assert forall|x: Seq<char>| pos_of(tv, x) is Some implies pos_of(nv, x) is Some by {
            let k = choose|k: int| 0 <= k < tv.len() && tv[k].0 == x;
            assert(nv[k] == tv[k]);
        }
    }
}


/// In a well-formed tree the parent of a node other than the root stands
/// at a strictly earlier position.
proof fn lemma_parent_before(t: Seq<(Seq<char>, Option<Seq<char>>)>, k: int)
    requires
        tree_ok(t),
        0 < k < t.len(),
    ensures
        t[k].1 is Some,
        pos_of(t, t[k].1->0) matches Some(j) && 0 <= j < k,
{
    let p = t[k].1->0;
    let j = choose|j: int| 0 <= j < k && t[j].0 == p;
    assert(exists|x: int| 0 <= x < t.len() && t[x].0 == p);
    let c = choose|c: int| 0 <= c < t.len() && t[c].0 == p && forall|i: int| 0 <= i < c ==> t[i].0 != p;
    if c != j {
        if c < j {
            assert(t[c].0 != t[j].0);
        } else {
            assert(t[j].0 != t[c].0);
        }
    }
}

/// The walk from any node of a well-formed tree starts at that node and
/// ends at the root.
pub proof fn lemma_walk_ends_at_root(t: Seq<(Seq<char>, Option<Seq<char>>)>, k: int)
    requires
        tree_ok(t),
        0 <= k < t.len(),
    ensures
        walk(t, k).len() >= 1,
        walk(t, k)[0] == t[k].0,
        walk(t, k).last() == t[0].0,
    decreases k,
{
    if k > 0 {
        lemma_parent_before(t, k);
        let j = pos_of(t, t[k].1->0)->0;
        lemma_walk_ends_at_root(t, j);
    }
}

/// The nodes of the path through `meeting`: from the root of `ta` down to
/// `meeting`, then on to the root of `tb`.
pub open spec fn path_ids(
    ta: Seq<(Seq<char>, Option<Seq<char>>)>,
    tb: Seq<(Seq<char>, Option<Seq<char>>)>,
    meeting: Seq<char>,
) -> Seq<Seq<char>> {
    walk(ta, pos_of(ta, meeting)->0).reverse() + walk(tb, pos_of(tb, meeting)->0).drop_first()
}

/// Each node with its title.
pub open spec fn titled(titles: Seq<(Seq<char>, Seq<char>)>, ids: Seq<Seq<char>>) -> Seq<(Seq<char>, Seq<char>)> {
    ids.map_values(|id: Seq<char>| (id, title_of(titles, id)))
}

fn walk_exec(t: &Tree, k0: usize) -> (r: Vec<String>)
    requires
        tree_ok(tree_view(t@)),
        k0 < t@.len(),
    ensures
        crate::api::strs_view(r@) == walk(tree_view(t@), k0 as int),
{
    let ghost tv = tree_view(t@);
    let mut out: Vec<String> = Vec::new();
    let mut k: usize = k0;
    assert(walk(tv, k0 as int) =~= crate::api::strs_view(out@) + walk(tv, k as int));
    loop
        invariant
            tv == tree_view(t@),
            tree_ok(tv),
            k < t@.len(),
            walk(tv, k0 as int) == crate::api::strs_view(out@) + walk(tv, k as int),
        decreases k,
    {
        let ghost before = crate::api::strs_view(out@);
        assert(tv[k as int] == (t@[k as int].0@, crate::api::opt_view(t@[k as int].1)));
        out.push(t[k].0.clone());
        assert(crate::api::strs_view(out@) =~= before.push(tv[k as int].0));
        match &t[k].1 {
            Some(p) => {
                match find(t, p.as_str()) {
                    Some(j) => {
                        if j < k {
                            assert(walk(tv, k as int) == seq![tv[k as int].0] + walk(tv, j as int));
                            assert(walk(tv, k0 as int) =~= crate::api::strs_view(out@) + walk(tv, j as int));
                            k = j;
                        } else {
                            assert(walk(tv, k as int) == seq![tv[k as int].0]);
                            assert(walk(tv, k0 as int) =~= crate::api::strs_view(out@));
                            return out;
                        }
                    },
                    None => {
                        assert(walk(tv, k0 as int) =~= crate::api::strs_view(out@));
                        return out;
                    },
                }
            },
            None => {
                assert(walk(tv, k0 as int) =~= crate::api::strs_view(out@));
                return out;
            },
        }
    }
}

/// The path between the two papers of a search through `meeting`, a node
/// of both trees: each node with its last recorded title (or its ID). It
/// runs from the root of the first tree, through `meeting`, to the root of
/// the second.
pub fn reconstruct_path(search: &PathSearch, meeting: &str) -> (r: Vec<(String, String)>)
    requires
        search_ok(*search),
        pos_of(tree_view(search.tree_a@), meeting@) is Some,
        pos_of(tree_view(search.tree_b@), meeting@) is Some,
    ensures
        titles_view(r@) == titled(titles_view(search.titles@),
            path_ids(tree_view(search.tree_a@), tree_view(search.tree_b@), meeting@)),
        r@.len() >= 1,
        r@[0].0@ == search.tree_a@[0].0@,
        r@.last().0@ == search.tree_b@[0].0@,
        exists|i: int| 0 <= i < r@.len() && r@[i].0@ == meeting@,
{
    let ghost ta = tree_view(search.tree_a@);
    let ghost tb = tree_view(search.tree_b@);
    let ghost tt = titles_view(search.titles@);
    let ka = match find(&search.tree_a, meeting) { Some(k) => k, None => { return Vec::new(); } };
    let kb = match find(&search.tree_b, meeting) { Some(k) => k, None => { return Vec::new(); } };
    let wa = walk_exec(&search.tree_a, ka);
    let wb = walk_exec(&search.tree_b, kb);
    let ghost ids = path_ids(ta, tb, meeting@);
    let ghost wav = crate::api::strs_view(wa@);
    let ghost wbv = crate::api::strs_view(wb@);
    proof {
        lemma_walk_ends_at_root(ta, ka as int);
        lemma_walk_ends_at_root(tb, kb as int);
        assert(ids =~= wav.reverse() + wbv.drop_first());
    }
    let mut out: Vec<(String, String)> = Vec::new();
    let mut i: usize = wa.len();
    while i > 0
        invariant
            i <= wa@.len(),
            wav == crate::api::strs_view(wa@),
            tt == titles_view(search.titles@),
            titles_view(out@) == titled(tt, wav.reverse().subrange(0, wa@.len() - i)),
        decreases i,
    {
        let ghost before = titles_view(out@);
        let t = title_exec(&search.titles, wa[i - 1].as_str());
        out.push((wa[i - 1].clone(), t));
        let ghost n = wa@.len() - i;
        assert(wav.reverse()[n] == wav[i - 1]);
        assert(wav[i - 1] == wa@[i - 1]@);
        assert(titles_view(out@) =~= before.push((wav[i - 1], title_of(tt, wav[i - 1]))));
        assert(wav.reverse().subrange(0, n + 1) =~= wav.reverse().subrange(0, n).push(wav[i - 1]));
        assert(titles_view(out@) =~= titled(tt, wav.reverse().subrange(0, n + 1)));
        i = i - 1;
    }
    assert(wav.reverse().subrange(0, wa@.len() as int) =~= wav.reverse());
    let mut j: usize = 1;
    while j < wb.len()
        invariant
            1 <= j <= wb@.len() || (j == 1 && wb@.len() == 0),
            wbv == crate::api::strs_view(wb@),
            wav.len() == wa@.len(),
            tt == titles_view(search.titles@),
            titles_view(out@) == titled(tt, wav.reverse() + wbv.drop_first().subrange(0, j - 1)),
        decreases wb@.len() - j,
    {
        let ghost before = titles_view(out@);
        let t = title_exec(&search.titles, wb[j].as_str());
        out.push((wb[j].clone(), t));
        assert(wbv[j as int] == wb@[j as int]@);
        assert(titles_view(out@) =~= before.push((wbv[j as int], title_of(tt, wbv[j as int]))));
        assert(wav.reverse() + wbv.drop_first().subrange(0, j as int)
            =~= (wav.reverse() + wbv.drop_first().subrange(0, j - 1)).push(wbv[j as int]));
        assert(titles_view(out@) =~= titled(tt, wav.reverse() + wbv.drop_first().subrange(0, j as int)));
        j = j + 1;
    }
    assert(wbv.drop_first().subrange(0, wbv.len() - 1) =~= wbv.drop_first());
    proof {
        let ov = titles_view(out@);
        assert(ov == titled(tt, ids));
        assert(ov.len() == ids.len());
        assert(ov[0].0 == ids[0]);
        assert(ids[0] == wav.last());
        assert(ov.last().0 == ids.last());
        if wbv.len() > 1 {
            assert(ids.last() == wbv.last());
        } else {
            assert(ids.last() == wav[0]);
        }
        let m = (wav.len() - 1) as int;
        assert(ov[m].0 == ids[m]);
        assert(ids[m] == wav[0]);
        assert(out@[m].0@ == ov[m].0);
        assert(out@[0].0@ == ov[0].0);
        assert(out@.last().0@ == ov.last().0);
        assert(tree_view(search.tree_a@)[0].0 == search.tree_a@[0].0@);
        assert(tree_view(search.tree_b@)[0].0 == search.tree_b@[0].0@);
    }
    out
}


/// Two spaces for each level of indentation.
pub open spec fn indent(n: nat) -> Seq<char>
    decreases n,
{
    if n == 0 { seq![] } else { "  "@ + indent((n - 1) as nat) }
}

/// The first line of a printed path.
pub open spec fn path_header(hops: nat) -> Seq<char> {
    "Shortest path: "@ + decimal(hops) + " hop"@ + (if hops == 1 { ""@ } else { "s"@ })
}

/// The printed line for the `i`-th node of a path: its title cut to 70
/// characters and its ID, each node after the first indented one level
/// deeper than the one before and marked with an arrow.
pub open spec fn path_line(i: nat, id: Seq<char>, title: Seq<char>) -> Seq<char> {
    if i == 0 {
        "  "@ + truncated(title, 70) + " ("@ + id + ")"@
    } else {
        "  "@ + indent((i - 1) as nat) + " \u{2192} "@ + truncated(title, 70) + " ("@ + id + ")"@
    }
}

fn path_line_exec(i: usize, id: &str, title: &str) -> (r: String)
    ensures
        r@ == path_line(i as nat, id@, title@),
{
    let mut v: Vec<char> = Vec::new();
    push_str(&mut v, "  ");
    proof { reveal_strlit("  "); }
    if i > 0 {
        let mut k: usize = 0;
        while k < i - 1
            invariant
                k <= i - 1,
                v@ == "  "@ + indent(k as nat),
            decreases i - 1 - k,
        {
            push_str(&mut v, "  ");
            proof {
                reveal_strlit("  ");
                lemma_indent_push(k as nat);
            }
            assert(v@ =~= "  "@ + indent((k + 1) as nat));
            k = k + 1;
        }
        push_str(&mut v, " \u{2192} ");
    }
    let t = truncate(title, 70);
    push_str(&mut v, t.as_str());
    push_str(&mut v, " (");
    push_str(&mut v, id);
    push_str(&mut v, ")");
    assert(v@ =~= path_line(i as nat, id@, title@));
    string_from_chars(v.as_slice())
}

proof fn lemma_indent_push(n: nat)
    ensures
        indent(n + 1) == indent(n) + "  "@,
    decreases n,
{
    reveal_strlit("  ");
    if n > 0 {
        lemma_indent_push((n - 1) as nat);
        assert(indent(n + 1) =~= "  "@ + indent(n));
        assert(indent(n) =~= "  "@ + indent((n - 1) as nat));
    } else {
        assert(indent(1) =~= "  "@ + indent(0));
    }
}

/// The lines printed for a path: the number of hops, a blank line, then one
/// line per node.
pub fn path_lines(path: &Vec<(String, String)>) -> (r: Vec<String>)
    requires
        path@.len() >= 1,
    ensures
        r@.len() == path@.len() + 2,
        r@[0]@ == path_header((path@.len() - 1) as nat),
        r@[1]@ == Seq::<char>::empty(),
        forall|i: int| 0 <= i < path@.len() ==> #[trigger] r@[i + 2]@ == path_line(i as nat, path@[i].0@, path@[i].1@),
{
    let hops: usize = path.len() - 1;
    let mut h: Vec<char> = Vec::new();
    push_str(&mut h, "Shortest path: ");
    let d = u64_to_chars(hops as u64);
    crate::text::push_all(&mut h, d.as_slice());
    push_str(&mut h, " hop");
    if hops != 1 {
        push_str(&mut h, "s");
    }
    proof { reveal_strlit(""); }
    assert(h@ =~= path_header(hops as nat));
    let mut out: Vec<String> = Vec::new();
    out.push(string_from_chars(h.as_slice()));
    out.push(String::new());
    let mut i: usize = 0;
    while i < path.len()
        invariant
            i <= path@.len(),
            out@.len() == i + 2,
            out@[0]@ == path_header((path@.len() - 1) as nat),
            out@[1]@ == Seq::<char>::empty(),
            forall|j: int| 0 <= j < i ==> #[trigger] out@[j + 2]@ == path_line(j as nat, path@[j].0@, path@[j].1@),
        decreases path@.len() - i,
    {
        let line = path_line_exec(i, path[i].0.as_str(), path[i].1.as_str());
        out.push(line);
        i = i + 1;
    }
    out
}

} // verus!
