//! arXiv API: query URLs and the Atom feed parser.
use vstd::prelude::*;
use vstd::string::StringSliceAdditionalSpecFns;
use vstd::string::StringExecFns;
use vstd::utf8::{decode_utf8, encode_utf8, is_char_boundary, encode_utf8_decode_utf8, encode_utf8_valid_utf8};
use crate::api::{cat2, strs_view, opt_view, PaperResult, PaperV, empty_paper};
use crate::format::{floor_char_boundary, safe_truncate};
use crate::text::{
    has_prefix, is_digit, is_digit_exec, join, occurs_at, trim, trim_vec, str_chars, string_from_chars, slice_vec,
    strip_prefix_str, starts_with_str, matches_at, words, split_words, join_vecs, push_str, chars_eq, eq_str, has_char,
};
use crate::xml::{
    XmlEvent, XmlEventV, attrs_view, bytes_are, event_text, events_view, lossy_utf8, read_xml_events, text_value, utf8_lossy,
    xml_events,
};

verus! {

/// Build URL for querying a single arXiv paper by ID.
pub fn query_url(arxiv_id: &str) -> (r: String)
    ensures
        r@ == "https://export.arxiv.org/api/query?id_list="@ + arxiv_id@,
{
    cat2("https://export.arxiv.org/api/query?id_list=", arxiv_id)
}

/// The last place at or before `i` where `pat` occurs in `s`.
pub open spec fn last_occurrence(s: Seq<char>, pat: Seq<char>, i: int) -> Option<int>
    decreases i + 1,
{
    if i < 0 {
        None
    } else if occurs_at(s, pat, i) {
        Some(i)
    } else {
        last_occurrence(s, pat, i - 1)
    }
}

/// The last position of `c` in `s`.
pub open spec fn last_index_of(s: Seq<char>, c: char) -> Option<int> {
    last_occurrence(s, seq![c], s.len() - 1)
}

pub(crate) fn last_occurrence_exec(s: &[char], pat: &[char]) -> (r: Option<usize>)
    ensures
        match r {
            Some(i) => last_occurrence(s@, pat@, s@.len() - pat@.len()) == Some(i as int) && i + pat@.len() <= s@.len(),
            None => last_occurrence(s@, pat@, s@.len() - pat@.len()) is None,
        },
{
    if pat.len() > s.len() {
        return None;
    }
    let mut i: usize = s.len() - pat.len();
    loop
        invariant
            i <= s@.len() - pat@.len(),
            pat@.len() <= s@.len(),
            last_occurrence(s@, pat@, s@.len() - pat@.len()) == last_occurrence(s@, pat@, i as int),
        decreases i,
    {
        if matches_at(s, i, pat) {
            return Some(i);
        }
        if i == 0 {
            return None;
        }
        i = i - 1;
    }
}

/// The local part of a qualified name: what follows its last `:`.
pub open spec fn local_name(name: Seq<u8>) -> Seq<u8>
    decreases name.len(),
{
    if name.len() == 0 {
        name
    } else if name.last() == 58u8 {
        seq![]
    } else {
        local_name(name.drop_last()).push(name.last())
    }
}

/// The local part of a qualified name (`:` is byte 58).
pub fn local_name_exec(name: &[u8]) -> (r: Vec<u8>)
    ensures
        r@ == local_name(name@),
{
    let n = name.len();
    let mut i = n;
    assert(name@.subrange(0, n as int) =~= name@);
    assert(name@.subrange(n as int, n as int) =~= Seq::<u8>::empty());
    assert(local_name(name@) + Seq::<u8>::empty() =~= local_name(name@));
    while i > 0 && name[i - 1] != 58u8
        invariant
            i <= n == name@.len(),
            local_name(name@) == local_name(name@.subrange(0, i as int)) + name@.subrange(i as int, n as int),
        decreases i,
    {
        let ghost pre = name@.subrange(0, i as int);
        assert(pre.drop_last() =~= name@.subrange(0, i - 1));
        assert(name@.subrange(i - 1, n as int) =~= seq![name@[i - 1]] + name@.subrange(i as int, n as int));
        assert(local_name(pre) == local_name(pre.drop_last()).push(name@[i - 1]));
        assert(local_name(pre.drop_last()).push(name@[i - 1]) + name@.subrange(i as int, n as int)
            =~= local_name(pre.drop_last()) + name@.subrange(i - 1, n as int));
        i = i - 1;
    }
    proof {
        if i == 0 {
            assert(name@.subrange(0, 0) =~= Seq::<u8>::empty());
        } else {
            assert(name@.subrange(0, i as int).last() == 58u8);
        }
        assert(name@.subrange(0, n as int) =~= name@);
    }
    let mut out: Vec<u8> = Vec::new();
    let mut k = i;
    while k < n
        invariant
            i <= k <= n == name@.len(),
            out@ == name@.subrange(i as int, k as int),
        decreases n - k,
    {
        out.push(name[k]);
        assert(out@ =~= name@.subrange(i as int, k + 1));
        k = k + 1;
    }
    out
}

proof fn lemma_last_occurrence(s: Seq<char>, pat: Seq<char>, i: int)
    ensures
        match last_occurrence(s, pat, i) {
            Some(j) => j <= i && occurs_at(s, pat, j),
            None => true,
        },
    decreases i + 1,
{
    if i >= 0 && !occurs_at(s, pat, i) {
        lemma_last_occurrence(s, pat, i - 1);
    }
}

/// An arXiv identifier without a trailing version suffix like `v2`.
pub open spec fn version_stripped(s: Seq<char>) -> Seq<char> {
    match last_index_of(s, 'v') {
        Some(p) => if p > 0 && p + 1 < s.len() && (forall|k: int| p + 1 <= k < s.len() ==> is_digit(#[trigger] s[k])) {
            s.subrange(0, p)
        } else {
            s
        },
        None => s,
    }
}

/// Remove a trailing version suffix like `v2` from an arXiv ID.
pub fn strip_version(s: &[char]) -> (r: Vec<char>)
    ensures
        r@ == version_stripped(s@),
{
    let _n = s.len();
    let v = vec!['v'];
    assert(v@ =~= seq!['v']);
    match last_occurrence_exec(s, v.as_slice()) {
        Some(p) => {
            proof {
                lemma_last_occurrence(s@, seq!['v'], s@.len() - 1);
            }
            if p > 0 && p + 1 < s.len() {
                let mut k = p + 1;
                while k < s.len()
                    invariant
                        p + 1 <= k <= s@.len(),
                        0 < p,
                        last_index_of(s@, 'v') == Some(p as int),
                        forall|t: int| p + 1 <= t < k ==> is_digit(#[trigger] s@[t]),
                    decreases s@.len() - k,
                {
                    if !is_digit_exec(s[k]) {
                        assert(!is_digit(s@[k as int]));
                        return slice_vec(s, 0, s.len());
                    }
                    k = k + 1;
                }
                slice_vec(s, 0, p)
            } else {
                slice_vec(s, 0, s.len())
            }
        },
        None => slice_vec(s, 0, s.len()),
    }
}

/// The raw identifier of an entry's `<id>` URL: what follows the arXiv
/// abstract prefix, else what follows the last `/abs/`, else the last path
/// segment.
pub open spec fn raw_arxiv_id(id: Seq<char>) -> Seq<char> {
    let t = trim(id);
    if has_prefix(t, "http://arxiv.org/abs/"@) {
        t.subrange("http://arxiv.org/abs/"@.len() as int, t.len() as int)
    } else if has_prefix(t, "https://arxiv.org/abs/"@) {
        t.subrange("https://arxiv.org/abs/"@.len() as int, t.len() as int)
    } else {
        match last_occurrence(id, "/abs/"@, id.len() - 5) {
            Some(p) => id.subrange(p + 5, id.len() as int),
            None => match last_index_of(id, '/') {
                Some(q) => id.subrange(q + 1, id.len() as int),
                None => id,
            },
        }
    }
}

/// A clean arXiv identifier from an entry's `<id>` URL, version removed.
pub open spec fn arxiv_id_of(id: Seq<char>) -> Seq<char> {
    version_stripped(raw_arxiv_id(id))
}

/// Extract a clean arXiv ID from the entry's `<id>` URL.
///
/// Handles both new-style (`http://arxiv.org/abs/2006.11239v2` →
/// `2006.11239`) and old-style (`http://arxiv.org/abs/hep-ph/0601001v1` →
/// `hep-ph/0601001`) IDs.
pub fn extract_arxiv_id(id_url: &str) -> (r: String)
    ensures
        r@ == arxiv_id_of(id_url@),
{
    proof {
        reveal_strlit("/abs/");
    }
    let c = str_chars(id_url);
    let _n = c.len();
    let t = trim_vec(c.as_slice());
    let raw: Vec<char> = match strip_prefix_str(t.as_slice(), "http://arxiv.org/abs/") {
        Some(r) => r,
        None => match strip_prefix_str(t.as_slice(), "https://arxiv.org/abs/") {
            Some(r) => r,
            None => {
                let abs = str_chars("/abs/");
                assert(abs@.len() == 5);
                match last_occurrence_exec(c.as_slice(), abs.as_slice()) {
                    Some(p) => {
                        proof {
                            lemma_last_occurrence(c@, "/abs/"@, c@.len() - 5);
                        }
                        slice_vec(c.as_slice(), p + 5, c.len())
                    },
                    None => {
                        let slash = vec!['/'];
                        assert(slash@ =~= seq!['/']);
                        match last_occurrence_exec(c.as_slice(), slash.as_slice()) {
                            Some(q) => {
                                proof {
                                    lemma_last_occurrence(c@, seq!['/'], c@.len() - 1);
                                }
                                slice_vec(c.as_slice(), q + 1, c.len())
                            },
                            None => c,
                        }
                    },
                }
            },
        },
    };
    let s = strip_version(raw.as_slice());
    string_from_chars(s.as_slice())
}

/// The Atom namespace.
pub const ATOM_NS: &'static str = "http://www.w3.org/2005/Atom";

/// Which text of an entry is being read.
#[derive(Debug, Clone, Copy, PartialEq, Eq, Structural)]
pub enum EntryTag {
    Title,
    Summary,
    Published,
    Id,
    AuthorName,
}

/// What has been read of the first entry of an Atom feed.
#[derive(Debug)]
pub struct AtomState {
    pub in_entry: bool,
    pub in_author: bool,
    pub tag: Option<EntryTag>,
    pub title: String,
    pub summary: String,
    pub published: String,
    pub entry_id: String,
    pub authors: Vec<String>,
    pub author_name: String,
    pub pdf_url: Option<String>,
    pub categories: Vec<String>,
}

/// Mathematical view of an Atom reading state.
pub struct AtomV {
    pub in_entry: bool,
    pub in_author: bool,
    pub tag: Option<EntryTag>,
    pub title: Seq<char>,
    pub summary: Seq<char>,
    pub published: Seq<char>,
    pub entry_id: Seq<char>,
    pub authors: Seq<Seq<char>>,
    pub author_name: Seq<char>,
    pub pdf_url: Option<Seq<char>>,
    pub categories: Seq<Seq<char>>,
}

impl View for AtomState {
    type V = AtomV;

    open spec fn view(&self) -> AtomV {
        AtomV {
            in_entry: self.in_entry,
            in_author: self.in_author,
            tag: self.tag,
            title: self.title@,
            summary: self.summary@,
            published: self.published@,
            entry_id: self.entry_id@,
            authors: strs_view(self.authors@),
            author_name: self.author_name@,
            pdf_url: opt_view(self.pdf_url),
            categories: strs_view(self.categories@),
        }
    }
}

/// The state before the first event.
pub open spec fn atom_initial() -> AtomV {
    AtomV {
        in_entry: false,
        in_author: false,
        tag: None,
        title: seq![],
        summary: seq![],
        published: seq![],
        entry_id: seq![],
        authors: seq![],
        author_name: seq![],
        pdf_url: None,
        categories: seq![],
    }
}

/// `b` starts with the bytes `p`.
pub open spec fn has_byte_prefix(b: Seq<u8>, p: Seq<u8>) -> bool {
    p.len() <= b.len() && b.subrange(0, p.len() as int) == p
}

/// An element of the Atom namespace: an unprefixed name, or one declaring
/// the Atom namespace.
pub open spec fn is_atom(name: Seq<u8>, attrs: Seq<(Seq<u8>, Seq<u8>)>) -> bool {
    !name.contains(58u8) || exists|i: int| 0 <= i < attrs.len() && has_byte_prefix(#[trigger] attrs[i].0, "xmlns".spec_bytes())
        && attrs[i].1 == ATOM_NS.spec_bytes()
}

/// Whether a link's attributes mark it as the PDF, and its last `href`.
pub open spec fn pdf_link(attrs: Seq<(Seq<u8>, Seq<u8>)>) -> (bool, Option<Seq<char>>)
    decreases attrs.len(),
{
    if attrs.len() == 0 {
        (false, None)
    } else {
        let (p, h) = pdf_link(attrs.drop_last());
        let a = attrs.last();
        (
            p || (a.0 == "title".spec_bytes() && a.1 == "pdf".spec_bytes()),
            if a.0 == "href".spec_bytes() { Some(lossy_utf8(a.1)) } else { h },
        )
    }
}

/// `cats` with each `term` attribute added, unless already there.
pub open spec fn add_terms(cats: Seq<Seq<char>>, attrs: Seq<(Seq<u8>, Seq<u8>)>) -> Seq<Seq<char>>
    decreases attrs.len(),
{
    if attrs.len() == 0 {
        cats
    } else {
        let c = add_terms(cats, attrs.drop_last());
        let a = attrs.last();
        if a.0 == "term".spec_bytes() && !c.contains(lossy_utf8(a.1)) { c.push(lossy_utf8(a.1)) } else { c }
    }
}

/// The state after an opening tag.
pub open spec fn atom_start(s: AtomV, name: Seq<u8>, attrs: Seq<(Seq<u8>, Seq<u8>)>) -> AtomV {
    let local = local_name(name);
    let atom = is_atom(name, attrs);
    if local == "entry".spec_bytes() && atom {
        AtomV { in_entry: true, ..s }
    } else if local == "title".spec_bytes() && s.in_entry && atom {
        AtomV { tag: Some(EntryTag::Title), ..s }
    } else if local == "summary".spec_bytes() && s.in_entry && atom {
        AtomV { tag: Some(EntryTag::Summary), ..s }
    } else if local == "published".spec_bytes() && s.in_entry && atom {
        AtomV { tag: Some(EntryTag::Published), ..s }
    } else if local == "id".spec_bytes() && s.in_entry && atom && !s.in_author {
        AtomV { tag: Some(EntryTag::Id), ..s }
    } else if local == "author".spec_bytes() && s.in_entry && atom {
        AtomV { in_author: true, author_name: seq![], ..s }
    } else if local == "name".spec_bytes() && s.in_author && atom {
        AtomV { tag: Some(EntryTag::AuthorName), ..s }
    } else if local == "link".spec_bytes() && s.in_entry && atom {
        if pdf_link(attrs).0 { AtomV { pdf_url: pdf_link(attrs).1, ..s } } else { s }
    } else if local == "category".spec_bytes() && s.in_entry {
        AtomV { categories: add_terms(s.categories, attrs), ..s }
    } else {
        s
    }
}

/// The state after a text event.
pub open spec fn atom_text(s: AtomV, t: Seq<char>) -> AtomV {
    match s.tag {
        None => s,
        Some(EntryTag::Title) => AtomV { title: s.title + t, ..s },
        Some(EntryTag::Summary) => AtomV { summary: s.summary + t, ..s },
        Some(EntryTag::Published) => AtomV { published: s.published + t, ..s },
        Some(EntryTag::Id) => AtomV { entry_id: s.entry_id + t, ..s },
        Some(EntryTag::AuthorName) => AtomV { author_name: s.author_name + t, ..s },
    }
}

/// The state after a closing tag other than the entry's.
pub open spec fn atom_end(s: AtomV, name: Seq<u8>) -> AtomV {
    let local = local_name(name);
    if local == "author".spec_bytes() {
        AtomV {
            authors: if s.author_name.len() > 0 { s.authors.push(trim(s.author_name)) } else { s.authors },
            in_author: false,
            tag: None,
            ..s
        }
    } else if local == "title".spec_bytes() || local == "summary".spec_bytes() || local == "published".spec_bytes() || local == "id".spec_bytes() || local == "name".spec_bytes() {
        AtomV { tag: None, ..s }
    } else {
        s
    }
}

/// Read events from `i` on, up to the end of the first entry or of the
/// document; an error event is the reading's error.
pub open spec fn atom_run(evs: Seq<XmlEventV>, i: int, s: AtomV) -> Result<AtomV, Seq<char>>
    decreases evs.len() - i,
{
    if i < 0 || i >= evs.len() {
        Ok(s)
    } else {
        match evs[i] {
            XmlEventV::Start(n, a, _) => atom_run(evs, i + 1, atom_start(s, n, a)),
            XmlEventV::Text(t) => atom_run(evs, i + 1, atom_text(s, text_value(t))),
            XmlEventV::End(n) => if local_name(n) == "entry".spec_bytes() { Ok(s) } else { atom_run(evs, i + 1, atom_end(s, n)) },
            XmlEventV::Eof => Ok(s),
            XmlEventV::Error(m) => Err(m),
            XmlEventV::Other => atom_run(evs, i + 1, s),
        }
    }
}

fn clone_strings(v: &Vec<String>) -> (r: Vec<String>)
    ensures
        strs_view(r@) == strs_view(v@),
{
    let mut out: Vec<String> = Vec::new();
    let mut i: usize = 0;
    while i < v.len()
        invariant
            i <= v@.len(),
            strs_view(out@) == strs_view(v@).subrange(0, i as int),
        decreases v@.len() - i,
    {
        let ghost prev = strs_view(out@);
        let s = v[i].clone();
        out.push(s);
        assert(strs_view(out@) =~= prev.push(strs_view(v@)[i as int]));
        assert(strs_view(out@) =~= strs_view(v@).subrange(0, i + 1));
        i = i + 1;
    }
    assert(strs_view(v@).subrange(0, v@.len() as int) =~= strs_view(v@));
    out
}

fn byte_prefix(b: &[u8], p: &str) -> (r: bool)
    ensures
        r == has_byte_prefix(b@, p.spec_bytes()),
{
    let pb = p.as_bytes();
    if pb.len() > b.len() {
        return false;
    }
    let mut i: usize = 0;
    while i < pb.len()
        invariant
            i <= pb@.len() <= b@.len(),
            pb@ == p.spec_bytes(),
            forall|k: int| 0 <= k < i ==> b@[k] == pb@[k],
        decreases pb@.len() - i,
    {
        if b[i] != pb[i] {
            assert(b@.subrange(0, pb@.len() as int)[i as int] != pb@[i as int]);
            return false;
        }
        i = i + 1;
    }
    assert(b@.subrange(0, pb@.len() as int) =~= pb@);
    true
}

fn has_colon(b: &[u8]) -> (r: bool)
    ensures
        r == b@.contains(58u8),
{
    let mut i: usize = 0;
    while i < b.len()
        invariant
            i <= b@.len(),
            forall|k: int| 0 <= k < i ==> b@[k] != 58u8,
        decreases b@.len() - i,
    {
        if b[i] == 58u8 {
            assert(b@[i as int] == 58u8);
            return true;
        }
        i = i + 1;
    }
    false
}

fn is_atom_exec(name: &[u8], attrs: &Vec<(Vec<u8>, Vec<u8>)>) -> (r: bool)
    ensures
        r == is_atom(name@, attrs_view(attrs@)),
{
    if !has_colon(name) {
        return true;
    }
    let ghost av = attrs_view(attrs@);
    let mut i: usize = 0;
    while i < attrs.len()
        invariant
            i <= attrs@.len(),
            av == attrs_view(attrs@),
            forall|k: int| 0 <= k < i ==> !(has_byte_prefix(#[trigger] av[k].0, "xmlns".spec_bytes()) && av[k].1 == ATOM_NS.spec_bytes()),
        decreases attrs@.len() - i,
    {
        assert(av[i as int] == (attrs@[i as int].0@, attrs@[i as int].1@));
        if byte_prefix(attrs[i].0.as_slice(), "xmlns") && bytes_are(attrs[i].1.as_slice(), ATOM_NS) {
            assert(has_byte_prefix(av[i as int].0, "xmlns".spec_bytes()) && av[i as int].1 == ATOM_NS.spec_bytes());
            return true;
        }
        i = i + 1;
    }
    false
}

fn pdf_link_exec(attrs: &Vec<(Vec<u8>, Vec<u8>)>) -> (r: (bool, Option<String>))
    ensures
        (r.0, opt_view(r.1)) == pdf_link(attrs_view(attrs@)),
{
    let ghost av = attrs_view(attrs@);
    let mut is_pdf = false;
    let mut href: Option<String> = None;
    let mut i: usize = 0;
    while i < attrs.len()
        invariant
            i <= attrs@.len(),
            av == attrs_view(attrs@),
            (is_pdf, opt_view(href)) == pdf_link(av.subrange(0, i as int)),
        decreases attrs@.len() - i,
    {
        let ghost sub = av.subrange(0, i + 1);
        assert(sub.drop_last() =~= av.subrange(0, i as int));
        assert(sub.last() == (attrs@[i as int].0@, attrs@[i as int].1@));
        if bytes_are(attrs[i].0.as_slice(), "title") && bytes_are(attrs[i].1.as_slice(), "pdf") {
            is_pdf = true;
        }
        if bytes_are(attrs[i].0.as_slice(), "href") {
            href = Some(utf8_lossy(attrs[i].1.as_slice()));
        }
        i = i + 1;
    }
    assert(av.subrange(0, av.len() as int) =~= av);
    (is_pdf, href)
}

fn contains_string(v: &Vec<String>, s: &str) -> (r: bool)
    ensures
        r == strs_view(v@).contains(s@),
{
    let mut i: usize = 0;
    while i < v.len()
        invariant
            i <= v@.len(),
            forall|k: int| 0 <= k < i ==> v@[k]@ != s@,
        decreases v@.len() - i,
    {
        if crate::text::str_eq(v[i].as_str(), s) {
            assert(strs_view(v@)[i as int] == s@);
            return true;
        }
        i = i + 1;
    }
    assert forall|k: int| 0 <= k < strs_view(v@).len() implies strs_view(v@)[k] != s@ by {
        assert(strs_view(v@)[k] == v@[k]@);
    }
    false
}

fn add_terms_exec(cats: &mut Vec<String>, attrs: &Vec<(Vec<u8>, Vec<u8>)>)
    ensures
        strs_view(final(cats)@) == add_terms(strs_view(old(cats)@), attrs_view(attrs@)),
{
    let ghost av = attrs_view(attrs@);
    let ghost c0 = strs_view(cats@);
    let mut i: usize = 0;
    while i < attrs.len()
        invariant
            i <= attrs@.len(),
            av == attrs_view(attrs@),
            strs_view(cats@) == add_terms(c0, av.subrange(0, i as int)),
        decreases attrs@.len() - i,
    {
        let ghost sub = av.subrange(0, i + 1);
        assert(sub.drop_last() =~= av.subrange(0, i as int));
        assert(sub.last() == (attrs@[i as int].0@, attrs@[i as int].1@));
        if bytes_are(attrs[i].0.as_slice(), "term") {
            let t = utf8_lossy(attrs[i].1.as_slice());
            if !contains_string(cats, t.as_str()) {
                let ghost prev = strs_view(cats@);
                let ghost tv = t@;
                cats.push(t);
                assert(strs_view(cats@) =~= prev.push(tv));
            }
        }
        i = i + 1;
    }
    assert(av.subrange(0, av.len() as int) =~= av);
}

fn atom_start_exec(st: &mut AtomState, name: &[u8], attrs: &Vec<(Vec<u8>, Vec<u8>)>)
    ensures
        final(st)@ == atom_start(old(st)@, name@, attrs_view(attrs@)),
{
    let local = local_name_exec(name);
    let atom = is_atom_exec(name, attrs);
    if bytes_are(local.as_slice(), "entry") && atom {
        st.in_entry = true;
    } else if bytes_are(local.as_slice(), "title") && st.in_entry && atom {
        st.tag = Some(EntryTag::Title);
    } else if bytes_are(local.as_slice(), "summary") && st.in_entry && atom {
        st.tag = Some(EntryTag::Summary);
    } else if bytes_are(local.as_slice(), "published") && st.in_entry && atom {
        st.tag = Some(EntryTag::Published);
    } else if bytes_are(local.as_slice(), "id") && st.in_entry && atom && !st.in_author {
        st.tag = Some(EntryTag::Id);
    } else if bytes_are(local.as_slice(), "author") && st.in_entry && atom {
        st.in_author = true;
        st.author_name = String::new();
    } else if bytes_are(local.as_slice(), "name") && st.in_author && atom {
        st.tag = Some(EntryTag::AuthorName);
    } else if bytes_are(local.as_slice(), "link") && st.in_entry && atom {
        let (is_pdf, href) = pdf_link_exec(attrs);
        if is_pdf {
            st.pdf_url = href;
        }
    } else if bytes_are(local.as_slice(), "category") && st.in_entry {
        add_terms_exec(&mut st.categories, attrs);
    }
}

fn atom_text_exec(st: &mut AtomState, t: &str)
    ensures
        final(st)@ == atom_text(old(st)@, t@),
{
    match st.tag {
        None => {},
        Some(EntryTag::Title) => st.title.append(t),
        Some(EntryTag::Summary) => st.summary.append(t),
        Some(EntryTag::Published) => st.published.append(t),
        Some(EntryTag::Id) => st.entry_id.append(t),
        Some(EntryTag::AuthorName) => st.author_name.append(t),
    }
}

fn atom_end_exec(st: &mut AtomState, name: &[u8])
    ensures
        final(st)@ == atom_end(old(st)@, name@),
{
    let local = local_name_exec(name);
    if bytes_are(local.as_slice(), "author") {
        if !st.author_name.as_str().is_empty() {
            let ghost prev = strs_view(st.authors@);
            let t = string_from_chars(trim_vec(str_chars(st.author_name.as_str()).as_slice()).as_slice());
            st.authors.push(t);
            assert(strs_view(st.authors@) =~= prev.push(t@));
        }
        st.in_author = false;
        st.tag = None;
    } else if bytes_are(local.as_slice(), "title") || bytes_are(local.as_slice(), "summary") || bytes_are(local.as_slice(), "published") || bytes_are(local.as_slice(), "id")
        || bytes_are(local.as_slice(), "name") {
        st.tag = None;
    }
}

/// Read the events of an Atom feed up to the end of its first entry.
pub fn atom_scan(events: &Vec<XmlEvent>) -> (r: Result<AtomState, String>)
    ensures
        match atom_run(events_view(events@), 0, atom_initial()) {
            Ok(v) => r matches Ok(s) && s@ == v,
            Err(m) => r matches Err(e) && e@ == m,
        },
{
    let ghost evs = events_view(events@);
    let mut st = AtomState {
        in_entry: false,
        in_author: false,
        tag: None,
        title: String::new(),
        summary: String::new(),
        published: String::new(),
        entry_id: String::new(),
        authors: Vec::new(),
        author_name: String::new(),
        pdf_url: None,
        categories: Vec::new(),
    };
    assert(strs_view(st.authors@) =~= seq![]);
    assert(strs_view(st.categories@) =~= seq![]);
    assert(st@ == atom_initial());
    let mut i: usize = 0;
    while i < events.len()
        invariant
            i <= events@.len(),
            evs == events_view(events@),
            atom_run(evs, 0, atom_initial()) == atom_run(evs, i as int, st@),
        decreases events@.len() - i,
    {
        assert(evs[i as int] == events@[i as int]@);
        match &events[i] {
            XmlEvent::Start(n, a, _) => atom_start_exec(&mut st, n.as_slice(), a),
            XmlEvent::Text(t) => {
                let text = event_text(t.as_slice());
                atom_text_exec(&mut st, text.as_str());
            },
            XmlEvent::End(n) => {
                if bytes_are(local_name_exec(n.as_slice()).as_slice(), "entry") {
                    return Ok(st);
                }
                atom_end_exec(&mut st, n.as_slice());
            },
            XmlEvent::Eof => return Ok(st),
            XmlEvent::Error(m) => return Err(m.clone()),
            XmlEvent::Other => {},
        }
        i = i + 1;
    }
    Ok(st)
}

/// The published date can be cut at its tenth byte: it is shorter, or a
/// character ends there.
pub open spec fn date_cut_ok(published: Seq<char>) -> bool {
    encode_utf8(published).len() >= 10 ==> is_char_boundary(encode_utf8(published), 10)
}

/// The paper record of a read Atom entry, or an error when there is none.
pub open spec fn atom_paper(s: AtomV) -> Result<PaperV, Seq<char>> {
    let sb = encode_utf8(s.summary);
    let pb = encode_utf8(s.published);
    if s.title.len() == 0 {
        Err("no entry found in arXiv response"@)
    } else {
        Ok(PaperV {
            title: join(words(s.title), " "@),
            authors: s.authors,
            year: if pb.len() >= 4 && is_char_boundary(pb, 4) { decode_utf8(pb.subrange(0, 4)) } else { "?"@ },
            arxiv_id: Some(arxiv_id_of(s.entry_id)),
            pdf_url: s.pdf_url,
            abstract_text: Some(
                if s.summary.len() > 200 {
                    trim(s.summary.subrange(0, 200)) + "..."@
                } else {
                    trim(s.summary)
                },
            ),
            published_date: if pb.len() >= 10 {
                Some(decode_utf8(pb.subrange(0, 10)))
            } else if s.published.len() > 0 {
                Some(s.published)
            } else {
                None
            },
            categories: s.categories,
            ..empty_paper()
        })
    }
}

/// The text of `s` before byte `k`, a character boundary.
fn prefix_bytes(s: &str, k: usize) -> (r: String)
    requires
        is_char_boundary(s.spec_bytes(), k as int),
    ensures
        r@ == decode_utf8(s.spec_bytes().subrange(0, k as int)),
{
    let (a, _b) = s.split_at(k);
    proof {
        encode_utf8_decode_utf8(a@);
    }
    a.to_owned()
}

/// Build the paper record of a read entry: whitespace in the title
/// collapsed, the abstract cut to 200 characters (with `...`), the year and date
/// taken from the start of the published timestamp.
pub fn atom_finish(st: AtomState) -> (r: Result<PaperResult, String>)
    requires
        date_cut_ok(st@.published),
    ensures
        match atom_paper(st@) {
            Ok(p) => r matches Ok(x) && x@ == p,
            Err(m) => r matches Err(e) && e@ == m,
        },
{
    if st.title.as_str().is_empty() {
        return Err("no entry found in arXiv response".to_owned());
    }
    let ghost v = st@;
    proof {
        encode_utf8_valid_utf8(st.summary@);
        encode_utf8_valid_utf8(st.published@);
        encode_utf8_decode_utf8(st.summary@);
    }
    let ws = split_words(str_chars(st.title.as_str()).as_slice());
    assert(ws@.map_values(|p: Vec<char>| p@) =~= words(st.title@));
    let sp = vec![' '];
    proof {
        reveal_strlit(" ");
    }
    assert(sp@ =~= " "@);
    let title = string_from_chars(join_vecs(&ws, sp.as_slice()).as_slice());
    let sm = str_chars(st.summary.as_str());
    let abstract_text = if sm.len() > 200 {
        let t = slice_vec(sm.as_slice(), 0, 200);
        let mut out = trim_vec(t.as_slice());
        push_str(&mut out, "...");
        string_from_chars(out.as_slice())
    } else {
        string_from_chars(trim_vec(sm.as_slice()).as_slice())
    };
    let pb = st.published.as_str();
    assert(pb@ == v.published);
    assert(pb.spec_bytes() == encode_utf8(v.published));
    let year = if pb.as_bytes().len() >= 4 && pb.is_char_boundary(4) { prefix_bytes(pb, 4) } else { "?".to_owned() };
    let published_date = if pb.as_bytes().len() >= 10 {
        Some(prefix_bytes(pb, 10))
    } else if !pb.is_empty() {
        Some(st.published.clone())
    } else {
        None
    };
    let arxiv_id = extract_arxiv_id(st.entry_id.as_str());
    let mut p = PaperResult::default();
    p.title = title;
    p.authors = st.authors;
    p.year = year;
    p.arxiv_id = Some(arxiv_id);
    p.pdf_url = st.pdf_url;
    p.abstract_text = Some(abstract_text);
    p.published_date = published_date;
    p.categories = st.categories;
    assert(p@.authors == v.authors);
    assert(p@.categories == v.categories);
    assert(p@.title == join(words(v.title), " "@));
    assert(p@.year == (if encode_utf8(v.published).len() >= 4 && is_char_boundary(encode_utf8(v.published), 4) { decode_utf8(encode_utf8(v.published).subrange(0, 4)) } else { "?"@ }));
    assert(p@.published_date == (atom_paper(v)->Ok_0).published_date);
    assert(p@.abstract_text == (atom_paper(v)->Ok_0).abstract_text);
    assert(p@.arxiv_id == (atom_paper(v)->Ok_0).arxiv_id);
    Ok(p)
}

/// The result of parsing an Atom feed: its first entry as a paper record,
/// the reading's error, or an error when the published date cannot be cut
/// at ten bytes.
pub open spec fn arxiv_entry(xml: Seq<u8>) -> Result<PaperV, Seq<char>> {
    match atom_run(xml_events(xml, false), 0, atom_initial()) {
        Err(m) => Err(m),
        Ok(s) => if date_cut_ok(s.published) {
            atom_paper(s)
        } else {
            Err("published date is cut inside a character"@)
        },
    }
}

/// Parse an arXiv Atom XML response into a `PaperResult`.
///
/// Extracts title, summary (truncated to 200 chars), published date,
/// authors, categories and the PDF link from the first `<entry>` element.
pub fn parse_entry(xml: &str) -> (r: Result<PaperResult, String>)
    ensures
        match arxiv_entry(xml.spec_bytes()) {
            Ok(p) => r matches Ok(x) && x@ == p,
            Err(m) => r matches Err(e) && e@ == m,
        },
{
    let events = read_xml_events(xml.as_bytes(), false);
    let st = match atom_scan(&events) {
        Ok(s) => s,
        Err(m) => return Err(m),
    };
    let pb = st.published.as_str();
    if pb.as_bytes().len() >= 10 && !pb.is_char_boundary(10) {
        return Err("published date is cut inside a character".to_owned());
    }
    atom_finish(st)
}

} // verus!
