//! BibTeX parsing and generation.
//!
//! Handles parsing `.bib` files into structured entries and rendering
//! entries back to BibTeX text.
use vstd::prelude::*;
use vstd::string::StringSliceAdditionalSpecFns;
use vstd::utf8::{decode_utf8, encode_utf8_decode_utf8, encode_utf8_valid_utf8, is_char_boundary};
use crate::text::{
    contains, contains_chars, eq_str, lowercase, lowercase_chars, push_all, push_str, slice_vec,
    split, split_on, str_chars, string_from_chars, trim, trim_bounds, is_ascii_ws, is_ascii_ws_exec,
};

verus! {

/// A single BibTeX entry.
#[derive(Debug, Clone)]
pub struct BibEntry {
    /// Entry type: article, book, inproceedings, etc.
    pub entry_type: String,
    /// Citation key: lastname2017word
    pub key: String,
    /// Ordered list of (field_name, field_value) pairs.
    pub fields: Vec<(String, String)>,
}

/// Mathematical view of an entry.
pub struct BibV {
    pub entry_type: Seq<char>,
    pub key: Seq<char>,
    pub fields: Seq<(Seq<char>, Seq<char>)>,
}

/// The characters of each field name and value.
pub open spec fn fields_view(v: Seq<(String, String)>) -> Seq<(Seq<char>, Seq<char>)> {
    v.map_values(|f: (String, String)| (f.0@, f.1@))
}

impl View for BibEntry {
    type V = BibV;

    open spec fn view(&self) -> BibV {
        BibV { entry_type: self.entry_type@, key: self.key@, fields: fields_view(self.fields@) }
    }
}

/// The views of a list of entries.
pub open spec fn entries_view(v: Seq<BibEntry>) -> Seq<BibV> {
    v.map_values(|e: BibEntry| e@)
}

/// Index of the first field whose name equals `name` ignoring case.
pub open spec fn field_index(fields: Seq<(Seq<char>, Seq<char>)>, name: Seq<char>) -> Option<int> {
    if exists|i: int| 0 <= i < fields.len() && lowercase(fields[i].0) == lowercase(name) {
        Some(choose|i: int| 0 <= i < fields.len() && lowercase(fields[i].0) == lowercase(name)
            && forall|j: int| 0 <= j < i ==> lowercase(fields[j].0) != lowercase(name))
    } else {
        None
    }
}

/// The value of the first field named `name` (ignoring case), if any.
pub open spec fn field_value(fields: Seq<(Seq<char>, Seq<char>)>, name: Seq<char>) -> Option<Seq<char>> {
    match field_index(fields, name) {
        Some(i) => Some(fields[i].1),
        None => None,
    }
}

proof fn lemma_field_index(fields: Seq<(Seq<char>, Seq<char>)>, name: Seq<char>, i: int)
    requires
        0 <= i <= fields.len(),
        forall|j: int| 0 <= j < i ==> lowercase(fields[j].0) != lowercase(name),
        i == fields.len() || lowercase(fields[i].0) == lowercase(name),
    ensures
        i < fields.len() ==> field_index(fields, name) == Some(i),
        i == fields.len() ==> field_index(fields, name) is None,
{
    if i < fields.len() {
        let k = choose|k: int| 0 <= k < fields.len() && lowercase(fields[k].0) == lowercase(name)
            && forall|j: int| 0 <= j < k ==> lowercase(fields[j].0) != lowercase(name);
        assert(0 <= i < fields.len() && lowercase(fields[i].0) == lowercase(name)
            && forall|j: int| 0 <= j < i ==> lowercase(fields[j].0) != lowercase(name));
        if k < i {
        } else if k > i {
            assert(lowercase(fields[i].0) != lowercase(name));
        }
    }
}

/// Rendering of one field line; `last` omits the trailing comma.
pub open spec fn field_line(name: Seq<char>, value: Seq<char>, last: bool) -> Seq<char> {
    "  "@ + name + " = {"@ + value + (if last { "}\n"@ } else { "},\n"@ })
}

/// Rendering of `fields[i..]` out of `n` fields in all.
pub open spec fn field_lines(fields: Seq<(Seq<char>, Seq<char>)>, i: int) -> Seq<char>
    decreases fields.len() - i,
{
    if i < 0 || i >= fields.len() {
        seq![]
    } else {
        field_line(fields[i].0, fields[i].1, i == fields.len() - 1) + field_lines(fields, i + 1)
    }
}

/// BibTeX text of an entry.
pub open spec fn entry_text(e: BibV) -> Seq<char> {
    "@"@ + e.entry_type + "{"@ + e.key + ",\n"@ + field_lines(e.fields, 0) + "}"@
}

impl BibEntry {
    /// Get the value of a field by name (case-insensitive).
    pub fn get_field(&self, name: &str) -> (r: Option<&str>)
        ensures
            match r {
                Some(v) => field_value(self@.fields, name@) == Some(v@),
                None => field_value(self@.fields, name@) is None,
            },
    {
        let nl = str_to_lower(name);
        let ghost fv = fields_view(self.fields@);
        let mut i: usize = 0;
        while i < self.fields.len()
            invariant
                i <= self.fields.len(),
                fv == fields_view(self.fields@),
                nl@ == lowercase(name@),
                forall|j: int| 0 <= j < i ==> lowercase(fv[j].0) != lowercase(name@),
            decreases self.fields.len() - i,
        {
            let fl = str_to_lower(self.fields[i].0.as_str());
            assert(fv[i as int].0 == self.fields@[i as int].0@);
            if fl == nl {
                proof {
                    lemma_field_index(fv, name@, i as int);
                }
                return Some(self.fields[i].1.as_str());
            }
            i = i + 1;
        }
        proof {
            lemma_field_index(fv, name@, i as int);
        }
        None
    }

    /// Check if this entry has a `% lit:skip` marker in the three lines
    /// preceding byte offset `entry_start` of `content`.
    pub fn has_skip_marker(content: &str, entry_start: usize) -> (r: bool)
        requires
            is_char_boundary(content.spec_bytes(), entry_start as int),
        ensures
            r == skip_marker(decode_utf8(content.spec_bytes().subrange(0, entry_start as int))),
    {
        proof {
            encode_utf8_valid_utf8(content@);
        }
        let (before, _after) = content.split_at(entry_start);
        proof {
            encode_utf8_decode_utf8(before@);
        }
        let b = str_chars(before);
        skip_marker_chars(b.as_slice())
    }

    /// BibTeX text of the entry: `@type{key,`, one `  name = {value}` line per
    /// field (the last without a trailing comma), and a closing brace.
    pub fn to_string(&self) -> (r: String)
        ensures
            r@ == entry_text(self@),
    {
        let mut out: Vec<char> = Vec::new();
        push_str(&mut out, "@");
        push_str(&mut out, self.entry_type.as_str());
        push_str(&mut out, "{");
        push_str(&mut out, self.key.as_str());
        push_str(&mut out, ",\n");
        let ghost fv = fields_view(self.fields@);
        let ghost head = out@;
        let mut i: usize = 0;
        while i < self.fields.len()
            invariant
                i <= self.fields.len(),
                fv == fields_view(self.fields@),
                head + field_lines(fv, 0) == out@ + field_lines(fv, i as int),
            decreases self.fields.len() - i,
        {
            let ghost before = out@;
            push_str(&mut out, "  ");
            push_str(&mut out, self.fields[i].0.as_str());
            push_str(&mut out, " = {");
            push_str(&mut out, self.fields[i].1.as_str());
            if i < self.fields.len() - 1 {
                push_str(&mut out, "},\n");
            } else {
                push_str(&mut out, "}\n");
            }
            proof {
                assert(out@ =~= before + field_line(fv[i as int].0, fv[i as int].1, i == fv.len() - 1));
                assert(field_lines(fv, i as int) == field_line(fv[i as int].0, fv[i as int].1, i == fv.len() - 1) + field_lines(fv, i + 1));
                assert(before + field_lines(fv, i as int) =~= out@ + field_lines(fv, i + 1));
            }
            i = i + 1;
        }
        push_str(&mut out, "}");
        proof {
            assert(field_lines(fv, i as int) == Seq::<char>::empty());
            assert(out@ =~= entry_text(self@));
        }
        string_from_chars(out.as_slice())
    }
}

/// Lower-case a string (`str::to_lowercase`), characters in, string out.
fn str_to_lower(s: &str) -> (r: String)
    ensures
        r@ == lowercase(s@),
{
    let c = str_chars(s);
    let l = lowercase_chars(c.as_slice());
    string_from_chars(l.as_slice())
}

/// Lines of `s` as `str::lines` yields them, up to trailing carriage
/// returns: the pieces between line feeds, without the empty piece that
/// follows a final line feed.
pub open spec fn lines_of(s: Seq<char>) -> Seq<Seq<char>> {
    let p = split(s, "\n"@);
    if p.len() > 0 && p.last().len() == 0 {
        p.drop_last()
    } else {
        p
    }
}

/// One of the last three lines of `before` contains `% lit:skip`.
pub open spec fn skip_marker(before: Seq<char>) -> bool {
    let ls = lines_of(before);
    exists|i: int| (if ls.len() > 3 { ls.len() - 3 } else { 0 }) <= i < ls.len() && contains(#[trigger] ls[i], "% lit:skip"@)
}

fn skip_marker_chars(before: &[char]) -> (r: bool)
    ensures
        r == skip_marker(before@),
{
    let nl = str_chars("\n");
    proof {
        reveal_strlit("\n");
    }
    let mut pieces = split_on(before, nl.as_slice());
    let ghost p = split(before@, "\n"@);
    if pieces.len() > 0 && pieces[pieces.len() - 1].len() == 0 {
        pieces.pop();
    }
    let ghost ls = lines_of(before@);
    assert(pieces@.len() == ls.len());
    assert(forall|t: int| 0 <= t < ls.len() ==> (#[trigger] pieces@[t])@ == ls[t]);
    let start: usize = if pieces.len() > 3 { pieces.len() - 3 } else { 0 };
    let marker = str_chars("% lit:skip");
    let mut i = start;
    while i < pieces.len()
        invariant
            start <= i <= pieces.len(),
            ls == lines_of(before@),
            start == (if ls.len() > 3 { ls.len() - 3 } else { 0 }),
            pieces@.len() == ls.len(),
            forall|t: int| 0 <= t < ls.len() ==> (#[trigger] pieces@[t])@ == ls[t],
            marker@ == "% lit:skip"@,
            forall|t: int| start <= t < i ==> !contains(#[trigger] ls[t], "% lit:skip"@),
        decreases pieces.len() - i,
    {
        if contains_chars(pieces[i].as_slice(), marker.as_slice()) {
            assert(contains(ls[i as int], "% lit:skip"@));
            assert((if ls.len() > 3 { ls.len() - 3 } else { 0 }) <= i < ls.len() && contains(ls[i as int], "% lit:skip"@));
            return true;
        }
        i = i + 1;
    }
    false
}

/// Character classes at which the parser's scans stop.
pub enum Stop {
    /// End of an entry type: `{` or whitespace.
    TypeEnd,
    /// An opening brace.
    OpenBrace,
    /// End of a citation key: `,` or whitespace.
    KeyEnd,
    /// A comma or a closing brace.
    CommaOrClose,
    /// End of a field name: `=`, `}` or whitespace.
    NameEnd,
    /// End of a bare value: `,`, `}` or whitespace.
    BareEnd,
    /// Anything but whitespace.
    NonSpace,
    /// An `@`.
    At,
    /// An opening brace or a line feed.
    BraceOrNewline,
    /// Anything but a line feed or carriage return.
    NotNewline,
}

/// Whether the scan of kind `k` stops at `c`.
pub open spec fn stops(k: Stop, c: char) -> bool {
    match k {
        Stop::TypeEnd => c == '{' || is_ascii_ws(c),
        Stop::OpenBrace => c == '{',
        Stop::KeyEnd => c == ',' || is_ascii_ws(c),
        Stop::CommaOrClose => c == ',' || c == '}',
        Stop::NameEnd => c == '=' || c == '}' || is_ascii_ws(c),
        Stop::BareEnd => c == ',' || c == '}' || is_ascii_ws(c),
        Stop::NonSpace => !is_ascii_ws(c),
        Stop::At => c == '@',
        Stop::BraceOrNewline => c == '{' || c == '\n',
        Stop::NotNewline => c != '\n' && c != '\r',
    }
}

fn stops_exec(k: &Stop, c: char) -> (r: bool)
    ensures
        r == stops(*k, c),
{
    match k {
        Stop::TypeEnd => c == '{' || is_ascii_ws_exec(c),
        Stop::OpenBrace => c == '{',
        Stop::KeyEnd => c == ',' || is_ascii_ws_exec(c),
        Stop::CommaOrClose => c == ',' || c == '}',
        Stop::NameEnd => c == '=' || c == '}' || is_ascii_ws_exec(c),
        Stop::BareEnd => c == ',' || c == '}' || is_ascii_ws_exec(c),
        Stop::NonSpace => !is_ascii_ws_exec(c),
        Stop::At => c == '@',
        Stop::BraceOrNewline => c == '{' || c == '\n',
        Stop::NotNewline => c != '\n' && c != '\r',
    }
}

/// First index at or after `p` where a scan of kind `k` stops, or the length.
pub open spec fn scan(s: Seq<char>, p: int, k: Stop) -> int
    decreases s.len() - p,
{
    if p < 0 || p >= s.len() || stops(k, s[p]) {
        p
    } else {
        scan(s, p + 1, k)
    }
}

pub proof fn lemma_scan(s: Seq<char>, p: int, k: Stop)
    requires
        0 <= p <= s.len(),
    ensures
        p <= scan(s, p, k) <= s.len(),
    decreases s.len() - p,
{
    if p < s.len() && !stops(k, s[p]) {
        lemma_scan(s, p + 1, k);
    }
}

/// What a scan passes over does not stop it, and where it ends inside the
/// text, the character there does.
pub proof fn lemma_scan_skipped(s: Seq<char>, p: int, k: Stop)
    requires
        0 <= p <= s.len(),
    ensures
        forall|j: int| p <= j < scan(s, p, k) ==> !stops(k, #[trigger] s[j]),
        scan(s, p, k) < s.len() ==> stops(k, s[scan(s, p, k)]),
    decreases s.len() - p,
{
    if p < s.len() && !stops(k, s[p]) {
        lemma_scan_skipped(s, p + 1, k);
    }
}

proof fn lemma_scan_from(s: Seq<char>, p: int, q: int, k: Stop)
    requires
        0 <= p <= q <= s.len(),
        forall|j: int| p <= j < q ==> !stops(k, s[j]),
        q == s.len() || stops(k, s[q]),
    ensures
        scan(s, p, k) == q,
    decreases q - p,
{
    if p < q {
        lemma_scan_from(s, p + 1, q, k);
    }
}

pub(crate) fn scan_exec(s: &[char], p: usize, k: Stop) -> (r: usize)
    requires
        p <= s.len(),
    ensures
        r as int == scan(s@, p as int, k),
        p <= r <= s.len(),
{
    let mut q = p;
    while q < s.len() && !stops_exec(&k, s[q])
        invariant
            p <= q <= s.len(),
            forall|j: int| p <= j < q ==> !stops(k, s@[j]),
        decreases s.len() - q,
    {
        q = q + 1;
    }
    proof {
        lemma_scan_from(s@, p as int, q as int, k);
    }
    q
}

/// Position of the brace that closes a braced value whose content starts at
/// `p`, at nesting `depth`, or the length when it is never closed.
pub open spec fn braced_end(s: Seq<char>, p: int, depth: int) -> int
    decreases s.len() - p,
{
    if p < 0 || p >= s.len() || depth <= 0 {
        p
    } else {
        let d = if s[p] == '{' { depth + 1 } else if s[p] == '}' { depth - 1 } else { depth };
        if d > 0 {
            braced_end(s, p + 1, d)
        } else {
            p
        }
    }
}

pub proof fn lemma_braced_end(s: Seq<char>, p: int, depth: int)
    requires
        0 <= p <= s.len(),
    ensures
        p <= braced_end(s, p, depth) <= s.len(),
    decreases s.len() - p,
{
    if p < s.len() && depth > 0 {
        let d = if s[p] == '{' { depth + 1 } else if s[p] == '}' { depth - 1 } else { depth };
        if d > 0 {
            lemma_braced_end(s, p + 1, d);
        }
    }
}

pub(crate) fn braced_end_exec(s: &[char], p: usize) -> (r: usize)
    requires
        1 <= p <= s.len(),
    ensures
        r as int == braced_end(s@, p as int, 1),
        p <= r <= s.len(),
{
    let mut q = p;
    let mut depth: usize = 1;
    proof {
        lemma_braced_end(s@, p as int, 1);
    }
    while q < s.len() && depth > 0
        invariant
            1 <= p <= q <= s.len(),
            depth <= q - p + 1,
            braced_end(s@, q as int, depth as int) == braced_end(s@, p as int, 1),
        decreases s.len() - q,
    {
        if s[q] == '{' {
            depth = depth + 1;
        } else if s[q] == '}' {
            depth = depth - 1;
        }
        if depth > 0 {
            q = q + 1;
        }
        else {
            return q;
        }
    }
    q
}

/// End of a quoted value whose content starts at `p`: the closing quote, or
/// the length. A backslash skips the character after it.
pub open spec fn quoted_end(s: Seq<char>, p: int) -> int
    decreases s.len() - p,
{
    if p < 0 || p >= s.len() || s[p] == '"' {
        p
    } else if s[p] == '\\' {
        if p + 1 < s.len() {
            quoted_end(s, p + 2)
        } else {
            p + 1
        }
    } else {
        quoted_end(s, p + 1)
    }
}

proof fn lemma_quoted_end(s: Seq<char>, p: int)
    requires
        0 <= p <= s.len(),
    ensures
        p <= quoted_end(s, p) <= s.len(),
    decreases s.len() - p,
{
    if p < s.len() && s[p] != '"' {
        if s[p] == '\\' {
            if p + 1 < s.len() {
                lemma_quoted_end(s, p + 2);
            }
        } else {
            lemma_quoted_end(s, p + 1);
        }
    }
}

fn quoted_end_exec(s: &[char], p: usize) -> (r: usize)
    requires
        p <= s.len(),
    ensures
        r as int == quoted_end(s@, p as int),
        p <= r <= s.len(),
{
    proof {
        lemma_quoted_end(s@, p as int);
    }
    let mut q = p;
    while q < s.len() && s[q] != '"'
        invariant
            p <= q <= s.len(),
            quoted_end(s@, q as int) == quoted_end(s@, p as int),
        decreases s.len() - q,
    {
        if s[q] == '\\' {
            q = q + 1;
            if q < s.len() {
                q = q + 1;
            }
        } else {
            q = q + 1;
        }
    }
    q
}

/// A field value starting at `v0` (not past the end), and the position
/// after it.
pub open spec fn parse_value(s: Seq<char>, v0: int) -> (Seq<char>, int) {
    if s[v0] == '{' {
        let e = braced_end(s, v0 + 1, 1);
        (s.subrange(v0 + 1, e), if e < s.len() { e + 1 } else { e })
    } else if s[v0] == '"' {
        let e = quoted_end(s, v0 + 1);
        (s.subrange(v0 + 1, e), if e < s.len() { e + 1 } else { e })
    } else {
        let e = scan(s, v0, Stop::BareEnd);
        (trim(s.subrange(v0, e)), e)
    }
}

proof fn lemma_parse_value(s: Seq<char>, v0: int)
    requires
        0 <= v0 < s.len(),
    ensures
        v0 <= parse_value(s, v0).1 <= s.len(),
        s[v0] == '{' || s[v0] == '"' ==> v0 < parse_value(s, v0).1,
{
    lemma_braced_end(s, v0 + 1, 1);
    lemma_quoted_end(s, v0 + 1);
    lemma_scan(s, v0, Stop::BareEnd);
}

/// The fields of an entry body starting at `p`, and the position after the
/// body's closing brace (or wherever the body ends).
pub open spec fn parse_fields(s: Seq<char>, p: int) -> (Seq<(Seq<char>, Seq<char>)>, int)
    decreases s.len() - p,
{
    let q = scan(s, p, Stop::NonSpace);
    if p < 0 || p > s.len() || q < p || q > s.len() {
        (seq![], p)
    } else if q == s.len() {
        (seq![], q)
    } else if s[q] == '}' {
        (seq![], q + 1)
    } else {
        let ne = scan(s, q, Stop::NameEnd);
        let r = scan(s, ne, Stop::NonSpace);
        if r < p || r > s.len() {
            (seq![], p)
        } else if r == s.len() {
            (seq![], r)
        } else if s[r] == '}' {
            (seq![], r + 1)
        } else if s[r] != '=' {
            parse_fields(s, r + 1)
        } else {
            let v0 = scan(s, r + 1, Stop::NonSpace);
            if v0 < p || v0 >= s.len() {
                (seq![], v0)
            } else {
                let pv = parse_value(s, v0);
                let t = scan(s, pv.1, Stop::NonSpace);
                let next = if 0 <= t < s.len() && s[t] == ',' { t + 1 } else { t };
                let name = lowercase(trim(s.subrange(q, ne)));
                if p < next <= s.len() {
                    let rest = parse_fields(s, next);
                    (if name.len() > 0 { seq![(name, pv.0)] + rest.0 } else { rest.0 }, rest.1)
                } else {
                    (seq![], p)
                }
            }
        }
    }
}

proof fn lemma_parse_fields_end(s: Seq<char>, p: int)
    requires
        0 <= p <= s.len(),
    ensures
        p <= parse_fields(s, p).1 <= s.len(),
    decreases s.len() - p,
{
    lemma_scan(s, p, Stop::NonSpace);
    let q = scan(s, p, Stop::NonSpace);
    if q < s.len() && s[q] != '}' {
        lemma_scan(s, q, Stop::NameEnd);
        let ne = scan(s, q, Stop::NameEnd);
        lemma_scan(s, ne, Stop::NonSpace);
        let r = scan(s, ne, Stop::NonSpace);
        if r < s.len() && s[r] != '}' {
            if s[r] != '=' {
                lemma_parse_fields_end(s, r + 1);
            } else {
                lemma_scan(s, r + 1, Stop::NonSpace);
                let v0 = scan(s, r + 1, Stop::NonSpace);
                if v0 < s.len() {
                    lemma_parse_value(s, v0);
                    let pv = parse_value(s, v0);
                    lemma_scan(s, pv.1, Stop::NonSpace);
                    let t = scan(s, pv.1, Stop::NonSpace);
                    let next = if 0 <= t < s.len() && s[t] == ',' { t + 1 } else { t };
                    if p < next <= s.len() {
                        lemma_parse_fields_end(s, next);
                    }
                }
            }
        }
    }
}

/// The entries of `s[p..]`.
pub open spec fn parse_entries_from(s: Seq<char>, p: int) -> Seq<BibV>
    decreases s.len() - p,
{
    if p < 0 || p >= s.len() {
        seq![]
    } else {
        let a = scan(s, p, Stop::At);
        if a < p || a >= s.len() {
            seq![]
        } else {
            let te = scan(s, a + 1, Stop::TypeEnd);
            let ty = lowercase(s.subrange(a + 1, te));
            let ob = scan(s, te, Stop::OpenBrace);
            if ob < te || ob >= s.len() {
                seq![]
            } else {
                let k0 = scan(s, ob + 1, Stop::NonSpace);
                let ke = scan(s, k0, Stop::KeyEnd);
                let key = trim(s.subrange(k0, ke));
                let c = scan(s, ke, Stop::CommaOrClose);
                let f0 = if 0 <= c < s.len() && s[c] == ',' { c + 1 } else { c };
                let pf = parse_fields(s, f0);
                if p < pf.1 <= s.len() {
                    let rest = parse_entries_from(s, pf.1);
                    if ty == "comment"@ || ty == "preamble"@ || ty == "string"@ || skip_marker(s.subrange(0, a)) {
                        rest
                    } else {
                        seq![BibV { entry_type: ty, key, fields: pf.0 }] + rest
                    }
                } else {
                    seq![]
                }
            }
        }
    }
}

/// The entries of a `.bib` text.
pub open spec fn parse_bib(s: Seq<char>) -> Seq<BibV> {
    parse_entries_from(s, 0)
}

/// The brace depth of `v` after its first `k` characters: `{` less `}`.
pub open spec fn brace_depth(v: Seq<char>, k: int) -> int
    decreases k,
{
    if k <= 0 || k > v.len() {
        0
    } else {
        brace_depth(v, k - 1) + (if v[k - 1] == '{' { 1int } else if v[k - 1] == '}' { -1int } else { 0int })
    }
}

/// A value whose braces are balanced: no prefix closes more than it opens,
/// and the whole opens as many as it closes.
pub open spec fn balanced_braces(v: Seq<char>) -> bool {
    &&& forall|k: int| 0 <= k <= v.len() ==> #[trigger] brace_depth(v, k) >= 0
    &&& brace_depth(v, v.len() as int) == 0
}

/// A field that its rendering gives back: a non-empty lower-case name
/// without whitespace, `=` or `}`, and a value with balanced braces.
pub open spec fn field_roundtrips(f: (Seq<char>, Seq<char>)) -> bool {
    &&& f.0.len() > 0
    &&& forall|j: int| 0 <= j < f.0.len() ==> !crate::text::is_white_space(#[trigger] f.0[j]) && f.0[j] != '=' && f.0[j] != '}'
    &&& lowercase(f.0) == f.0
    &&& balanced_braces(f.1)
}

/// An entry that its rendering gives back: a non-empty lower-case type
/// without whitespace or `{` (and not `comment`, `preamble` or `string`), a
/// key without whitespace or `,`, and fields that round-trip.
pub open spec fn entry_roundtrips(e: BibV) -> bool {
    &&& e.entry_type.len() > 0
    &&& forall|j: int| 0 <= j < e.entry_type.len() ==> !crate::text::is_white_space(#[trigger] e.entry_type[j]) && e.entry_type[j] != '{'
    &&& lowercase(e.entry_type) == e.entry_type
    &&& e.entry_type != "comment"@ && e.entry_type != "preamble"@ && e.entry_type != "string"@
    &&& forall|j: int| 0 <= j < e.key.len() ==> !crate::text::is_white_space(#[trigger] e.key[j]) && e.key[j] != ','
    &&& forall|i: int| 0 <= i < e.fields.len() ==> field_roundtrips(#[trigger] e.fields[i])
}

proof fn lemma_trim_plain(x: Seq<char>)
    requires
        forall|j: int| 0 <= j < x.len() ==> !crate::text::is_white_space(#[trigger] x[j]),
    ensures
        trim(x) == x,
{
    if x.len() > 0 {
        assert(!crate::text::is_white_space(x[0]));
        assert(!crate::text::is_white_space(x[x.len() - 1]));
        assert(crate::text::trim_start(x) == x);
        assert(crate::text::trim_end(x) == x);
    } else {
        assert(crate::text::trim_start(x) == x);
        assert(crate::text::trim_end(x) == x);
    }
}

proof fn lemma_braced_value(s: Seq<char>, p: int, v: Seq<char>, k: int)
    requires
        balanced_braces(v),
        0 <= k <= v.len(),
        0 <= p,
        p + v.len() < s.len(),
        s.subrange(p, p + v.len()) == v,
        s[p + v.len()] == '}',
    ensures
        braced_end(s, p + k, 1 + brace_depth(v, k)) == p + v.len(),
    decreases v.len() - k,
{
    assert(brace_depth(v, k) >= 0);
    if k < v.len() {
        assert(s[p + k] == v[k]);
        assert(brace_depth(v, k + 1) >= 0);
        lemma_braced_value(s, p, v, k + 1);
    }
}

proof fn lemma_fields_parse(s: Seq<char>, fields: Seq<(Seq<char>, Seq<char>)>, i: int, p: int, pp: int)
    requires
        0 <= i <= fields.len(),
        forall|k: int| 0 <= k < fields.len() ==> field_roundtrips(#[trigger] fields[k]),
        0 <= p <= pp < s.len(),
        s.subrange(pp, s.len() as int) == field_lines(fields, i) + "}"@,
        forall|j: int| p <= j < pp ==> is_ascii_ws(#[trigger] s[j]),
    ensures
        parse_fields(s, p) == (fields.subrange(i, fields.len() as int), s.len() as int),
    decreases fields.len() - i,
{
    reveal_strlit("}");
    let tail = s.subrange(pp, s.len() as int);
    assert(tail[0] == s[pp]);
    if i == fields.len() {
        assert(field_lines(fields, i) == Seq::<char>::empty());
        assert(tail =~= "}"@);
        assert(s[pp] == '}');
        lemma_scan_from(s, p, pp, Stop::NonSpace);
        assert(fields.subrange(i, fields.len() as int) =~= Seq::<(Seq<char>, Seq<char>)>::empty());
    } else {
        reveal_strlit("  ");
        reveal_strlit(" = {");
        reveal_strlit("}\n");
        reveal_strlit("},\n");
        let (name, value) = fields[i];
        let last = i == fields.len() - 1;
        assert(field_roundtrips(fields[i]));
        let n = name.len() as int;
        let v = value.len() as int;
        let l = field_line(name, value, last);
        assert(field_lines(fields, i) == l + field_lines(fields, i + 1));
        let llen = l.len() as int;
        assert(llen == (if last { 8 + n + v } else { 9 + n + v }));
        assert(tail.len() == s.len() - pp);
        assert(tail == l + field_lines(fields, i + 1) + "}"@);
        assert(tail.len() == llen + field_lines(fields, i + 1).len() + 1);
        assert forall|k: int| 0 <= k < llen implies #[trigger] s[pp + k] == l[k] by {
            assert(tail[k] == s[pp + k]);
            assert((l + field_lines(fields, i + 1) + "}"@)[k] == l[k]);
        }
        let rest_s = s.subrange(pp + llen, s.len() as int);
        let rest_t = field_lines(fields, i + 1) + "}"@;
        assert(rest_s =~= rest_t) by {
            assert forall|k: int| 0 <= k < rest_s.len() implies #[trigger] rest_s[k] == rest_t[k] by {
                assert(tail[llen + k] == s[pp + llen + k]);
                assert((l + rest_t)[llen + k] == rest_t[k]);
            }
        }
        assert(l[0] == ' ' && l[1] == ' ');
        assert forall|j: int| 0 <= j < n implies l[2 + j] == name[j] by {}
        assert(l[2 + n] == ' ' && l[3 + n] == '=' && l[4 + n] == ' ' && l[5 + n] == '{');
        assert forall|j: int| 0 <= j < v implies l[6 + n + j] == value[j] by {}
        assert(l[6 + n + v] == '}');
        // the leading spaces, then the name
        assert(s[pp + 0] == l[0] && s[pp + 1] == l[1] && s[pp + 2] == l[2]);
        assert(s[pp] == ' ' && s[pp + 1] == ' ');
        assert(s[pp + 2] == name[0]);
        lemma_scan_from(s, p, pp + 2, Stop::NonSpace);
        let q = pp + 2;
        assert forall|j: int| q <= j < q + n implies !stops(Stop::NameEnd, #[trigger] s[j]) by {
            let k = j - pp;
            assert(s[pp + k] == l[k]);
            assert(l[k] == name[j - q]);
        }
        assert(s[pp + (2 + n)] == l[2 + n]);
        assert(s[q + n] == ' ');
        lemma_scan_from(s, q, q + n, Stop::NameEnd);
        let ne = q + n;
        assert(s[pp + (3 + n)] == l[3 + n]);
        assert(s[pp + (4 + n)] == l[4 + n]);
        assert(s[pp + (5 + n)] == l[5 + n]);
        assert(s[ne + 1] == '=');
        lemma_scan_from(s, ne, ne + 1, Stop::NonSpace);
        let r = ne + 1;
        assert(s[r + 1] == ' ' && s[r + 2] == '{');
        lemma_scan_from(s, r + 1, r + 2, Stop::NonSpace);
        let v0 = r + 2;
        assert(s.subrange(v0 + 1, v0 + 1 + v) =~= value) by {
            assert forall|j: int| 0 <= j < v implies s.subrange(v0 + 1, v0 + 1 + v)[j] == value[j] by {
                assert(s[pp + (6 + n + j)] == l[6 + n + j]);
            }
        }
        let e = v0 + 1 + v;
        assert(s[pp + (6 + n + v)] == l[6 + n + v]);
        assert(s[pp + (7 + n + v)] == l[7 + n + v]);
        if !last {
            assert(s[pp + (8 + n + v)] == l[8 + n + v]);
        }
        lemma_braced_value(s, v0 + 1, value, 0);
        assert(brace_depth(value, 0) == 0);
        assert(parse_value(s, v0) == (value, e + 1));
        assert(s.subrange(q, ne) =~= name) by {
            assert forall|j: int| 0 <= j < n implies s.subrange(q, ne)[j] == name[j] by {
                assert(s[pp + (2 + j)] == l[2 + j]);
            }
        }
        lemma_trim_plain(name);
        let pnext = pp + llen;
        if last {
            assert(l[7 + n + v] == '\n');
            assert(s[e + 1] == '\n');
            assert(field_lines(fields, i + 1) == Seq::<char>::empty());
            assert(s[pnext] == '}') by {
                assert(s.subrange(pnext, s.len() as int)[0] == s[pnext]);
            }
            lemma_scan_from(s, e + 1, e + 2, Stop::NonSpace);
            lemma_fields_parse(s, fields, i + 1, e + 2, pnext);
        } else {
            assert(l[7 + n + v] == ',' && l[8 + n + v] == '\n');
            assert(s[e + 1] == ',');
            lemma_scan_from(s, e + 1, e + 1, Stop::NonSpace);
            assert(s[e + 2] == '\n');
            assert forall|j: int| e + 2 <= j < pnext implies is_ascii_ws(#[trigger] s[j]) by {
                assert(j == e + 2);
            }
            lemma_fields_parse(s, fields, i + 1, e + 2, pnext);
        }
        assert(fields.subrange(i, fields.len() as int) =~= seq![fields[i]] + fields.subrange(i + 1, fields.len() as int));
    }
}

/// Parsing the text an entry is written as gives back that entry, fields in
/// the same order, when its type, key and fields can be written and read
/// back (`entry_roundtrips`).
pub proof fn lemma_entry_text_parses_back(e: BibV)
    requires
        entry_roundtrips(e),
    ensures
        parse_bib(entry_text(e)) == seq![e],
{
    reveal_strlit("@");
    reveal_strlit("{");
    reveal_strlit(",\n");
    reveal_strlit("}");
    let ty = e.entry_type;
    let key = e.key;
    let t = ty.len() as int;
    let kl = key.len() as int;
    let s = entry_text(e);
    let head = "@"@ + ty + "{"@ + key + ",\n"@;
    assert(s == head + field_lines(e.fields, 0) + "}"@);
    let h = head.len() as int;
    assert(h == 4 + t + kl);
    assert forall|k: int| 0 <= k < h implies #[trigger] s[k] == head[k] by {}
    assert(s[0] == '@');
    lemma_scan_from(s, 0, 0, Stop::At);
    assert forall|j: int| 1 <= j < 1 + t implies !stops(Stop::TypeEnd, #[trigger] s[j]) by {
        assert(s[j] == head[j]);
        assert(head[j] == ty[j - 1]);
    }
    assert(s[1 + t] == '{');
    lemma_scan_from(s, 1, 1 + t, Stop::TypeEnd);
    assert(s.subrange(1, 1 + t) =~= ty) by {
        assert forall|j: int| 0 <= j < t implies s.subrange(1, 1 + t)[j] == ty[j] by {
            assert(s[1 + j] == head[1 + j]);
        }
    }
    lemma_scan_from(s, 1 + t, 1 + t, Stop::OpenBrace);
    let ob = 1 + t;
    let k0 = ob + 1;
    if kl > 0 {
        assert(s[k0] == key[0]);
    } else {
        assert(s[k0] == ',');
    }
    lemma_scan_from(s, k0, k0, Stop::NonSpace);
    assert forall|j: int| k0 <= j < k0 + kl implies !stops(Stop::KeyEnd, #[trigger] s[j]) by {
        assert(s[j] == head[j]);
        assert(head[j] == key[j - k0]);
    }
    assert(s[k0 + kl] == ',');
    lemma_scan_from(s, k0, k0 + kl, Stop::KeyEnd);
    assert(s.subrange(k0, k0 + kl) =~= key) by {
        assert forall|j: int| 0 <= j < kl implies s.subrange(k0, k0 + kl)[j] == key[j] by {
            assert(s[k0 + j] == head[k0 + j]);
        }
    }
    lemma_trim_plain(key);
    let c = k0 + kl;
    lemma_scan_from(s, c, c, Stop::CommaOrClose);
    let f0 = c + 1;
    assert(s[f0] == '\n');
    assert(s.subrange(h, s.len() as int) =~= field_lines(e.fields, 0) + "}"@);
    assert forall|j: int| f0 <= j < h implies is_ascii_ws(#[trigger] s[j]) by {
        assert(j == f0);
    }
    lemma_fields_parse(s, e.fields, 0, f0, h);
    assert(e.fields.subrange(0, e.fields.len() as int) =~= e.fields);
    reveal_strlit("\n");
    crate::text::lemma_split_step(Seq::<char>::empty(), "\n"@, 0);
    crate::text::lemma_first_occurrence(Seq::<char>::empty(), "\n"@, 0);
    assert(s.subrange(0, 0) =~= Seq::<char>::empty());
    assert(lines_of(Seq::<char>::empty()) =~= Seq::<Seq<char>>::empty()) by {
        let sp = split(Seq::<char>::empty(), "\n"@);
        assert(sp == seq![Seq::<char>::empty().subrange(0, 0)]);
    }
    assert(!skip_marker(s.subrange(0, 0)));
    assert(parse_entries_from(s, s.len() as int) == Seq::<BibV>::empty());
    assert(parse_bib(s) =~= seq![BibV { entry_type: ty, key: key, fields: e.fields }]);
}

fn sub_string(s: &[char], lo: usize, hi: usize) -> (r: String)
    requires
        lo <= hi <= s.len(),
    ensures
        r@ == s@.subrange(lo as int, hi as int),
{
    let v = slice_vec(s, lo, hi);
    string_from_chars(v.as_slice())
}

fn trimmed_string(s: &[char], lo: usize, hi: usize) -> (r: String)
    requires
        lo <= hi <= s.len(),
    ensures
        r@ == trim(s@.subrange(lo as int, hi as int)),
{
    let (a, b) = trim_bounds(s, lo, hi);
    sub_string(s, a, b)
}

fn parse_value_exec(s: &[char], v0: usize) -> (r: (String, usize))
    requires
        v0 < s.len(),
    ensures
        r.0@ == parse_value(s@, v0 as int).0,
        r.1 as int == parse_value(s@, v0 as int).1,
{
    if s[v0] == '{' {
        let e = braced_end_exec(s, v0 + 1);
        let v = sub_string(s, v0 + 1, e);
        (v, if e < s.len() { e + 1 } else { e })
    } else if s[v0] == '"' {
        let e = quoted_end_exec(s, v0 + 1);
        let v = sub_string(s, v0 + 1, e);
        (v, if e < s.len() { e + 1 } else { e })
    } else {
        let e = scan_exec(s, v0, Stop::BareEnd);
        (trimmed_string(s, v0, e), e)
    }
}

fn parse_fields_exec(s: &[char], p0: usize) -> (r: (Vec<(String, String)>, usize))
    requires
        p0 <= s.len(),
    ensures
        fields_view(r.0@) == parse_fields(s@, p0 as int).0,
        r.1 as int == parse_fields(s@, p0 as int).1,
{
    let mut fields: Vec<(String, String)> = Vec::new();
    let mut pos = p0;
    loop
        invariant_except_break
            pos <= s.len(),
            fields_view(fields@) + parse_fields(s@, pos as int).0 == parse_fields(s@, p0 as int).0,
            parse_fields(s@, pos as int).1 == parse_fields(s@, p0 as int).1,
        ensures
            fields_view(fields@) == parse_fields(s@, p0 as int).0,
            pos as int == parse_fields(s@, p0 as int).1,
        decreases s.len() - pos,
    {
        let ghost here = pos as int;
        let q = scan_exec(s, pos, Stop::NonSpace);
        if q >= s.len() {
            assert(parse_fields(s@, here).0 =~= seq![]);
            assert(fields_view(fields@) + seq![] =~= fields_view(fields@));
            pos = q;
            break;
        }
        if s[q] == '}' {
            assert(fields_view(fields@) + seq![] =~= fields_view(fields@));
            pos = q + 1;
            break;
        }
        let ne = scan_exec(s, q, Stop::NameEnd);
        let r = scan_exec(s, ne, Stop::NonSpace);
        if r >= s.len() {
            assert(fields_view(fields@) + seq![] =~= fields_view(fields@));
            pos = r;
            break;
        }
        if s[r] == '}' {
            assert(fields_view(fields@) + seq![] =~= fields_view(fields@));
            pos = r + 1;
            break;
        }
        if s[r] != '=' {
            pos = r + 1;
            continue;
        }
        let v0 = scan_exec(s, r + 1, Stop::NonSpace);
        if v0 >= s.len() {
            assert(fields_view(fields@) + seq![] =~= fields_view(fields@));
            pos = v0;
            break;
        }
        proof {
            lemma_parse_value(s@, v0 as int);
        }
        let (value, after) = parse_value_exec(s, v0);
        let t = scan_exec(s, after, Stop::NonSpace);
        let next = if t < s.len() && s[t] == ',' { t + 1 } else { t };
        let (a, b) = trim_bounds(s, q, ne);
        let raw = slice_vec(s, a, b);
        let lname = lowercase_chars(raw.as_slice());
        let ghost rest = parse_fields(s@, next as int);
        if lname.len() > 0 {
            let ns = string_from_chars(lname.as_slice());
            let ghost old_f = fields_view(fields@);
            fields.push((ns, value));
            proof {
                assert(fields_view(fields@) =~= old_f.push((lname@, value@)));
                assert(parse_fields(s@, here).0 == seq![(lname@, value@)] + rest.0);
                assert(old_f + (seq![(lname@, value@)] + rest.0) =~= fields_view(fields@) + rest.0);
            }
        }
        pos = next;
    }
    (fields, pos)
}

/// Parse a `.bib` file content into entries.
///
/// Handles:
/// - `@type{key, field = {value}, ...}`
/// - `@type{key, field = "value", ...}`
/// - Multi-line values
/// - Nested braces in values
///
/// `@comment`, `@preamble` and `@string` blocks are skipped, and so is an
/// entry with `% lit:skip` in one of the three lines before it.
pub fn parse_bib_file(content: &str) -> (r: Vec<BibEntry>)
    ensures
        entries_view(r@) == parse_bib(content@),
{
    let sv = str_chars(content);
    let s = sv.as_slice();
    let n = s.len();
    let mut entries: Vec<BibEntry> = Vec::new();
    let mut pos: usize = 0;
    loop
        invariant_except_break
            n == s@.len(),
            pos <= n,
            s@ == content@,
            entries_view(entries@) + parse_entries_from(s@, pos as int) == parse_bib(s@),
        ensures
            entries_view(entries@) == parse_bib(content@),
        decreases n - pos,
    {
        let ghost here = pos as int;
        if pos >= n {
            assert(entries_view(entries@) + seq![] =~= entries_view(entries@));
            break;
        }
        let a = scan_exec(s, pos, Stop::At);
        if a >= n {
            assert(entries_view(entries@) + seq![] =~= entries_view(entries@));
            break;
        }
        let te = scan_exec(s, a + 1, Stop::TypeEnd);
        let tyraw = slice_vec(s, a + 1, te);
        let ty = lowercase_chars(tyraw.as_slice());
        let ob = scan_exec(s, te, Stop::OpenBrace);
        if ob >= n {
            assert(entries_view(entries@) + seq![] =~= entries_view(entries@));
            break;
        }
        let k0 = scan_exec(s, ob + 1, Stop::NonSpace);
        let ke = scan_exec(s, k0, Stop::KeyEnd);
        let key = trimmed_string(s, k0, ke);
        let c = scan_exec(s, ke, Stop::CommaOrClose);
        let f0 = if c < n && s[c] == ',' { c + 1 } else { c };
        proof {
            lemma_parse_fields_end(s@, f0 as int);
        }
        let (fields, end) = parse_fields_exec(s, f0);
        let ghost rest = parse_entries_from(s@, end as int);
        if eq_str(ty.as_slice(), "comment") || eq_str(ty.as_slice(), "preamble") || eq_str(ty.as_slice(), "string") {
            pos = end;
            continue;
        }
        let before = slice_vec(s, 0, a);
        if !skip_marker_chars(before.as_slice()) {
            let ghost old_e = entries_view(entries@);
            let e = BibEntry { entry_type: string_from_chars(ty.as_slice()), key, fields };
            entries.push(e);
            proof {
                assert(entries_view(entries@) =~= old_e.push(e@));
                assert(old_e + (seq![e@] + rest) =~= entries_view(entries@) + rest);
            }
        }
        pos = end;
    }
    entries
}

} // verus!
