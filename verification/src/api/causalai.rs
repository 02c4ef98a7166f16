//! CausalAI Lab technical reports (causalai.net/rNNN).
//!
//! These reports have no DOI or arXiv id and the site's own
//! `references/rNNN.bib` files are frequently missing or malformed, so the
//! entry is derived from the report's title page instead. The page follows a
//! fixed template:
//!
//! ```text
//! TECHNICAL REPORT
//! R-145
//! Mar, 2026                 (or "First version: .../Last version: ...")
//!
//! <title, one or two lines>
//!
//! <authors>
//! <affiliation / email>     (optional)
//! Abstract ...
//! ```
//!
//! `parse_header` turns the `pdftotext` rendering of that page into
//! structured metadata.
use vstd::prelude::*;
use crate::api::{cat3, filter_mapped, strs_view, PaperResult, PaperV, empty_paper};
use crate::pattern::{
    one_group, one_group_exec, regex_all_captured, regex_captures_all, regex_is_match, regex_matches, regex_pieces,
    regex_split,
};
use crate::text::{
    contains, contains_chars, decimal, has_prefix, is_digit, is_digit_exec, join, join_strings, join_vecs,
    lower_ascii_chars, lower_ascii_seq, parse_decimal, parse_decimal_exec, push_str, slice_vec, split, split_on,
    split_words, starts_with_str, str_chars, string_from_chars, trim, trim_vec, u64_to_string, words,
};

verus! {

/// Report number at the start of a line: `R-145`, any case.
pub const RNUM_PATTERN: &'static str = "(?i)^r-\\s*(\\d+)\\b";

/// A year from 1900 to 2099 as a whole word.
pub const YEAR_PATTERN: &'static str = "\\b((?:19|20)\\d{2})\\b";

/// A letter, white space and a digit: an affiliation superscript.
pub const AFFIL_DIGIT_PATTERN: &'static str = "[A-Za-z]\\s+\\d";

/// A run of digits.
pub const DIGIT_RUN_PATTERN: &'static str = "\\d+";

/// Structured metadata parsed from a report's title page.
#[derive(Debug, Clone)]
pub struct CausalaiMeta {
    /// Report number, e.g. `R-145`.
    pub number: String,
    pub title: String,
    pub authors: Vec<String>,
    pub year: String,
}

/// Mathematical view of report metadata.
pub struct MetaV {
    pub number: Seq<char>,
    pub title: Seq<char>,
    pub authors: Seq<Seq<char>>,
    pub year: Seq<char>,
}

impl View for CausalaiMeta {
    type V = MetaV;

    open spec fn view(&self) -> MetaV {
        MetaV { number: self.number@, title: self.title@, authors: strs_view(self.authors@), year: self.year@ }
    }
}

/// PDF URL for a canonical report id (e.g. `r145`).
pub fn pdf_url(id: &str) -> (r: String)
    ensures
        r@ == "https://causalai.net/"@ + id@ + ".pdf"@,
{
    cat3("https://causalai.net/", id, ".pdf")
}

/// A line, trimmed, when something is left of it.
pub open spec fn nonempty_trimmed(l: Seq<char>) -> Option<Seq<char>> {
    if trim(l).len() > 0 { Some(trim(l)) } else { None }
}

/// The non-blank lines of `text`, each trimmed.
pub open spec fn header_lines(text: Seq<char>) -> Seq<Seq<char>> {
    filter_mapped(split(text, seq!['\n']), |l: Seq<char>| nonempty_trimmed(l))
}

/// The first line at or after `i` that starts with a report number: its
/// index and the number as `R-NNN`.
pub open spec fn report_number_from(lines: Seq<Seq<char>>, i: int) -> Option<(int, Seq<char>)>
    decreases lines.len() - i,
{
    if i < 0 || i >= lines.len() {
        None
    } else {
        match one_group(RNUM_PATTERN@, lines[i]) {
            Some(g) => Some((i, "R-"@ + g)),
            None => report_number_from(lines, i + 1),
        }
    }
}

/// The years mentioned in a line.
pub open spec fn line_years(l: Seq<char>) -> Seq<nat> {
    filter_mapped(
        regex_all_captured(YEAR_PATTERN@, l, 1),
        |g: Option<Seq<char>>| match g {
            Some(s) => parse_decimal(s, u32::MAX as nat),
            None => None,
        },
    )
}

/// The largest of `ys` (0 for none).
pub open spec fn max_of(ys: Seq<nat>) -> nat
    decreases ys.len(),
{
    if ys.len() == 0 {
        0
    } else {
        let m = max_of(ys.drop_last());
        if ys.last() > m { ys.last() } else { m }
    }
}

/// The date block starting at line `i`: the lines that mention a year, the
/// index after them and the latest year among them (combined with `year`).
pub open spec fn date_block(lines: Seq<Seq<char>>, i: int, year: Option<nat>) -> (int, Option<nat>)
    decreases lines.len() - i,
{
    if i < 0 || i >= lines.len() || line_years(lines[i]).len() == 0 {
        (i, year)
    } else {
        let y0: nat = match year {
            Some(y) => y,
            None => 0,
        };
        let m = max_of(line_years(lines[i]));
        date_block(lines, i + 1, Some(if m > y0 { m } else { y0 }))
    }
}

/// A line that begins the abstract or an affiliation block.
pub open spec fn is_terminator_line(line: Seq<char>) -> bool {
    let l = lower_ascii_seq(line);
    has_prefix(l, "abstract"@) || contains(l, "university"@) || contains(l, "laborator"@) || contains(l, "@"@)
        || has_prefix(l, "{"@)
}

/// An authors line: names joined by ` and `, or carrying affiliation digits.
pub open spec fn looks_like_authors_line(line: Seq<char>) -> bool {
    contains(line, " and "@) || regex_matches(AFFIL_DIGIT_PATTERN@, line)
}

/// The authors line after the title that starts at `start`, searched from
/// `i`: none when a terminator comes first.
pub open spec fn authors_line_from(lines: Seq<Seq<char>>, start: int, i: int) -> Option<int>
    decreases lines.len() - i,
{
    if i < 0 || i >= lines.len() {
        None
    } else if i > start && is_terminator_line(lines[i]) {
        None
    } else if i > start && looks_like_authors_line(lines[i]) {
        Some(i)
    } else {
        authors_line_from(lines, start, i + 1)
    }
}

/// `s` without its ASCII digits.
pub open spec fn without_digits(s: Seq<char>) -> Seq<char>
    decreases s.len(),
{
    if s.len() == 0 {
        s
    } else {
        without_digits(s.drop_last()) + if is_digit(s.last()) { seq![] } else { seq![s.last()] }
    }
}

/// A comma, period or semicolon.
pub open spec fn is_name_punct(c: char) -> bool {
    c == ',' || c == '.' || c == ';'
}

/// `s` without leading name punctuation.
pub open spec fn trim_punct_start(s: Seq<char>) -> Seq<char>
    decreases s.len(),
{
    if s.len() > 0 && is_name_punct(s[0]) { trim_punct_start(s.drop_first()) } else { s }
}

/// `s` without trailing name punctuation.
pub open spec fn trim_punct_end(s: Seq<char>) -> Seq<char>
    decreases s.len(),
{
    if s.len() > 0 && is_name_punct(s.last()) { trim_punct_end(s.drop_last()) } else { s }
}

/// An author token with digits removed, white space collapsed, and stray
/// punctuation and white space trimmed.
pub open spec fn normalized_author(s: Seq<char>) -> Seq<char> {
    trim(trim_punct_end(trim_punct_start(join(words(without_digits(s)), " "@))))
}

/// The raw author tokens of a line: split at ` and `, else at digit runs.
pub open spec fn author_parts(line: Seq<char>) -> Seq<Seq<char>> {
    if contains(line, " and "@) { split(line, " and "@) } else { regex_pieces(DIGIT_RUN_PATTERN@, line) }
}

/// A normalised author, when something is left of it.
pub open spec fn author_of(p: Seq<char>) -> Option<Seq<char>> {
    if normalized_author(p).len() > 0 { Some(normalized_author(p)) } else { None }
}

/// The authors of an authors line.
pub open spec fn authors_of(line: Seq<char>) -> Seq<Seq<char>> {
    filter_mapped(author_parts(line), |p: Seq<char>| author_of(p))
}

/// Metadata of a title page, or the reason it cannot be read.
pub open spec fn header_meta(text: Seq<char>) -> Result<MetaV, Seq<char>> {
    let lines = header_lines(text);
    match report_number_from(lines, 0) {
        None => Err("no R-NNN report number found on title page"@),
        Some((idx_r, number)) => {
            let (idx_title, year) = date_block(lines, idx_r + 1, None);
            match year {
                None => Err("no publication year found on title page"@),
                Some(y) => match authors_line_from(lines, idx_title, idx_title) {
                    None => Err("could not locate the authors line on title page"@),
                    Some(a) => {
                        let title = trim(join(lines.subrange(idx_title, a), " "@));
                        if title.len() == 0 {
                            Err("empty title parsed from title page"@)
                        } else if authors_of(lines[a]).len() == 0 {
                            Err("no authors parsed from title page"@)
                        } else {
                            Ok(MetaV { number, title, authors: authors_of(lines[a]), year: decimal(y) })
                        }
                    },
                },
            }
        },
    }
}

fn header_lines_exec(text: &str) -> (r: Vec<String>)
    ensures
        strs_view(r@) == header_lines(text@),
{
    let c = str_chars(text);
    let nl: [char; 1] = ['\n'];
    assert(nl@ =~= seq!['\n']);
    let pieces = split_on(c.as_slice(), &nl);
    let ghost ps = split(text@, seq!['\n']);
    let ghost f = |l: Seq<char>| nonempty_trimmed(l);
    let mut out: Vec<String> = Vec::new();
    let mut i: usize = 0;
    while i < pieces.len()
        invariant
            i <= pieces@.len(),
            ps.len() == pieces@.len(),
            f == (|l: Seq<char>| nonempty_trimmed(l)),
            forall|k: int| 0 <= k < pieces@.len() ==> (#[trigger] pieces@[k])@ == ps[k],
            strs_view(out@) == filter_mapped(ps.subrange(0, i as int), f),
        decreases pieces@.len() - i,
    {
        let ghost sub = ps.subrange(0, i + 1);
        assert(sub.drop_last() =~= ps.subrange(0, i as int));
        assert(sub.last() == pieces@[i as int]@);
        let t = trim_vec(pieces[i].as_slice());
        if t.len() > 0 {
            let ghost prev = strs_view(out@);
            let s = string_from_chars(t.as_slice());
            out.push(s);
            assert(strs_view(out@) =~= prev.push(s@));
        }
        i = i + 1;
    }
    assert(ps.subrange(0, ps.len() as int) =~= ps);
    out
}

/// The largest year of a line, when it mentions one.
fn line_max_year(line: &str) -> (r: Option<u32>)
    ensures
        match r {
            Some(m) => line_years(line@).len() > 0 && m as nat == max_of(line_years(line@)),
            None => line_years(line@).len() == 0,
        },
{
    let gs = regex_captures_all(YEAR_PATTERN, line, 1);
    let ghost gv = gs@.map_values(|g: Option<String>| match g { Some(s) => Some(s@), None => None });
    let ghost f = |g: Option<Seq<char>>| match g {
        Some(s) => parse_decimal(s, u32::MAX as nat),
        None => None,
    };
    let mut best: Option<u32> = None;
    let mut i: usize = 0;
    while i < gs.len()
        invariant
            i <= gs@.len(),
            gv == gs@.map_values(|g: Option<String>| match g { Some(s) => Some(s@), None => None }),
            f == (|g: Option<Seq<char>>| match g {
                Some(s) => parse_decimal(s, u32::MAX as nat),
                None => None,
            }),
            match best {
                Some(m) => filter_mapped(gv.subrange(0, i as int), f).len() > 0
                    && m as nat == max_of(filter_mapped(gv.subrange(0, i as int), f)),
                None => filter_mapped(gv.subrange(0, i as int), f).len() == 0,
            },
        decreases gs@.len() - i,
    {
        let ghost sub = gv.subrange(0, i + 1);
        assert(sub.drop_last() =~= gv.subrange(0, i as int));
        let ghost prev = filter_mapped(gv.subrange(0, i as int), f);
        match &gs[i] {
            Some(s) => {
                let sc = str_chars(s.as_str());
                match parse_decimal_exec(sc.as_slice(), 0xFFFF_FFFFu64) {
                    Some(v) => {
                        assert(v <= 0xFFFF_FFFFu64);
                        let y = v as u32;
                        assert(filter_mapped(sub, f) =~= prev.push(v as nat));
                        assert(prev.push(v as nat).drop_last() =~= prev);
                        assert(max_of(prev.push(v as nat)) == (if v as nat > max_of(prev) { v as nat } else { max_of(prev) }));
                        best = match best {
                            Some(m) => if y > m { Some(y) } else { Some(m) },
                            None => Some(y),
                        };
                    },
                    None => {
                        assert(filter_mapped(sub, f) =~= prev);
                    },
                }
            },
            None => {
                assert(filter_mapped(sub, f) =~= prev);
            },
        }
        i = i + 1;
    }
    assert(gv.subrange(0, gv.len() as int) =~= gv);
    best
}

fn is_terminator(line: &str) -> (r: bool)
    ensures
        r == is_terminator_line(line@),
{
    let l = lower_ascii_chars(str_chars(line).as_slice());
    starts_with_str(l.as_slice(), "abstract")
        || contains_chars(l.as_slice(), str_chars("university").as_slice())
        || contains_chars(l.as_slice(), str_chars("laborator").as_slice())
        || contains_chars(l.as_slice(), str_chars("@").as_slice())
        || starts_with_str(l.as_slice(), "{")
}

fn looks_like_authors(line: &str) -> (r: bool)
    ensures
        r == looks_like_authors_line(line@),
{
    contains_chars(str_chars(line).as_slice(), str_chars(" and ").as_slice()) || regex_is_match(AFFIL_DIGIT_PATTERN, line)
}

/// Strip digits and stray punctuation from a single author token, collapse
/// internal whitespace.
pub fn normalize_author(s: &str) -> (r: String)
    ensures
        r@ == normalized_author(s@),
{
    let c = str_chars(s);
    let mut nd: Vec<char> = Vec::new();
    let mut i: usize = 0;
    while i < c.len()
        invariant
            i <= c@.len(),
            nd@ == without_digits(c@.subrange(0, i as int)),
        decreases c@.len() - i,
    {
        assert(c@.subrange(0, i + 1).drop_last() =~= c@.subrange(0, i as int));
        if !is_digit_exec(c[i]) {
            nd.push(c[i]);
        }
        i = i + 1;
    }
    assert(c@.subrange(0, c@.len() as int) =~= c@);
    let ws = split_words(nd.as_slice());
    assert(ws@.map_values(|p: Vec<char>| p@) =~= words(nd@));
    let sp: [char; 1] = [' '];
    proof {
        reveal_strlit(" ");
    }
    assert(sp@ =~= " "@);
    let j = join_vecs(&ws, &sp);
    let mut lo: usize = 0;
    let mut hi: usize = j.len();
    assert(j@.subrange(0, hi as int) =~= j@);
    while lo < hi && (j[lo] == ',' || j[lo] == '.' || j[lo] == ';')
        invariant
            lo <= hi == j@.len(),
            trim_punct_start(j@) == trim_punct_start(j@.subrange(lo as int, hi as int)),
        decreases hi - lo,
    {
        assert(j@.subrange(lo as int, hi as int).drop_first() =~= j@.subrange(lo + 1, hi as int));
        lo = lo + 1;
    }
    let ghost st = j@.subrange(lo as int, hi as int);
    assert(trim_punct_start(st) == st);
    assert(st.subrange(0, st.len() as int) =~= st);
    while hi > lo && (j[hi - 1] == ',' || j[hi - 1] == '.' || j[hi - 1] == ';')
        invariant
            lo <= hi <= j@.len(),
            st == j@.subrange(lo as int, j@.len() as int),
            trim_punct_end(st) == trim_punct_end(j@.subrange(lo as int, hi as int)),
        decreases hi - lo,
    {
        assert(j@.subrange(lo as int, hi as int).drop_last() =~= j@.subrange(lo as int, hi - 1));
        hi = hi - 1;
    }
    let core = slice_vec(j.as_slice(), lo, hi);
    let t = trim_vec(core.as_slice());
    string_from_chars(t.as_slice())
}

/// Split an authors line into individual "First Last" names.
pub fn parse_authors(line: &str) -> (r: Vec<String>)
    ensures
        strs_view(r@) == authors_of(line@),
{
    proof {
        reveal_strlit(" and ");
    }
    let lc = str_chars(line);
    let sep = str_chars(" and ");
    let parts: Vec<String> = if contains_chars(lc.as_slice(), sep.as_slice()) {
        let ps = split_on(lc.as_slice(), sep.as_slice());
        let mut v: Vec<String> = Vec::new();
        let mut k: usize = 0;
        while k < ps.len()
            invariant
                k <= ps@.len(),
                v@.len() == k,
                forall|t: int| 0 <= t < k ==> (#[trigger] v@[t])@ == ps@[t]@,
            decreases ps@.len() - k,
        {
            v.push(string_from_chars(ps[k].as_slice()));
            k = k + 1;
        }
        assert(strs_view(v@) =~= split(line@, " and "@));
        v
    } else {
        regex_split(DIGIT_RUN_PATTERN, line)
    };
    let ghost pv = author_parts(line@);
    assert(strs_view(parts@) == pv);
    let ghost f = |p: Seq<char>| author_of(p);
    let mut out: Vec<String> = Vec::new();
    let mut i: usize = 0;
    while i < parts.len()
        invariant
            i <= parts@.len(),
            pv.len() == parts@.len(),
            f == (|p: Seq<char>| author_of(p)),
            forall|k: int| 0 <= k < parts@.len() ==> (#[trigger] parts@[k])@ == pv[k],
            strs_view(out@) == filter_mapped(pv.subrange(0, i as int), f),
        decreases parts@.len() - i,
    {
        let ghost sub = pv.subrange(0, i + 1);
        assert(sub.drop_last() =~= pv.subrange(0, i as int));
        assert(sub.last() == parts@[i as int]@);
        let n = normalize_author(parts[i].as_str());
        if !n.as_str().is_empty() {
            let ghost prev = strs_view(out@);
            out.push(n);
            assert(strs_view(out@) =~= prev.push(n@));
        }
        i = i + 1;
    }
    assert(pv.subrange(0, pv.len() as int) =~= pv);
    out
}

/// Parse a CausalAI report title page (as rendered by `pdftotext`) into
/// metadata.
pub fn parse_header(text: &str) -> (r: Result<CausalaiMeta, String>)
    ensures
        match header_meta(text@) {
            Ok(m) => r matches Ok(x) && x@ == m,
            Err(e) => r matches Err(x) && x@ == e,
        },
{
    let lines = header_lines_exec(text);
    let ghost ls = header_lines(text@);
    let n = lines.len();

    // 1. Report number.
    let mut i: usize = 0;
    let mut found: Option<(usize, String)> = None;
    while i < n
        invariant_except_break
            found is None,
        invariant
            i <= n == lines@.len(),
            strs_view(lines@) == ls,
            report_number_from(ls, 0) == report_number_from(ls, i as int),
        ensures
            match found {
                Some((k, num)) => report_number_from(ls, 0) == Some((k as int, num@)) && k < n,
                None => report_number_from(ls, 0) is None,
            },
        decreases n - i,
    {
        assert(ls[i as int] == lines@[i as int]@);
        match one_group_exec(RNUM_PATTERN, lines[i].as_str()) {
            Some(g) => {
                found = Some((i, cat2_owned("R-", g.as_str())));
                break;
            },
            None => {},
        }
        i = i + 1;
    }
    let (idx_r, number) = match found {
        Some(f) => f,
        None => return Err("no R-NNN report number found on title page".to_owned()),
    };

    // 2. Date block: consecutive lines bearing a year; the latest year wins.
    let mut idx_title = idx_r + 1;
    let mut year: Option<u32> = None;
    while idx_title < n
        invariant
            idx_r < idx_title <= n == lines@.len(),
            strs_view(lines@) == ls,
            date_block(ls, idx_r + 1, None) == date_block(ls, idx_title as int, match year {
                Some(y) => Some(y as nat),
                None => None,
            }),
        ensures
            idx_title <= n,
            date_block(ls, idx_r + 1, None) == ((idx_title as int), match year {
                Some(y) => Some(y as nat),
                None => None,
            }),
        decreases n - idx_title,
    {
        assert(ls[idx_title as int] == lines@[idx_title as int]@);
        match line_max_year(lines[idx_title].as_str()) {
            None => break,
            Some(m) => {
                let y0: u32 = match year {
                    Some(y) => y,
                    None => 0,
                };
                year = Some(if m > y0 { m } else { y0 });
            },
        }
        idx_title = idx_title + 1;
    }
    let year = match year {
        Some(y) => u64_to_string(y as u64),
        None => return Err("no publication year found on title page".to_owned()),
    };

    // 3. The title runs up to the authors line; stop at the abstract or the
    //    affiliation block.
    let mut a = idx_title;
    let mut authors_idx: Option<usize> = None;
    while a < n
        invariant_except_break
            authors_idx is None,
        invariant
            idx_title <= a <= n == lines@.len(),
            strs_view(lines@) == ls,
            authors_line_from(ls, idx_title as int, idx_title as int) == authors_line_from(ls, idx_title as int, a as int),
        ensures
            match authors_idx {
                Some(k) => authors_line_from(ls, idx_title as int, idx_title as int) == Some(k as int) && idx_title <= k < n,
                None => authors_line_from(ls, idx_title as int, idx_title as int) is None,
            },
        decreases n - a,
    {
        assert(ls[a as int] == lines@[a as int]@);
        if a > idx_title && is_terminator(lines[a].as_str()) {
            break;
        }
        if a > idx_title && looks_like_authors(lines[a].as_str()) {
            authors_idx = Some(a);
            break;
        }
        a = a + 1;
    }
    let authors_idx = match authors_idx {
        Some(k) => k,
        None => return Err("could not locate the authors line on title page".to_owned()),
    };
    let mut title_lines: Vec<String> = Vec::new();
    let mut t = idx_title;
    while t < authors_idx
        invariant
            idx_title <= t <= authors_idx < n == lines@.len(),
            strs_view(lines@) == ls,
            strs_view(title_lines@) == ls.subrange(idx_title as int, t as int),
        decreases authors_idx - t,
    {
        let ghost prev = strs_view(title_lines@);
        assert(ls[t as int] == lines@[t as int]@);
        let l = lines[t].clone();
        title_lines.push(l);
        assert(strs_view(title_lines@) =~= prev.push(ls[t as int]));
        assert(strs_view(title_lines@) =~= ls.subrange(idx_title as int, t + 1));
        t = t + 1;
    }
    let joined = join_strings(title_lines.as_slice(), " ");
    assert(title_lines@.map_values(|p: String| p@) =~= strs_view(title_lines@));
    let title_v = trim_vec(str_chars(joined.as_str()).as_slice());
    if title_v.len() == 0 {
        return Err("empty title parsed from title page".to_owned());
    }
    let title = string_from_chars(title_v.as_slice());
    assert(ls[authors_idx as int] == lines@[authors_idx as int]@);
    let authors = parse_authors(lines[authors_idx].as_str());
    if authors.len() == 0 {
        return Err("no authors parsed from title page".to_owned());
    }
    Ok(CausalaiMeta { number, title, authors, year })
}

fn cat2_owned(a: &str, b: &str) -> (r: String)
    ensures
        r@ == a@ + b@,
{
    let mut v = str_chars(a);
    push_str(&mut v, b);
    string_from_chars(v.as_slice())
}

/// The paper record shown for a report: its title, authors and year, the
/// report as venue and its PDF.
pub open spec fn report_paper(m: MetaV, id: Seq<char>) -> PaperV {
    PaperV {
        title: m.title,
        authors: m.authors,
        year: m.year,
        venue: Some("Technical Report "@ + m.number + ", Causal Artificial Intelligence Lab, Columbia University"@),
        pdf_url: Some("https://causalai.net/"@ + id + ".pdf"@),
        ..empty_paper()
    }
}

/// Build a `PaperResult` (for display) from parsed metadata.
pub fn to_paper_result(meta: &CausalaiMeta, id: &str) -> (r: PaperResult)
    ensures
        r@ == report_paper(meta@, id@),
{
    let mut p = PaperResult::default();
    p.title = meta.title.clone();
    let mut authors: Vec<String> = Vec::new();
    let mut i: usize = 0;
    while i < meta.authors.len()
        invariant
            i <= meta.authors@.len(),
            strs_view(authors@) == strs_view(meta.authors@).subrange(0, i as int),
        decreases meta.authors@.len() - i,
    {
        let ghost prev = strs_view(authors@);
        let a = meta.authors[i].clone();
        authors.push(a);
        assert(strs_view(authors@) =~= prev.push(strs_view(meta.authors@)[i as int]));
        assert(strs_view(authors@) =~= strs_view(meta.authors@).subrange(0, i + 1));
        i = i + 1;
    }
    assert(strs_view(meta.authors@).subrange(0, meta.authors@.len() as int) =~= strs_view(meta.authors@));
    p.authors = authors;
    p.year = meta.year.clone();
    p.venue = Some(cat3("Technical Report ", meta.number.as_str(), ", Causal Artificial Intelligence Lab, Columbia University"));
    p.pdf_url = Some(pdf_url(id));
    p
}

} // verus!
