//! The decisions behind syncing the Columbia Clio catalog: which extract
//! files to fetch, how long to wait before a retry, and what an EZProxy
//! cookie file says about the session.
use vstd::prelude::*;
use crate::api::strs_view;
use crate::api::arxiv::last_index_of;
use crate::cmd::source::{civil_from_days, date_text, date_string};
use crate::text::{
    find_from, first_occurrence, has_suffix, lemma_first_occurrence, lines_exec, lines_of, parse_decimal, parse_decimal_exec,
    slice_vec, split, str_chars, str_eq, string_from_chars, trim, trim_vec, ends_with_str,
};

verus! {

/// Number of files downloaded and parsed at once.
pub const PARALLEL: usize = 3;

/// Attempts per file on a network error.
pub const RETRIES: usize = 3;

/// What follows the last `/` of a link (the link when it has none).
pub open spec fn file_name_of(href: Seq<char>) -> Seq<char> {
    match last_index_of(href, '/') {
        Some(i) => href.subrange(i + 1, href.len() as int),
        None => href,
    }
}

/// The names of the `.xml.gz` files linked (`href="..."`) from `pos` on.
pub open spec fn gz_names_from(s: Seq<char>, pos: int) -> Seq<Seq<char>>
    decreases s.len() - pos,
{
    if pos < 0 || pos > s.len() {
        seq![]
    } else {
        match first_occurrence(s, "href=\""@, pos) {
            None => seq![],
            Some(j) => {
                let st = j + 6;
                match first_occurrence(s, "\""@, st) {
                    None => seq![],
                    Some(k) => if pos < k + 1 && st <= k && k + 1 <= s.len() {
                        let href = s.subrange(st, k);
                        let rest = gz_names_from(s, k + 1);
                        if has_suffix(href, ".xml.gz"@) { seq![file_name_of(href)] + rest } else { rest }
                    } else {
                        seq![]
                    },
                }
            },
        }
    }
}

/// Extract `extract-NNN.xml.gz` filenames from an HTML index page.
pub fn extract_gz_filenames(html: &str) -> (r: Vec<String>)
    ensures
        strs_view(r@) == gz_names_from(html@, 0),
{
    proof {
        reveal_strlit("href=\"");
        reveal_strlit("\"");
        reveal_strlit(".xml.gz");
    }
    let c = str_chars(html);
    let n = c.len();
    let href = str_chars("href=\"");
    let quote = str_chars("\"");
    let mut out: Vec<String> = Vec::new();
    let mut pos: usize = 0;
    assert(strs_view(out@) + gz_names_from(c@, 0) =~= gz_names_from(c@, 0));
    while pos <= n
        invariant
            pos <= n + 1,
            n == c@.len(),
            c@ == html@,
            href@ == "href=\""@,
            quote@ == "\""@,
            href@.len() == 6,
            quote@.len() == 1,
            pos <= n ==> strs_view(out@) + gz_names_from(c@, pos as int) == gz_names_from(c@, 0),
            pos > n ==> strs_view(out@) == gz_names_from(c@, 0),
        decreases n + 1 - pos,
    {
        proof {
            lemma_first_occurrence(c@, href@, pos as int);
        }
        let j = match find_from(c.as_slice(), pos, href.as_slice()) {
            None => {
                assert(strs_view(out@) + Seq::<Seq<char>>::empty() =~= strs_view(out@));
                return out;
            },
            Some(j) => j,
        };
        assert(crate::text::occurs_at(c@, href@, j as int));
        let st = j + 6;
        proof {
            lemma_first_occurrence(c@, quote@, st as int);
        }
        let k = match find_from(c.as_slice(), st, quote.as_slice()) {
            None => {
                assert(strs_view(out@) + Seq::<Seq<char>>::empty() =~= strs_view(out@));
                return out;
            },
            Some(k) => k,
        };
        assert(crate::text::occurs_at(c@, quote@, k as int));
        let h = slice_vec(c.as_slice(), st, k);
        let ghost prev = strs_view(out@);
        if ends_with_str(h.as_slice(), ".xml.gz") {
            let name = file_name_exec(&h);
            let ghost nv = name@;
            out.push(name);
            assert(strs_view(out@) =~= prev + seq![nv]);
            assert(strs_view(out@) + gz_names_from(c@, k + 1) =~= prev + gz_names_from(c@, pos as int));
        }
        pos = k + 1;
    }
    out
}

fn file_name_exec(h: &Vec<char>) -> (r: String)
    ensures
        r@ == file_name_of(h@),
{
    let slash = vec!['/'];
    assert(slash@ =~= seq!['/']);
    assert(slash@.len() == 1);
    let hl = h.len();
    match crate::api::arxiv::last_occurrence_exec(h.as_slice(), slash.as_slice()) {
        Some(i) => string_from_chars(slice_vec(h.as_slice(), i + 1, hl).as_slice()),
        None => string_from_chars(h.as_slice()),
    }
}

/// Format a Unix timestamp as YYYY-MM-DD (UTC).
pub fn epoch_to_date(epoch: u64) -> (r: String)
    ensures
        ({
            let (y, m, d) = civil_from_days((epoch / 86400) as int);
            r@ == date_text(y as nat, m as nat, d as nat)
        }),
{
    date_string(epoch)
}

/// The files still to fetch, with their positions in the index: those not
/// done by an earlier, interrupted sync.
pub open spec fn sync_todo_of(files: Seq<Seq<char>>, done: Seq<Seq<char>>, i: int) -> Seq<(int, Seq<char>)>
    decreases files.len() - i,
{
    if i < 0 || i >= files.len() {
        seq![]
    } else if done.contains(files[i]) {
        sync_todo_of(files, done, i + 1)
    } else {
        seq![(i, files[i])] + sync_todo_of(files, done, i + 1)
    }
}

/// The files still to fetch, with their positions in the index.
pub fn sync_todo(files: &Vec<String>, done: &Vec<String>) -> (r: Vec<(usize, String)>)
    ensures
        r@.len() == sync_todo_of(strs_view(files@), strs_view(done@), 0).len(),
        forall|k: int| 0 <= k < r@.len() ==> (#[trigger] r@[k]).0 == sync_todo_of(strs_view(files@), strs_view(done@), 0)[k].0
            && r@[k].1@ == sync_todo_of(strs_view(files@), strs_view(done@), 0)[k].1,
{
    let ghost fv = strs_view(files@);
    let ghost dv = strs_view(done@);
    let mut out: Vec<(usize, String)> = Vec::new();
    let mut i: usize = files.len();
    while i > 0
        invariant
            i <= files@.len(),
            fv == strs_view(files@),
            dv == strs_view(done@),
            out@.len() == sync_todo_of(fv, dv, i as int).len(),
            forall|k: int| 0 <= k < out@.len() ==> (#[trigger] out@[k]).0 == sync_todo_of(fv, dv, i as int)[k].0
                && out@[k].1@ == sync_todo_of(fv, dv, i as int)[k].1,
        decreases i,
    {
        let k = i - 1;
        assert(fv[k as int] == files@[k as int]@);
        let fk = str_chars(files[k].as_str());
        let found = crate::cmd::clean::contains_key(done, fk.as_slice());
        let ghost before = sync_todo_of(fv, dv, i as int);
        if !found {
            let ghost ob = out@;
            out.insert(0, (k, files[k].clone()));
            assert forall|t: int| 0 <= t < out@.len() implies (#[trigger] out@[t]).0 == sync_todo_of(fv, dv, k as int)[t].0
                && out@[t].1@ == sync_todo_of(fv, dv, k as int)[t].1 by {
                if t > 0 {
                    assert(out@[t] == ob[t - 1]);
                }
            }
        }
        i = k;
    }
    out
}

/// Two to the power `k`.
pub open spec fn pow2(k: nat) -> nat
    decreases k,
{
    if k == 0 { 1 } else { 2 * pow2((k - 1) as nat) }
}

/// Seconds to wait before attempt `attempt` (counted from 0) of a download:
/// none before the first, then 2, 4, ... (2 to the attempt).
pub open spec fn retry_delay(attempt: nat) -> nat {
    if attempt == 0 { 0 } else { pow2(attempt) }
}

proof fn lemma_pow2_monotone(i: nat, j: nat)
    requires
        i <= j,
    ensures
        pow2(i) <= pow2(j),
    decreases j - i,
{
    if i < j {
        lemma_pow2_monotone(i, (j - 1) as nat);
    }
}

/// The wait before attempt `attempt` of a download: none before the first,
/// then 2 to the power of the attempt number.
pub fn retry_delay_secs(attempt: u32) -> (r: u64)
    requires
        attempt <= 63,
    ensures
        r == retry_delay(attempt as nat),
{
    if attempt == 0 {
        return 0;
    }
    proof {
        assert(pow2(63) == 9223372036854775808) by {
            reveal_with_fuel(pow2, 64);
        }
    }
    let mut d: u64 = 1;
    let mut i: u32 = 0;
    while i < attempt
        invariant
            i <= attempt <= 63,
            d == pow2(i as nat),
            pow2(63) == 9223372036854775808,
        decreases attempt - i,
    {
        proof {
            lemma_pow2_monotone((i + 1) as nat, 63);
        }
        d = d * 2;
        i = i + 1;
    }
    d
}

/// The day number (days since 1970-01-01) of a civil date.
pub open spec fn days_from_civil(y: int, m: int, d: int) -> int {
    let yy = if m <= 2 { y - 1 } else { y };
    let era = yy / 400;
    let yoe = yy - era * 400;
    let mp = if m > 2 { m - 3 } else { m + 9 };
    let doy = (153 * mp + 2) / 5 + d - 1;
    let doe = yoe * 365 + yoe / 4 - yoe / 100 + doy;
    era * 146097 + doe - 719468
}

/// The value of the decimal digit `c`.
pub open spec fn digit_of(c: char) -> int {
    c as int - 48
}

/// The day number of a `YYYY-MM-DD` date as `epoch_to_date` writes it (year
/// from 1, month 1 to 12, day 1 to 31), or none for any other text.
pub open spec fn date_days(t: Seq<char>) -> Option<int> {
    if t.len() == 10 && t[4] == '-' && t[7] == '-'
        && crate::text::is_digit(t[0]) && crate::text::is_digit(t[1]) && crate::text::is_digit(t[2]) && crate::text::is_digit(t[3])
        && crate::text::is_digit(t[5]) && crate::text::is_digit(t[6]) && crate::text::is_digit(t[8]) && crate::text::is_digit(t[9]) {
        let y = digit_of(t[0]) * 1000 + digit_of(t[1]) * 100 + digit_of(t[2]) * 10 + digit_of(t[3]);
        let m = digit_of(t[5]) * 10 + digit_of(t[6]);
        let d = digit_of(t[8]) * 10 + digit_of(t[9]);
        if 1 <= y && 1 <= m <= 12 && 1 <= d <= 31 { Some(days_from_civil(y, m, d)) } else { None }
    } else {
        None
    }
}

/// Whether the last sync, recorded as a date, lies fewer than `days` days
/// before today (`today` counted in days since 1970-01-01). No sync, or a
/// date that cannot be read, is not recent.
pub open spec fn synced_within(last_sync: Option<Seq<char>>, today: int, days: int) -> bool {
    match last_sync {
        Some(t) => match date_days(t) {
            Some(n) => today - n < days,
            None => false,
        },
        None => false,
    }
}

/// Days between two syncs of the catalog: Columbia updates it monthly.
pub const SYNC_INTERVAL_DAYS: u64 = 30;

/// How a sync starts.
#[derive(Debug)]
pub enum SyncStart {
    /// Only report on the index: these lines.
    Report(Vec<String>),
    /// Do nothing: synced recently; the message to show.
    Skip(String),
    /// Clear the index and its progress, then sync.
    ClearThenSync,
    /// Sync, resuming where an earlier sync stopped.
    Sync,
}

/// The report on the index: its record count and files done, and when it
/// was last synced (or that a sync is under way, or that there was none).
pub open spec fn sync_report(records: u64, files_done: u64, last_sync: Option<Seq<char>>) -> Seq<Seq<char>> {
    seq![
        "Clio index: "@ + crate::text::decimal(records as nat) + " records ("@ + crate::text::decimal(files_done as nat) + " files indexed)"@,
        match last_sync {
            Some(d) => "Last sync: "@ + d,
            None => if files_done > 0 {
                "Last sync: in progress ("@ + crate::text::decimal(files_done as nat) + " files done)"@
            } else {
                "Last sync: never"@
            },
        },
    ]
}

/// The message shown when a sync is skipped.
pub open spec fn skip_message(date: Seq<char>) -> Seq<char> {
    "Already synced on "@ + date + ". Columbia updates monthly.\nRun `lit clio sync --force` to re-sync."@
}

fn digit_at(t: &Vec<char>, i: usize) -> (r: i64)
    requires
        i < t@.len(),
        crate::text::is_digit(t@[i as int]),
    ensures
        r == digit_of(t@[i as int]),
{
    (t[i] as u32 - 48) as i64
}

fn date_days_exec(t: &str) -> (r: Option<i64>)
    ensures
        match date_days(t@) {
            Some(n) => r == Some(n as i64),
            None => r is None,
        },
{
    let c = str_chars(t);
    if c.len() != 10 || c[4] != '-' || c[7] != '-' {
        return None;
    }
    if !(crate::text::is_digit_exec(c[0]) && crate::text::is_digit_exec(c[1]) && crate::text::is_digit_exec(c[2])
        && crate::text::is_digit_exec(c[3]) && crate::text::is_digit_exec(c[5]) && crate::text::is_digit_exec(c[6])
        && crate::text::is_digit_exec(c[8]) && crate::text::is_digit_exec(c[9])) {
        return None;
    }
    let y = digit_at(&c, 0) * 1000 + digit_at(&c, 1) * 100 + digit_at(&c, 2) * 10 + digit_at(&c, 3);
    let m = digit_at(&c, 5) * 10 + digit_at(&c, 6);
    let d = digit_at(&c, 8) * 10 + digit_at(&c, 9);
    if !(1 <= y && 1 <= m && m <= 12 && 1 <= d && d <= 31) {
        return None;
    }
    let yy: i64 = if m <= 2 { y - 1 } else { y };
    let era: i64 = yy / 400;
    let yoe: i64 = yy - era * 400;
    let mp: i64 = if m > 2 { m - 3 } else { m + 9 };
    let doy: i64 = (153 * mp + 2) / 5 + d - 1;
    let doe: i64 = yoe * 365 + yoe / 4 - yoe / 100 + doy;
    Some(era * 146097 + doe - 719468)
}

fn report_lines_exec(records: u64, files_done: u64, last_sync: Option<&str>) -> (r: Vec<String>)
    ensures
        strs_view(r@) == sync_report(records, files_done, match last_sync { Some(d) => Some(d@), None => None }),
{
    let mut a = str_chars("Clio index: ");
    crate::text::push_all(&mut a, crate::text::u64_to_chars(records).as_slice());
    crate::text::push_str(&mut a, " records (");
    crate::text::push_all(&mut a, crate::text::u64_to_chars(files_done).as_slice());
    crate::text::push_str(&mut a, " files indexed)");
    let b = match last_sync {
        Some(d) => crate::api::cat2("Last sync: ", d),
        None => if files_done > 0 {
            let mut v = str_chars("Last sync: in progress (");
            crate::text::push_all(&mut v, crate::text::u64_to_chars(files_done).as_slice());
            crate::text::push_str(&mut v, " files done)");
            string_from_chars(v.as_slice())
        } else {
            "Last sync: never".to_owned()
        },
    };
    let mut out: Vec<String> = Vec::new();
    crate::api::push_string(&mut out, string_from_chars(a.as_slice()));
    crate::api::push_string(&mut out, b);
    assert(strs_view(out@) =~= sync_report(records, files_done, match last_sync { Some(d) => Some(d@), None => None }));
    out
}

/// How a sync of the catalog starts: with `check_only`, the report on the
/// index; else with `force`, clearing the index first; else skipped when the
/// last sync lies within the 30 days between updates, and a sync otherwise.
pub fn sync_start(check_only: bool, force: bool, last_sync: Option<&str>, today_days: u64, records: u64, files_done: u64)
    -> (r: SyncStart)
    ensures
        ({
            let ls = match last_sync { Some(d) => Some(d@), None => None::<Seq<char>> };
            &&& check_only ==> (r matches SyncStart::Report(lines) && strs_view(lines@) == sync_report(records, files_done, ls))
            &&& (!check_only && force) ==> r is ClearThenSync
            &&& (!check_only && !force) ==> (r is Skip <==> synced_within(ls, today_days as int, SYNC_INTERVAL_DAYS as int))
            &&& (!check_only && !force && synced_within(ls, today_days as int, SYNC_INTERVAL_DAYS as int))
                ==> (r matches SyncStart::Skip(m) && m@ == skip_message(ls->0))
            &&& (!check_only && !force && !synced_within(ls, today_days as int, SYNC_INTERVAL_DAYS as int)) ==> r is Sync
        }),
{
    if check_only {
        return SyncStart::Report(report_lines_exec(records, files_done, last_sync));
    }
    if force {
        return SyncStart::ClearThenSync;
    }
    match last_sync {
        Some(t) => match date_days_exec(t) {
            Some(n) => {
                if (today_days as i128) - (n as i128) < 30 {
                    SyncStart::Skip(crate::api::cat3("Already synced on ", t,
                        ". Columbia updates monthly.\nRun `lit clio sync --force` to re-sync."))
                } else {
                    SyncStart::Sync
                }
            },
            None => SyncStart::Sync,
        },
        None => SyncStart::Sync,
    }
}

/// Whether a line of a cookie file holds a cookie: not blank, not a comment.
pub open spec fn cookie_line(l: Seq<char>) -> bool {
    trim(l).len() > 0 && trim(l)[0] != '#'
}

/// The expiry time of a Netscape cookie line: its fifth tab-separated field
/// read as a `u64`, when the line has at least six fields.
pub open spec fn cookie_expiry(l: Seq<char>) -> Option<nat> {
    let f = split(trim(l), "\t"@);
    if f.len() >= 6 { parse_decimal(f[4], u64::MAX as nat) } else { None }
}

/// The earliest and latest of two optional ranges.
pub open spec fn widen(r: Option<(nat, nat)>, e: Option<nat>) -> Option<(nat, nat)> {
    match (r, e) {
        (Some((lo, hi)), Some(x)) => Some((if x < lo { x } else { lo }, if x > hi { x } else { hi })),
        (None, Some(x)) => Some((x, x)),
        (r, None) => r,
    }
}

/// The number of cookies in the lines, and the range of their expiry times.
pub open spec fn cookie_stats(ls: Seq<Seq<char>>) -> (nat, Option<(nat, nat)>)
    decreases ls.len(),
{
    if ls.len() == 0 {
        (0, None)
    } else {
        let (n, r) = cookie_stats(ls.drop_last());
        if cookie_line(ls.last()) { (n + 1, widen(r, cookie_expiry(ls.last()))) } else { (n, r) }
    }
}

/// What an EZProxy cookie file says: how many cookies it holds, and the
/// earliest and latest expiry among them.
#[derive(Debug)]
pub struct CookieSummary {
    pub count: usize,
    pub expiry: Option<(u64, u64)>,
}

/// Count the cookies of a Netscape-format cookie file and the range of
/// their expiry times.
pub fn cookie_summary(content: &str) -> (r: CookieSummary)
    ensures
        r.count == cookie_stats(lines_of(content@)).0,
        match cookie_stats(lines_of(content@)).1 {
            Some((lo, hi)) => r.expiry matches Some((a, b)) && a == lo && b == hi,
            None => r.expiry is None,
        },
{
    proof {
        reveal_strlit("\t");
    }
    let ls = lines_exec(content);
    let ghost lv = lines_of(content@);
    let tab = str_chars("\t");
    let mut count: usize = 0;
    let mut expiry: Option<(u64, u64)> = None;
    let mut i: usize = 0;
    assert(lv.subrange(0, 0) =~= Seq::<Seq<char>>::empty());
    while i < ls.len()
        invariant
            i <= ls@.len(),
            ls@.len() == lv.len(),
            lv == lines_of(content@),
            tab@ == "\t"@,
            tab@.len() == 1,
            forall|k: int| 0 <= k < ls@.len() ==> (#[trigger] ls@[k])@ == lv[k],
            count == cookie_stats(lv.subrange(0, i as int)).0,
            count <= i,
            match cookie_stats(lv.subrange(0, i as int)).1 {
                Some((lo, hi)) => expiry matches Some((a, b)) && a == lo && b == hi,
                None => expiry is None,
            },
        decreases ls@.len() - i,
    {
        let ghost sub = lv.subrange(0, i + 1);
        assert(sub.drop_last() =~= lv.subrange(0, i as int));
        assert(sub.last() == ls@[i as int]@);
        let t = trim_vec(ls[i].as_slice());
        if t.len() > 0 && t[0] != '#' {
            count = count + 1;
            let f = crate::text::split_on(t.as_slice(), tab.as_slice());
            if f.len() >= 6 {
                match parse_decimal_exec(f[4].as_slice(), u64::MAX) {
                    Some(x) => {
                        expiry = match expiry {
                            Some((lo, hi)) => Some((if x < lo { x } else { lo }, if x > hi { x } else { hi })),
                            None => Some((x, x)),
                        };
                    },
                    None => {},
                }
            }
        }
        i = i + 1;
    }
    assert(lv.subrange(0, lv.len() as int) =~= lv);
    CookieSummary { count, expiry }
}

} // verus!
