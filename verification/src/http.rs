//! The retry policy of HTTP requests and the check on what is cached.
//!
//! A request is retried with exponential backoff on timeouts, connection
//! errors, rate limits and server errors, at most ten attempts in all. For
//! Semantic Scholar the first rate limit switches to the API key, and a key
//! that is refused is dropped again. The caller sends the requests and
//! sleeps; this module decides what to do with each reply.
use vstd::prelude::*;
use crate::text::{contains, contains_chars, is_white_space_exec, parse_decimal, parse_decimal_exec, push_str, str_chars, string_from_chars, u64_to_string, is_white_space};

verus! {

/// Attempts made for a request.
pub const MAX_ATTEMPTS: u32 = 10;

/// Maximum response body size: 50 MB.
pub const MAX_RESPONSE_BYTES: u64 = 52428800;

/// Where a request stands: the attempt being made (from 0), whether the
/// Semantic Scholar API key is sent, and whether the key was refused.
#[derive(Debug, Clone, Copy, PartialEq, Eq, Structural)]
pub struct GetState {
    pub attempt: u32,
    pub use_key: bool,
    pub key_failed: bool,
}

/// What came back from one attempt.
#[derive(Debug)]
pub enum HttpReply {
    /// The request failed before a response; `retryable` for a timeout or a
    /// connection error.
    Transport { retryable: bool },
    /// A response: its status code, its status as text (`404 Not Found`),
    /// its `Retry-After` header when readable, its announced length.
    Response { status: u16, status_text: String, retry_after: Option<String>, content_length: Option<u64> },
}

/// What to do next.
#[derive(Debug)]
pub enum HttpAction {
    /// Wait this many seconds, then send the request again.
    Retry { wait_secs: u64 },
    /// Give up with the transport error as it came.
    FailTransport,
    /// Give up with this message.
    Fail(String),
    /// Read the body of the response.
    ReadBody,
}

/// Mathematical view of an [`HttpAction`].
pub enum ActionV {
    Retry(nat),
    FailTransport,
    Fail(Seq<char>),
    ReadBody,
}

/// The view of an action.
pub open spec fn action_view(a: HttpAction) -> ActionV {
    match a {
        HttpAction::Retry { wait_secs } => ActionV::Retry(wait_secs as nat),
        HttpAction::FailTransport => ActionV::FailTransport,
        HttpAction::Fail(m) => ActionV::Fail(m@),
        HttpAction::ReadBody => ActionV::ReadBody,
    }
}

/// Whether a URL is Semantic Scholar's.
pub open spec fn is_s2_url(url: Seq<char>) -> bool {
    contains(url, "semanticscholar.org"@)
}

/// The backoff before retry number `attempt`: 2 to the attempt, at most 30.
pub open spec fn backoff(attempt: nat) -> nat {
    if attempt >= 5 { 30 } else if attempt == 0 { 1 } else if attempt == 1 { 2 } else if attempt == 2 { 4 } else if attempt == 3 { 8 } else { 16 }
}

/// The state before the first attempt: no key sent yet.
pub open spec fn start() -> GetState {
    GetState { attempt: 0, use_key: false, key_failed: false }
}

/// The state for the next attempt.
pub open spec fn next_attempt(st: GetState, use_key: bool, key_failed: bool) -> GetState {
    GetState { attempt: (st.attempt + 1) as u32, use_key: use_key, key_failed: key_failed }
}

/// What one reply leads to, for a request to a Semantic Scholar URL or not
/// (`s2`) with an API key configured or not (`has_key`).
pub open spec fn step(url: Seq<char>, has_key: bool, st: GetState, status: Option<(u16, Seq<char>, Option<Seq<char>>, Option<u64>)>, retryable: bool) -> (GetState, ActionV) {
    let s2 = is_s2_url(url);
    let last = st.attempt >= MAX_ATTEMPTS - 1;
    let wait = backoff(st.attempt as nat);
    match status {
        None => if retryable && !last {
            (next_attempt(st, st.use_key, st.key_failed), ActionV::Retry(wait))
        } else {
            (st, ActionV::FailTransport)
        },
        Some((code, text, retry_after, len)) => if code == 429 {
            if s2 && !st.use_key && has_key && !st.key_failed && !last {
                (next_attempt(st, true, st.key_failed), ActionV::Retry(1))
            } else if !last {
                let w = match retry_after {
                    Some(h) => match parse_decimal(h, u64::MAX as nat) {
                        Some(v) => if v < 30 { v } else { 30 },
                        None => wait,
                    },
                    None => wait,
                };
                (next_attempt(st, st.use_key, st.key_failed), ActionV::Retry(w))
            } else {
                (st, ActionV::Fail("HTTP 429 Too Many Requests for "@ + url + " (retried 10x)"@))
            }
        } else if s2 && st.use_key && code == 403 && !last {
            (next_attempt(st, false, true), ActionV::Retry(1))
        } else if 500 <= code < 600 && !last {
            (next_attempt(st, st.use_key, st.key_failed), ActionV::Retry(wait))
        } else if !(200 <= code < 300) {
            (st, ActionV::Fail("HTTP "@ + text + " for "@ + url))
        } else {
            match len {
                Some(n) => if n > MAX_RESPONSE_BYTES {
                    (st, ActionV::Fail("Response too large ("@ + crate::text::decimal(n as nat) + " bytes) for "@ + url))
                } else {
                    (st, ActionV::ReadBody)
                },
                None => (st, ActionV::ReadBody),
            }
        },
    }
}

/// The state before the first attempt of a request.
pub fn first_attempt() -> (r: GetState)
    ensures
        r == start(),
{
    GetState { attempt: 0, use_key: false, key_failed: false }
}

/// Whether an attempt sends the Semantic Scholar API key.
pub fn sends_key(url: &str, has_key: bool, st: &GetState) -> (r: bool)
    ensures
        r == (is_s2_url(url@) && st.use_key && has_key),
{
    st.use_key && has_key && url_is_s2(url)
}

fn url_is_s2(url: &str) -> (r: bool)
    ensures
        r == is_s2_url(url@),
{
    contains_chars(str_chars(url).as_slice(), str_chars("semanticscholar.org").as_slice())
}

fn backoff_exec(attempt: u32) -> (r: u64)
    ensures
        r == backoff(attempt as nat),
{
    if attempt >= 5 { 30 } else if attempt == 0 { 1 } else if attempt == 1 { 2 } else if attempt == 2 { 4 } else if attempt == 3 { 8 } else { 16 }
}

fn cat4(a: &str, b: &str, c: &str, d: &str) -> (r: String)
    ensures
        r@ == a@ + b@ + c@ + d@,
{
    let mut v: Vec<char> = Vec::new();
    push_str(&mut v, a);
    push_str(&mut v, b);
    push_str(&mut v, c);
    push_str(&mut v, d);
    string_from_chars(v.as_slice())
}

/// The retry policy keeps its bounds: a retry waits at most 30 seconds and
/// moves to the next attempt, which is always one of the ten; any other
/// outcome leaves the state as it was; and once the API key was refused it
/// stays refused and is never taken up again.
pub proof fn lemma_retry_policy(url: Seq<char>, has_key: bool, st: GetState,
    status: Option<(u16, Seq<char>, Option<Seq<char>>, Option<u64>)>, retryable: bool)
    requires
        st.attempt < MAX_ATTEMPTS,
    ensures
        ({
            let (s, a) = step(url, has_key, st, status, retryable);
            &&& (a matches ActionV::Retry(w) ==> w <= 30 && s.attempt == st.attempt + 1 && s.attempt < MAX_ATTEMPTS)
            &&& (!(a is Retry) ==> s == st)
            &&& s.attempt <= MAX_ATTEMPTS
            &&& (st.key_failed ==> s.key_failed && (s.use_key ==> st.use_key))
        }),
{
}

/// Decide what to do with the reply to one attempt of a GET of `url`:
/// retry after a wait (timeouts, connection errors, rate limits, server
/// errors, a refused API key), give up, or read the body.
pub fn next_action(url: &str, has_key: bool, st: GetState, reply: &HttpReply) -> (r: (GetState, HttpAction))
    requires
        st.attempt < MAX_ATTEMPTS,
    ensures
        ({
            let (s, a) = match reply {
                HttpReply::Transport { retryable } => step(url@, has_key, st, None, *retryable),
                HttpReply::Response { status, status_text, retry_after, content_length } =>
                    step(url@, has_key, st, Some((*status, status_text@, crate::api::opt_view(*retry_after), *content_length)), false),
            };
            r.0 == s && action_view(r.1) == a
        }),
        r.0.attempt <= MAX_ATTEMPTS,
        r.1 is Retry ==> r.0.attempt < MAX_ATTEMPTS,
{
    proof {
        reveal_strlit("HTTP 429 Too Many Requests for ");
        reveal_strlit(" (retried 10x)");
        reveal_strlit("");
    }
    let last = st.attempt >= MAX_ATTEMPTS - 1;
    let wait = backoff_exec(st.attempt);
    let next = GetState { attempt: st.attempt + 1, use_key: st.use_key, key_failed: st.key_failed };
    match reply {
        HttpReply::Transport { retryable } => {
            if *retryable && !last {
                (next, HttpAction::Retry { wait_secs: wait })
            } else {
                (st, HttpAction::FailTransport)
            }
        },
        HttpReply::Response { status, status_text, retry_after, content_length } => {
            let s2 = url_is_s2(url);
            if *status == 429 {
                if s2 && !st.use_key && has_key && !st.key_failed && !last {
                    (GetState { attempt: st.attempt + 1, use_key: true, key_failed: st.key_failed }, HttpAction::Retry { wait_secs: 1 })
                } else if !last {
                    let w = match retry_after {
                        Some(h) => match parse_decimal_exec(str_chars(h.as_str()).as_slice(), u64::MAX) {
                            Some(v) => if v < 30 { v } else { 30 },
                            None => wait,
                        },
                        None => wait,
                    };
                    (next, HttpAction::Retry { wait_secs: w })
                } else {
                    (st, HttpAction::Fail(cat4("HTTP 429 Too Many Requests for ", url, " (retried 10x)", "")))
                }
            } else if s2 && st.use_key && *status == 403 && !last {
                (GetState { attempt: st.attempt + 1, use_key: false, key_failed: true }, HttpAction::Retry { wait_secs: 1 })
            } else if 500 <= *status && *status < 600 && !last {
                (next, HttpAction::Retry { wait_secs: wait })
            } else if !(200 <= *status && *status < 300) {
                (st, HttpAction::Fail(cat4("HTTP ", status_text.as_str(), " for ", url)))
            } else {
                match content_length {
                    Some(n) => if *n > MAX_RESPONSE_BYTES {
                        let d = u64_to_string(*n);
                        (st, HttpAction::Fail(cat4("Response too large (", d.as_str(), " bytes) for ", url)))
                    } else {
                        (st, HttpAction::ReadBody)
                    },
                    None => (st, HttpAction::ReadBody),
                }
            }
        },
    }
}

/// Check the size of a body that was read: an error when it is over 50 MB.
pub fn check_body_size(len: u64, url: &str) -> (r: Result<(), String>)
    ensures
        match r {
            Ok(_) => len <= MAX_RESPONSE_BYTES,
            Err(m) => len > MAX_RESPONSE_BYTES
                && m@ == "Response too large ("@ + crate::text::decimal(len as nat) + " bytes) for "@ + url@,
        },
{
    if len > MAX_RESPONSE_BYTES {
        let d = u64_to_string(len);
        Err(cat4("Response too large (", d.as_str(), " bytes) for ", url))
    } else {
        Ok(())
    }
}

/// Whether a body looks worth caching: after leading whitespace it starts
/// with `{`, `[` or `<`.
pub open spec fn looks_valid_spec(body: Seq<char>) -> bool {
    let t = crate::text::trim_start(body);
    t.len() > 0 && (t[0] == '{' || t[0] == '[' || t[0] == '<')
}

/// Check if a response body looks like valid content worth caching.
pub fn looks_valid(body: &str) -> (r: bool)
    ensures
        r == looks_valid_spec(body@),
{
    let c = str_chars(body);
    let mut i: usize = 0;
    assert(c@.subrange(0, c@.len() as int) =~= c@);
    while i < c.len() && is_white_space_exec(c[i])
        invariant
            i <= c@.len(),
            c@ == body@,
            crate::text::trim_start(body@) == crate::text::trim_start(c@.subrange(i as int, c@.len() as int)),
        decreases c@.len() - i,
    {
        assert(c@.subrange(i as int, c@.len() as int).drop_first() =~= c@.subrange(i + 1, c@.len() as int));
        i = i + 1;
    }
    if i < c.len() {
        assert(c@.subrange(i as int, c@.len() as int)[0] == c@[i as int]);
    }
    i < c.len() && (c[i] == '{' || c[i] == '[' || c[i] == '<')
}

} // verus!
