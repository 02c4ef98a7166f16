//! Truncation of text for display.
use vstd::prelude::*;
use vstd::string::StringSliceAdditionalSpecFns;
use vstd::utf8::{decode_utf8, is_char_boundary, valid_utf8, encode_utf8, encode_utf8_valid_utf8, encode_utf8_decode_utf8};
use crate::text::{push_str, slice_vec, str_chars, string_from_chars};

verus! {

/// Largest character boundary of `bytes` that is at most `max`.
pub open spec fn floor_char_boundary(bytes: Seq<u8>, max: int) -> int
    decreases max,
{
    if max <= 0 {
        0
    } else if is_char_boundary(bytes, max) {
        max
    } else {
        floor_char_boundary(bytes, max - 1)
    }
}

/// Truncate a string at a safe UTF-8 char boundary, up to `max` bytes.
///
/// Returns a slice (no ellipsis). Useful when a fixed byte budget is needed.
pub fn safe_truncate(s: &str, max: usize) -> (r: &str)
    ensures
        s.spec_bytes().len() <= max ==> r@ == s@,
        s.spec_bytes().len() > max ==> r.spec_bytes() == s.spec_bytes().subrange(
            0,
            floor_char_boundary(s.spec_bytes(), max as int),
        ),
        r@ == decode_utf8(r.spec_bytes()),
{
    proof {
        encode_utf8_valid_utf8(s@);
        encode_utf8_decode_utf8(s@);
    }
    let bytes = s.as_bytes();
    if bytes.len() <= max {
        return s;
    }
    let mut end = max;
    while end > 0 && !s.is_char_boundary(end)
        invariant
            end <= max < s.spec_bytes().len(),
            valid_utf8(s.spec_bytes()),
            floor_char_boundary(s.spec_bytes(), max as int) == floor_char_boundary(s.spec_bytes(), end as int),
        decreases end,
    {
        end = end - 1;
    }
    assert(is_char_boundary(s.spec_bytes(), end as int));
    let (a, _b) = s.split_at(end);
    proof {
        encode_utf8_decode_utf8(a@);
    }
    a
}

/// `s` cut to at most `max` characters, with `...` replacing the last three
/// kept characters when something was cut and `max > 3`.
pub open spec fn truncated(s: Seq<char>, max: nat) -> Seq<char> {
    if s.len() <= max {
        s
    } else if max <= 3 {
        s.subrange(0, max as int)
    } else {
        s.subrange(0, max - 3) + "..."@
    }
}

/// Truncate a string to at most `max` characters, appending "..." if truncated.
pub fn truncate(s: &str, max: usize) -> (r: String)
    ensures
        r@ == truncated(s@, max as nat),
{
    let c = str_chars(s);
    if c.len() <= max {
        return string_from_chars(c.as_slice());
    }
    if max <= 3 {
        let t = slice_vec(c.as_slice(), 0, max);
        return string_from_chars(t.as_slice());
    }
    let mut t = slice_vec(c.as_slice(), 0, max - 3);
    push_str(&mut t, "...");
    string_from_chars(t.as_slice())
}

} // verus!
