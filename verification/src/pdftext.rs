//! Deciding whether the text extracted from a PDF is solid.
//!
//! A scanned paper carries page images and no text layer, so `pdftotext`
//! returns whitespace and the caller silently gets nothing. The extraction
//! reports that outcome as [`Method::Scanned`] rather than leaving the caller
//! to discover an empty file. Recovering the text costs a
//! rasterise-and-recognise pass over every page, so it happens only when the
//! caller asks for it.
use vstd::prelude::*;
use crate::text::{
    is_white_space, is_white_space_exec, has_prefix, split, split_on, trim, trim_vec, str_chars, strip_prefix_str,
    parse_decimal, parse_decimal_exec,
};

verus! {

/// Characters of solid text a page must average before we believe the text
/// layer. A born-digital page runs to thousands; a scan yields a handful of
/// stray marks from embedded stamps.
pub const MIN_CHARS_PER_PAGE: usize = 100;

/// Pages to rasterise at most, bounding OCR on a long scan.
pub const MAX_OCR_PAGES: usize = 400;

/// How the text of a PDF was obtained.
#[derive(Debug, PartialEq, Eq, Clone, Copy, Structural)]
pub enum Method {
    /// Read from the PDF's own text layer.
    TextLayer,
    /// No usable text layer, and OCR was not requested: the text is near-empty.
    Scanned,
    /// Recognised from rasterised pages.
    Ocr,
}

/// Number of characters of `s` that are not white space.
pub open spec fn non_ws_count(s: Seq<char>) -> nat
    decreases s.len(),
{
    if s.len() == 0 {
        0
    } else {
        non_ws_count(s.drop_last()) + if is_white_space(s.last()) { 0nat } else { 1nat }
    }
}

/// `text` averages fewer than [`MIN_CHARS_PER_PAGE`] solid characters over
/// `pages` pages (one page when the count is unknown or zero).
pub open spec fn too_sparse(text: Seq<char>, pages: Option<usize>) -> bool {
    let p: nat = match pages {
        Some(n) => if n >= 1 { n as nat } else { 1 },
        None => 1,
    };
    non_ws_count(text) / p < MIN_CHARS_PER_PAGE as nat
}

/// Whether `text` is too sparse to be a solid text layer for `pages` pages.
///
/// `pages` of `None` means the page count is unknown, in which case one
/// page is assumed: that is the least forgiving reading, so a genuinely
/// empty extraction still trips the check.
pub fn needs_ocr(text: &str, pages: Option<usize>) -> (r: bool)
    ensures
        r == too_sparse(text@, pages),
{
    let c = str_chars(text);
    let mut solid: usize = 0;
    let mut i: usize = 0;
    while i < c.len()
        invariant
            i <= c@.len(),
            solid as nat == non_ws_count(c@.subrange(0, i as int)),
            solid <= i,
        decreases c@.len() - i,
    {
        assert(c@.subrange(0, i + 1).drop_last() =~= c@.subrange(0, i as int));
        if !is_white_space_exec(c[i]) {
            solid = solid + 1;
        }
        i = i + 1;
    }
    assert(c@.subrange(0, c@.len() as int) =~= c@);
    let p: usize = match pages {
        Some(n) => if n >= 1 { n } else { 1 },
        None => 1,
    };
    solid / p < MIN_CHARS_PER_PAGE
}

/// The value of the first `Pages:` line of `pdfinfo` output.
pub open spec fn page_count_of(info: Seq<char>) -> Option<nat> {
    let ls = split(info, seq!['\n']);
    if exists|i: int| 0 <= i < ls.len() && has_prefix(#[trigger] ls[i], "Pages:"@) {
        let i = choose|i: int| 0 <= i < ls.len() && has_prefix(#[trigger] ls[i], "Pages:"@)
            && forall|k: int| 0 <= k < i ==> !has_prefix(#[trigger] ls[k], "Pages:"@);
        parse_decimal(trim(ls[i].subrange("Pages:"@.len() as int, ls[i].len() as int)), usize::MAX as nat)
    } else {
        None
    }
}

/// The `Pages:` field of `pdfinfo` output.
pub fn parse_page_count(info: &str) -> (r: Option<usize>)
    ensures
        match r {
            Some(n) => page_count_of(info@) == Some(n as nat),
            None => page_count_of(info@) is None,
        },
{
    let c = str_chars(info);
    let nl: [char; 1] = ['\n'];
    assert(nl@ =~= seq!['\n']);
    let ls = split_on(c.as_slice(), &nl);
    let ghost ps = split(info@, seq!['\n']);
    let mut i: usize = 0;
    while i < ls.len()
        invariant
            i <= ls@.len(),
            ps.len() == ls@.len(),
            ps == split(info@, seq!['\n']),
            forall|k: int| 0 <= k < ls@.len() ==> (#[trigger] ls@[k])@ == ps[k],
            forall|k: int| 0 <= k < i ==> !has_prefix(#[trigger] ps[k], "Pages:"@),
        decreases ls@.len() - i,
    {
        match strip_prefix_str(ls[i].as_slice(), "Pages:") {
            Some(rest) => {
                let t = trim_vec(rest.as_slice());
                proof {
                    let w = choose|w: int| 0 <= w < ps.len() && has_prefix(#[trigger] ps[w], "Pages:"@)
                        && forall|k: int| 0 <= k < w ==> !has_prefix(#[trigger] ps[k], "Pages:"@);
                    assert(0 <= i < ps.len() && has_prefix(ps[i as int], "Pages:"@)
                        && forall|k: int| 0 <= k < i ==> !has_prefix(#[trigger] ps[k], "Pages:"@));
                    if w < i {
                        assert(!has_prefix(ps[w], "Pages:"@));
                    }
                    if w > i {
                        assert(!has_prefix(ps[i as int], "Pages:"@));
                    }
                    assert(w == i);
                }
                let v = parse_decimal_exec(t.as_slice(), usize::MAX as u64);
                return match v {
                    Some(n) => Some(n as usize),
                    None => None,
                };
            },
            None => {},
        }
        i = i + 1;
    }
    None
}

/// What to do once the text layer has been read.
#[derive(Debug, PartialEq, Eq, Clone, Copy, Structural)]
pub enum AfterTextLayer {
    /// The extraction is finished, by this method.
    Done(Method),
    /// Rasterise and recognise the pages.
    Recognise,
}

/// Decide what follows reading the text layer `text` of a PDF of `pages`
/// pages: keep it when it is dense enough, else report a scan, or recognise
/// the pages when `recognise` was asked for.
pub fn after_text_layer(text: &str, pages: Option<usize>, recognise: bool) -> (r: AfterTextLayer)
    ensures
        r == (if !too_sparse(text@, pages) {
            AfterTextLayer::Done(Method::TextLayer)
        } else if !recognise {
            AfterTextLayer::Done(Method::Scanned)
        } else {
            AfterTextLayer::Recognise
        }),
{
    if !needs_ocr(text, pages) {
        AfterTextLayer::Done(Method::TextLayer)
    } else if !recognise {
        AfterTextLayer::Done(Method::Scanned)
    } else {
        AfterTextLayer::Recognise
    }
}

/// Judge recognised text: an error when OCR recovered too little, since the
/// caller asked for the text and did not get it.
pub fn after_recognition(recognised: &str, pages: Option<usize>) -> (r: Result<Method, String>)
    ensures
        r is Ok <==> !too_sparse(recognised@, pages),
        r matches Ok(m) ==> m == Method::Ocr,
{
    if needs_ocr(recognised, pages) {
        Err("OCR recovered no text from the pages".to_owned())
    } else {
        Ok(Method::Ocr)
    }
}

} // verus!
