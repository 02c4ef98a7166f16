//! XML documents as a sequence of plain events, read by `quick_xml`.
//!
//! The parsers of this crate (the arXiv Atom feed, MARCXML catalog dumps)
//! are state machines over these events; only the tokenising is left to
//! `quick_xml`.
use vstd::prelude::*;
use vstd::utf8::{decode_utf8, valid_utf8};
use vstd::string::StringSliceAdditionalSpecFns;
use quick_xml::events::Event::{Empty, End, Eof, Start, Text};

verus! {

/// One event of an XML document, names and contents as raw bytes.
#[derive(Debug)]
pub enum XmlEvent {
    /// An opening tag: its name, its attributes (key and value, in order)
    /// and whether it is self-closing (`<x/>`).
    Start(Vec<u8>, Vec<(Vec<u8>, Vec<u8>)>, bool),
    /// A closing tag and its name.
    End(Vec<u8>),
    /// Text between tags, still escaped.
    Text(Vec<u8>),
    /// The end of the document.
    Eof,
    /// A syntax error, with its message.
    Error(String),
    /// Anything else: comments, declarations, CDATA, processing instructions.
    Other,
}

/// Mathematical view of an XML event.
pub enum XmlEventV {
    Start(Seq<u8>, Seq<(Seq<u8>, Seq<u8>)>, bool),
    End(Seq<u8>),
    Text(Seq<u8>),
    Eof,
    Error(Seq<char>),
    Other,
}

/// The bytes of each attribute's key and value.
pub open spec fn attrs_view(a: Seq<(Vec<u8>, Vec<u8>)>) -> Seq<(Seq<u8>, Seq<u8>)> {
    a.map_values(|p: (Vec<u8>, Vec<u8>)| (p.0@, p.1@))
}

impl View for XmlEvent {
    type V = XmlEventV;

    open spec fn view(&self) -> XmlEventV {
        match self {
            XmlEvent::Start(n, a, e) => XmlEventV::Start(n@, attrs_view(a@), *e),
            XmlEvent::End(n) => XmlEventV::End(n@),
            XmlEvent::Text(t) => XmlEventV::Text(t@),
            XmlEvent::Eof => XmlEventV::Eof,
            XmlEvent::Error(m) => XmlEventV::Error(m@),
            XmlEvent::Other => XmlEventV::Other,
        }
    }
}

/// The views of a list of events.
pub open spec fn events_view(v: Seq<XmlEvent>) -> Seq<XmlEventV> {
    v.map_values(|e: XmlEvent| e@)
}

/// An event that ends the reading: the end of the document or an error.
pub open spec fn is_final(e: XmlEventV) -> bool {
    e is Eof || e is Error
}

/// A complete reading: it ends with a final event and has no other.
pub open spec fn well_ended(s: Seq<XmlEventV>) -> bool {
    &&& s.len() > 0
    &&& is_final(s.last())
    &&& forall|i: int| 0 <= i < s.len() - 1 ==> !is_final(#[trigger] s[i])
}

#[verifier::external_type_specification]
#[verifier::external_body]
#[verifier::reject_recursive_types(R)]
pub struct ExXmlReader<R>(quick_xml::Reader<R>);

/// The events a reader has still to yield, up to and including the end of
/// the document or the first error: what the reader holds.
pub uninterp spec fn xml_pending(r: quick_xml::Reader<&[u8]>) -> Seq<XmlEventV>;

/// The events `quick_xml` reads from `xml` (text trimmed of surrounding
/// white space, and white-space-only text skipped, when `trim`), up to and
/// including the end of the document or the first error.
pub uninterp spec fn xml_events(xml: Seq<u8>, trim: bool) -> Seq<XmlEventV>;

/// `quick_xml::Reader::from_reader` over `xml`, with `trim_text(trim)`. The
/// claims: the reader holds the events of `xml`, and reading ends, with one
/// final event.
#[verifier::external_body]
fn xml_reader(xml: &[u8], trim: bool) -> (r: quick_xml::Reader<&[u8]>)
    ensures
        xml_pending(r) == xml_events(xml@, trim),
        well_ended(xml_pending(r)),
{
    let mut r = quick_xml::Reader::from_reader(xml);
    r.config_mut().trim_text(trim);
    r
}

/// `quick_xml::Reader::read_event_into`, the event copied as a plain value.
/// The claim: the reader yields the first of the events it holds, and holds
/// the rest.
#[verifier::external_body]
fn next_xml_event(reader: &mut quick_xml::Reader<&[u8]>) -> (ev: XmlEvent)
    requires
        xml_pending(*old(reader)).len() > 0,
    ensures
        ev@ == xml_pending(*old(reader))[0],
        xml_pending(*final(reader)) == xml_pending(*old(reader)).drop_first(),
{
    let buf = &mut Vec::new();
    let (e, empty) = match reader.read_event_into(buf) {
        Ok(Start(e)) => (e, false),
        Ok(Empty(e)) => (e, true),
        Ok(End(e)) => return XmlEvent::End(e.name().0.to_vec()),
        Ok(Text(e)) => return XmlEvent::Text(e.to_vec()),
        Ok(Eof) => return XmlEvent::Eof,
        Err(e) => return XmlEvent::Error(e.to_string()),
        _ => return XmlEvent::Other
    };
    XmlEvent::Start(e.name().0.to_vec(), e.attributes().flatten().map(|a| (a.key.0.to_vec(), a.value.to_vec())).collect(), empty)
}

/// The characters `String::from_utf8_lossy` makes of `b`.
pub uninterp spec fn lossy_utf8(b: Seq<u8>) -> Seq<char>;

/// `String::from_utf8_lossy`: the characters of `b`, invalid sequences
/// replaced by U+FFFD; valid UTF-8 is decoded as it is.
#[verifier::external_body]
pub(crate) fn utf8_lossy(b: &[u8]) -> (r: String)
    ensures
        r@ == lossy_utf8(b@),
        valid_utf8(b@) ==> r@ == decode_utf8(b@),
{
    String::from_utf8_lossy(b).into_owned()
}

/// `std::str::from_utf8`: the characters of `b` when it is valid UTF-8.
#[verifier::external_body]
pub(crate) fn utf8_str(b: &[u8]) -> (r: Option<String>)
    ensures
        match r {
            Some(s) => valid_utf8(b@) && s@ == decode_utf8(b@),
            None => !valid_utf8(b@),
        },
{
    std::str::from_utf8(b).ok().map(|s| s.to_owned())
}

/// The text `quick_xml::escape::unescape` makes of `s`, when its escapes
/// are well formed.
pub uninterp spec fn xml_unescaped(s: Seq<char>) -> Option<Seq<char>>;

/// `quick_xml::escape::unescape`: `s` with its predefined and numeric
/// entities replaced; `None` for a malformed or unknown entity.
#[verifier::external_body]
fn unescape_xml(s: &str) -> (r: Option<String>)
    ensures
        match r {
            Some(t) => xml_unescaped(s@) == Some(t@),
            None => xml_unescaped(s@) is None,
        },
{
    quick_xml::escape::unescape(s).ok().map(|c| c.into_owned())
}

/// The text of a text event: decoded as UTF-8 and unescaped, empty when
/// either fails (`BytesText::unescape().unwrap_or_default()`).
pub open spec fn text_value(raw: Seq<u8>) -> Seq<char> {
    if valid_utf8(raw) {
        match xml_unescaped(decode_utf8(raw)) {
            Some(t) => t,
            None => seq![],
        }
    } else {
        seq![]
    }
}

/// The text of a text event.
pub fn event_text(raw: &[u8]) -> (r: String)
    ensures
        r@ == text_value(raw@),
{
    match utf8_str(raw) {
        Some(s) => match unescape_xml(s.as_str()) {
            Some(t) => t,
            None => String::new(),
        },
        None => String::new(),
    }
}

/// Whether the bytes `b` are those of `s`.
pub fn bytes_are(b: &[u8], s: &str) -> (r: bool)
    ensures
        r == (b@ == s.spec_bytes()),
{
    let sb = s.as_bytes();
    if b.len() != sb.len() {
        return false;
    }
    let mut i: usize = 0;
    while i < b.len()
        invariant
            i <= b@.len() == sb@.len(),
            sb@ == s.spec_bytes(),
            forall|k: int| 0 <= k < i ==> b@[k] == sb@[k],
        decreases b@.len() - i,
    {
        if b[i] != sb[i] {
            return false;
        }
        i = i + 1;
    }
    assert(b@ =~= sb@);
    true
}

/// Every event of `xml`, the last one final.
pub fn read_xml_events(xml: &[u8], trim: bool) -> (r: Vec<XmlEvent>)
    ensures
        events_view(r@) == xml_events(xml@, trim),
{
    let mut reader = xml_reader(xml, trim);
    let ghost all = xml_events(xml@, trim);
    let mut out: Vec<XmlEvent> = Vec::new();
    loop
        invariant_except_break
            xml_pending(reader).len() > 0,
            events_view(out@) + xml_pending(reader) == all,
        invariant
            well_ended(all),
            all == xml_events(xml@, trim),
        ensures
            events_view(out@) == all,
        decreases xml_pending(reader).len(),
    {
        let ghost before = xml_pending(reader);
        let ghost prev = events_view(out@);
        let ev = next_xml_event(&mut reader);
        let fin = match &ev {
            XmlEvent::Eof => true,
            XmlEvent::Error(_) => true,
            _ => false,
        };
        let ghost evv = ev@;
        out.push(ev);
        assert(events_view(out@) =~= prev.push(evv));
        proof {
            assert(all[prev.len() as int] == before[0]);
            if fin {
                assert(is_final(all[prev.len() as int]));
                assert(prev.len() == all.len() - 1);
                assert(events_view(out@) =~= all);
            } else {
                assert(!is_final(all[prev.len() as int]));
                assert(prev.len() < all.len() - 1);
                assert(events_view(out@) + xml_pending(reader) =~= all);
            }
        }
        if fin {
            break;
        }
    }
    out
}

} // verus!
