//! JSON documents as plain values, parsed by `serde_json`.
use vstd::prelude::*;
use crate::text::str_eq;

verus! {

/// A JSON value. Numbers keep only their value as a `u64`, when they have
/// one (`serde_json::Value::as_u64`).
#[derive(Debug)]
pub enum Json {
    Null,
    Bool(bool),
    Number(Option<u64>),
    Str(String),
    Array(Vec<Json>),
    Object(Vec<(String, Json)>),
}

/// Mathematical view of a JSON value.
pub enum JsonV {
    Null,
    Bool(bool),
    Number(Option<u64>),
    Str(Seq<char>),
    Array(Seq<JsonV>),
    Object(Seq<(Seq<char>, JsonV)>),
}

pub open spec fn json_view(j: Json) -> JsonV
    decreases j,
{
    match j {
        Json::Null => JsonV::Null,
        Json::Bool(b) => JsonV::Bool(b),
        Json::Number(n) => JsonV::Number(n),
        Json::Str(s) => JsonV::Str(s@),
        Json::Array(v) => JsonV::Array(Seq::new(v@.len(), |i: int| if 0 <= i < v@.len() { json_view(v@[i]) } else { JsonV::Null })),
        Json::Object(ps) => JsonV::Object(Seq::new(ps@.len(), |i: int| if 0 <= i < ps@.len() { (ps@[i].0@, json_view(ps@[i].1)) } else { (Seq::empty(), JsonV::Null) })),
    }
}

impl View for Json {
    type V = JsonV;

    open spec fn view(&self) -> JsonV {
        json_view(*self)
    }
}

/// Member `key` of an object (the first with that name), or null.
pub open spec fn lookup(ps: Seq<(Seq<char>, JsonV)>, key: Seq<char>) -> JsonV
    decreases ps.len(),
{
    if ps.len() == 0 {
        JsonV::Null
    } else if ps[0].0 == key {
        ps[0].1
    } else {
        lookup(ps.drop_first(), key)
    }
}

/// `value[key]` as `serde_json` indexes it: the member of an object, null
/// for a missing member or a value that is not an object.
pub open spec fn jget(j: JsonV, key: Seq<char>) -> JsonV {
    match j {
        JsonV::Object(ps) => lookup(ps, key),
        _ => JsonV::Null,
    }
}

/// `Value::as_str`.
pub open spec fn jstr(j: JsonV) -> Option<Seq<char>> {
    match j {
        JsonV::Str(s) => Some(s),
        _ => None,
    }
}

/// `Value::as_u64`.
pub open spec fn ju64(j: JsonV) -> Option<u64> {
    match j {
        JsonV::Number(n) => n,
        _ => None,
    }
}

/// `Value::as_bool`.
pub open spec fn jbool(j: JsonV) -> Option<bool> {
    match j {
        JsonV::Bool(b) => Some(b),
        _ => None,
    }
}

/// `Value::as_array`.
pub open spec fn jarr(j: JsonV) -> Option<Seq<JsonV>> {
    match j {
        JsonV::Array(a) => Some(a),
        _ => None,
    }
}

/// First element of an array, or null (`as_array().and_then(first)`).
pub open spec fn jfirst(j: JsonV) -> JsonV {
    match j {
        JsonV::Array(a) => if a.len() > 0 { a[0] } else { JsonV::Null },
        _ => JsonV::Null,
    }
}

/// First element of an array, when it is an array with one
/// (`as_array().and_then(|a| a.first())`).
pub open spec fn jhead(j: JsonV) -> Option<JsonV> {
    match j {
        JsonV::Array(a) => if a.len() > 0 { Some(a[0]) } else { None },
        _ => None,
    }
}

/// Whether a value is an object (`Value::as_object().is_some()`).
pub open spec fn jobj(j: JsonV) -> Option<Seq<(Seq<char>, JsonV)>> {
    match j {
        JsonV::Object(ps) => Some(ps),
        _ => None,
    }
}

/// View of an optional reference, a missing value viewed as null.
pub open spec fn ov(o: Option<&Json>) -> JsonV {
    match o {
        Some(j) => j@,
        None => JsonV::Null,
    }
}

/// Characters of an optional string slice.
pub open spec fn os(o: Option<&str>) -> Option<Seq<char>> {
    match o {
        Some(s) => Some(s@),
        None => None,
    }
}

proof fn lemma_object_view(ps: Vec<(String, Json)>, i: int)
    requires
        0 <= i < ps@.len(),
    ensures
        json_view(Json::Object(ps)) matches JsonV::Object(vs) && vs.len() == ps@.len() && vs[i] == (ps@[i].0@, json_view(ps@[i].1)),
{
}

pub(crate) proof fn lemma_array_view(v: Vec<Json>, i: int)
    requires
        0 <= i < v@.len(),
    ensures
        json_view(Json::Array(v)) matches JsonV::Array(vs) && vs.len() == v@.len() && vs[i] == json_view(v@[i]),
{
}

/// `o[key]`.
pub fn jfield<'a>(o: Option<&'a Json>, key: &str) -> (r: Option<&'a Json>)
    ensures
        ov(r) == jget(ov(o), key@),
{
    match o {
        Some(Json::Object(ps)) => {
            let ghost vs = match ov(o) {
                JsonV::Object(w) => w,
                _ => Seq::empty(),
            };
            assert(ov(o) == JsonV::Object(vs));
            assert(vs.subrange(0, vs.len() as int) =~= vs);
            let mut i: usize = 0;
            while i < ps.len()
                invariant
                    i <= ps.len(),
                    ov(o) == JsonV::Object(vs),
                    o == Some(&Json::Object(*ps)),
                    vs.len() == ps@.len(),
                    forall|k: int| 0 <= k < vs.len() ==> vs[k] == (ps@[k].0@, json_view(ps@[k].1)),
                    lookup(vs, key@) == lookup(vs.subrange(i as int, vs.len() as int), key@),
                decreases ps.len() - i,
            {
                let ghost rest = vs.subrange(i as int, vs.len() as int);
                assert(rest[0] == vs[i as int]);
                if str_eq(ps[i].0.as_str(), key) {
                    assert(lookup(rest, key@) == vs[i as int].1);
                    return Some(&ps[i].1);
                }
                assert(rest.drop_first() =~= vs.subrange(i + 1, vs.len() as int));
                i = i + 1;
            }
            assert(vs.subrange(i as int, vs.len() as int).len() == 0);
            None
        },
        _ => None,
    }
}

/// `o.as_str()`.
pub fn jas_str<'a>(o: Option<&'a Json>) -> (r: Option<&'a str>)
    ensures
        os(r) == jstr(ov(o)),
{
    match o {
        Some(Json::Str(s)) => Some(s.as_str()),
        _ => None,
    }
}

/// `o.as_u64()`.
pub fn jas_u64(o: Option<&Json>) -> (r: Option<u64>)
    ensures
        r == ju64(ov(o)),
{
    match o {
        Some(Json::Number(n)) => *n,
        _ => None,
    }
}

/// `o.as_bool()`.
pub fn jas_bool(o: Option<&Json>) -> (r: Option<bool>)
    ensures
        r == jbool(ov(o)),
{
    match o {
        Some(Json::Bool(b)) => Some(*b),
        _ => None,
    }
}

/// `o.as_array()`, elements viewed one by one.
pub fn jas_array<'a>(o: Option<&'a Json>) -> (r: Option<&'a Vec<Json>>)
    ensures
        r is Some <==> jarr(ov(o)) is Some,
        r matches Some(v) ==> {
            &&& jarr(ov(o)).unwrap().len() == v@.len()
            &&& forall|i: int| 0 <= i < v@.len() ==> (#[trigger] v@[i])@ == jarr(ov(o)).unwrap()[i]
        },
{
    match o {
        Some(Json::Array(v)) => Some(v),
        _ => None,
    }
}

/// `o.as_array().and_then(|a| a.first())`.
pub fn jas_first<'a>(o: Option<&'a Json>) -> (r: Option<&'a Json>)
    ensures
        ov(r) == jfirst(ov(o)),
        r is Some <==> jhead(ov(o)) is Some,
        r matches Some(x) ==> jhead(ov(o)) == Some(x@),
{
    match o {
        Some(Json::Array(v)) => {
            if v.len() > 0 {
                Some(&v[0])
            } else {
                None
            }
        },
        _ => None,
    }
}

/// The first member of an object (`as_object().and_then(|m| m.iter().next())`).
pub fn jas_first_entry<'a>(o: Option<&'a Json>) -> (r: Option<(&'a str, &'a Json)>)
    ensures
        match jobj(ov(o)) {
            Some(ps) => if ps.len() > 0 {
                r matches Some(e) && e.0@ == ps[0].0 && e.1@ == ps[0].1
            } else {
                r is None
            },
            None => r is None,
        },
{
    match o {
        Some(Json::Object(ps)) => {
            if ps.len() > 0 {
                proof {
                    lemma_object_view(*ps, 0);
                }
                Some((ps[0].0.as_str(), &ps[0].1))
            } else {
                None
            }
        },
        _ => None,
    }
}

/// The view of the members of an object under construction.
pub open spec fn entries_view(ps: Seq<(String, Json)>) -> Seq<(Seq<char>, JsonV)> {
    ps.map_values(|e: (String, Json)| (e.0@, json_view(e.1)))
}

/// An object built from members has those members as its view.
pub proof fn lemma_object_entries(ps: Vec<(String, Json)>)
    ensures
        json_view(Json::Object(ps)) == JsonV::Object(entries_view(ps@)),
{
    let j = json_view(Json::Object(ps));
    let vs = j->Object_0;
    assert(j is Object && vs.len() == ps@.len());
    assert forall|i: int| 0 <= i < ps@.len() implies vs[i] == entries_view(ps@)[i] by {
        lemma_object_view(ps, i);
    }
    assert(vs =~= entries_view(ps@));
}

/// An array of strings.
pub open spec fn str_array(v: Seq<Seq<char>>) -> JsonV {
    JsonV::Array(v.map_values(|s: Seq<char>| JsonV::Str(s)))
}

/// Build an array of strings.
pub fn json_str_array(v: &Vec<String>) -> (r: Json)
    ensures
        r@ == str_array(crate::api::strs_view(v@)),
{
    let mut out: Vec<Json> = Vec::new();
    let mut i: usize = 0;
    while i < v.len()
        invariant
            i <= v@.len(),
            out@.len() == i,
            forall|k: int| 0 <= k < i ==> json_view(#[trigger] out@[k]) == JsonV::Str(v@[k]@),
        decreases v@.len() - i,
    {
        out.push(Json::Str(v[i].clone()));
        i = i + 1;
    }
    let r = Json::Array(out);
    proof {
        let vs = json_view(r)->Array_0;
        assert(json_view(r) is Array && vs.len() == out@.len());
        assert forall|k: int| 0 <= k < out@.len() implies vs[k] == crate::api::strs_view(v@).map_values(|s: Seq<char>| JsonV::Str(s))[k] by {
            lemma_array_view(out, k);
        }
        assert(vs =~= crate::api::strs_view(v@).map_values(|s: Seq<char>| JsonV::Str(s)));
    }
    r
}

/// Add a member at the end of an object under construction.
pub fn push_entry(ps: &mut Vec<(String, Json)>, key: &str, value: Json)
    ensures
        entries_view(final(ps)@) == entries_view(old(ps)@).push((key@, value@)),
{
    ps.push((key.to_owned(), value));
    assert(entries_view(ps@) =~= entries_view(old(ps)@).push((key@, value@)));
}

/// A string member when the value is present, else nothing.
pub open spec fn opt_entry(key: Seq<char>, o: Option<Seq<char>>) -> Seq<(Seq<char>, JsonV)> {
    match o {
        Some(s) => seq![(key, JsonV::Str(s))],
        None => seq![],
    }
}

/// Add a string member when the value is present.
pub fn push_opt_entry(ps: &mut Vec<(String, Json)>, key: &str, o: &Option<String>)
    ensures
        entries_view(final(ps)@) == entries_view(old(ps)@) + opt_entry(key@, crate::api::opt_view(*o)),
{
    match o {
        Some(s) => {
            push_entry(ps, key, Json::Str(s.clone()));
            assert(entries_view(ps@) =~= entries_view(old(ps)@) + opt_entry(key@, crate::api::opt_view(*o)));
        },
        None => {
            assert(entries_view(ps@) =~= entries_view(old(ps)@) + opt_entry(key@, crate::api::opt_view(*o)));
        },
    }
}

/// The value `serde_json` parses `text` into, if it is valid JSON.
pub uninterp spec fn json_parsed(text: Seq<char>) -> Option<JsonV>;

#[verifier::external_type_specification]
#[verifier::external_body]
pub struct ExJsonValue(serde_json::Value);

/// Copy of a `serde_json::Value` as a `Json`, variant for variant; numbers
/// keep `Number::as_u64`.
#[verifier::external_body]
fn json_of_value(v: &serde_json::Value) -> Json {
    match v {
        serde_json::Value::Null => Json::Null,
        serde_json::Value::Bool(b) => Json::Bool(*b),
        serde_json::Value::Number(n) => Json::Number(n.as_u64()),
        serde_json::Value::String(s) => Json::Str(s.clone()),
        serde_json::Value::Array(a) => Json::Array(a.iter().map(json_of_value).collect()),
        serde_json::Value::Object(m) => Json::Object(m.iter().map(|(k, x)| (k.clone(), json_of_value(x))).collect()),
    }
}

/// `serde_json::from_str::<serde_json::Value>`: `None` when `text` is not
/// valid JSON. The claim is that the result depends on `text` alone.
#[verifier::external_body]
pub(crate) fn parse_json(text: &str) -> (r: Option<Json>)
    ensures
        match r {
            Some(j) => json_parsed(text@) == Some(j@),
            None => json_parsed(text@) is None,
        },
{
    serde_json::from_str::<serde_json::Value>(text).ok().map(|v| json_of_value(&v))
}

/// The compact text `serde_json::to_string` writes for a value.
pub uninterp spec fn json_text(j: JsonV) -> Seq<char>;

/// Copy of a `Json` as a `serde_json::Value`, variant for variant; a number
/// without a `u64` value becomes null.
#[verifier::external_body]
fn value_of_json(j: &Json) -> serde_json::Value {
    match j {
        Json::Null => serde_json::Value::Null,
        Json::Bool(b) => serde_json::Value::Bool(*b),
        Json::Number(Some(n)) => serde_json::Value::Number(serde_json::Number::from(*n)),
        Json::Number(None) => serde_json::Value::Null,
        Json::Str(s) => serde_json::Value::String(s.clone()),
        Json::Array(a) => serde_json::Value::Array(a.iter().map(value_of_json).collect()),
        Json::Object(ps) => serde_json::Value::Object(ps.iter().map(|(k, x)| (k.clone(), value_of_json(x))).collect()),
    }
}

/// `serde_json::to_string` on the value: its compact JSON text, which
/// depends on the value alone. Writing a `serde_json::Value` cannot fail.
#[verifier::external_body]
pub(crate) fn json_to_string(j: &Json) -> (r: String)
    ensures
        r@ == json_text(j@),
{
    serde_json::to_string(&value_of_json(j)).unwrap_or_default()
}

} // verus!
