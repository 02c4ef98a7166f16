//! Finding the directory of a downloaded paper from what the user typed.
use vstd::prelude::*;
use crate::api::strs_view;
use crate::text::{contains, contains_chars, join, join_strings, lowercase, replace_all, replace_str, str_chars, str_to_lowercase, string_from_chars, trim, trim_vec};

verus! {

/// The readable text of a paper: where it is, its format (`tex`, `txt`),
/// and the other source files of a LaTeX paper.
#[derive(Debug)]
pub struct ReadResult {
    pub path: String,
    pub format: String,
    pub extra_files: Vec<String>,
}

/// A query as directory names are matched against it: trimmed,
/// lower-cased, slashes made underscores.
pub open spec fn normalized_query(q: Seq<char>) -> Seq<char> {
    replace_all(lowercase(trim(q)), "/"@, "_"@)
}

/// Normalise a query for matching directory names.
pub fn normalize_query(q: &str) -> (r: String)
    ensures
        r@ == normalized_query(q@),
{
    proof {
        reveal_strlit("/");
    }
    let t = string_from_chars(trim_vec(str_chars(q).as_slice()).as_slice());
    let l = str_to_lowercase(t.as_str());
    string_from_chars(replace_str(str_chars(l.as_str()).as_slice(), "/", "_").as_slice())
}

/// The query without its dots (an arXiv ID as a directory name).
pub fn dotless(q: &str) -> (r: String)
    ensures
        r@ == replace_all(q@, "."@, ""@),
{
    proof {
        reveal_strlit(".");
    }
    string_from_chars(replace_str(str_chars(q).as_slice(), ".", "").as_slice())
}

/// Whether a directory name (lower-cased) and a normalised query match:
/// either contains the other.
pub fn name_matches(name: &str, normalized: &str) -> (r: bool)
    ensures
        r == (contains(lowercase(name@), normalized@) || contains(normalized@, lowercase(name@))),
{
    let n = str_chars(str_to_lowercase(name).as_str());
    let q = str_chars(normalized);
    contains_chars(n.as_slice(), q.as_slice()) || contains_chars(q.as_slice(), n.as_slice())
}

/// The outcome of a search for a paper directory among the names that
/// matched: the one, or an error for none or several.
pub open spec fn chosen_dir(query: Seq<char>, matches: Seq<Seq<char>>) -> Result<Seq<char>, Seq<char>> {
    if matches.len() == 0 {
        Err("no paper directory found matching '"@ + query + "'. Use `download` first."@)
    } else if matches.len() == 1 {
        Ok(matches[0])
    } else {
        Err("ambiguous: "@ + join(matches, ", "@))
    }
}

/// Choose the paper directory among the matching names.
pub fn choose_dir(query: &str, matches: &Vec<String>) -> (r: Result<String, String>)
    ensures
        match chosen_dir(query@, strs_view(matches@)) {
            Ok(d) => r matches Ok(x) && x@ == d,
            Err(e) => r matches Err(x) && x@ == e,
        },
{
    if matches.len() == 0 {
        let mut v = str_chars("no paper directory found matching '");
        crate::text::push_str(&mut v, query);
        crate::text::push_str(&mut v, "'. Use `download` first.");
        return Err(string_from_chars(v.as_slice()));
    }
    if matches.len() == 1 {
        assert(strs_view(matches@)[0] == matches@[0]@);
        return Ok(matches[0].clone());
    }
    assert(matches@.map_values(|m: String| m@) =~= strs_view(matches@));
    let j = join_strings(matches.as_slice(), ", ");
    let mut v = str_chars("ambiguous: ");
    crate::text::push_str(&mut v, j.as_str());
    Err(string_from_chars(v.as_slice()))
}

} // verus!
