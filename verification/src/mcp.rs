//! The tools the MCP server offers, described as data: each tool's name,
//! purpose and parameters, and which parameters are required; the routing
//! of JSON-RPC messages; and the JSON the tools answer with.
use vstd::prelude::*;
use crate::api::{PaperResult, PaperV, papers_view, strs_view};
use crate::json::{jget, jstr, ju64, jbool, jarr, jfield, jas_str, jas_u64, jas_bool, jas_array, os, ov};
use crate::json::{Json, JsonV, entries_view, json_text, json_to_string, lemma_object_entries, push_entry, str_array, json_str_array};
use crate::cmd::{paper_brief_entries, paper_entries, paper_to_json, paper_to_json_brief};
use crate::cmd::clean::{CleanReport, pairs_view};

verus! {

/// The type of a tool parameter in its JSON schema.
#[derive(Debug, Clone, Copy, PartialEq, Eq, Structural)]
pub enum ParamKind {
    String,
    Integer,
    Boolean,
    /// An array of strings.
    StringArray,
}

/// A parameter of a tool.
#[derive(Debug)]
pub struct ToolParam {
    pub name: String,
    pub kind: ParamKind,
    pub description: Option<String>,
}

/// A tool: its name, what it does, its parameters and the names of those
/// that are required.
#[derive(Debug)]
pub struct ToolDef {
    pub name: String,
    pub description: String,
    pub params: Vec<ToolParam>,
    pub required: Vec<String>,
}

/// The names of a tool's parameters.
pub open spec fn param_names(ps: Seq<ToolParam>) -> Seq<Seq<char>> {
    ps.map_values(|p: ToolParam| p.name@)
}

/// Every required parameter of a tool is one of its parameters.
pub open spec fn tool_ok(t: ToolDef) -> bool {
    forall|i: int| 0 <= i < t.required@.len() ==> param_names(t.params@).contains(#[trigger] t.required@[i]@)
}

/// The names of the tools, in the order they are listed.
pub open spec fn tool_names() -> Seq<Seq<char>> {
    seq!["search"@, "lookup"@, "read"@, "add"@, "refs"@, "cites"@, "path"@, "misc"@, "clean"@]
}

/// A tool as data: its name, description, parameters (name, type and
/// optional description) and required parameter names.
pub struct ToolV {
    pub name: Seq<char>,
    pub description: Seq<char>,
    pub params: Seq<(Seq<char>, ParamKind, Option<Seq<char>>)>,
    pub required: Seq<Seq<char>>,
}

/// The view of a tool's parameters.
pub open spec fn params_view(ps: Seq<ToolParam>) -> Seq<(Seq<char>, ParamKind, Option<Seq<char>>)> {
    ps.map_values(|p: ToolParam| (p.name@, p.kind, crate::api::opt_view(p.description)))
}

/// The view of a tool.
pub open spec fn tool_view(t: ToolDef) -> ToolV {
    ToolV { name: t.name@, description: t.description@, params: params_view(t.params@), required: strs_view(t.required@) }
}

/// The `search` tool.
pub open spec fn tool_search_v() -> ToolV {
    ToolV {
        name: "search"@,
        description: "Search for academic papers. Searches local database by default. Use remote=true to search APIs."@,
        params: seq![("query"@, ParamKind::String, Some("Search query"@)), ("limit"@, ParamKind::Integer, Some("Max results (default 10)"@)), ("remote"@, ParamKind::Boolean, Some("Search remote APIs instead of local DB"@)), ("brief"@, ParamKind::Boolean, Some("Return compact results (default true)"@))],
        required: seq!["query"@],
    }
}

/// The `lookup` tool.
pub open spec fn tool_lookup_v() -> ToolV {
    ToolV {
        name: "lookup"@,
        description: "Look up a paper by arXiv ID, DOI, ISBN, DBLP URL, or direct PDF URL. Returns metadata, abstract, and BibTeX."@,
        params: seq![("id"@, ParamKind::String, Some("arXiv ID, DOI, ISBN, DBLP URL, or direct PDF URL"@))],
        required: seq!["id"@],
    }
}

/// The `read` tool.
pub open spec fn tool_read_v() -> ToolV {
    ToolV {
        name: "read"@,
        description: "Get file path to a paper's full text. Auto-downloads arXiv papers if not found locally. Open the returned path with a file reader."@,
        params: seq![("query"@, ParamKind::String, Some("Paper identifier: citekey (e.g. 'conmy2023acdc'), arXiv ID, or substring"@)), ("source"@, ParamKind::Boolean, Some("Prefer arXiv LaTeX source over PDF (default false)"@))],
        required: seq!["query"@],
    }
}

/// The `add` tool.
pub open spec fn tool_add_v() -> ToolV {
    ToolV {
        name: "add"@,
        description: "Fetch BibTeX for a paper and append to a .bib file."@,
        params: seq![("input"@, ParamKind::String, Some("arXiv ID, DOI, ISBN, search query, or direct PDF URL"@)), ("bib_file"@, ParamKind::String, Some("Path to .bib file"@))],
        required: seq!["input"@, "bib_file"@],
    }
}

/// The `refs` tool.
pub open spec fn tool_refs_v() -> ToolV {
    ToolV {
        name: "refs"@,
        description: "Get references of a paper (papers it cites)."@,
        params: seq![("paper_id"@, ParamKind::String, Some("Paper ID (arXiv, DOI, or S2 ID)"@)), ("hops"@, ParamKind::Integer, Some("BFS depth (default 1)"@)), ("max_papers"@, ParamKind::Integer, Some("Page size (default 20)"@)), ("offset"@, ParamKind::Integer, Some("Skip first N results for pagination (default 0)"@))],
        required: seq!["paper_id"@],
    }
}

/// The `cites` tool.
pub open spec fn tool_cites_v() -> ToolV {
    ToolV {
        name: "cites"@,
        description: "Get papers that cite a given paper."@,
        params: seq![("paper_id"@, ParamKind::String, Some("Paper ID (arXiv, DOI, or S2 ID)"@)), ("hops"@, ParamKind::Integer, Some("BFS depth (default 1)"@)), ("max_papers"@, ParamKind::Integer, Some("Page size (default 20)"@)), ("offset"@, ParamKind::Integer, Some("Skip first N results for pagination (default 0)"@))],
        required: seq!["paper_id"@],
    }
}

/// The `path` tool.
pub open spec fn tool_path_v() -> ToolV {
    ToolV {
        name: "path"@,
        description: "Find shortest citation path between two papers."@,
        params: seq![("paper_a"@, ParamKind::String, Some("First paper ID"@)), ("paper_b"@, ParamKind::String, Some("Second paper ID"@)), ("max_hops"@, ParamKind::Integer, Some("Max hops per direction (default 5)"@))],
        required: seq!["paper_a"@, "paper_b"@],
    }
}

/// The `misc` tool.
pub open spec fn tool_misc_v() -> ToolV {
    ToolV {
        name: "misc"@,
        description: "Add a @misc BibTeX entry (blog post, forum post, unpublished work) to a .bib file."@,
        params: seq![("citekey"@, ParamKind::String, None), ("title"@, ParamKind::String, None), ("authors"@, ParamKind::StringArray, Some("List of author names in 'First Last' format"@)), ("year"@, ParamKind::String, None), ("howpublished"@, ParamKind::String, Some("e.g. \\url{https://...}"@)), ("note"@, ParamKind::String, None), ("bib_file"@, ParamKind::String, None)],
        required: seq!["citekey"@, "title"@, "authors"@, "year"@, "bib_file"@],
    }
}

/// The `clean` tool.
pub open spec fn tool_clean_v() -> ToolV {
    ToolV {
        name: "clean"@,
        description: "Scan a .bib file for malformed entries, duplicates, and optionally orphaned citations. Returns a report. Set dry_run=false to apply fixes."@,
        params: seq![("bib_file"@, ParamKind::String, None), ("dry_run"@, ParamKind::Boolean, Some("Default true. Set false to remove malformed+duplicate entries."@)), ("prune"@, ParamKind::Boolean, Some("Default false. Set true (with dry_run=false) to also remove orphaned entries."@)), ("tex_dir"@, ParamKind::String, Some("Directory to scan for .tex files to find orphans"@))],
        required: seq!["bib_file"@],
    }
}

/// The tools the server offers, in the order they are listed.
pub open spec fn tool_table() -> Seq<ToolV> {
    seq![tool_search_v(), tool_lookup_v(), tool_read_v(), tool_add_v(), tool_refs_v(), tool_cites_v(), tool_path_v(),
        tool_misc_v(), tool_clean_v()]
}

fn param(name: &str, kind: ParamKind, description: Option<&str>) -> (r: ToolParam)
    ensures
        r.name@ == name@,
        r.kind == kind,
        crate::api::opt_view(r.description) == match description { Some(d) => Some(d@), None => None::<Seq<char>> },
{
    ToolParam {
        name: name.to_owned(),
        kind: kind,
        description: match description {
            Some(d) => Some(d.to_owned()),
            None => None,
        },
    }
}

fn names(ns: &[&str]) -> (r: Vec<String>)
    ensures
        r@.len() == ns@.len(),
        forall|i: int| 0 <= i < ns@.len() ==> (#[trigger] r@[i])@ == ns@[i]@,
{
    let mut r: Vec<String> = Vec::new();
    let mut i: usize = 0;
    while i < ns.len()
        invariant
            i <= ns@.len(),
            r@.len() == i,
            forall|k: int| 0 <= k < i ==> (#[trigger] r@[k])@ == ns@[k]@,
        decreases ns@.len() - i,
    {
        r.push(ns[i].to_owned());
        i = i + 1;
    }
    r
}

fn tool_search() -> (r: ToolDef)
    ensures
        r.name@ == "search"@,
        tool_ok(r),
        tool_view(r) == tool_search_v(),
{
    let mut params: Vec<ToolParam> = Vec::new();
    params.push(param("query", ParamKind::String, Some("Search query")));
    params.push(param("limit", ParamKind::Integer, Some("Max results (default 10)")));
    params.push(param("remote", ParamKind::Boolean, Some("Search remote APIs instead of local DB")));
    params.push(param("brief", ParamKind::Boolean, Some("Return compact results (default true)")));
    let required = names(vec!["query"].as_slice());
    let ghost pn = param_names(params@);
    assert(pn[0] == required@[0]@);
    let r = ToolDef { name: "search".to_owned(), description: "Search for academic papers. Searches local database by default. Use remote=true to search APIs.".to_owned(), params: params, required: required };
    assert forall|i: int| 0 <= i < r.required@.len() implies param_names(r.params@).contains(#[trigger] r.required@[i]@) by {
        if i == 0 { assert(param_names(r.params@)[0] == r.required@[i]@); }
    }
    assert(params_view(r.params@) =~= tool_search_v().params);
    assert(strs_view(r.required@) =~= tool_search_v().required);
    r
}

fn tool_lookup() -> (r: ToolDef)
    ensures
        r.name@ == "lookup"@,
        tool_ok(r),
        tool_view(r) == tool_lookup_v(),
{
    let mut params: Vec<ToolParam> = Vec::new();
    params.push(param("id", ParamKind::String, Some("arXiv ID, DOI, ISBN, DBLP URL, or direct PDF URL")));
    let required = names(vec!["id"].as_slice());
    let ghost pn = param_names(params@);
    assert(pn[0] == required@[0]@);
    let r = ToolDef { name: "lookup".to_owned(), description: "Look up a paper by arXiv ID, DOI, ISBN, DBLP URL, or direct PDF URL. Returns metadata, abstract, and BibTeX.".to_owned(), params: params, required: required };
    assert forall|i: int| 0 <= i < r.required@.len() implies param_names(r.params@).contains(#[trigger] r.required@[i]@) by {
        if i == 0 { assert(param_names(r.params@)[0] == r.required@[i]@); }
    }
    assert(params_view(r.params@) =~= tool_lookup_v().params);
    assert(strs_view(r.required@) =~= tool_lookup_v().required);
    r
}

fn tool_read() -> (r: ToolDef)
    ensures
        r.name@ == "read"@,
        tool_ok(r),
        tool_view(r) == tool_read_v(),
{
    let mut params: Vec<ToolParam> = Vec::new();
    params.push(param("query", ParamKind::String, Some("Paper identifier: citekey (e.g. 'conmy2023acdc'), arXiv ID, or substring")));
    params.push(param("source", ParamKind::Boolean, Some("Prefer arXiv LaTeX source over PDF (default false)")));
    let required = names(vec!["query"].as_slice());
    let ghost pn = param_names(params@);
    assert(pn[0] == required@[0]@);
    let r = ToolDef { name: "read".to_owned(), description: "Get file path to a paper's full text. Auto-downloads arXiv papers if not found locally. Open the returned path with a file reader.".to_owned(), params: params, required: required };
    assert forall|i: int| 0 <= i < r.required@.len() implies param_names(r.params@).contains(#[trigger] r.required@[i]@) by {
        if i == 0 { assert(param_names(r.params@)[0] == r.required@[i]@); }
    }
    assert(params_view(r.params@) =~= tool_read_v().params);
    assert(strs_view(r.required@) =~= tool_read_v().required);
    r
}

fn tool_add() -> (r: ToolDef)
    ensures
        r.name@ == "add"@,
        tool_ok(r),
        tool_view(r) == tool_add_v(),
{
    let mut params: Vec<ToolParam> = Vec::new();
    params.push(param("input", ParamKind::String, Some("arXiv ID, DOI, ISBN, search query, or direct PDF URL")));
    params.push(param("bib_file", ParamKind::String, Some("Path to .bib file")));
    let required = names(vec!["input", "bib_file"].as_slice());
    let ghost pn = param_names(params@);
    assert(pn[0] == required@[0]@);
    assert(pn[1] == required@[1]@);
    let r = ToolDef { name: "add".to_owned(), description: "Fetch BibTeX for a paper and append to a .bib file.".to_owned(), params: params, required: required };
    assert forall|i: int| 0 <= i < r.required@.len() implies param_names(r.params@).contains(#[trigger] r.required@[i]@) by {
        if i == 0 { assert(param_names(r.params@)[0] == r.required@[i]@); }
        if i == 1 { assert(param_names(r.params@)[1] == r.required@[i]@); }
    }
    assert(params_view(r.params@) =~= tool_add_v().params);
    assert(strs_view(r.required@) =~= tool_add_v().required);
    r
}

fn tool_refs() -> (r: ToolDef)
    ensures
        r.name@ == "refs"@,
        tool_ok(r),
        tool_view(r) == tool_refs_v(),
{
    let mut params: Vec<ToolParam> = Vec::new();
    params.push(param("paper_id", ParamKind::String, Some("Paper ID (arXiv, DOI, or S2 ID)")));
    params.push(param("hops", ParamKind::Integer, Some("BFS depth (default 1)")));
    params.push(param("max_papers", ParamKind::Integer, Some("Page size (default 20)")));
    params.push(param("offset", ParamKind::Integer, Some("Skip first N results for pagination (default 0)")));
    let required = names(vec!["paper_id"].as_slice());
    let ghost pn = param_names(params@);
    assert(pn[0] == required@[0]@);
    let r = ToolDef { name: "refs".to_owned(), description: "Get references of a paper (papers it cites).".to_owned(), params: params, required: required };
    assert forall|i: int| 0 <= i < r.required@.len() implies param_names(r.params@).contains(#[trigger] r.required@[i]@) by {
        if i == 0 { assert(param_names(r.params@)[0] == r.required@[i]@); }
    }
    assert(params_view(r.params@) =~= tool_refs_v().params);
    assert(strs_view(r.required@) =~= tool_refs_v().required);
    r
}

fn tool_cites() -> (r: ToolDef)
    ensures
        r.name@ == "cites"@,
        tool_ok(r),
        tool_view(r) == tool_cites_v(),
{
    let mut params: Vec<ToolParam> = Vec::new();
    params.push(param("paper_id", ParamKind::String, Some("Paper ID (arXiv, DOI, or S2 ID)")));
    params.push(param("hops", ParamKind::Integer, Some("BFS depth (default 1)")));
    params.push(param("max_papers", ParamKind::Integer, Some("Page size (default 20)")));
    params.push(param("offset", ParamKind::Integer, Some("Skip first N results for pagination (default 0)")));
    let required = names(vec!["paper_id"].as_slice());
    let ghost pn = param_names(params@);
    assert(pn[0] == required@[0]@);
    let r = ToolDef { name: "cites".to_owned(), description: "Get papers that cite a given paper.".to_owned(), params: params, required: required };
    assert forall|i: int| 0 <= i < r.required@.len() implies param_names(r.params@).contains(#[trigger] r.required@[i]@) by {
        if i == 0 { assert(param_names(r.params@)[0] == r.required@[i]@); }
    }
    assert(params_view(r.params@) =~= tool_cites_v().params);
    assert(strs_view(r.required@) =~= tool_cites_v().required);
    r
}

fn tool_path() -> (r: ToolDef)
    ensures
        r.name@ == "path"@,
        tool_ok(r),
        tool_view(r) == tool_path_v(),
{
    let mut params: Vec<ToolParam> = Vec::new();
    params.push(param("paper_a", ParamKind::String, Some("First paper ID")));
    params.push(param("paper_b", ParamKind::String, Some("Second paper ID")));
    params.push(param("max_hops", ParamKind::Integer, Some("Max hops per direction (default 5)")));
    let required = names(vec!["paper_a", "paper_b"].as_slice());
    let ghost pn = param_names(params@);
    assert(pn[0] == required@[0]@);
    assert(pn[1] == required@[1]@);
    let r = ToolDef { name: "path".to_owned(), description: "Find shortest citation path between two papers.".to_owned(), params: params, required: required };
    assert forall|i: int| 0 <= i < r.required@.len() implies param_names(r.params@).contains(#[trigger] r.required@[i]@) by {
        if i == 0 { assert(param_names(r.params@)[0] == r.required@[i]@); }
        if i == 1 { assert(param_names(r.params@)[1] == r.required@[i]@); }
    }
    assert(params_view(r.params@) =~= tool_path_v().params);
    assert(strs_view(r.required@) =~= tool_path_v().required);
    r
}

fn tool_misc() -> (r: ToolDef)
    ensures
        r.name@ == "misc"@,
        tool_ok(r),
        tool_view(r) == tool_misc_v(),
{
    let mut params: Vec<ToolParam> = Vec::new();
    params.push(param("citekey", ParamKind::String, None));
    params.push(param("title", ParamKind::String, None));
    params.push(param("authors", ParamKind::StringArray, Some("List of author names in 'First Last' format")));
    params.push(param("year", ParamKind::String, None));
    params.push(param("howpublished", ParamKind::String, Some("e.g. \\url{https://...}")));
    params.push(param("note", ParamKind::String, None));
    params.push(param("bib_file", ParamKind::String, None));
    let required = names(vec!["citekey", "title", "authors", "year", "bib_file"].as_slice());
    let ghost pn = param_names(params@);
    assert(pn[0] == required@[0]@);
    assert(pn[1] == required@[1]@);
    assert(pn[2] == required@[2]@);
    assert(pn[3] == required@[3]@);
    assert(pn[6] == required@[4]@);
    let r = ToolDef { name: "misc".to_owned(), description: "Add a @misc BibTeX entry (blog post, forum post, unpublished work) to a .bib file.".to_owned(), params: params, required: required };
    assert forall|i: int| 0 <= i < r.required@.len() implies param_names(r.params@).contains(#[trigger] r.required@[i]@) by {
        if i == 0 { assert(param_names(r.params@)[0] == r.required@[i]@); }
        if i == 1 { assert(param_names(r.params@)[1] == r.required@[i]@); }
        if i == 2 { assert(param_names(r.params@)[2] == r.required@[i]@); }
        if i == 3 { assert(param_names(r.params@)[3] == r.required@[i]@); }
        if i == 4 { assert(param_names(r.params@)[6] == r.required@[i]@); }
    }
    assert(params_view(r.params@) =~= tool_misc_v().params);
    assert(strs_view(r.required@) =~= tool_misc_v().required);
    r
}

fn tool_clean() -> (r: ToolDef)
    ensures
        r.name@ == "clean"@,
        tool_ok(r),
        tool_view(r) == tool_clean_v(),
{
    let mut params: Vec<ToolParam> = Vec::new();
    params.push(param("bib_file", ParamKind::String, None));
    params.push(param("dry_run", ParamKind::Boolean, Some("Default true. Set false to remove malformed+duplicate entries.")));
    params.push(param("prune", ParamKind::Boolean, Some("Default false. Set true (with dry_run=false) to also remove orphaned entries.")));
    params.push(param("tex_dir", ParamKind::String, Some("Directory to scan for .tex files to find orphans")));
    let required = names(vec!["bib_file"].as_slice());
    let ghost pn = param_names(params@);
    assert(pn[0] == required@[0]@);
    let r = ToolDef { name: "clean".to_owned(), description: "Scan a .bib file for malformed entries, duplicates, and optionally orphaned citations. Returns a report. Set dry_run=false to apply fixes.".to_owned(), params: params, required: required };
    assert forall|i: int| 0 <= i < r.required@.len() implies param_names(r.params@).contains(#[trigger] r.required@[i]@) by {
        if i == 0 { assert(param_names(r.params@)[0] == r.required@[i]@); }
    }
    assert(params_view(r.params@) =~= tool_clean_v().params);
    assert(strs_view(r.required@) =~= tool_clean_v().required);
    r
}

/// The tools the server lists, in order: each with a distinct name and a
/// schema whose required parameters are among its parameters.
pub fn tool_specs() -> (r: Vec<ToolDef>)
    ensures
        r@.map_values(|t: ToolDef| t.name@) == tool_names(),
        r@.map_values(|t: ToolDef| tool_view(t)) == tool_table(),
        forall|i: int| 0 <= i < r@.len() ==> tool_ok(#[trigger] r@[i]),
{
    let mut r: Vec<ToolDef> = Vec::new();
    r.push(tool_search());
    r.push(tool_lookup());
    r.push(tool_read());
    r.push(tool_add());
    r.push(tool_refs());
    r.push(tool_cites());
    r.push(tool_path());
    r.push(tool_misc());
    r.push(tool_clean());
    assert(r@.map_values(|t: ToolDef| t.name@) =~= tool_names());
    assert(r@.map_values(|t: ToolDef| tool_view(t)) =~= tool_table());
    r
}

/// No two tools share a name.
pub proof fn lemma_tool_names_distinct()
    ensures
        tool_names().no_duplicates(),
{
    reveal_strlit("search");
    reveal_strlit("lookup");
    reveal_strlit("read");
    reveal_strlit("add");
    reveal_strlit("refs");
    reveal_strlit("cites");
    reveal_strlit("path");
    reveal_strlit("misc");
    reveal_strlit("clean");
    assert forall|i: int, j: int| 0 <= i < j < tool_names().len() implies tool_names()[i] != tool_names()[j] by {
        assert(tool_names()[i].len() != tool_names()[j].len() || tool_names()[i][0] != tool_names()[j][0]
            || tool_names()[i][1] != tool_names()[j][1] || tool_names()[i][2] != tool_names()[j][2]);
    }
}

/// What a JSON-RPC message calls for, by its method.
#[derive(Debug)]
pub enum RpcRoute {
    /// Answer with the server's capabilities.
    Initialize,
    /// Answer with the tool list.
    ToolsList,
    /// Run the tool named in the parameters.
    ToolsCall,
    /// Answer with an empty result.
    Ping,
    /// Answer nothing (a notification).
    NoReply,
    /// Answer with error -32601 and this message.
    NotFound(String),
}

/// The error code of an unknown method.
pub const METHOD_NOT_FOUND: i64 = -32601;

/// Route a JSON-RPC message by its method (empty when missing); `has_id`
/// tells whether it expects an answer.
pub fn route_method(method: &str, has_id: bool) -> (r: RpcRoute)
    ensures
        method@ == "initialize"@ ==> r is Initialize,
        method@ == "tools/list"@ ==> r is ToolsList,
        method@ == "tools/call"@ ==> r is ToolsCall,
        method@ == "ping"@ ==> r is Ping,
        (method@ == "notifications/initialized"@ || method@ == "notifications/cancelled"@) ==> r is NoReply,
        !(method@ == "initialize"@ || method@ == "tools/list"@ || method@ == "tools/call"@ || method@ == "ping"@
            || method@ == "notifications/initialized"@ || method@ == "notifications/cancelled"@) ==> (
            if has_id { r matches RpcRoute::NotFound(m) && m@ == "method not found: "@ + method@ } else { r is NoReply }),
{
    proof {
        reveal_strlit("initialize");
        reveal_strlit("notifications/initialized");
        reveal_strlit("tools/list");
        reveal_strlit("tools/call");
        reveal_strlit("notifications/cancelled");
        reveal_strlit("ping");
        assert("initialize"@.len() != "notifications/initialized"@.len());
        assert("initialize"@[0] != "tools/list"@[0]);
        assert("initialize"@[0] != "tools/call"@[0]);
        assert("initialize"@.len() != "notifications/cancelled"@.len());
        assert("initialize"@.len() != "ping"@.len());
        assert("notifications/initialized"@.len() != "tools/list"@.len());
        assert("notifications/initialized"@.len() != "tools/call"@.len());
        assert("notifications/initialized"@.len() != "notifications/cancelled"@.len());
        assert("notifications/initialized"@.len() != "ping"@.len());
        assert("tools/list"@[6] != "tools/call"@[6]);
        assert("tools/list"@.len() != "notifications/cancelled"@.len());
        assert("tools/list"@.len() != "ping"@.len());
        assert("tools/call"@.len() != "notifications/cancelled"@.len());
        assert("tools/call"@.len() != "ping"@.len());
        assert("notifications/cancelled"@.len() != "ping"@.len());
    }
    if crate::text::str_eq(method, "initialize") {
        RpcRoute::Initialize
    } else if crate::text::str_eq(method, "notifications/initialized") {
        RpcRoute::NoReply
    } else if crate::text::str_eq(method, "tools/list") {
        RpcRoute::ToolsList
    } else if crate::text::str_eq(method, "tools/call") {
        RpcRoute::ToolsCall
    } else if crate::text::str_eq(method, "notifications/cancelled") {
        RpcRoute::NoReply
    } else if crate::text::str_eq(method, "ping") {
        RpcRoute::Ping
    } else if has_id {
        let mut v = crate::text::str_chars("method not found: ");
        crate::text::push_str(&mut v, method);
        RpcRoute::NotFound(crate::text::string_from_chars(v.as_slice()))
    } else {
        RpcRoute::NoReply
    }
}

/// Check a tool name against the tools offered: the error for an unknown
/// one.
pub fn check_tool_name(name: &str) -> (r: Result<(), String>)
    ensures
        r is Ok <==> tool_names().contains(name@),
        r matches Err(m) ==> m@ == "unknown tool: "@ + name@,
{
    let specs = tool_specs();
    let mut i: usize = 0;
    while i < specs.len()
        invariant
            i <= specs@.len(),
            specs@.map_values(|t: ToolDef| t.name@) == tool_names(),
            forall|k: int| 0 <= k < i ==> tool_names()[k] != name@,
        decreases specs@.len() - i,
    {
        assert(tool_names()[i as int] == specs@[i as int].name@);
        if crate::text::str_eq(specs[i].name.as_str(), name) {
            return Ok(());
        }
        i = i + 1;
    }
    let mut v = crate::text::str_chars("unknown tool: ");
    crate::text::push_str(&mut v, name);
    Err(crate::text::string_from_chars(v.as_slice()))
}

/// The items of an array, in order.
pub open spec fn json_items(v: Seq<Json>) -> Seq<JsonV> {
    v.map_values(|j: Json| j@)
}

proof fn lemma_array_items(v: Vec<Json>)
    ensures
        Json::Array(v)@ == JsonV::Array(json_items(v@)),
{
    let a = Json::Array(v)@->Array_0;
    assert(Json::Array(v)@ is Array && a.len() == v@.len());
    assert forall|k: int| 0 <= k < v@.len() implies a[k] == json_items(v@)[k] by {
        crate::json::lemma_array_view(v, k);
    }
    assert(a =~= json_items(v@));
}

/// A tool's answer: one text item.
pub open spec fn tool_result_of(text: Seq<char>) -> JsonV {
    JsonV::Object(seq![("content"@, JsonV::Array(seq![JsonV::Object(seq![("type"@, JsonV::Str("text"@)), ("text"@, JsonV::Str(text))])]))])
}

fn text_content(text: &str) -> (r: Json)
    ensures
        r@ == JsonV::Array(seq![JsonV::Object(seq![("type"@, JsonV::Str("text"@)), ("text"@, JsonV::Str(text@))])]),
{
    let mut item: Vec<(String, Json)> = Vec::new();
    push_entry(&mut item, "type", Json::Str("text".to_owned()));
    push_entry(&mut item, "text", Json::Str(text.to_owned()));
    assert(entries_view(item@) =~= seq![("type"@, JsonV::Str("text"@)), ("text"@, JsonV::Str(text@))]);
    proof { lemma_object_entries(item); }
    let ghost iv = Json::Object(item)@;
    let mut arr: Vec<Json> = Vec::new();
    arr.push(Json::Object(item));
    proof { lemma_array_items(arr); }
    assert(json_items(arr@) =~= seq![JsonV::Object(seq![("type"@, JsonV::Str("text"@)), ("text"@, JsonV::Str(text@))])]);
    Json::Array(arr)
}

/// The answer of a tool that succeeded, holding its text.
pub fn make_tool_result(text: &str) -> (r: Json)
    ensures
        r@ == tool_result_of(text@),
{
    let mut ps: Vec<(String, Json)> = Vec::new();
    push_entry(&mut ps, "content", text_content(text));
    assert(entries_view(ps@) =~= tool_result_of(text@)->Object_0);
    proof { lemma_object_entries(ps); }
    Json::Object(ps)
}

/// The answer of a tool that failed: its message, marked as an error.
pub fn make_tool_error(text: &str) -> (r: Json)
    ensures
        r@ == JsonV::Object(tool_result_of(text@)->Object_0.push(("isError"@, JsonV::Bool(true)))),
{
    let mut ps: Vec<(String, Json)> = Vec::new();
    push_entry(&mut ps, "content", text_content(text));
    push_entry(&mut ps, "isError", Json::Bool(true));
    assert(entries_view(ps@) =~= tool_result_of(text@)->Object_0.push(("isError"@, JsonV::Bool(true))));
    proof { lemma_object_entries(ps); }
    Json::Object(ps)
}

/// A JSON-RPC answer carrying `result` for the request `id`.
pub fn make_response(id: Json, result: Json) -> (r: Json)
    ensures
        r@ == JsonV::Object(seq![("jsonrpc"@, JsonV::Str("2.0"@)), ("id"@, id@), ("result"@, result@)]),
{
    let mut ps: Vec<(String, Json)> = Vec::new();
    push_entry(&mut ps, "jsonrpc", Json::Str("2.0".to_owned()));
    push_entry(&mut ps, "id", id);
    push_entry(&mut ps, "result", result);
    assert(entries_view(ps@) =~= seq![("jsonrpc"@, JsonV::Str("2.0"@)), ("id"@, id@), ("result"@, result@)]);
    proof { lemma_object_entries(ps); }
    Json::Object(ps)
}

/// A paper as a tool shows it, in full or brief.
pub open spec fn paper_json_of(p: PaperV, brief: bool) -> JsonV {
    if brief { JsonV::Object(paper_brief_entries(p)) } else { JsonV::Object(paper_entries(p)) }
}

/// The papers as tools show them.
pub open spec fn papers_json(ps: Seq<PaperV>, brief: bool) -> Seq<JsonV> {
    ps.map_values(|p: PaperV| paper_json_of(p, brief))
}

fn papers_array(papers: &Vec<PaperResult>, lo: usize, hi: usize, brief: bool) -> (r: Json)
    requires
        lo <= hi <= papers@.len(),
    ensures
        r@ == JsonV::Array(papers_json(papers_view(papers@).subrange(lo as int, hi as int), brief)),
{
    let ghost pv = papers_view(papers@).subrange(lo as int, hi as int);
    let mut out: Vec<Json> = Vec::new();
    let mut i: usize = lo;
    while i < hi
        invariant
            lo <= i <= hi <= papers@.len(),
            pv == papers_view(papers@).subrange(lo as int, hi as int),
            json_items(out@) == papers_json(pv, brief).subrange(0, i - lo),
        decreases hi - i,
    {
        let ghost before = json_items(out@);
        let j = if brief {
            paper_to_json_brief(&papers[i])
        } else {
            paper_to_json(&papers[i])
        };
        assert(j@ == paper_json_of(papers@[i as int]@, brief));
        out.push(j);
        assert(pv[i - lo] == papers@[i as int]@);
        assert(json_items(out@) =~= before.push(j@));
        assert(json_items(out@) =~= papers_json(pv, brief).subrange(0, i - lo + 1));
        i = i + 1;
    }
    assert(papers_json(pv, brief).subrange(0, hi - lo) =~= papers_json(pv, brief));
    proof { lemma_array_items(out); }
    Json::Array(out)
}

/// Papers as a tool answers with them: `No results found` when there are
/// none, else the compact JSON text of the array of papers, each in full or
/// brief.
pub fn papers_to_json_string(papers: &Vec<PaperResult>, brief: bool) -> (r: Result<String, String>)
    ensures
        r matches Ok(t) && t@ == (if papers@.len() == 0 { "No results found"@ } else {
            json_text(JsonV::Array(papers_json(papers_view(papers@), brief)))
        }),
{
    if papers.len() == 0 {
        return Ok("No results found".to_owned());
    }
    let a = papers_array(papers, 0, papers.len(), brief);
    assert(papers_view(papers@).subrange(0, papers@.len() as int) =~= papers_view(papers@));
    Ok(json_to_string(&a))
}

/// The page of results a refs or cites tool answers with: those from
/// `offset`, at most `page_size` of them.
pub open spec fn page_bounds(total: nat, offset: nat, page_size: nat) -> (nat, nat) {
    if offset < total {
        (offset, if total < offset + page_size { total } else { offset + page_size })
    } else {
        (0, 0)
    }
}

/// The paginated answer of a refs or cites tool: the page's papers in brief,
/// their count, the offset, how many were fetched, and whether there may be
/// more (as many were fetched as were asked for).
pub open spec fn paginated_of(ps: Seq<PaperV>, offset: nat, page_size: nat, fetch_limit: nat) -> JsonV {
    let (lo, hi) = page_bounds(ps.len(), offset, page_size);
    JsonV::Object(seq![
        ("count"@, JsonV::Number(Some((hi - lo) as u64))),
        ("offset"@, JsonV::Number(Some(offset as u64))),
        ("total_fetched"@, JsonV::Number(Some(ps.len() as u64))),
        ("has_more"@, JsonV::Bool(ps.len() >= fetch_limit)),
        ("papers"@, JsonV::Array(papers_json(ps.subrange(lo as int, hi as int), true))),
    ])
}

/// Wrap refs or cites results with pagination information.
pub fn paginated_response(all_results: &Vec<PaperResult>, offset: usize, page_size: usize, fetch_limit: usize) -> (r: Result<String, String>)
    requires
        offset + page_size <= usize::MAX,
    ensures
        r matches Ok(t) && t@ == json_text(paginated_of(papers_view(all_results@), offset as nat, page_size as nat, fetch_limit as nat)),
{
    let total = all_results.len();
    let (lo, hi) = if offset < total {
        (offset, if total < offset + page_size { total } else { offset + page_size })
    } else {
        (0, 0)
    };
    let papers = papers_array(all_results, lo, hi, true);
    let mut ps: Vec<(String, Json)> = Vec::new();
    push_entry(&mut ps, "count", Json::Number(Some((hi - lo) as u64)));
    push_entry(&mut ps, "offset", Json::Number(Some(offset as u64)));
    push_entry(&mut ps, "total_fetched", Json::Number(Some(total as u64)));
    push_entry(&mut ps, "has_more", Json::Bool(total >= fetch_limit));
    push_entry(&mut ps, "papers", papers);
    assert(papers_view(all_results@).len() == total);
    assert((lo as nat, hi as nat) == page_bounds(total as nat, offset as nat, page_size as nat));
    assert(entries_view(ps@) =~= seq![
        ("count"@, JsonV::Number(Some((hi - lo) as u64))),
        ("offset"@, JsonV::Number(Some(offset as u64))),
        ("total_fetched"@, JsonV::Number(Some(total as u64))),
        ("has_more"@, JsonV::Bool(total >= fetch_limit)),
        ("papers"@, JsonV::Array(papers_json(papers_view(all_results@).subrange(lo as int, hi as int), true))),
    ]);
    proof { lemma_object_entries(ps); }
    let j = Json::Object(ps);
    assert(j@ == paginated_of(papers_view(all_results@), offset as nat, page_size as nat, fetch_limit as nat));
    Ok(json_to_string(&j))
}

/// One step of a path as a tool shows it.
pub open spec fn step_json(step: (Seq<char>, Seq<char>)) -> JsonV {
    JsonV::Object(seq![("id"@, JsonV::Str(step.0)), ("title"@, JsonV::Str(step.1))])
}

/// The answer of the path tool: `No path found`, or the compact JSON text
/// of the number of hops and the steps.
pub open spec fn path_response_of(steps: Option<Seq<(Seq<char>, Seq<char>)>>) -> Seq<char> {
    match steps {
        None => "No path found"@,
        Some(s) => json_text(JsonV::Object(seq![
            ("hops"@, JsonV::Number(Some(if s.len() == 0 { 0u64 } else { (s.len() - 1) as u64 }))),
            ("path"@, JsonV::Array(s.map_values(|st: (Seq<char>, Seq<char>)| step_json(st)))),
        ])),
    }
}

/// The answer of the path tool for the path found, if any.
pub fn path_response(steps: &Option<Vec<(String, String)>>) -> (r: String)
    ensures
        r@ == path_response_of(match steps { Some(v) => Some(pairs_view(v@)), None => None }),
{
    match steps {
        None => "No path found".to_owned(),
        Some(v) => {
            let ghost sv = pairs_view(v@);
            let mut arr: Vec<Json> = Vec::new();
            let mut i: usize = 0;
            while i < v.len()
                invariant
                    i <= v@.len(),
                    sv == pairs_view(v@),
                    json_items(arr@) == sv.map_values(|st: (Seq<char>, Seq<char>)| step_json(st)).subrange(0, i as int),
                decreases v@.len() - i,
            {
                let mut item: Vec<(String, Json)> = Vec::new();
                push_entry(&mut item, "id", Json::Str(v[i].0.clone()));
                push_entry(&mut item, "title", Json::Str(v[i].1.clone()));
                assert(sv[i as int] == (v@[i as int].0@, v@[i as int].1@));
                assert(entries_view(item@) =~= step_json(sv[i as int])->Object_0);
                proof { lemma_object_entries(item); }
                let ghost before = json_items(arr@);
                let ghost it = Json::Object(item)@;
                assert(it == step_json(sv[i as int]));
                arr.push(Json::Object(item));
                assert(json_items(arr@) =~= before.push(it));
                assert(json_items(arr@) =~= sv.map_values(|st: (Seq<char>, Seq<char>)| step_json(st)).subrange(0, i + 1));
                i = i + 1;
            }
            assert(sv.map_values(|st: (Seq<char>, Seq<char>)| step_json(st)).subrange(0, v@.len() as int)
                =~= sv.map_values(|st: (Seq<char>, Seq<char>)| step_json(st)));
            proof { lemma_array_items(arr); }
            let hops: u64 = if v.len() == 0 { 0 } else { (v.len() - 1) as u64 };
            let mut ps: Vec<(String, Json)> = Vec::new();
            push_entry(&mut ps, "hops", Json::Number(Some(hops)));
            let ghost av = Json::Array(arr)@;
            push_entry(&mut ps, "path", Json::Array(arr));
            assert(entries_view(ps@) =~= seq![
                ("hops"@, JsonV::Number(Some(if sv.len() == 0 { 0u64 } else { (sv.len() - 1) as u64 }))),
                ("path"@, JsonV::Array(sv.map_values(|st: (Seq<char>, Seq<char>)| step_json(st)))),
            ]);
            proof { lemma_object_entries(ps); }
            let j = Json::Object(ps);
            assert(j@ == JsonV::Object(seq![
                ("hops"@, JsonV::Number(Some(if sv.len() == 0 { 0u64 } else { (sv.len() - 1) as u64 }))),
                ("path"@, JsonV::Array(sv.map_values(|st: (Seq<char>, Seq<char>)| step_json(st)))),
            ]));
            json_to_string(&j)
        },
    }
}

/// The answer of the clean tool: the malformed keys, the duplicate pairs
/// (kept and removed), the orphans, and, when applying, the removed keys.
pub open spec fn clean_json_of(malformed: Seq<Seq<char>>, dups: Seq<(Seq<char>, Seq<char>)>, orphans: Seq<Seq<char>>,
    removed: Seq<Seq<char>>, apply: bool) -> JsonV {
    JsonV::Object(seq![
        ("malformed"@, str_array(malformed)),
        ("duplicates"@, JsonV::Array(dups.map_values(|d: (Seq<char>, Seq<char>)|
            JsonV::Object(seq![("kept"@, JsonV::Str(d.0)), ("removed"@, JsonV::Str(d.1))])))),
        ("orphans"@, str_array(orphans)),
    ] + (if apply { seq![("removed"@, str_array(removed))] } else { seq![] }))
}

fn dup_pairs_json(ds: &Vec<(String, String)>) -> (r: Json)
    ensures
        r@ == JsonV::Array(pairs_view(ds@).map_values(|d: (Seq<char>, Seq<char>)|
            JsonV::Object(seq![("kept"@, JsonV::Str(d.0)), ("removed"@, JsonV::Str(d.1))]))),
{
    let ghost dv = pairs_view(ds@);
    let ghost want = dv.map_values(|d: (Seq<char>, Seq<char>)|
        JsonV::Object(seq![("kept"@, JsonV::Str(d.0)), ("removed"@, JsonV::Str(d.1))]));
    let mut arr: Vec<Json> = Vec::new();
    let mut i: usize = 0;
    while i < ds.len()
        invariant
            i <= ds@.len(),
            dv == pairs_view(ds@),
            want == dv.map_values(|d: (Seq<char>, Seq<char>)|
                JsonV::Object(seq![("kept"@, JsonV::Str(d.0)), ("removed"@, JsonV::Str(d.1))])),
            json_items(arr@) == want.subrange(0, i as int),
        decreases ds@.len() - i,
    {
        let mut item: Vec<(String, Json)> = Vec::new();
        push_entry(&mut item, "kept", Json::Str(ds[i].0.clone()));
        push_entry(&mut item, "removed", Json::Str(ds[i].1.clone()));
        assert(dv[i as int] == (ds@[i as int].0@, ds@[i as int].1@));
        assert(entries_view(item@) =~= seq![("kept"@, JsonV::Str(dv[i as int].0)), ("removed"@, JsonV::Str(dv[i as int].1))]);
        proof { lemma_object_entries(item); }
        let ghost before = json_items(arr@);
        let ghost it = Json::Object(item)@;
        assert(it == want[i as int]);
        arr.push(Json::Object(item));
        assert(json_items(arr@) =~= before.push(it));
        assert(json_items(arr@) =~= want.subrange(0, i + 1));
        i = i + 1;
    }
    assert(want.subrange(0, ds@.len() as int) =~= want);
    proof { lemma_array_items(arr); }
    Json::Array(arr)
}

/// The answer of the clean tool for a report.
pub fn clean_response(report: &CleanReport, apply: bool) -> (r: String)
    ensures
        r@ == json_text(clean_json_of(strs_view(report.malformed@), pairs_view(report.duplicates@),
            strs_view(report.orphans@), strs_view(report.removed@), apply)),
{
    let mut ps: Vec<(String, Json)> = Vec::new();
    push_entry(&mut ps, "malformed", json_str_array(&report.malformed));
    push_entry(&mut ps, "duplicates", dup_pairs_json(&report.duplicates));
    push_entry(&mut ps, "orphans", json_str_array(&report.orphans));
    let ghost h = entries_view(ps@);
    if apply {
        push_entry(&mut ps, "removed", json_str_array(&report.removed));
    }
    assert(entries_view(ps@) =~= h + (if apply { seq![("removed"@, str_array(strs_view(report.removed@)))] } else { seq![] }));
    assert(entries_view(ps@) =~= clean_json_of(strs_view(report.malformed@), pairs_view(report.duplicates@),
            strs_view(report.orphans@), strs_view(report.removed@), apply)->Object_0);
    proof { lemma_object_entries(ps); }
    let j = Json::Object(ps);
    assert(j@ == clean_json_of(strs_view(report.malformed@), pairs_view(report.duplicates@),
            strs_view(report.orphans@), strs_view(report.removed@), apply));
    json_to_string(&j)
}

/// The answer of the add and misc tools: the entry's key and the file.
pub fn entry_response(entry_key: &str, bib_file: &str) -> (r: String)
    ensures
        r@ == json_text(JsonV::Object(seq![("entry_key"@, JsonV::Str(entry_key@)), ("bib_file"@, JsonV::Str(bib_file@))])),
{
    let mut ps: Vec<(String, Json)> = Vec::new();
    push_entry(&mut ps, "entry_key", Json::Str(entry_key.to_owned()));
    push_entry(&mut ps, "bib_file", Json::Str(bib_file.to_owned()));
    assert(entries_view(ps@) =~= seq![("entry_key"@, JsonV::Str(entry_key@)), ("bib_file"@, JsonV::Str(bib_file@))]);
    proof { lemma_object_entries(ps); }
    json_to_string(&Json::Object(ps))
}

/// The notification that reports how a tool run in the background ended:
/// `info` with its result, or `warning` with its error.
pub open spec fn notification_of(task_id: Seq<char>, outcome: Result<Seq<char>, Seq<char>>) -> JsonV {
    let (level, data) = match outcome {
        Ok(res) => ("info"@, seq![("task_id"@, JsonV::Str(task_id)), ("status"@, JsonV::Str("complete"@)), ("result"@, JsonV::Str(res))]),
        Err(e) => ("warning"@, seq![("task_id"@, JsonV::Str(task_id)), ("status"@, JsonV::Str("error"@)), ("error"@, JsonV::Str(e))]),
    };
    JsonV::Object(seq![
        ("jsonrpc"@, JsonV::Str("2.0"@)),
        ("method"@, JsonV::Str("notifications/message"@)),
        ("params"@, JsonV::Object(seq![("level"@, JsonV::Str(level)), ("data"@, JsonV::Object(data))])),
    ])
}

/// Build the notification for the end of a background tool run.
pub fn make_notification(task_id: &str, outcome: &Result<String, String>) -> (r: Json)
    ensures
        r@ == notification_of(task_id@, match outcome { Ok(t) => Ok(t@), Err(e) => Err(e@) }),
{
    let mut data: Vec<(String, Json)> = Vec::new();
    push_entry(&mut data, "task_id", Json::Str(task_id.to_owned()));
    let level = match outcome {
        Ok(res) => {
            push_entry(&mut data, "status", Json::Str("complete".to_owned()));
            push_entry(&mut data, "result", Json::Str(res.clone()));
            "info"
        },
        Err(e) => {
            push_entry(&mut data, "status", Json::Str("error".to_owned()));
            push_entry(&mut data, "error", Json::Str(e.clone()));
            "warning"
        },
    };
    let ghost want = notification_of(task_id@, match outcome { Ok(t) => Ok(t@), Err(e) => Err(e@) });
    let ghost wp = want->Object_0[2].1;
    assert(entries_view(data@) =~= wp->Object_0[1].1->Object_0);
    proof { lemma_object_entries(data); }
    let mut params: Vec<(String, Json)> = Vec::new();
    push_entry(&mut params, "level", Json::Str(level.to_owned()));
    push_entry(&mut params, "data", Json::Object(data));
    assert(entries_view(params@) =~= wp->Object_0);
    proof { lemma_object_entries(params); }
    let mut ps: Vec<(String, Json)> = Vec::new();
    push_entry(&mut ps, "jsonrpc", Json::Str("2.0".to_owned()));
    push_entry(&mut ps, "method", Json::Str("notifications/message".to_owned()));
    push_entry(&mut ps, "params", Json::Object(params));
    assert(entries_view(ps@) =~= want->Object_0);
    proof { lemma_object_entries(ps); }
    Json::Object(ps)
}

/// The answer to `initialize`: the protocol version, the capabilities, and
/// the server's name and version.
pub open spec fn initialize_of(version: Seq<char>) -> JsonV {
    JsonV::Object(seq![
        ("protocolVersion"@, JsonV::Str("2024-11-05"@)),
        ("capabilities"@, JsonV::Object(seq![("tools"@, JsonV::Object(seq![])), ("notifications"@, JsonV::Object(seq![]))])),
        ("serverInfo"@, JsonV::Object(seq![("name"@, JsonV::Str("lit-mcp"@)), ("version"@, JsonV::Str(version))])),
    ])
}

fn empty_object() -> (r: Json)
    ensures
        r@ == JsonV::Object(seq![]),
{
    let ps: Vec<(String, Json)> = Vec::new();
    assert(entries_view(ps@) =~= Seq::<(Seq<char>, JsonV)>::empty());
    proof { lemma_object_entries(ps); }
    Json::Object(ps)
}

/// Build the answer to `initialize` for a server of the given version.
pub fn initialize_result(version: &str) -> (r: Json)
    ensures
        r@ == initialize_of(version@),
{
    let ghost want = initialize_of(version@);
    let mut caps: Vec<(String, Json)> = Vec::new();
    push_entry(&mut caps, "tools", empty_object());
    push_entry(&mut caps, "notifications", empty_object());
    assert(entries_view(caps@) =~= want->Object_0[1].1->Object_0);
    proof { lemma_object_entries(caps); }
    let mut info: Vec<(String, Json)> = Vec::new();
    push_entry(&mut info, "name", Json::Str("lit-mcp".to_owned()));
    push_entry(&mut info, "version", Json::Str(version.to_owned()));
    assert(entries_view(info@) =~= want->Object_0[2].1->Object_0);
    proof { lemma_object_entries(info); }
    let mut ps: Vec<(String, Json)> = Vec::new();
    push_entry(&mut ps, "protocolVersion", Json::Str("2024-11-05".to_owned()));
    push_entry(&mut ps, "capabilities", Json::Object(caps));
    push_entry(&mut ps, "serverInfo", Json::Object(info));
    assert(entries_view(ps@) =~= want->Object_0);
    proof { lemma_object_entries(ps); }
    Json::Object(ps)
}

/// The schema members that give a parameter's type.
pub open spec fn kind_entries(k: ParamKind) -> Seq<(Seq<char>, JsonV)> {
    match k {
        ParamKind::String => seq![("type"@, JsonV::Str("string"@))],
        ParamKind::Integer => seq![("type"@, JsonV::Str("integer"@))],
        ParamKind::Boolean => seq![("type"@, JsonV::Str("boolean"@))],
        ParamKind::StringArray => seq![("type"@, JsonV::Str("array"@)), ("items"@, JsonV::Object(seq![("type"@, JsonV::Str("string"@))]))],
    }
}

/// The schema of a parameter: its type and, when it has one, its
/// description.
pub open spec fn param_json_v(p: (Seq<char>, ParamKind, Option<Seq<char>>)) -> JsonV {
    JsonV::Object(kind_entries(p.1) + crate::json::opt_entry("description"@, p.2))
}

/// The schema of a parameter.
pub open spec fn param_json(p: ToolParam) -> JsonV {
    param_json_v((p.name@, p.kind, crate::api::opt_view(p.description)))
}

/// A tool as listed: its name, description and input schema (an object
/// with the parameters as properties and the required ones).
pub open spec fn tool_json_v(t: ToolV) -> JsonV {
    JsonV::Object(seq![
        ("name"@, JsonV::Str(t.name)),
        ("description"@, JsonV::Str(t.description)),
        ("inputSchema"@, JsonV::Object(seq![
            ("type"@, JsonV::Str("object"@)),
            ("properties"@, JsonV::Object(t.params.map_values(|p: (Seq<char>, ParamKind, Option<Seq<char>>)| (p.0, param_json_v(p))))),
            ("required"@, str_array(t.required)),
        ])),
    ])
}

/// A tool as listed.
pub open spec fn tool_json(t: ToolDef) -> JsonV {
    tool_json_v(tool_view(t))
}

/// The list of the tools the server offers, as JSON.
pub open spec fn tool_list_json() -> JsonV {
    JsonV::Array(tool_table().map_values(|t: ToolV| tool_json_v(t)))
}

fn kind_json(ps: &mut Vec<(String, Json)>, k: ParamKind)
    ensures
        entries_view(final(ps)@) == entries_view(old(ps)@) + kind_entries(k),
{
    let ghost l0 = entries_view(ps@);
    match k {
        ParamKind::String => push_entry(ps, "type", Json::Str("string".to_owned())),
        ParamKind::Integer => push_entry(ps, "type", Json::Str("integer".to_owned())),
        ParamKind::Boolean => push_entry(ps, "type", Json::Str("boolean".to_owned())),
        ParamKind::StringArray => {
            push_entry(ps, "type", Json::Str("array".to_owned()));
            let mut item: Vec<(String, Json)> = Vec::new();
            push_entry(&mut item, "type", Json::Str("string".to_owned()));
            assert(entries_view(item@) =~= seq![("type"@, JsonV::Str("string"@))]);
            proof { lemma_object_entries(item); }
            push_entry(ps, "items", Json::Object(item));
        },
    }
    assert(entries_view(ps@) =~= l0 + kind_entries(k));
}

fn param_to_json(p: &ToolParam) -> (r: Json)
    ensures
        r@ == param_json(*p),
{
    let mut ps: Vec<(String, Json)> = Vec::new();
    kind_json(&mut ps, p.kind);
    crate::json::push_opt_entry(&mut ps, "description", &p.description);
    proof { lemma_object_entries(ps); }
    Json::Object(ps)
}

fn tool_to_json(t: &ToolDef) -> (r: Json)
    ensures
        r@ == tool_json(*t),
{
    let ghost want = t.params@.map_values(|p: ToolParam| (p.name@, param_json(p)));
    let mut props: Vec<(String, Json)> = Vec::new();
    let mut i: usize = 0;
    while i < t.params.len()
        invariant
            i <= t.params@.len(),
            want == t.params@.map_values(|p: ToolParam| (p.name@, param_json(p))),
            entries_view(props@) == want.subrange(0, i as int),
        decreases t.params@.len() - i,
    {
        let ghost before = entries_view(props@);
        let j = param_to_json(&t.params[i]);
        push_entry(&mut props, t.params[i].name.as_str(), j);
        assert(entries_view(props@) =~= want.subrange(0, i + 1));
        i = i + 1;
    }
    assert(want.subrange(0, t.params@.len() as int) =~= want);
    assert(want =~= params_view(t.params@).map_values(|p: (Seq<char>, ParamKind, Option<Seq<char>>)| (p.0, param_json_v(p))));
    proof { lemma_object_entries(props); }
    let mut schema: Vec<(String, Json)> = Vec::new();
    push_entry(&mut schema, "type", Json::Str("object".to_owned()));
    push_entry(&mut schema, "properties", Json::Object(props));
    push_entry(&mut schema, "required", json_str_array(&t.required));
    assert(entries_view(schema@) =~= tool_json(*t)->Object_0[2].1->Object_0);
    proof { lemma_object_entries(schema); }
    let mut ps: Vec<(String, Json)> = Vec::new();
    push_entry(&mut ps, "name", Json::Str(t.name.clone()));
    push_entry(&mut ps, "description", Json::Str(t.description.clone()));
    push_entry(&mut ps, "inputSchema", Json::Object(schema));
    assert(entries_view(ps@) =~= tool_json(*t)->Object_0);
    proof { lemma_object_entries(ps); }
    Json::Object(ps)
}

/// The tools as the server lists them.
pub fn tools_json(ts: &Vec<ToolDef>) -> (r: Json)
    ensures
        r@ == JsonV::Array(ts@.map_values(|t: ToolDef| tool_json(t))),
{
    let ghost want = ts@.map_values(|t: ToolDef| tool_json(t));
    let mut out: Vec<Json> = Vec::new();
    let mut i: usize = 0;
    while i < ts.len()
        invariant
            i <= ts@.len(),
            want == ts@.map_values(|t: ToolDef| tool_json(t)),
            json_items(out@) == want.subrange(0, i as int),
        decreases ts@.len() - i,
    {
        let ghost before = json_items(out@);
        let j = tool_to_json(&ts[i]);
        out.push(j);
        assert(json_items(out@) =~= before.push(want[i as int]));
        assert(json_items(out@) =~= want.subrange(0, i + 1));
        i = i + 1;
    }
    assert(want.subrange(0, ts@.len() as int) =~= want);
    proof { lemma_array_items(out); }
    Json::Array(out)
}

/// The list of tools the server offers, as JSON: one entry per tool, each
/// with its schema.
pub fn tool_definitions() -> (r: Json)
    ensures
        r@ == tool_list_json(),
{
    let ts = tool_specs();
    let r = tools_json(&ts);
    let ghost x = ts@.map_values(|t: ToolDef| tool_json(t));
    let ghost y = tool_table().map_values(|t: ToolV| tool_json_v(t));
    let ghost vs = ts@.map_values(|t: ToolDef| tool_view(t));
    assert(vs.len() == tool_table().len());
    assert forall|k: int| 0 <= k < x.len() implies #[trigger] x[k] == y[k] by {
        assert(vs[k] == tool_view(ts@[k]));
        assert(vs[k] == tool_table()[k]);
    }
    assert(x =~= y);
    r
}

/// A required string argument of a tool call, or the error naming it.
pub open spec fn req_arg_of(args: JsonV, key: Seq<char>) -> Result<Seq<char>, Seq<char>> {
    match jstr(jget(args, key)) {
        Some(s) => Ok(s),
        None => Err("missing '"@ + key + "'"@),
    }
}

/// Read a required string argument of a tool call.
pub fn req_arg(args: &Json, key: &str) -> (r: Result<String, String>)
    ensures
        match req_arg_of(args@, key@) {
            Ok(s) => r matches Ok(x) && x@ == s,
            Err(e) => r matches Err(x) && x@ == e,
        },
{
    match jas_str(jfield(Some(args), key)) {
        Some(s) => Ok(s.to_owned()),
        None => Err(crate::api::cat3("missing '", key, "'")),
    }
}

/// An optional string argument of a tool call.
pub fn opt_arg(args: &Json, key: &str) -> (r: Option<String>)
    ensures
        crate::api::opt_view(r) == jstr(jget(args@, key@)),
{
    match jas_str(jfield(Some(args), key)) {
        Some(s) => Some(s.to_owned()),
        None => None,
    }
}

/// An integer argument of a tool call, or its default.
pub fn u64_arg(args: &Json, key: &str, default: u64) -> (r: u64)
    ensures
        r == match ju64(jget(args@, key@)) { Some(n) => n, None => default },
{
    match jas_u64(jfield(Some(args), key)) {
        Some(n) => n,
        None => default,
    }
}

/// A boolean argument of a tool call, or its default.
pub fn bool_arg(args: &Json, key: &str, default: bool) -> (r: bool)
    ensures
        r == match jbool(jget(args@, key@)) { Some(b) => b, None => default },
{
    match jas_bool(jfield(Some(args), key)) {
        Some(b) => b,
        None => default,
    }
}

/// The arguments of the misc tool.
#[derive(Debug)]
pub struct MiscArgs {
    pub citekey: String,
    pub title: String,
    pub authors: Vec<String>,
    pub year: String,
    pub howpublished: Option<String>,
    pub note: Option<String>,
    pub bib_file: String,
}

/// The authors of a misc call: each item's text, an item that is not a
/// string counting as empty; `None` when `authors` is not an array.
pub open spec fn authors_arg_of(args: JsonV) -> Option<Seq<Seq<char>>> {
    match jarr(jget(args, "authors"@)) {
        Some(a) => Some(a.map_values(|v: JsonV| match jstr(v) { Some(s) => s, None => seq![] })),
        None => None,
    }
}

fn authors_arg(args: &Json) -> (r: Option<Vec<String>>)
    ensures
        match authors_arg_of(args@) {
            Some(a) => r matches Some(v) && strs_view(v@) == a,
            None => r is None,
        },
{
    let o = jfield(Some(args), "authors");
    match jas_array(o) {
        Some(items) => {
            let ghost a = jarr(ov(o)).unwrap();
            let ghost want = a.map_values(|v: JsonV| match jstr(v) { Some(s) => s, None => seq![] });
            let mut out: Vec<String> = Vec::new();
            let mut i: usize = 0;
            while i < items.len()
                invariant
                    i <= items@.len(),
                    a.len() == items@.len(),
                    forall|k: int| 0 <= k < items@.len() ==> (#[trigger] items@[k])@ == a[k],
                    want == a.map_values(|v: JsonV| match jstr(v) { Some(s) => s, None => seq![] }),
                    strs_view(out@) == want.subrange(0, i as int),
                decreases items@.len() - i,
            {
                let s = match jas_str(Some(&items[i])) {
                    Some(s) => s.to_owned(),
                    None => String::new(),
                };
                assert(s@ == want[i as int]);
                crate::api::push_string(&mut out, s);
                assert(strs_view(out@) =~= want.subrange(0, i + 1));
                i = i + 1;
            }
            assert(want.subrange(0, items@.len() as int) =~= want);
            Some(out)
        },
        None => None,
    }
}

/// Read the arguments of the misc tool, checked in the order citekey,
/// title, authors, year, bib_file; the first missing one is the error.
pub fn misc_args(args: &Json) -> (r: Result<MiscArgs, String>)
    ensures
        match (req_arg_of(args@, "citekey"@), req_arg_of(args@, "title"@), authors_arg_of(args@),
            req_arg_of(args@, "year"@), req_arg_of(args@, "bib_file"@)) {
            (Err(e), _, _, _, _) => r matches Err(x) && x@ == e,
            (Ok(_), Err(e), _, _, _) => r matches Err(x) && x@ == e,
            (Ok(_), Ok(_), None, _, _) => r matches Err(x) && x@ == "missing 'authors'"@,
            (Ok(_), Ok(_), Some(_), Err(e), _) => r matches Err(x) && x@ == e,
            (Ok(_), Ok(_), Some(_), Ok(_), Err(e)) => r matches Err(x) && x@ == e,
            (Ok(c), Ok(t), Some(a), Ok(y), Ok(b)) => r matches Ok(m) && {
                &&& m.citekey@ == c && m.title@ == t && strs_view(m.authors@) == a && m.year@ == y && m.bib_file@ == b
                &&& crate::api::opt_view(m.howpublished) == jstr(jget(args@, "howpublished"@))
                &&& crate::api::opt_view(m.note) == jstr(jget(args@, "note"@))
            },
        },
{
    let citekey = match req_arg(args, "citekey") { Ok(s) => s, Err(e) => { return Err(e); } };
    let title = match req_arg(args, "title") { Ok(s) => s, Err(e) => { return Err(e); } };
    let authors = match authors_arg(args) { Some(a) => a, None => { return Err("missing 'authors'".to_owned()); } };
    let year = match req_arg(args, "year") { Ok(s) => s, Err(e) => { return Err(e); } };
    let howpublished = opt_arg(args, "howpublished");
    let note = opt_arg(args, "note");
    let bib_file = match req_arg(args, "bib_file") { Ok(s) => s, Err(e) => { return Err(e); } };
    Ok(MiscArgs { citekey, title, authors, year, howpublished, note, bib_file })
}

/// The arguments of the clean tool.
#[derive(Debug)]
pub struct CleanArgs {
    pub bib_file: String,
    /// Rewrite the file (`dry_run` is false; it defaults to true).
    pub apply: bool,
    pub prune: bool,
    pub tex_dir: Option<String>,
}

/// Read the arguments of the clean tool.
pub fn clean_args(args: &Json) -> (r: Result<CleanArgs, String>)
    ensures
        match req_arg_of(args@, "bib_file"@) {
            Err(e) => r matches Err(x) && x@ == e,
            Ok(b) => r matches Ok(c) && {
                &&& c.bib_file@ == b
                &&& c.apply == !(match jbool(jget(args@, "dry_run"@)) { Some(d) => d, None => true })
                &&& c.prune == (match jbool(jget(args@, "prune"@)) { Some(p) => p, None => false })
                &&& crate::api::opt_view(c.tex_dir) == jstr(jget(args@, "tex_dir"@))
            },
        },
{
    let bib_file = match req_arg(args, "bib_file") { Ok(s) => s, Err(e) => { return Err(e); } };
    let apply = !bool_arg(args, "dry_run", true);
    let prune = bool_arg(args, "prune", false);
    let tex_dir = opt_arg(args, "tex_dir");
    Ok(CleanArgs { bib_file, apply, prune, tex_dir })
}

/// The parts of a list that are not empty, in order.
pub open spec fn nonempty_parts(s: Seq<Seq<char>>) -> Seq<Seq<char>>
    decreases s.len(),
{
    if s.len() == 0 {
        s
    } else if s.last().len() > 0 {
        nonempty_parts(s.drop_last()).push(s.last())
    } else {
        nonempty_parts(s.drop_last())
    }
}

/// The named components of a canonical path (one without `.` or `..`
/// components): the pieces between its slashes.
pub open spec fn path_components(p: Seq<char>) -> Seq<Seq<char>> {
    nonempty_parts(crate::text::split(p, "/"@))
}

fn components_exec(p: &str) -> (r: Vec<Vec<char>>)
    ensures
        r@.len() == path_components(p@).len(),
        forall|k: int| 0 <= k < r@.len() ==> (#[trigger] r@[k])@ == path_components(p@)[k],
{
    let sep = crate::text::str_chars("/");
    proof { reveal_strlit("/"); }
    let parts = crate::text::split_on(crate::text::str_chars(p).as_slice(), sep.as_slice());
    let ghost sp = crate::text::split(p@, "/"@);
    let mut out: Vec<Vec<char>> = Vec::new();
    let mut i: usize = 0;
    while i < parts.len()
        invariant
            i <= parts@.len(),
            sp == crate::text::split(p@, "/"@),
            parts@.len() == sp.len(),
            forall|k: int| 0 <= k < parts@.len() ==> (#[trigger] parts@[k])@ == sp[k],
            out@.len() == nonempty_parts(sp.subrange(0, i as int)).len(),
            forall|k: int| 0 <= k < out@.len() ==> (#[trigger] out@[k])@ == nonempty_parts(sp.subrange(0, i as int))[k],
        decreases parts@.len() - i,
    {
        let ghost before = nonempty_parts(sp.subrange(0, i as int));
        assert(sp.subrange(0, i + 1).drop_last() =~= sp.subrange(0, i as int));
        assert(sp.subrange(0, i + 1).last() == sp[i as int]);
        if parts[i].len() > 0 {
            out.push(parts[i].clone());
        }
        i = i + 1;
    }
    assert(sp.subrange(0, parts@.len() as int) =~= sp);
    out
}

/// Whether the canonical path `child` lies within `root` (as
/// `Path::starts_with` compares them, component by component, both
/// absolute or both relative).
pub open spec fn within(child: Seq<char>, root: Seq<char>) -> bool {
    let cc = path_components(child);
    let rc = path_components(root);
    &&& crate::text::has_prefix(child, "/"@) == crate::text::has_prefix(root, "/"@)
    &&& rc.len() <= cc.len()
    &&& cc.subrange(0, rc.len() as int) == rc
}

/// Whether the canonical path `child` lies within `root`.
pub fn path_within(child: &str, root: &str) -> (r: bool)
    ensures
        r == within(child@, root@),
{
    let c = components_exec(child);
    let rt = components_exec(root);
    let ca = crate::text::starts_with_str(crate::text::str_chars(child).as_slice(), "/");
    let ra = crate::text::starts_with_str(crate::text::str_chars(root).as_slice(), "/");
    let ghost cv = path_components(child@);
    let ghost rv = path_components(root@);
    if ca != ra || rt.len() > c.len() {
        assert(ca == crate::text::has_prefix(child@, "/"@));
        assert(ra == crate::text::has_prefix(root@, "/"@));
        assert(rt@.len() == rv.len() && c@.len() == cv.len());
        assert(!within(child@, root@));
        return false;
    }
    let mut i: usize = 0;
    while i < rt.len()
        invariant
            i <= rt@.len() <= c@.len(),
            cv == path_components(child@),
            rv == path_components(root@),
            rt@.len() == rv.len(),
            c@.len() == cv.len(),
            forall|k: int| 0 <= k < rt@.len() ==> (#[trigger] rt@[k])@ == rv[k],
            forall|k: int| 0 <= k < c@.len() ==> (#[trigger] c@[k])@ == cv[k],
            forall|k: int| 0 <= k < i ==> cv[k] == rv[k],
        decreases rt@.len() - i,
    {
        if !crate::text::chars_eq(c[i].as_slice(), rt[i].as_slice()) {
            assert(cv.subrange(0, rv.len() as int)[i as int] != rv[i as int]);
            assert(cv.subrange(0, rv.len() as int) != rv);
            assert(!within(child@, root@));
            return false;
        }
        i = i + 1;
    }
    assert(cv.subrange(0, rv.len() as int) =~= rv);
    true
}

/// The extension of a canonical path (as `Path::extension` gives it): what
/// follows the last `.` of its last component, when that `.` is not the
/// component's first character; none for `..` or a path without components.
pub open spec fn file_extension(p: Seq<char>) -> Option<Seq<char>> {
    let cs = path_components(p);
    if cs.len() == 0 || cs.last() == ".."@ {
        None
    } else {
        let n = cs.last();
        match crate::api::arxiv::last_index_of(n, '.') {
            Some(k) => if k == 0 { None } else { Some(n.subrange(k + 1, n.len() as int)) },
            None => None,
        }
    }
}

/// Whether a canonical path names a `.bib` file.
pub fn has_bib_extension(path: &str) -> (r: bool)
    ensures
        r == (file_extension(path@) == Some("bib"@)),
{
    let cs = components_exec(path);
    if cs.len() == 0 {
        return false;
    }
    let n = &cs[cs.len() - 1];
    proof { reveal_strlit(".."); reveal_strlit("bib"); }
    if crate::text::eq_str(n.as_slice(), "..") {
        return false;
    }
    let dot = vec!['.'];
    match crate::api::arxiv::last_occurrence_exec(n.as_slice(), dot.as_slice()) {
        Some(k) => {
            assert(dot@ =~= seq!['.']);
            if k == 0 {
                false
            } else {
                let len = n.len();
                assert(k + 1 <= len);
                let ext = crate::text::slice_vec(n.as_slice(), k + 1, len);
                crate::text::eq_str(ext.as_slice(), "bib")
            }
        },
        None => {
            assert(dot@ =~= seq!['.']);
            false
        },
    }
}

/// The error for a path that resolves outside the working directory.
pub fn outside_cwd_error(param: &str, path: &str) -> (r: String)
    ensures
        r@ == param@ + ": path '"@ + path@ + "' resolves outside working directory"@,
{
    let mut v = crate::text::str_chars(param);
    crate::text::push_str(&mut v, ": path '");
    crate::text::push_str(&mut v, path);
    crate::text::push_str(&mut v, "' resolves outside working directory");
    crate::text::string_from_chars(v.as_slice())
}

/// The error for a path none of whose ancestors exists.
pub fn no_ancestor_error(param: &str, path: &str) -> (r: String)
    ensures
        r@ == param@ + ": no existing ancestor for path '"@ + path@ + "'"@,
{
    let mut v = crate::text::str_chars(param);
    crate::text::push_str(&mut v, ": no existing ancestor for path '");
    crate::text::push_str(&mut v, path);
    crate::text::push_str(&mut v, "'");
    crate::text::string_from_chars(v.as_slice())
}

/// Check a resolved bib file path: the path itself, or the error for one
/// without a `.bib` extension.
pub fn check_bib_extension(path: &str, resolved: String) -> (r: Result<String, String>)
    ensures
        file_extension(resolved@) == Some("bib"@) ==> (r matches Ok(x) && x@ == resolved@),
        file_extension(resolved@) != Some("bib"@) ==> (r matches Err(e) && e@ == "bib_file: '"@ + path@ + "' does not have .bib extension"@),
{
    if has_bib_extension(resolved.as_str()) {
        Ok(resolved)
    } else {
        Err(crate::api::cat3("bib_file: '", path, "' does not have .bib extension"))
    }
}


/// Check a resolved path against the canonical working directory `cwd`:
/// the path itself when it lies within, else the error naming `param`.
pub fn check_under_cwd(param: &str, path: &str, resolved: String, cwd: &str) -> (r: Result<String, String>)
    ensures
        within(resolved@, cwd@) ==> (r matches Ok(x) && x@ == resolved@),
        !within(resolved@, cwd@) ==> (r matches Err(e)
            && e@ == param@ + ": path '"@ + path@ + "' resolves outside working directory"@),
{
    if path_within(resolved.as_str(), cwd) {
        Ok(resolved)
    } else {
        Err(outside_cwd_error(param, path))
    }
}

/// Validate a resolved `bib_file`: it must lie within the working directory
/// `cwd` and have the `.bib` extension.
pub fn check_bib_file(path: &str, resolved: String, cwd: &str) -> (r: Result<String, String>)
    ensures
        (within(resolved@, cwd@) && file_extension(resolved@) == Some("bib"@)) ==> (r matches Ok(x) && x@ == resolved@),
        !within(resolved@, cwd@) ==> (r matches Err(e)
            && e@ == "bib_file: path '"@ + path@ + "' resolves outside working directory"@),
        (within(resolved@, cwd@) && file_extension(resolved@) != Some("bib"@)) ==> (r matches Err(e)
            && e@ == "bib_file: '"@ + path@ + "' does not have .bib extension"@),
{
    proof {
        reveal_strlit("bib_file");
        reveal_strlit(": path '");
        reveal_strlit("bib_file: path '");
        assert("bib_file"@ + ": path '"@ =~= "bib_file: path '"@);
    }
    match check_under_cwd("bib_file", path, resolved, cwd) {
        Ok(p) => check_bib_extension(path, p),
        Err(e) => Err(e),
    }
}

/// Validate a resolved `tex_dir`: it must lie within the working directory
/// `cwd`.
pub fn check_tex_dir(path: &str, resolved: String, cwd: &str) -> (r: Result<String, String>)
    ensures
        within(resolved@, cwd@) ==> (r matches Ok(x) && x@ == resolved@),
        !within(resolved@, cwd@) ==> (r matches Err(e)
            && e@ == "tex_dir: path '"@ + path@ + "' resolves outside working directory"@),
{
    proof {
        reveal_strlit("tex_dir");
        reveal_strlit(": path '");
        reveal_strlit("tex_dir: path '");
        assert("tex_dir"@ + ": path '"@ =~= "tex_dir: path '"@);
    }
    check_under_cwd("tex_dir", path, resolved, cwd)
}

} // verus!
