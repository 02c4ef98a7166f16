use std::collections::HashSet;
use lit::api::PaperResult;
use lit::cmd::clean::CleanReport;
use lit::json::Json;
use lit::mcp::{
    clean_response, entry_response, make_response, make_tool_error, make_tool_result, paginated_response, path_response,
    papers_to_json_string, tool_definitions, tool_specs, ParamKind, make_notification, initialize_result, path_within, has_bib_extension, check_bib_extension, check_bib_file, check_tex_dir, check_under_cwd, outside_cwd_error, no_ancestor_error, misc_args, clean_args, req_arg, u64_arg, bool_arg, opt_arg,
};

fn tools(defs: &Json) -> &Vec<Json> {
    match defs {
        Json::Array(a) => a,
        _ => panic!("tool list is not an array"),
    }
}

fn keys_of(j: Option<&Json>) -> Vec<String> {
    match j {
        Some(Json::Object(ps)) => ps.iter().map(|(k, _)| k.clone()).collect(),
        _ => vec![],
    }
}

#[test]
fn tool_definitions_returns_nine_tools() {
    let defs = tool_definitions();
    assert_eq!(tools(&defs).len(), 9);
}

#[test]
fn tool_definitions_no_duplicate_names() {
    let defs = tool_definitions();
    let names: Vec<&str> = tools(&defs).iter().map(|t| as_str(member(t, "name")).unwrap()).collect();
    let unique: HashSet<&str> = names.iter().copied().collect();
    assert_eq!(names.len(), unique.len(), "duplicate tool names found");
}

#[test]
fn tool_definitions_all_have_input_schema() {
    let defs = tool_definitions();
    for tool in tools(&defs) {
        let name = as_str(member(tool, "name")).unwrap();
        let schema = member(tool, "inputSchema");
        assert!(schema.is_some(), "tool '{}' missing inputSchema", name);
        assert_eq!(as_str(member(schema.unwrap(), "type")), Some("object"), "tool '{}' inputSchema type is not 'object'", name);
    }
}

#[test]
fn tool_definitions_required_fields_present() {
    let defs = tool_definitions();
    for tool in tools(&defs) {
        let name = as_str(member(tool, "name")).unwrap();
        assert!(as_str(member(tool, "description")).is_some(), "tool '{}' missing description", name);
        let schema = member(tool, "inputSchema").unwrap();
        let props = keys_of(member(schema, "properties"));
        if let Some(Json::Array(req)) = member(schema, "required") {
            for r in req {
                let field = match r {
                    Json::Str(s) => s.as_str(),
                    _ => panic!("required item not a string"),
                };
                assert!(props.iter().any(|p| p == field), "tool '{}': required field '{}' not in properties", name, field);
            }
        }
    }
}

#[test]
fn tool_definitions_no_wait_tool() {
    let defs = tool_definitions();
    assert!(tools(&defs).iter().all(|t| as_str(member(t, "name")) != Some("wait")));
}

#[test]
fn mcp_misc_tool_schema() {
    let defs = tool_specs();
    let misc = defs.iter().find(|t| t.name == "misc").unwrap();
    assert_eq!(misc.required, vec!["citekey", "title", "authors", "year", "bib_file"]);
    let authors = misc.params.iter().find(|p| p.name == "authors").unwrap();
    assert_eq!(authors.kind, ParamKind::StringArray);
}

use lit::mcp::{check_tool_name, route_method, RpcRoute};

#[test]
fn mcp_routes_methods() {
    assert!(matches!(route_method("initialize", true), RpcRoute::Initialize));
    assert!(matches!(route_method("tools/list", true), RpcRoute::ToolsList));
    assert!(matches!(route_method("tools/call", true), RpcRoute::ToolsCall));
    assert!(matches!(route_method("ping", true), RpcRoute::Ping));
    assert!(matches!(route_method("notifications/initialized", false), RpcRoute::NoReply));
    match route_method("bogus", true) {
        RpcRoute::NotFound(m) => assert_eq!(m, "method not found: bogus"),
        _ => panic!("expected not found"),
    }
    assert!(matches!(route_method("bogus", false), RpcRoute::NoReply));
}

#[test]
fn mcp_checks_tool_names() {
    assert!(check_tool_name("search").is_ok());
    assert_eq!(check_tool_name("nonexistent"), Err("unknown tool: nonexistent".to_string()));
}

fn member<'a>(j: &'a Json, key: &str) -> Option<&'a Json> {
    match j {
        Json::Object(ps) => ps.iter().find(|(k, _)| k == key).map(|(_, v)| v),
        _ => None,
    }
}

fn as_str(j: Option<&Json>) -> Option<&str> {
    match j {
        Some(Json::Str(s)) => Some(s.as_str()),
        _ => None,
    }
}

fn content_items(j: &Json) -> &Vec<Json> {
    match member(j, "content") {
        Some(Json::Array(a)) => a,
        _ => panic!("no content array"),
    }
}

#[test]
fn make_response_structure() {
    let resp = make_response(Json::Number(Some(1)), Json::Object(vec![("ok".to_string(), Json::Bool(true))]));
    assert_eq!(as_str(member(&resp, "jsonrpc")), Some("2.0"));
    assert!(matches!(member(&resp, "id"), Some(Json::Number(Some(1)))));
    let result = member(&resp, "result").unwrap();
    assert!(matches!(member(result, "ok"), Some(Json::Bool(true))));
}

#[test]
fn make_tool_result_structure() {
    let tr = make_tool_result("hello");
    let content = content_items(&tr);
    assert_eq!(content.len(), 1);
    assert_eq!(as_str(member(&content[0], "type")), Some("text"));
    assert_eq!(as_str(member(&content[0], "text")), Some("hello"));
    assert!(member(&tr, "isError").is_none());
}

#[test]
fn make_tool_error_structure() {
    let te = make_tool_error("boom");
    let content = content_items(&te);
    assert_eq!(content.len(), 1);
    assert_eq!(as_str(member(&content[0], "text")), Some("boom"));
    assert!(matches!(member(&te, "isError"), Some(Json::Bool(true))));
}

#[test]
fn slow_tool_started_response_shape() {
    let task_id = "task_1";
    let mut payload = serde_json::Map::new();
    payload.insert("status".to_string(), serde_json::Value::String("started".to_string()));
    payload.insert("task_id".to_string(), serde_json::Value::String(task_id.to_string()));
    let payload = serde_json::Value::Object(payload);
    let tool_result = make_tool_result(&payload.to_string());
    let text = as_str(member(&content_items(&tool_result)[0], "text")).unwrap();
    let parsed: serde_json::Value = serde_json::from_str(text).unwrap();
    assert_eq!(parsed["status"], "started");
    assert_eq!(parsed["task_id"], task_id);
    assert!(member(&tool_result, "isError").is_none());
}

#[test]
fn papers_to_json_empty() {
    let result = papers_to_json_string(&vec![], false).unwrap();
    assert_eq!(result, "No results found");
}

#[test]
fn papers_to_json_single() {
    let paper = PaperResult {
        title: "Test Paper".into(),
        authors: vec!["Alice".into()],
        year: "2024".into(),
        ..Default::default()
    };
    let result = papers_to_json_string(&vec![paper], false).unwrap();
    let parsed: serde_json::Value = serde_json::from_str(&result).unwrap();
    let arr = parsed.as_array().unwrap();
    assert_eq!(arr.len(), 1);
    assert_eq!(arr[0]["title"], "Test Paper");
}

#[test]
fn papers_to_json_multiple() {
    let papers: Vec<PaperResult> = (0..3)
        .map(|i| PaperResult {
            title: format!("Paper {}", i),
            authors: vec!["Bob".into()],
            year: format!("{}", 2020 + i),
            ..Default::default()
        })
        .collect();
    let result = papers_to_json_string(&papers, false).unwrap();
    let parsed: serde_json::Value = serde_json::from_str(&result).unwrap();
    let arr = parsed.as_array().unwrap();
    assert_eq!(arr.len(), 3);
}

#[test]
fn papers_to_json_brief_truncates_abstract() {
    let long_abstract = "a".repeat(200);
    let paper = PaperResult {
        title: "Test".into(),
        authors: vec!["Alice".into()],
        year: "2024".into(),
        abstract_text: Some(long_abstract),
        categories: vec!["cs.AI".into()],
        published_date: Some("2024-01-01".into()),
        pdf_url: Some("https://example.com/paper.pdf".into()),
        ..Default::default()
    };
    let result = papers_to_json_string(&vec![paper], true).unwrap();
    let parsed: serde_json::Value = serde_json::from_str(&result).unwrap();
    let arr = parsed.as_array().unwrap();
    let obj = arr[0].as_object().unwrap();
    let abs = obj["abstract"].as_str().unwrap();
    assert_eq!(abs.len(), 153);
    assert!(abs.ends_with("..."));
    assert!(!obj.contains_key("categories"));
    assert!(!obj.contains_key("published_date"));
    assert!(!obj.contains_key("pdf_url"));
}

#[test]
fn papers_to_json_brief_short_abstract_not_truncated() {
    let paper = PaperResult {
        title: "Test".into(),
        authors: vec!["Alice".into()],
        year: "2024".into(),
        abstract_text: Some("Short abstract.".into()),
        ..Default::default()
    };
    let result = papers_to_json_string(&vec![paper], true).unwrap();
    let parsed: serde_json::Value = serde_json::from_str(&result).unwrap();
    let abs = parsed[0]["abstract"].as_str().unwrap();
    assert_eq!(abs, "Short abstract.");
}

#[test]
fn papers_to_json_compact_no_whitespace() {
    let paper = PaperResult {
        title: "Test".into(),
        authors: vec!["Alice".into()],
        year: "2024".into(),
        ..Default::default()
    };
    let result = papers_to_json_string(&vec![paper], false).unwrap();
    assert!(!result.contains('\n'));
}

#[test]
fn mcp_paginated_pages() {
    let papers: Vec<PaperResult> = (0..5)
        .map(|i| PaperResult { title: format!("P{}", i), year: "2020".into(), ..Default::default() })
        .collect();
    let v: serde_json::Value = serde_json::from_str(&paginated_response(&papers, 1, 2, 3).unwrap()).unwrap();
    assert_eq!(v["count"], 2);
    assert_eq!(v["offset"], 1);
    assert_eq!(v["total_fetched"], 5);
    assert_eq!(v["has_more"], true);
    assert_eq!(v["papers"][0]["title"], "P1");
    assert_eq!(v["papers"][1]["title"], "P2");
    let last: serde_json::Value = serde_json::from_str(&paginated_response(&papers, 4, 10, 14).unwrap()).unwrap();
    assert_eq!(last["count"], 1);
    assert_eq!(last["has_more"], false);
    let past: serde_json::Value = serde_json::from_str(&paginated_response(&papers, 9, 2, 11).unwrap()).unwrap();
    assert_eq!(past["count"], 0);
    assert_eq!(past["papers"].as_array().unwrap().len(), 0);
}

#[test]
fn mcp_path_and_clean_answers() {
    assert_eq!(path_response(&None), "No path found");
    let steps = vec![("A".to_string(), "Alpha".to_string()), ("B".to_string(), "Beta".to_string())];
    let v: serde_json::Value = serde_json::from_str(&path_response(&Some(steps))).unwrap();
    assert_eq!(v["hops"], 1);
    assert_eq!(v["path"][1]["id"], "B");
    assert_eq!(v["path"][0]["title"], "Alpha");
    let report = CleanReport {
        malformed: vec!["1x".into()],
        duplicates: vec![("a".into(), "b".into())],
        orphans: vec![],
        removed: vec!["1x".into(), "b".into()],
        lint: vec![],
    };
    let dry: serde_json::Value = serde_json::from_str(&clean_response(&report, false)).unwrap();
    assert_eq!(dry["malformed"][0], "1x");
    assert_eq!(dry["duplicates"][0]["kept"], "a");
    assert_eq!(dry["duplicates"][0]["removed"], "b");
    assert!(dry.get("removed").is_none());
    let applied: serde_json::Value = serde_json::from_str(&clean_response(&report, true)).unwrap();
    assert_eq!(applied["removed"].as_array().unwrap().len(), 2);
    let e: serde_json::Value = serde_json::from_str(&entry_response("ho2020denoising", "/x/refs.bib")).unwrap();
    assert_eq!(e["entry_key"], "ho2020denoising");
    assert_eq!(e["bib_file"], "/x/refs.bib");
}

#[test]
fn mcp_notifications_and_initialize() {
    let done = make_notification("task_42", &Ok("some result text".to_string()));
    assert_eq!(as_str(member(&done, "jsonrpc")), Some("2.0"));
    assert_eq!(as_str(member(&done, "method")), Some("notifications/message"));
    assert!(member(&done, "id").is_none());
    let params = member(&done, "params").unwrap();
    assert_eq!(as_str(member(params, "level")), Some("info"));
    let data = member(params, "data").unwrap();
    assert_eq!(as_str(member(data, "task_id")), Some("task_42"));
    assert_eq!(as_str(member(data, "status")), Some("complete"));
    assert_eq!(as_str(member(data, "result")), Some("some result text"));
    let failed = make_notification("task_99", &Err("something went wrong".to_string()));
    let params = member(&failed, "params").unwrap();
    assert_eq!(as_str(member(params, "level")), Some("warning"));
    let data = member(params, "data").unwrap();
    assert_eq!(as_str(member(data, "status")), Some("error"));
    assert_eq!(as_str(member(data, "error")), Some("something went wrong"));
    assert!(member(data, "result").is_none());
    let init = initialize_result("1.2.3");
    assert_eq!(as_str(member(&init, "protocolVersion")), Some("2024-11-05"));
    let info = member(&init, "serverInfo").unwrap();
    assert!(as_str(member(info, "name")).unwrap().contains("lit"));
    assert_eq!(as_str(member(info, "version")), Some("1.2.3"));
}

fn obj(members: Vec<(&str, Json)>) -> Json {
    Json::Object(members.into_iter().map(|(k, v)| (k.to_string(), v)).collect())
}

fn s(v: &str) -> Json {
    Json::Str(v.to_string())
}

#[test]
fn misc_missing_citekey() {
    let result = misc_args(&obj(vec![
        ("title", s("t")),
        ("authors", Json::Array(vec![s("a")])),
        ("year", s("2024")),
        ("bib_file", s("x.bib")),
    ]));
    assert!(result.is_err());
    assert!(result.unwrap_err().contains("citekey"));
}

#[test]
fn misc_missing_authors() {
    let result = misc_args(&obj(vec![("citekey", s("k")), ("title", s("t")), ("year", s("2024")), ("bib_file", s("x.bib"))]));
    assert!(result.is_err());
    assert!(result.unwrap_err().contains("authors"));
}

#[test]
fn clean_missing_bib_file() {
    let result = clean_args(&obj(vec![]));
    assert!(result.is_err());
    assert!(result.unwrap_err().contains("bib_file"));
}

#[test]
fn add_missing_input() {
    let args = obj(vec![("bib_file", s("test.bib"))]);
    assert_eq!(req_arg(&args, "input"), Err("missing 'input'".to_string()));
}

#[test]
fn mcp_args_defaults_and_values() {
    let args = obj(vec![
        ("query", s("q")),
        ("limit", Json::Number(Some(3))),
        ("remote", Json::Bool(true)),
        ("note", Json::Number(Some(1))),
    ]);
    assert_eq!(req_arg(&args, "query"), Ok("q".to_string()));
    assert_eq!(u64_arg(&args, "limit", 10), 3);
    assert_eq!(u64_arg(&args, "offset", 0), 0);
    assert!(bool_arg(&args, "remote", false));
    assert!(bool_arg(&args, "brief", true));
    assert_eq!(opt_arg(&args, "note"), None);
    assert_eq!(req_arg(&s("not an object"), "query"), Err("missing 'query'".to_string()));
    let m = misc_args(&obj(vec![
        ("citekey", s("k")),
        ("title", s("t")),
        ("authors", Json::Array(vec![s("A"), Json::Number(Some(1))])),
        ("year", s("2024")),
        ("howpublished", s("web")),
        ("bib_file", s("x.bib")),
    ]))
    .unwrap();
    assert_eq!(m.authors, vec!["A".to_string(), String::new()]);
    assert_eq!(m.howpublished, Some("web".to_string()));
    assert_eq!(m.note, None);
    let c = clean_args(&obj(vec![("bib_file", s("x.bib")), ("dry_run", Json::Bool(false))])).unwrap();
    assert!(c.apply);
    assert!(!c.prune);
    let d = clean_args(&obj(vec![("bib_file", s("x.bib"))])).unwrap();
    assert!(!d.apply);
}

#[test]
fn mcp_path_checks() {
    assert!(path_within("/home/u/proj/refs.bib", "/home/u/proj"));
    assert!(path_within("/home/u/proj", "/home/u/proj"));
    assert!(!path_within("/home/u/project2/x", "/home/u/proj"));
    assert!(!path_within("/etc/passwd", "/home/u/proj"));
    assert!(!path_within("home/u/proj/x", "/home/u/proj"));
    assert!(has_bib_extension("/a/refs.bib"));
    assert!(has_bib_extension("/a/x.tar.bib"));
    assert!(!has_bib_extension("/a/Cargo.toml"));
    assert!(!has_bib_extension("/a/.bib"));
    assert!(!has_bib_extension("/"));
    assert_eq!(check_bib_extension("r.bib", "/a/r.bib".to_string()), Ok("/a/r.bib".to_string()));
    let e = check_bib_extension("Cargo.toml", "/a/Cargo.toml".to_string()).unwrap_err();
    assert!(e.contains(".bib extension"));
    assert_eq!(outside_cwd_error("test", "/etc/passwd"), "test: path '/etc/passwd' resolves outside working directory");
    assert_eq!(no_ancestor_error("bib_file", "x"), "bib_file: no existing ancestor for path 'x'");
}

#[test]
fn mcp_search_schema_in_full() {
    let defs = tool_definitions();
    let search = &tools(&defs)[0];
    let props = member(member(search, "inputSchema").unwrap(), "properties").unwrap();
    assert_eq!(keys_of(Some(props)), vec!["query", "limit", "remote", "brief"]);
    assert_eq!(as_str(member(member(props, "limit").unwrap(), "type")), Some("integer"));
    assert_eq!(as_str(member(member(props, "query").unwrap(), "type")), Some("string"));
    let misc = &tools(&defs)[7];
    let mp = member(member(misc, "inputSchema").unwrap(), "properties").unwrap();
    let authors = member(mp, "authors").unwrap();
    assert_eq!(as_str(member(authors, "type")), Some("array"));
    assert_eq!(as_str(member(member(authors, "items").unwrap(), "type")), Some("string"));
    assert!(member(member(mp, "citekey").unwrap(), "description").is_none());
}

#[test]
fn mcp_check_bib_file_and_tex_dir() {
    let cwd = "/home/u/proj";
    assert_eq!(check_bib_file("refs.bib", "/home/u/proj/refs.bib".to_string(), cwd), Ok("/home/u/proj/refs.bib".to_string()));
    assert_eq!(
        check_bib_file("/tmp/x.bib", "/tmp/x.bib".to_string(), cwd),
        Err("bib_file: path '/tmp/x.bib' resolves outside working directory".to_string())
    );
    assert_eq!(
        check_bib_file("Cargo.toml", "/home/u/proj/Cargo.toml".to_string(), cwd),
        Err("bib_file: 'Cargo.toml' does not have .bib extension".to_string())
    );
    assert_eq!(check_tex_dir("src", "/home/u/proj/src".to_string(), cwd), Ok("/home/u/proj/src".to_string()));
    assert_eq!(
        check_tex_dir("/tmp", "/tmp".to_string(), cwd),
        Err("tex_dir: path '/tmp' resolves outside working directory".to_string())
    );
    assert_eq!(check_under_cwd("x", "a", "/home/u/proj/a".to_string(), cwd), Ok("/home/u/proj/a".to_string()));
}
