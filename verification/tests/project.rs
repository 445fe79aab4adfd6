use frama_c_mcp::json::Json;
use frama_c_mcp::options::ProjectLoadOptions;
use frama_c_mcp::parselog::{
    ast_parse_diagnostics, log_location, parse_diagnostics_of_text, parse_log_unavailable,
    tag_bounds, trailing_number, unreadable_parse_log, warning_line_fields,
};
use frama_c_mcp::reload::{
    ast_reload_health, choose_files, eva_value_request, list_functions_payload, loaded_files,
    lookup_position_payload, no_declarations_error, parse_diagnostics, reload_health_error,
    reload_request, reload_response, validate_list, ClientState, EnclosingReply, FileChoice,
    FunctionInfo, ParseRecord, ReloadRefusal, Reloaded,
};
use frama_c_mcp::surface::{
    classify_parse_failure, compile_database_files, database_directory, in_caller_order, parse_surface_limit,
    parse_surface_payload, parse_surface_request, probe_command, probe_output, probe_parse,
    undeclared_name, ParseBlock, ParseProbe, ProbeRun,
};
use frama_c_mcp::types::{
    classify_failure, deserialize_bool_or_string, deserialize_required_vec_or_string,
    deserialize_value_or_string, deserialize_vec_or_string, Detail, FailureType, FindingKind, GhostKind,
    ListKind, ListParams, ParseSurfaceParams, ReloadProjectParams,
};

fn j(s: &str) -> Json {
    Json::parse(s).unwrap()
}

fn v(items: &[&str]) -> Vec<String> {
    items.iter().map(|s| s.to_string()).collect()
}

fn reload_params() -> ReloadProjectParams {
    ReloadProjectParams {
        files: None,
        include_paths: None,
        defines: None,
        force_includes: None,
        isystem_paths: None,
        nostdinc: None,
        machdep: None,
        detail: None,
        rte: None,
        compilation_database: None,
        verify_profile: None,
        verify_profiles: None,
        verify_profiles_source: None,
    }
}

#[test]
fn a_locked_project_is_not_reloaded() {
    assert!(matches!(reload_request(true, reload_params()), Err(ReloadRefusal::Locked)));
    let mut params = reload_params();
    params.defines = Some(v(&["A B"]));
    assert!(matches!(reload_request(false, params), Err(ReloadRefusal::Invalid(_))));
    let mut params = reload_params();
    params.isystem_paths = Some(v(&["sys"]));
    params.nostdinc = Some(true);
    match reload_request(false, params) {
        Ok(request) => {
            assert_eq!(request.options.isystem_paths, v(&["sys"]));
            assert!(request.options.nostdinc);
        }
        Err(_) => panic!("refused"),
    }
    match reload_request(false, reload_params()) {
        Ok(request) => {
            assert!(!request.options.nostdinc && request.options.isystem_paths.is_empty());
            assert!(!request.rte);
            assert!(request.files.is_none());
            assert!(request.detail == Detail::Summary);
        }
        Err(_) => panic!("refused"),
    }
}

#[test]
fn files_come_from_the_call_first() {
    let db = Some("db.json".to_string());
    assert!(matches!(choose_files(Some(v(&["a.c"])), &db, ClientState::Live), FileChoice::Given(f) if f == v(&["a.c"])));
    assert!(matches!(choose_files(None, &db, ClientState::Live), FileChoice::FromDatabase(d) if d == "db.json"));
    assert!(matches!(choose_files(None, &None, ClientState::Live), FileChoice::AskClient));
    assert!(matches!(choose_files(None, &None, ClientState::Absent), FileChoice::NotLoaded));
    assert!(matches!(
        choose_files(None, &None, ClientState::Poisoned { cached: v(&["b.c"]) }),
        FileChoice::Given(f) if f == v(&["b.c"])
    ));
    assert!(matches!(
        choose_files(None, &None, ClientState::Poisoned { cached: vec![] }),
        FileChoice::Poisoned(_)
    ));
    assert_eq!(loaded_files(&j(r#"["a.c",1,"b.c"]"#)), v(&["a.c", "b.c"]));
    assert!(loaded_files(&j("null")).is_empty());
}

#[test]
fn reloads_are_answered() {
    let options = ProjectLoadOptions {
        include_paths: v(&["inc"]),
        isystem_paths: vec![],
        nostdinc: false,
        defines: vec![],
        force_includes: vec![],
        machdep: None,
        compilation_database: None,
    };
    let health = ast_reload_health(&j(r#"["a.c"]"#), &vec![j("{}")], &vec![], &vec![j("{}"), j("{}")], Json::Null);
    assert_eq!(health.nat_at("files_count"), Some(1));
    assert_eq!(health.nat_at("properties_count"), Some(2));
    let done = Reloaded {
        functions: vec![j(r#"{"name":"f","defined":true,"decl":"d"}"#)],
        files: v(&["a.c"]),
        checked: true,
        stale: vec![],
        health,
        messages: Json::list0(),
        messages_truncated: false,
    };
    let answer = reload_response(done, Detail::Summary, true, &options);
    assert_eq!(answer.get("functions").unwrap().to_text(), r#"[{"name":"f","defined":true}]"#);
    assert_eq!(answer.text("detail"), Some("summary"));
    assert_eq!(
        answer.at("source_location_stability", "stale_marker_count").unwrap().as_nat(),
        Some(0)
    );
    let error = reload_health_error("kernel.ast.getFiles", "broken");
    assert!(error.message.contains("kernel.ast.getFiles"));
    assert!(no_declarations_error().message.contains("kernel.ast.getDeclarations"));
}

#[test]
fn warnings_are_read_off_the_parse_log() {
    assert_eq!(
        warning_line_fields("[kernel:typing:no-proto] a.c:3: Warning: odd"),
        Some(("kernel:typing:no-proto".to_string(), "a.c:3".to_string()))
    );
    assert_eq!(warning_line_fields("[kernel:pp] feedback"), None);
    assert_eq!(warning_line_fields("no tag a.c:3: Warning: odd"), None);
    assert_eq!(
        warning_line_fields("src/[dir/a.c:3: [kernel:asm:clobber] Warning: x"),
        Some(("kernel:asm:clobber".to_string(), "src/[dir/a.c:3".to_string()))
    );
    assert_eq!(trailing_number("a.c:3"), Some(("a.c".to_string(), 3)));
    assert_eq!(trailing_number("a.c"), None);
    assert!(log_location("a.c:3", "/w").to_text().contains("/w/a.c"));
    let text = "[kernel:typing:no-proto] a.c:3: Warning: one\n[kernel:typing:no-proto] a.c:4: Warning: two\n";
    let found = parse_diagnostics_of_text(text, "/w");
    let sites = found.at("categories", "kernel:typing:no-proto").unwrap();
    assert_eq!(
        sites.to_text(),
        r#"{"count":2,"count_unit":"sites","locations_omitted":0,"locations":[{"file":"/w/a.c","line":3,"column":null},{"file":"/w/a.c","line":4,"column":null}]}"#
    );
    let bytes = ast_parse_diagnostics(text.as_bytes(), text.len() as u64, "/w");
    assert_eq!(bytes.to_text(), found.to_text());
    assert_eq!(parse_log_unavailable("gone").to_text(), r#"{"unavailable":"gone","categories":{}}"#);
    assert_eq!(
        unreadable_parse_log("/l", "denied").text("unavailable"),
        Some("cannot read the Frama-C stdout log at /l: denied")
    );
    let (record, kept) = parse_diagnostics(ParseRecord::Cached(j("{}")));
    assert_eq!(record.to_text(), "{}");
    assert!(!kept);
    let log = ParseRecord::Log { bytes: text.as_bytes().to_vec(), end: text.len() as u64, cwd: "/w".to_string() };
    let (record, kept) = parse_diagnostics(log);
    assert_eq!(record.to_text(), found.to_text());
    assert!(kept);
}

#[test]
fn positions_are_looked_up() {
    let hit = lookup_position_payload(
        "a.c",
        3,
        5,
        &j(r##""#s12""##),
        vec![],
        &EnclosingReply::Answered(j(r#"{"function":"f"}"#)),
    );
    assert_eq!(
        hit.to_text(),
        r##"{"kind":"position","file":"a.c","line":3,"column":5,"marker":"#s12","marker_kind":"statement","stmt_id":12,"function":"f","function_error":null,"loaded_files":null}"##
    );
    let miss = lookup_position_payload("b.c", 1, 1, &Json::Null, vec![j(r#""a.c""#)], &EnclosingReply::NotAsked);
    assert_eq!(miss.text("marker_kind"), Some("unknown_file"));
    assert_eq!(miss.get("loaded_files").unwrap().to_text(), r#"["a.c"]"#);
    assert_eq!(eva_value_request("m", None).to_text(), r#"{"target":"m"}"#);
    assert_eq!(eva_value_request("m", Some(2)).to_text(), r#"{"target":"m","callstack":2}"#);
}

#[test]
fn lists_are_filtered_by_what_they_hold() {
    let params = |kind: ListKind, status: Option<&str>, function: Option<&str>| ListParams {
        kind,
        status: status.map(str::to_string),
        function: function.map(str::to_string),
    };
    assert!(validate_list(&params(ListKind::Conclusions, Some("verified"), None)).is_ok());
    assert_eq!(
        validate_list(&params(ListKind::Files, Some("verified"), None)).unwrap_err().message,
        "status is only supported for kind=\"conclusions\""
    );
    assert_eq!(
        validate_list(&params(ListKind::Files, None, Some("f"))).unwrap_err().message,
        "function is only supported for kind=\"conclusions\""
    );
    assert_eq!(
        validate_list(&params(ListKind::Conclusions, Some("verified"), Some("f"))).unwrap_err().message,
        "status cannot be combined with function"
    );
    let info = FunctionInfo {
        name: "f".to_string(),
        marker: "#F1".to_string(),
        signature: "int f(void)".to_string(),
        file: None,
        line: Some(3),
        declaration: "d".to_string(),
    };
    assert!(list_functions_payload(&vec![info]).to_text().contains("int f(void)"));
}

#[test]
fn parse_failures_are_named() {
    assert_eq!(undeclared_name("x: Cannot resolve variable foo_1 here"), Some("foo_1".to_string()));
    assert_eq!(undeclared_name("x: Cannot resolve variable  here"), None);
    assert_eq!(undeclared_name("fine"), None);
    assert_eq!(undeclared_name("Cannot resolve variable é"), Some("é".to_string()));
    let none = |n: usize| vec![None; n];
    let block = classify_parse_failure("a\nCannot resolve variable foo\n", &none(2));
    assert_eq!(block.cause, "undeclared_name");
    assert_eq!(block.subject, Some("foo".to_string()));
    let block = classify_parse_failure("fatal: x.h missing\n", &vec![Some("x.h".to_string())]);
    assert_eq!(block.cause, "header_not_found");
    assert_eq!(block.subject, Some("x.h".to_string()));
    assert_eq!(classify_parse_failure("strange\n", &none(1)).cause, "other");
    assert_eq!(
        probe_parse("frama-c", "a.c", &ProbeRun::NotAFile, &vec![]),
        ParseProbe::Blocked(ParseBlock {
            cause: "missing_file",
            subject: None,
            message: "a.c is not a file".to_string()
        })
    );
    assert_eq!(
        probe_parse("frama-c", "a.c", &ProbeRun::TimedOut { seconds: 9 }, &vec![]),
        ParseProbe::Blocked(ParseBlock {
            cause: "timeout",
            subject: None,
            message: "the parse did not finish in 9s".to_string()
        })
    );
    assert_eq!(
        probe_parse("frama-c", "a.c", &ProbeRun::NotStarted { error: "gone".to_string() }, &vec![]),
        ParseProbe::Blocked(ParseBlock {
            cause: "probe_failed",
            subject: None,
            message: "could not run frama-c: gone".to_string()
        })
    );
    let parsed = ProbeRun::Ended { success: true, output: String::new() };
    assert_eq!(probe_parse("frama-c", "a.c", &parsed, &vec![]), ParseProbe::Parsed);
    assert!(probe_output(b"out", b"err").contains("out"));
    assert!(probe_command(&v(&["-x"]), "a.c").contains(&"a.c".to_string()));
}

fn blocked(cause: &'static str, subject: Option<&str>) -> ParseProbe {
    ParseProbe::Blocked(ParseBlock {
        cause,
        subject: subject.map(str::to_string),
        message: "m".to_string(),
    })
}

#[test]
fn every_file_is_counted_once_and_causes_are_ranked() {
    let probed = in_caller_order(vec![
        (2, "c.c".to_string(), blocked("header_not_found", Some("x.h"))),
        (0, "a.c".to_string(), ParseProbe::Parsed),
        (3, "d.c".to_string(), blocked("header_not_found", Some("x.h"))),
        (1, "b.c".to_string(), blocked("undeclared_name", Some("foo"))),
    ]);
    let names: Vec<&str> = probed.iter().map(|p| p.0.as_str()).collect();
    assert_eq!(names, ["a.c", "b.c", "c.c", "d.c"]);
    let report = parse_surface_payload(&probed, true);
    assert_eq!(report.nat_at("files_total"), Some(4));
    assert_eq!(report.nat_at("files_parsed"), Some(1));
    assert_eq!(report.nat_at("files_blocked"), Some(3));
    let groups = report.list("blocked_by").unwrap();
    assert_eq!(groups.len(), 2);
    assert_eq!(groups[0].text("cause"), Some("header_not_found"));
    assert_eq!(groups[0].nat_at("files"), Some(2));
    assert_eq!(report.list("files").unwrap().len(), 4);
    assert!(parse_surface_payload(&probed, false).get("files").is_none());
    assert_eq!(parse_surface_limit(Some(64)), 8);
    assert_eq!(parse_surface_limit(Some(3)), 3);
    assert_eq!(parse_surface_limit(None), 2);
}

#[test]
fn a_surface_needs_files() {
    let params = |files: Option<Vec<String>>| ParseSurfaceParams {
        files,
        include_paths: None,
        defines: None,
        force_includes: None,
        isystem_paths: None,
        nostdinc: None,
        machdep: None,
        detail: None,
    };
    assert!(parse_surface_request(params(None)).is_err());
    assert!(parse_surface_request(params(Some(vec![]))).is_err());
    let (files, _) = parse_surface_request(params(Some(v(&["a.c"])))).unwrap();
    assert_eq!(files, v(&["a.c"]));
}

#[test]
fn compilation_databases_name_files() {
    let text = r#"[{"file":"a.c","directory":"/d"},{"file":"/b.c"},{"file":"a.c","directory":"/d"}]"#;
    assert_eq!(compile_database_files(text, "/w").unwrap(), v(&["/d/a.c", "/b.c"]));
    assert_eq!(
        compile_database_files("{}", "/w").unwrap_err().message,
        "compilation database must be a JSON array"
    );
    assert!(compile_database_files("[", "/w").unwrap_err().message.starts_with("failed to parse compilation database JSON: "));
    assert!(compile_database_files(r#"[{}]"#, "/w").is_err());
    assert_eq!(
        compile_database_files("[]", "/w").unwrap_err().message,
        "compilation database contains no files"
    );
}

#[test]
fn parameters_are_read_leniently() {
    assert_eq!(deserialize_bool_or_string(Some(j("true"))), Ok(Some(true)));
    assert_eq!(deserialize_bool_or_string(Some(j("\"true\""))), Ok(Some(true)));
    assert!(deserialize_bool_or_string(Some(j("\"maybe\""))).is_err());
    assert_eq!(deserialize_bool_or_string(None), Ok(None));
    assert_eq!(deserialize_vec_or_string(Some(j("\"[1,2]\""))).unwrap().unwrap().len(), 2);
    assert_eq!(deserialize_required_vec_or_string(Some(j("[1]"))).unwrap().len(), 1);
    assert_eq!(
        deserialize_value_or_string(Some(j("\"{\\\"a\\\":1}\""))).unwrap().unwrap().to_text(),
        r#"{"a":1}"#
    );
}

#[test]
fn failures_of_injection_are_typed() {
    assert!(classify_failure("Syntax Error near x") == FailureType::SyntaxError);
    assert!(classify_failure("something else") == FailureType::ProposedError);
    assert_eq!(FindingKind::Goals.name(), "goals");
    assert!(GhostKind::from_tag("ghost_global") == Some(GhostKind::GhostGlobal));
    assert!(GhostKind::from_tag("nothing").is_none());
}

#[test]
fn tags_are_found_by_their_bytes() {
    assert_eq!(tag_bounds("[a:b]"), Some((0, 4)));
    let head = "\u{e9} [a:b] x";
    assert_eq!(tag_bounds(head), Some((3, 7)));
    let (open, close) = tag_bounds(head).unwrap();
    assert_eq!(&head[open + 1..close], "a:b");
    let head = "src/[dir/\u{e9}.c:3: [kernel:asm:clobber] ";
    let (open, close) = tag_bounds(head).unwrap();
    assert_eq!(&head[open + 1..close], "kernel:asm:clobber");
    assert_eq!(tag_bounds("[team:api]/a.c:3:"), None);
    assert_eq!(tag_bounds("[ab]"), None);
    assert_eq!(tag_bounds("[a: b]"), None);
    assert_eq!(tag_bounds("[a:b"), None);
    assert_eq!(tag_bounds(""), None);
    assert_eq!(
        warning_line_fields("\u{e9}.c:3: [a:b] Warning: w"),
        Some(("a:b".to_string(), "\u{e9}.c:3".to_string()))
    );
}

#[test]
fn a_database_lies_in_a_directory() {
    for path in [
        "db.json", "a/db.json", "a//b/db.json", "a/b//db.json", "a/./db.json", "a/b/../db.json", "/db.json",
        "//db.json", "/a/db.json/", "./db.json", "././db.json", ".", "..", "", "/", "/.", "a/.", "\u{e9}/db.json",
    ] {
        let expected = match std::path::Path::new(path).parent() {
            Some(above) => above.to_str().unwrap(),
            None => ".",
        };
        assert_eq!(database_directory(path), expected, "{path}");
    }
    assert_eq!(database_directory("a//b/./db.json"), "a//b");
}
