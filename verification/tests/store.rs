use frama_c_mcp::json::Json;
use frama_c_mcp::options::ProjectLoadOptions;
use frama_c_mcp::receipt::{
    canonical_ast_for_digest, contract_snapshot, eva_config_absent, hash_value, incomplete_digest,
    proof_receipt, proof_receipt_ast_digest, proof_receipt_body, proof_receipt_goals,
    proof_receipt_source_files, proof_receipt_with_hash, receipt_shape, receipt_source_path,
    receipt_with_nonce, schema_of, strip_session_scoped, AstPrint, ProofReceiptBody,
    ProofReceiptRequest, ReceiptFacts, SourceRead,
};
use frama_c_mcp::sandbox::{
    choose_experiment_id, create_sandbox_payload, deleted_experiment, deleted_function, extraction_of,
    find_record, known_sandboxes, main_status, new_sandbox_metadata, process_diagnostics_payload,
    process_metadata_payload, require_sandbox_room, sandbox_list_entry, sandbox_list_payload,
    sandbox_process_metadata, stderr_tail, FunctionVerificationState, NewSandbox, SandboxMetadata,
    SandboxRegistry,
};
use frama_c_mcp::session::{
    answer_for, apply_wp_config, collect_loop_sids, compute_status, conclusion_status_name, decl_marker,
    decl_markers, drain_batch, drain_budget_seconds, drain_wp_step, ensure_main_spawned, is_diagnostic_message, json_result,
    main_frama_c_command_line, main_socket_path, needs_respawn, next_backoff, parse_conclusion_status,
    parse_plugin_error, parse_plugin_success, profile_conflict, report_function, run_plan,
    sandbox_connect_failure,
    sandbox_frama_c_command_line, sandbox_targets, scope_for_function, source_excerpt,
    wp_pending_task_count, ConfigStep, DrainState, DrainStep, FunctionScope, LoadOutcome, MainInstance,
    MainSession, RunPlan, VerificationStatus, CANCEL_IN_SANDBOX, PROFILE_IN_SANDBOX, PROFILE_OVERRIDDEN,
    SMOKE_WITHOUT_PROVERS,
};
use frama_c_mcp::store::{
    conclusion_base_dir, conclusion_dir, conclusion_summaries, ensure_private_dir, ensure_private_root, expected_sandbox_dir,
    full_conclusion, has_expected_sandbox_paths, is_safe_path_segment, is_writer_debris, lexical_output_path,
    load_conclusion, load_conclusions_from_disk, load_sandbox_metadata_from_disk,
    mark_sandbox_metadata_deleted, persist_conclusion, persist_program_state, private_root_path,
    read_long_texts_as_json, remember_sandbox_metadata, require_safe_path_segment, resolve_output_path,
    resolve_output_path_in, sandbox_metadata_file, Ancestor, DirFound, DirStep, FoundConclusion,
    ListedConclusion, LongTextFiles, LongTexts, StatePlace,
};
use frama_c_mcp::types::{FailureType, InjectionFailure, RunWpParams};
use frama_c_mcp::wpconfig::WpEnvironment;
use frama_c_mcp::wpmodel::WpModelSupport;

fn j(s: &str) -> Json {
    Json::parse(s).unwrap()
}

fn v(items: &[&str]) -> Vec<String> {
    items.iter().map(|s| s.to_string()).collect()
}

fn no_options() -> ProjectLoadOptions {
    ProjectLoadOptions {
        include_paths: vec![],
        isystem_paths: vec![],
        nostdinc: false,
        defines: vec![],
        force_includes: vec![],
        machdep: None,
        compilation_database: None,
    }
}

fn place() -> StatePlace {
    StatePlace { cwd: "/work".to_string(), base_dir: ".frama-c-mcp".to_string(), user: 7 }
}

fn sandbox(id: &str) -> SandboxMetadata {
    let dir = expected_sandbox_dir(&place(), id);
    SandboxMetadata {
        experiment_id: id.to_string(),
        original_function: format!("f_{id}"),
        sandbox_socket: format!("{dir}/frama-c.sock"),
        sandbox_dir: dir,
        sandbox_pid: 42,
        declaration_marker: "#F1".to_string(),
        created_at: "t0".to_string(),
        last_activity: "t0".to_string(),
        deleted: false,
        command_line: v(&["frama-c"]),
        startup_stderr_tail: Some("start".to_string()),
        stdout_log_path: None,
        stderr_log_path: None,
    }
}

fn ids(list: &[SandboxMetadata]) -> Vec<String> {
    list.iter().map(|m| m.experiment_id.clone()).collect()
}

#[test]
fn segments_are_checked() {
    for good in ["a", "A-b_9", &"x".repeat(128)] {
        assert!(is_safe_path_segment(good));
    }
    for bad in ["", ".", "..", "a/b", "a.b", "a b", "é", &"x".repeat(129)] {
        assert!(!is_safe_path_segment(bad), "{bad}");
    }
    let error = require_safe_path_segment("../x", "experiment_id").unwrap_err();
    assert_eq!(
        error.message,
        "experiment_id must be 1-128 characters of [A-Za-z0-9_-]; it becomes a directory name"
    );
    assert_eq!(
        error.data.unwrap().to_text(),
        r#"{"kind":"UnsafePathSegment","field":"experiment_id","value":"../x"}"#
    );
}

#[test]
fn output_stays_below_the_root() {
    let real = |p: &str| Ancestor::Real(p.to_string());
    assert_eq!(resolve_output_path_in("/w", "out/a.c", &real("/w")).unwrap(), "/w/out/a.c");
    assert_eq!(resolve_output_path_in("/w", "./x/../a.c", &real("/w")).unwrap(), "/w/a.c");
    assert_eq!(resolve_output_path_in("/w", "/w/a.c", &real("/w")).unwrap(), "/w/a.c");
    assert_eq!(lexical_output_path("/w", "a//b").unwrap(), "/w/a/b");
    for (path, reason) in [
        ("/tmp/pwned.c", "resolved outside it"),
        ("../w2/a.c", "resolved outside it"),
        ("../../../../x", "path climbs above the filesystem root"),
    ] {
        let error = resolve_output_path_in("/w", path, &real("/w")).unwrap_err();
        assert_eq!(
            error.message,
            format!("output must stay inside the working directory: {reason}")
        );
        let data = error.data.unwrap();
        assert_eq!(data.text("kind"), Some("OutputPathOutsideWorkingDirectory"));
        assert_eq!(data.text("output"), Some(path));
    }
    assert!(resolve_output_path_in("/w", "link/a.c", &real("/elsewhere"))
        .unwrap_err()
        .message
        .ends_with("a symlink on the path leaves the working directory"));
    assert!(resolve_output_path_in("/w", "a.c", &Ancestor::Missing)
        .unwrap_err()
        .message
        .ends_with("no existing ancestor to check"));
    let unresolved = Ancestor::Unresolved { path: "/w".to_string(), error: "denied".to_string() };
    assert!(resolve_output_path_in("/w", "a.c", &unresolved)
        .unwrap_err()
        .message
        .ends_with("cannot resolve /w: denied"));
    assert_eq!(
        resolve_output_path(&Err("gone".to_string()), "a.c", &Ancestor::Missing).unwrap_err().message,
        "output must stay inside the working directory: cannot read it: gone"
    );
    assert_eq!(
        resolve_output_path(&Ok("/w".to_string()), "a.c", &real("/w")).unwrap(),
        "/w/a.c"
    );
}

#[test]
fn conclusions_are_kept_in_files() {
    assert_eq!(conclusion_base_dir(None), ".frama-c-mcp");
    assert_eq!(conclusion_dir(Some("/s"), "f"), "/s/f");
    let none = LongTextFiles { semantic_proof: false, semiformal_proof: false, program_summary: false };
    let file = persist_conclusion(Some("/s"), "f", j(r#"{"a":1}"#), &none).unwrap();
    assert_eq!(file.path, "/s/f/meta.json");
    assert_eq!(file.text, "{\n  \"a\": 1\n}");
    let some = LongTextFiles { semantic_proof: true, semiformal_proof: false, program_summary: true };
    let file = persist_conclusion(None, "f", j(r#"{"a":1}"#), &some).unwrap();
    assert_eq!(file.path, ".frama-c-mcp/f/meta.json");
    let meta = j(&file.text);
    assert_eq!(
        meta.at("_long_text_files", "files").unwrap().to_text(),
        r#"["semantic_proof.md","program_summary.md"]"#
    );
    match persist_conclusion(None, "../f", j("{}"), &none) {
        Err(e) => assert_eq!(e, "unsafe function name for a conclusion directory: \"../f\""),
        Ok(_) => panic!("written"),
    }
    assert_eq!(persist_program_state(Some("/s"), &j("{}")).path, "/s/_program.json");
    let texts = LongTexts { semantic_proof: Some("p".to_string()), semiformal_proof: None, program_summary: None };
    assert_eq!(
        read_long_texts_as_json(&texts).to_text(),
        r#"{"semantic_proof":"p","semiformal_proof":""}"#
    );
}

#[test]
fn debris_is_ours_and_old() {
    assert!(is_writer_debris(".frama-c-mcp-write-x.json", 3600, 1));
    assert!(is_writer_debris(".frama-c-mcp-write-x.json", 4000, 0));
    assert!(!is_writer_debris(".frama-c-mcp-write-x.json", 3600, 0));
    assert!(!is_writer_debris("meta.json", 9999, 0));
}

fn receipt() -> Json {
    let body = ProofReceiptBody {
        tool: "check".to_string(),
        source_files: vec![],
        ast_digest: Json::str("d"),
        ast_digest_unavailable_reason: Json::Null,
        contracts: Json::object(),
        environment: Json::object(),
        wp_config: Json::object(),
        eva_config: Json::object(),
        goals: vec![],
        goals_status_source: "s".to_string(),
        reported: Json::object(),
    };
    proof_receipt_with_hash(proof_receipt_body(body))
}

fn state(status: VerificationStatus, receipt: Option<Json>) -> FunctionVerificationState {
    FunctionVerificationState {
        status,
        proof_receipt: receipt,
        sandbox_clean: false,
        annotation_count: 3,
        ast_stmt_count: Some(9),
        wp_summary: None,
    }
}

#[test]
fn verified_rests_on_a_receipt() {
    let (kept, lost) = load_conclusion(state(VerificationStatus::Verified, Some(receipt())));
    assert!(kept.status == VerificationStatus::Verified && !lost);
    let (kept, lost) = load_conclusion(state(VerificationStatus::Verified, None));
    assert!(kept.status == VerificationStatus::InProgress && lost);
    assert_eq!(kept.annotation_count, 3);
    let other = receipt().with("extra", Json::Null);
    let (kept, lost) = load_conclusion(state(VerificationStatus::Verified, Some(other)));
    assert!(kept.status == VerificationStatus::InProgress && kept.proof_receipt.is_none() && lost);
    let (kept, lost) = load_conclusion(state(VerificationStatus::Failed, None));
    assert!(kept.status == VerificationStatus::Failed && !lost);
    let loaded = load_conclusions_from_disk(vec![
        FoundConclusion { name: Some("f".to_string()), conclusion: Some(state(VerificationStatus::Failed, None)) },
        FoundConclusion { name: Some("../g".to_string()), conclusion: Some(state(VerificationStatus::Failed, None)) },
        FoundConclusion { name: Some("h".to_string()), conclusion: None },
        FoundConclusion { name: None, conclusion: Some(state(VerificationStatus::Failed, None)) },
    ]);
    assert_eq!(loaded.len(), 1);
    assert_eq!(loaded[0].name, "f");
    assert!(!loaded[0].downgraded);
    let loaded = load_conclusions_from_disk(vec![
        FoundConclusion { name: Some("f".to_string()), conclusion: Some(state(VerificationStatus::Verified, None)) },
        FoundConclusion { name: Some("g".to_string()), conclusion: Some(state(VerificationStatus::Verified, Some(receipt()))) },
    ]);
    assert!(loaded[0].downgraded && loaded[0].conclusion.status == VerificationStatus::InProgress);
    assert!(!loaded[1].downgraded && loaded[1].conclusion.status == VerificationStatus::Verified);
}

#[test]
fn receipts_have_one_shape_and_carry_their_hash() {
    let r = receipt();
    assert_eq!(schema_of(&r), receipt_shape());
    assert_eq!(receipt_shape().len(), 12);
    let hash = r.text("sha256").unwrap().to_string();
    assert_eq!(hash_value(&r.without("sha256")), hash);
    let drawn = ProofReceiptBody {
        tool: "check".to_string(),
        source_files: vec![],
        ast_digest: Json::Null,
        ast_digest_unavailable_reason: Json::str("no_client"),
        contracts: Json::object(),
        environment: Json::object(),
        wp_config: Json::object(),
        eva_config: Json::object(),
        goals: vec![],
        goals_status_source: "s".to_string(),
        reported: Json::object(),
    };
    let body = proof_receipt_body(drawn);
    let nonce = body.at("subject", "ast_digest_unavailable_nonce").unwrap().as_text().unwrap();
    assert_eq!(nonce.len(), 16);
    assert_eq!(eva_config_absent("x").to_text(), r#"{"ran":false,"reason":"x"}"#);
}

#[test]
fn receipts_of_programs_not_printed_do_not_agree() {
    let body = || ProofReceiptBody {
        tool: "check".to_string(),
        source_files: vec![],
        ast_digest: Json::Null,
        ast_digest_unavailable_reason: Json::str("no_client"),
        contracts: Json::object(),
        environment: Json::object(),
        wp_config: Json::object(),
        eva_config: Json::object(),
        goals: vec![],
        goals_status_source: "s".to_string(),
        reported: Json::object(),
    };
    let with = |nonce: &str| proof_receipt_with_hash(receipt_with_nonce(body(), Some(nonce.to_string())));
    assert_eq!(with("a").to_text(), with("a").to_text());
    assert_ne!(with("a").text("sha256"), with("b").text("sha256"));
    assert_ne!(proof_receipt_body(body()).to_text(), proof_receipt_body(body()).to_text());
}

#[test]
fn a_receipt_is_put_together() {
    let goals = vec![j(r#"{"name":"b","status":"Valid","fct":"f"}"#), j(r#"{"name":"a","status":"Valid","fct":"f"}"#)];
    let properties = Json::object();
    let request = ProofReceiptRequest {
        tool: "run_wp",
        source_files: vec![
            ("/w/b.c".to_string(), SourceRead::Bytes(b"int b;".to_vec())),
            ("/w/a.c".to_string(), SourceRead::Failed("gone".to_string())),
        ],
        wp_config: j("{}"),
        eva_config: j("{}"),
        goals: &goals,
        stable_scope: None,
        goals_status_source: "wp_fetch_goals",
        reported: j("{}"),
        properties: &properties,
    };
    let facts = ReceiptFacts {
        frama_c_version: j("1"),
        why3_provers: j("2"),
        opam_switch: j("3"),
        contracts: j("{}"),
        ast_digest: Json::str("d"),
        ast_digest_unavailable_reason: Json::Null,
    };
    let r = proof_receipt(request, facts, "/tmp/scratch-");
    assert_eq!(r.get("environment").unwrap().to_text(), r#"{"frama_c_version":1,"why3_provers":2,"opam_switch":3}"#);
    assert_eq!(r.list("goals").unwrap().len(), 2);
    assert_eq!(r.at("subject", "files").unwrap().as_list().unwrap().len(), 2);
    assert_eq!(schema_of(&r), receipt_shape());
    assert_eq!(proof_receipt_goals(&goals, None, &properties).len(), 2);
    assert!(proof_receipt_source_files(&vec![], "x").is_empty());
    assert_eq!(receipt_source_path("/w/a.c", "x"), "/w/a.c");
    assert_eq!(receipt_source_path("/t/check-1/a.c", "check-"), "a.c");
}

#[test]
fn digests_forget_what_a_session_made_up() {
    assert_eq!(
        canonical_ast_for_digest("/*@ ensures en_0123abcd_mine: x; */"),
        "/*@ ensures an_00000000: x; */"
    );
    assert_eq!(canonical_ast_for_digest("en_0123abcd"), "en_0123abcd");
    let a = proof_receipt_ast_digest(&AstPrint::Printed("re_00000001: p".to_string()));
    let b = proof_receipt_ast_digest(&AstPrint::Printed("re_00000002: p".to_string()));
    assert_eq!(a.0.to_text(), b.0.to_text());
    assert!(proof_receipt_ast_digest(&AstPrint::NoClient).0.is_null());
    assert_eq!(proof_receipt_ast_digest(&AstPrint::NoClient).1.to_text(), "\"no_client\"");
    assert_eq!(
        proof_receipt_ast_digest(&AstPrint::Failed("x".to_string())).1.to_text(),
        "\"request_failed: x\""
    );
    assert_eq!(
        strip_session_scoped(&j(r##"{"a":[{"property":"#p1","b":2}],"kinstr_marker":"#k"}"##)).to_text(),
        r#"{"a":[{"b":2}]}"#
    );
    let gaps = |a: &str, b: &str| j(&format!(r#"[{{"code":"{a}"}},{{"code":"{b}"}}]"#));
    assert_eq!(
        incomplete_digest(&gaps("A", "B")).to_text(),
        incomplete_digest(&gaps("B", "A")).to_text()
    );
    assert!(contract_snapshot(&j("{}")).is_none());
}

#[test]
fn sandboxes_are_recorded_and_read_back() {
    assert_eq!(private_root_path(7), "/tmp/fcmcp-7");
    let dir = expected_sandbox_dir(&place(), "e1");
    assert!(dir.starts_with("/tmp/fcmcp-7/sb-") && dir.ends_with("-e1"));
    assert_eq!(dir.len(), "/tmp/fcmcp-7/sb-".len() + 8 + "-e1".len());
    let spelled = StatePlace { cwd: "/work/".to_string(), base_dir: "./.frama-c-mcp/".to_string(), user: 7 };
    assert_eq!(expected_sandbox_dir(&spelled, "e1"), dir);
    assert!(has_expected_sandbox_paths(&place(), &sandbox("e1")));
    let kept = remember_sandbox_metadata(&place(), Some(vec![sandbox("c"), sandbox("a")]), &sandbox("b"));
    assert_eq!(ids(&kept), v(&["a", "b", "c"]));
    let mut again = sandbox("b");
    again.sandbox_pid = 99;
    let kept = remember_sandbox_metadata(&place(), Some(kept), &again);
    assert_eq!(ids(&kept), v(&["a", "b", "c"]));
    assert_eq!(kept[1].sandbox_pid, 99);
    let marked = mark_sandbox_metadata_deleted(&place(), Some(kept), "b");
    assert_eq!(marked.iter().map(|m| m.deleted).collect::<Vec<_>>(), [false, true, false]);
    let mut elsewhere = sandbox("x");
    elsewhere.sandbox_dir = "/home".to_string();
    let read = load_sandbox_metadata_from_disk(&place(), Some(vec![elsewhere, sandbox("y")]));
    assert_eq!(ids(&read), v(&["y"]));
    assert!(load_sandbox_metadata_from_disk(&place(), None).is_empty());
    assert_eq!(sandbox_metadata_file("/s"), "/s/sandboxes.json");
}

#[test]
fn private_directories_are_private() {
    let found = |is_symlink, is_dir, owner, mode| DirFound::Found { is_symlink, is_dir, owner, mode };
    assert!(matches!(ensure_private_dir("/d", &found(false, true, 7, 0o40700), 7), DirStep::Keep));
    assert!(matches!(ensure_private_dir("/d", &DirFound::Nothing, 7), DirStep::Create));
    for (what, why) in [
        (found(true, true, 7, 0o700), "/d is a symlink, so it names someone else's directory"),
        (found(false, false, 7, 0o700), "/d exists and is not a directory"),
        (found(false, true, 8, 0o700), "/d is owned by another user"),
        (found(false, true, 7, 0o750), "/d is readable or writable by others"),
        (DirFound::Failed("denied".to_string()), "denied"),
    ] {
        match ensure_private_dir("/d", &what, 7) {
            DirStep::Refuse(reason) => assert_eq!(reason, why),
            _ => panic!("{why}"),
        }
    }
    assert_eq!(ensure_private_root(7, &DirFound::Nothing, 7).0, "/tmp/fcmcp-7");
}

#[test]
fn the_registry_holds_each_experiment_once() {
    let mut registry = SandboxRegistry::new();
    assert_eq!(registry.len(), 0);
    registry.insert(sandbox("a"));
    registry.insert(sandbox("b"));
    let mut again = sandbox("a");
    again.sandbox_pid = 5;
    registry.insert(again);
    assert_eq!(registry.len(), 2);
    assert_eq!(registry.metadata("a").unwrap().sandbox_pid, 5);
    assert!(registry.metadata("c").is_none());
    let mut keys = registry.keys();
    keys.sort();
    assert_eq!(keys, v(&["a", "b"]));
    assert_eq!(registry.metadata_list().len(), 2);
    assert_eq!(registry.remove("a").unwrap().sandbox_pid, 5);
    assert!(registry.remove("a").is_none());
    assert_eq!(deleted_function(&registry, &vec![], "b"), Some("f_b".to_string()));
    assert_eq!(deleted_function(&registry, &vec![sandbox("z")], "z"), Some("f_z".to_string()));
    assert_eq!(deleted_function(&registry, &vec![], "z"), None);
    assert_eq!(registry.drain().len(), 1);
    assert_eq!(registry.len(), 0);
}

#[test]
fn sandboxes_are_listed_in_order() {
    let known = known_sandboxes(&vec![sandbox("b")], &vec![sandbox("b"), sandbox("a")]);
    assert_eq!(known.iter().map(|k| (k.0.experiment_id.as_str(), k.1)).collect::<Vec<_>>(), [("b", true), ("a", false)]);
    let conclusion = state(VerificationStatus::Failed, None);
    let process = sandbox_process_metadata(&known[1].0, false);
    assert_eq!(process.status, "unknown");
    let tail = stderr_tail(&process, &Some(String::new()));
    assert_eq!(tail, "start");
    assert_eq!(stderr_tail(&process, &Some("log".to_string())), "log");
    let payload = process_metadata_payload(&process, &tail, Json::list0());
    assert_eq!(payload.flag("running"), Some(false));
    assert_eq!(payload.text("startup_stderr_tail"), Some("start"));
    let stale = sandbox_list_entry(&known[1].0, Some(&conclusion), false, true, payload);
    assert_eq!(stale.text("sandbox_name"), Some("a:f_a"));
    assert_eq!(stale.text("runtime_status"), Some("stale"));
    assert_eq!(stale.flag("recoverable"), Some(true));
    assert_eq!(stale.flag("process_alive"), Some(true));
    assert_eq!(stale.flag("clean"), Some(false));
    assert_eq!(stale.nat_at("ast_stmt_count"), Some(9));
    let live = sandbox_list_entry(&known[0].0, None, true, true, Json::Null);
    assert_eq!(live.text("runtime_status"), Some("live"));
    assert_eq!(live.flag("clean"), Some(true));
    let list = sandbox_list_payload(vec![live, stale], 4);
    assert_eq!(list.nat_at("count"), Some(2));
    assert_eq!(list.list("sandboxes").unwrap()[0].text("experiment_id"), Some("a"));
    assert_eq!(main_status(&None), "running");
    assert_eq!(
        process_diagnostics_payload(None, "frama-c", 2).to_text(),
        r#"{"main":{"status":"not_started","frama_c_path":"frama-c"},"sandbox_count":2}"#
    );
}

#[test]
fn a_sandbox_is_made_where_there_is_room() {
    assert!(require_sandbox_room(1, 2).is_ok());
    assert_eq!(
        require_sandbox_room(2, 2).unwrap_err().message,
        "sandbox limit 2 reached; delete a sandbox or raise --max-sandboxes"
    );
    let failed = match extraction_of(&j(r#"{"success":false,"error":"E"}"#)) {
        Err(e) => e,
        Ok(_) => panic!("extracted"),
    };
    assert_eq!(failed.message, "extract failed: E");
    let empty = match extraction_of(&j(r#"{"success":true}"#)) {
        Err(e) => e,
        Ok(_) => panic!("extracted"),
    };
    assert_eq!(empty.message, "extract returned no source");
    let extraction = match extraction_of(&j(r#"{"success":true,"source":"int f;","sids":[1,2],"extraction_report":{"a":1}}"#)) {
        Ok(e) => e,
        Err(e) => panic!("{}", e.message),
    };
    assert_eq!(extraction.ast_stmt_count, Some(2));
    assert_eq!(
        create_sandbox_payload("e1", "f", extraction).to_text(),
        r#"{"sandbox_name":"e1:f","experiment_id":"e1","ast_stmt_count":2,"extraction_report":{"a":1},"logic_dependencies":{}}"#
    );
    let drawn = choose_experiment_id(Some("  "), &vec![], &vec![]).unwrap();
    assert_eq!(drawn.len(), 12);
    assert_eq!(choose_experiment_id(Some(" e1 "), &vec![], &vec![]).unwrap(), "e1");
    assert!(choose_experiment_id(Some("a/b"), &vec![], &vec![]).is_err());
    let mut deleted = sandbox("e2");
    deleted.deleted = true;
    let known = vec![(sandbox("e1"), false), (deleted, false), (sandbox("e3"), true)];
    assert!(choose_experiment_id(Some("e1"), &known, &vec![false, true, false]).is_ok());
    assert_eq!(
        choose_experiment_id(Some("e1"), &known, &vec![true, true, false]).unwrap_err().message,
        "experiment_id 'e1' already in use; delete it with delete_sandbox or pick a different ID"
    );
    assert!(choose_experiment_id(Some("e2"), &known, &vec![true, true, true]).is_ok());
    assert!(choose_experiment_id(Some("e3"), &known, &vec![false, false, false]).is_err());
    let new = NewSandbox {
        experiment_id: "e1".to_string(),
        function: "f".to_string(),
        sandbox_dir: expected_sandbox_dir(&place(), "e1"),
        sandbox_pid: 1,
        now: "t".to_string(),
        command_line: vec![],
        startup_tail: String::new(),
    };
    let record = new_sandbox_metadata(&new, &vec![j(r##"{"name":"f"}"##), j(r##"{"name":"f","decl":"#F2"}"##)]);
    assert_eq!(record.declaration_marker, "#F2");
    assert!(has_expected_sandbox_paths(&place(), &record));
    assert!(find_record(&vec![record], "e1").is_some());
}

#[test]
fn names_mean_their_sandboxes() {
    assert!(matches!(scope_for_function("f"), FunctionScope::Main(f) if f == "f"));
    match scope_for_function("e1:a::b") {
        FunctionScope::Sandbox { experiment_id, function } => {
            assert_eq!((experiment_id.as_str(), function.as_str()), ("e1", "a::b"));
        }
        FunctionScope::Main(_) => panic!("main"),
    }
    assert_eq!(deleted_experiment("e1:f"), "e1");
    assert_eq!(deleted_experiment("e1"), "e1");
    assert_eq!(
        sandbox_targets(&Some(v(&["e1:f", "e1:g"]))).unwrap(),
        ("e1".to_string(), v(&["f", "g"]))
    );
    for (names, message) in [
        (None, "functions required for sandbox WP"),
        (Some(v(&["f"])), "sandbox WP needs a sandbox-prefixed name like exp42:foo"),
        (Some(v(&["e1:f", "e2:g"])), "function 'e2:g' belongs to sandbox 'e2', expected 'e1'"),
        (Some(v(&["e1:f", "g"])), "function 'g' must include experiment_id prefix"),
    ] {
        assert_eq!(sandbox_targets(&names).unwrap_err().message, message);
    }
    let functions = vec![j(r#"{"name":"f","decl":"d1"}"#), j(r#"{"name":"g"}"#)];
    assert_eq!(decl_marker(&functions, "f"), Some("d1".to_string()));
    assert_eq!(decl_markers(&functions, &v(&["f"])), Ok(v(&["d1"])));
    assert_eq!(decl_markers(&functions, &v(&["f", "g"])), Err("g".to_string()));
    assert_eq!(report_function(&v(&["e:f"]), &v(&["f"])), Some("f".to_string()));
    assert_eq!(report_function(&v(&["e:f", "e:g"]), &v(&["f", "g"])), None);
}

#[test]
fn the_next_load_recovers() {
    let instance = |poisoned: bool, rte: bool| MainInstance {
        poisoned,
        with_rte: rte,
        project_options: no_options(),
        files: v(&["old.c"]),
    };
    assert!(needs_respawn(&None, false, &no_options(), false));
    assert!(!needs_respawn(&Some(instance(false, false)), false, &no_options(), false));
    assert!(needs_respawn(&Some(instance(true, false)), false, &no_options(), false));
    assert!(needs_respawn(&Some(instance(false, true)), false, &no_options(), false));
    assert!(needs_respawn(&Some(instance(false, false)), false, &no_options(), true));
    let mut other = no_options();
    other.machdep = Some("x86_64".to_string());
    assert!(needs_respawn(&Some(instance(false, false)), false, &other, false));
    let mut other = no_options();
    other.nostdinc = true;
    assert!(needs_respawn(&Some(instance(false, false)), false, &other, false));
    let mut other = no_options();
    other.isystem_paths = v(&["sys"]);
    assert!(needs_respawn(&Some(instance(false, false)), false, &other, false));
    let start = |outcome| {
        ensure_main_spawned(
            MainSession { instance: Some(instance(false, false)), project_loaded: true },
            v(&["new.c"]),
            false,
            no_options(),
            outcome,
        )
    };
    let failed = start(LoadOutcome::ReloadFailed);
    assert!(!failed.project_loaded);
    assert!(needs_respawn(&failed.instance, false, &no_options(), false));
    let done = start(LoadOutcome::Reloaded);
    assert_eq!(done.instance.as_ref().unwrap().files, v(&["new.c"]));
    let same = start(LoadOutcome::SpawnFailed);
    assert!(same.project_loaded);
    assert_eq!(same.instance.as_ref().unwrap().files, v(&["old.c"]));
    let fresh = start(LoadOutcome::Respawned);
    assert_eq!(fresh.instance.as_ref().unwrap().files, v(&["new.c"]));
    assert_eq!(main_socket_path(12, 3), "/tmp/frama-c-mcp-12-3.sock");
    assert_eq!(
        sandbox_connect_failure("r", "p", "f", "t").message,
        "sandbox connect failed: r\nbinary: p\nsandbox_file: f\noutput (last 20 lines):\nt"
    );
}

#[test]
fn frama_c_is_called() {
    let mut options = no_options();
    options.machdep = Some("x86_64".to_string());
    assert_eq!(
        main_frama_c_command_line("frama-c", &v(&["a.c"]), true, &options, "/s", "alt-ergo"),
        v(&[
            "frama-c", "-machdep", "x86_64", "a.c", "-load-module", "ast_utils_plugin", "-server-socket", "/s",
            "-wp-prover", "alt-ergo", "-wp-model", "Typed+nocast", "-rte"
        ])
    );
    assert_eq!(
        sandbox_frama_c_command_line("frama-c", "s.c", "/s", "alt-ergo"),
        v(&[
            "frama-c", "s.c", "-rte", "-keep-unused-functions", "all", "-keep-unused-types", "-server-socket", "/s",
            "-wp-prover", "alt-ergo", "-wp-model", "Typed+nocast", "-kernel-warn-key", "annot-error=feedback"
        ])
    );
}

fn run_params() -> RunWpParams {
    RunWpParams {
        functions: None,
        prover: None,
        provers: None,
        timeout: Some(5),
        par: Some(2),
        model: None,
        prop: Some("p".to_string()),
        smoke: None,
        cache: None,
        cancel: None,
        drain_timeout_seconds: None,
        retry_unproved: None,
        verify_profile: None,
    }
}

#[test]
fn a_proof_is_set_up_step_by_step() {
    let env = WpEnvironment { provers: None, timeout: None, par: None };
    let support = WpModelSupport { bases: v(&["Typed"]), modifiers: v(&["nocast"]), source: "x" };
    let steps = apply_wp_config(&run_params(), &Some(v(&["z3"])), &env, &support);
    assert_eq!(steps.len(), 4);
    assert!(matches!(&steps[0], ConfigStep::SelectProvers(p) if *p == v(&["z3"])));
    assert!(matches!(&steps[1], ConfigStep::Put { request: "plugins.wp.setTimeout", data } if data.as_nat() == Some(5)));
    assert!(matches!(&steps[2], ConfigStep::Put { request: "plugins.wp.setCacheMode", data } if data.as_text() == Some("Update")));
    match &steps[3] {
        ConfigStep::Exec { request, data } => {
            assert_eq!(*request, "plugins.ast-utils.execSetWpConfig");
            assert_eq!(data.to_text(), r#"{"model":"Typed+nocast","prop":"p","par":2}"#);
        }
        _ => panic!("no setup"),
    }
    let mut bad = run_params();
    bad.model = Some("Bogus".to_string());
    let steps = apply_wp_config(&bad, &None, &env, &support);
    assert_eq!(steps.len(), 3);
    assert!(matches!(&steps[2], ConfigStep::Fail(_)));
}

#[test]
fn messages_are_drained() {
    assert!(is_diagnostic_message(&j(r#"{"kind":"WARNING"}"#)));
    assert!(!is_diagnostic_message(&j(r#"{"kind":"FEEDBACK"}"#)));
    let mut messages = vec![];
    let batch = Some(j(r#"[{"kind":"ERROR"},{"kind":"RESULT"}]"#));
    assert!(drain_batch(&mut messages, &batch, 0) == DrainState::Complete);
    assert_eq!(messages.len(), 1);
    assert!(drain_batch(&mut messages, &None, 0) == DrainState::Truncated);
    assert!(drain_batch(&mut messages, &Some(Json::Null), 0) == DrainState::Truncated);
    let full = Some(Json::array((0..100).map(|_| j(r#"{"kind":"ERROR"}"#)).collect()));
    assert!(drain_batch(&mut messages, &full, 18) == DrainState::More);
    assert!(drain_batch(&mut messages, &full, 19) == DrainState::Truncated);
    assert_eq!(messages.len(), 201);
}

#[test]
fn proofs_are_waited_for() {
    assert_eq!(wp_pending_task_count(&j(r#"{"todo":2,"active":1}"#)), Some(3));
    assert_eq!(wp_pending_task_count(&j(r#"{"todo":2}"#)), None);
    assert!(matches!(drain_wp_step(j(r#"{"todo":1,"active":0}"#), false, 9), DrainStep::Wait));
    match drain_wp_step(j(r#"{"todo":1,"active":0}"#), true, 9) {
        DrainStep::Done(v) => assert_eq!(
            v.to_text(),
            r#"{"todo":1,"active":0,"drained":false,"left_running":{"pending":1,"waited_seconds":9,"note":"WP is still proving. The goals below are what existed when the wait ran out."}}"#
        ),
        DrainStep::Wait => panic!("waits"),
    }
    match drain_wp_step(j(r#"{"todo":0,"active":0}"#), false, 9) {
        DrainStep::Done(v) => assert_eq!(v.flag("drained"), Some(true)),
        DrainStep::Wait => panic!("waits"),
    }
    match drain_wp_step(j("[]"), false, 9) {
        DrainStep::Done(v) => assert_eq!(v.to_text(), "[]"),
        DrainStep::Wait => panic!("waits"),
    }
    assert_eq!([50, 100, 200, 400, 500].map(next_backoff), [100, 200, 400, 500, 500]);
}

#[test]
fn loops_are_collected_in_the_order_of_the_source() {
    let mut out = vec![];
    collect_loop_sids(
        &j(r#"{"else_body":[{"kind":"loop","sid":3}],"other":{"kind":"loop","sid":4},"then_body":[{"kind":"loop","sid":2,"body":[{"kind":"loop","sid":5}]}],"cond":{"kind":"loop","sid":1}}"#),
        &mut out,
    );
    assert_eq!(out, [1, 2, 5, 3, 4]);
    let mut out = vec![9];
    collect_loop_sids(&j(r#"[{"kind":"loop"},{"kind":"if","sid":1},{"b":{"kind":"loop","sid":-7}}]"#), &mut out);
    assert_eq!(out, [9, -7]);
}

#[test]
fn answers_are_given_as_peers_know_them() {
    let answer = json_result(j(r#"{"a":1}"#));
    assert_eq!(answer.text, "{\n  \"a\": 1\n}");
    assert!(answer.structured.is_some());
    assert!(json_result(j("[1]")).structured.is_none());
    let full = || json_result(j(r#"{"a":1}"#));
    assert!(answer_for(Some("2025-06-18"), full()).structured.is_some());
    assert!(answer_for(Some("2025-11-25"), full()).structured.is_some());
    assert!(answer_for(Some("2025-03-26"), full()).structured.is_none());
    assert!(answer_for(None, full()).structured.is_none());
    assert_eq!(answer_for(None, full()).text, "{\n  \"a\": 1\n}");
}

#[test]
fn injections_are_summed_up() {
    let failure = |failure_type| InjectionFailure {
        failure_type,
        proposed_path: String::new(),
        acsl_text: String::new(),
        frama_c_error: String::new(),
    };
    assert_eq!(compute_status(&vec![]), "success");
    assert_eq!(compute_status(&vec![failure(FailureType::SyntaxError)]), "partial");
    assert_eq!(
        compute_status(&vec![failure(FailureType::SyntaxError), failure(FailureType::ProposedError)]),
        "proposed_error"
    );
    assert!(parse_plugin_success(Some(r#"{"result":{"success":true}}"#)));
    assert!(!parse_plugin_success(Some(r#"{"result":{}}"#)));
    assert!(!parse_plugin_success(Some("nonsense")));
    assert!(!parse_plugin_success(None));
    assert_eq!(parse_plugin_error(Some(r#"{"result":{"error":"E"}}"#)), Some("E".to_string()));
    assert_eq!(parse_plugin_error(Some("{}")), None);
    assert_eq!(source_excerpt(&"é".repeat(4001)).chars().count(), 4000);
    assert!(parse_conclusion_status("blocked_on_callee") == Ok(VerificationStatus::BlockedOnCallee));
    assert_eq!(
        parse_conclusion_status("done").unwrap_err(),
        "invalid status 'done', expected: verified|failed|unsound|blocked_on_callee|in_progress"
    );
}

#[test]
fn a_profile_decides_its_own_settings() {
    let plain = || RunWpParams { timeout: None, ..run_params() };
    let named = || RunWpParams { verify_profile: Some("kernel".to_string()), ..plain() };
    assert!(profile_conflict(&plain(), true).is_none());
    assert!(profile_conflict(&run_params(), false).is_none());
    assert!(profile_conflict(&named(), false).is_none());
    assert_eq!(profile_conflict(&named(), true).unwrap().message, PROFILE_IN_SANDBOX);
    for p in [
        RunWpParams { model: Some("Hoare".to_string()), ..named() },
        RunWpParams { prover: Some("z3".to_string()), ..named() },
        RunWpParams { provers: Some(vec![]), ..named() },
        RunWpParams { timeout: Some(5), ..named() },
    ] {
        assert_eq!(profile_conflict(&p, false).unwrap().message, PROFILE_OVERRIDDEN);
        assert_eq!(profile_conflict(&p, true).unwrap().message, PROFILE_IN_SANDBOX);
    }
}

#[test]
fn runs_are_planned_from_their_parameters() {
    let on = |names: &[&str]| RunWpParams { functions: Some(v(names)), ..run_params() };
    let plan = |p: &RunWpParams| run_plan(p).unwrap_or_else(|_| panic!("refused"));
    let refused = |p: &RunWpParams| match run_plan(p) {
        Ok(_) => panic!("planned"),
        Err(e) => e.message,
    };
    assert!(plan(&run_params()) == RunPlan::Main);
    assert!(plan(&on(&[])) == RunPlan::Main);
    assert!(plan(&on(&["f"])) == RunPlan::Main);
    assert!(plan(&on(&["e1:f"])) == RunPlan::Sandbox);
    assert!(plan(&on(&["f", "e1:f"])) == RunPlan::Main);
    assert!(plan(&RunWpParams { cancel: Some(true), ..run_params() }) == RunPlan::Cancel);
    assert!(plan(&RunWpParams { cancel: Some(false), ..run_params() }) == RunPlan::Main);
    let smoke = || RunWpParams { smoke: Some(true), ..run_params() };
    assert_eq!(refused(&smoke()), SMOKE_WITHOUT_PROVERS);
    assert!(plan(&RunWpParams { provers: Some(v(&["z3"])), ..smoke() }) == RunPlan::Main);
    let both = RunWpParams { verify_profile: Some("p".to_string()), ..run_params() };
    assert_eq!(refused(&both), PROFILE_OVERRIDDEN);
    let cancelled = RunWpParams { cancel: Some(true), ..on(&["e1:f"]) };
    assert_eq!(refused(&cancelled), CANCEL_IN_SANDBOX);
    let profiled = RunWpParams { verify_profile: Some("p".to_string()), ..on(&["e1:f"]) };
    assert_eq!(refused(&profiled), PROFILE_IN_SANDBOX);
}

#[test]
fn proofs_are_waited_for_no_longer_than_the_limit() {
    assert_eq!(drain_budget_seconds(None), 600);
    assert_eq!(drain_budget_seconds(Some(0)), 0);
    assert_eq!(drain_budget_seconds(Some(599)), 599);
    assert_eq!(drain_budget_seconds(Some(600)), 600);
    assert_eq!(drain_budget_seconds(Some(u64::MAX)), 600);
}

#[test]
fn conclusions_are_listed_by_status() {
    let listed = vec![
        ListedConclusion { function: "f".to_string(), status: VerificationStatus::Failed, annotation_count: 2 },
        ListedConclusion { function: "g".to_string(), status: VerificationStatus::Verified, annotation_count: 0 },
    ];
    let all = conclusion_summaries(&listed, None).unwrap_or_else(|_| panic!("refused"));
    assert_eq!(
        all.to_text(),
        r#"[{"function":"f","status":"failed","annotation_count":2},{"function":"g","status":"verified","annotation_count":0}]"#
    );
    let verified = conclusion_summaries(&listed, Some("verified")).unwrap_or_else(|_| panic!("refused"));
    assert_eq!(verified.to_text(), r#"[{"function":"g","status":"verified","annotation_count":0}]"#);
    let none = conclusion_summaries(&listed, Some("unsound")).unwrap_or_else(|_| panic!("refused"));
    assert_eq!(none.to_text(), "[]");
    match conclusion_summaries(&listed, Some("done")) {
        Ok(_) => panic!("listed"),
        Err(e) => assert_eq!(
            e.message,
            "invalid status 'done', expected: verified|failed|unsound|blocked_on_callee|in_progress"
        ),
    }
    for word in ["verified", "failed", "unsound", "blocked_on_callee", "in_progress"] {
        assert_eq!(conclusion_status_name(parse_conclusion_status(word).unwrap()), word);
    }
}

#[test]
fn a_whole_conclusion_carries_its_long_texts() {
    let texts = LongTexts {
        semantic_proof: Some("why".to_string()),
        semiformal_proof: None,
        program_summary: Some("what".to_string()),
    };
    let whole = full_conclusion(j(r#"{"status":"failed","semantic_proof":"old"}"#), &texts);
    assert_eq!(
        whole.to_text(),
        r#"{"status":"failed","semantic_proof":"why","semiformal_proof":"","program_summary":"what"}"#
    );
}

#[test]
fn remembering_twice_changes_nothing() {
    let once = remember_sandbox_metadata(&place(), Some(vec![sandbox("c")]), &sandbox("b"));
    let held = once.iter().map(SandboxMetadata::copy).collect();
    let twice = remember_sandbox_metadata(&place(), Some(held), &sandbox("b"));
    assert_eq!(ids(&twice), ids(&once));
    assert_eq!(ids(&twice), v(&["b", "c"]));
    let read = load_sandbox_metadata_from_disk(&place(), Some(twice));
    assert_eq!(ids(&read), v(&["b", "c"]));
}

#[test]
fn markers_and_order_do_not_enter_the_digest() {
    let first = j(
        r##"[{"code":"A","property":"#p1","at":{"kinstr_marker":"#k1","line":3}},{"code":"B"},{"code":"A"}]"##,
    );
    let second = j(
        r##"[{"code":"B"},{"code":"A"},{"code":"A","property":"#p9","at":{"kinstr_marker":"#k7","line":3}}]"##,
    );
    assert!(incomplete_digest(&first).same(&incomplete_digest(&second)));
    let other = j(
        r##"[{"code":"B"},{"code":"A"},{"code":"A","property":"#p9","at":{"kinstr_marker":"#k7","line":4}}]"##,
    );
    assert!(!incomplete_digest(&first).same(&incomplete_digest(&other)));
    let said = incomplete_digest(&first);
    assert_eq!(said.nat_at("count"), Some(3));
    assert_eq!(said.get("codes").unwrap().to_text(), r#"{"A":2,"B":1}"#);
}
