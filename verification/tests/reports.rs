use frama_c_mcp::alarms::{alarm_diagnostic_summary, alarm_kind_text, rte_suggestion_kind};
use frama_c_mcp::json::Json;
use frama_c_mcp::parselog::parse_diagnostics_of_text;
use frama_c_mcp::proofread::{
    proofread_action_reason, proofread_drop_stale_retry_advice, proofread_finding_markdown,
    proofread_finding_ref, proofread_report, proofread_why_problem, split_goal_classification,
};
use frama_c_mcp::receipt::{
    ast_digest_unprinted, incomplete_digest, incomplete_identities, proof_receipt_contracts,
    receipt_functions, receipt_goal,
};
use frama_c_mcp::reload::{
    list_globals_payload, lookup_symbol_payload, sandbox_function_payload, GlobalInfo, Symbol,
};
use frama_c_mcp::requests::{
    not_probed_requests, request_exposure, request_kind_name, ProbeKind, RequiredRequest,
};
use frama_c_mcp::suggest::{
    contains_acsl_word, enrich_semantic_suggestions, semantic_suggestions_for_vc, vc_prover_statuses,
    wp_print_precondition_text,
};
use frama_c_mcp::triage::{
    wp_backend_diagnosis, wp_failure_kind, wp_prover_result, wp_timeout_triage_from_tasks_and_report,
};
use frama_c_mcp::verdicts::{
    alarm_is_undischarged, check_goal_counts_as_progress, goal_is_vacuously_proved,
    goal_needs_failure_classification, property_is_assumed_valid, property_is_disproved,
    property_is_disproved_reachability, property_is_inconsistent, property_is_unproved_lemma,
};
use frama_c_mcp::wpclass::{
    classify_failure_reason, classify_wp_failure_from_goal, runtime_check_suggestion,
    semantic_wp_verdict, text_has_word,
};
use frama_c_mcp::wpconfig::collect_json_string_fields;
use frama_c_mcp::wpout::{
    attach_why3_dumps, attach_wp_print_blocks, parse_wp_print_blocks, wp_output_warnings,
};

fn j(s: &str) -> Json {
    Json::parse(s).unwrap()
}

fn v(items: &[&str]) -> Vec<String> {
    items.iter().map(|s| s.to_string()).collect()
}

fn category(text: &str) -> &'static str {
    classify_failure_reason("unknown", "Unknown", "user_assert", "g", text).category
}

#[test]
fn every_category_is_reached() {
    for (text, expected) in [
        ("prover z3 not found", "missing_prover"),
        ("why3 is not configured", "missing_why3_config"),
        ("the request was rejected", "request_rejected"),
        ("an exception", "internal_error"),
        ("unbound name", "unsupported_predicate"),
        ("call requires", "callee_requires_too_strict"),
        ("complete behavior", "incomplete_behavior_partition"),
        ("callee post", "callee_contract_too_weak"),
        ("loop assigns", "weak_loop_assigns"),
        ("loop variant", "weak_loop_variant"),
        ("loop invariant", "weak_loop_invariant"),
        ("frame", "bad_assigns"),
        ("post", "weak_ensures"),
        ("precondition", "missing_requires"),
        ("nothing else", "prover_unknown"),
    ] {
        assert_eq!(category(text), expected, "{text}");
    }
    assert_eq!(classify_failure_reason("failed", "FAILED", "", "g", "x").category, "internal_error");
    assert_eq!(classify_failure_reason("unknown", "x", "rte_mem", "g", "x").category, "rte");
    assert_eq!(classify_failure_reason("unknown", "TimeOut", "", "g", "rejected").category, "timeout");
    assert!(text_has_word("the variant.", "variant"));
    assert!(!text_has_word("invariant", "variant"));
}

#[test]
fn a_goal_is_classified_with_its_name_its_property_and_its_text() {
    let goal = j(r#"{"name":"g","property":"p","status":"Unknown","goal_kind":"user_assert","note":"REJECTED"}"#);
    let found = classify_wp_failure_from_goal(&goal, Some("f"));
    assert_eq!(found.text("category"), Some("request_rejected"));
    assert_eq!(found.text("failure_kind"), Some("request_rejected"));
    assert_eq!(found.at("next_action", "tool").unwrap().as_text(), Some("self_check"));
    assert_eq!(found.at("semantic_verdict", "kind").unwrap().as_text(), Some("backend_unavailable"));
    assert_eq!(
        found.get("evidence").unwrap().to_text(),
        r#"[{"field":"goal_text","value":"g"}]"#
    );
    let (half, key, advice) = split_goal_classification(&found);
    assert_eq!(key, "request_rejected:user_assert");
    assert_eq!(half.text("advice_key"), Some("request_rejected:user_assert"));
    assert!(half.at("next_action", "runtime_check_suggestion").is_none());
    assert_eq!(
        advice.text("suggested_fix"),
        Some("Run self_check and inspect Frama-C request compatibility before changing annotations.")
    );
    assert!(runtime_check_suggestion("timeout", "other").is_null());
    assert!(runtime_check_suggestion("rte", "other").is_object());
    assert_eq!(
        semantic_wp_verdict("unsupported_predicate", &Json::Null).text("kind"),
        Some("specification_wrong")
    );
}

#[test]
fn findings_are_sorted_and_reported_once() {
    let finding = |id: &str, severity: &str, line: u64| {
        Json::object()
            .with("id", Json::str(id))
            .with("severity", Json::str(severity))
            .with("file", Json::str("a.c"))
            .with("line", Json::num(line))
            .with("category", Json::str("timeout"))
            .with("evidence", Json::list0())
    };
    let report = proofread_report(vec![
        finding("low", "low", 1),
        finding("late", "high", 9),
        finding("early", "high", 3),
        finding("late", "high", 9),
    ]);
    let ids: Vec<&str> =
        report.list("findings").unwrap().iter().map(|f| f.text("id").unwrap()).collect();
    assert_eq!(ids, ["early", "late", "low"]);
    assert_eq!(report.at("summary", "max_severity").unwrap().as_text(), Some("high"));
    assert_eq!(report.at("summary", "most_severe_finding_id").unwrap().as_text(), Some("early"));
    assert_eq!(
        proofread_finding_markdown(&finding("x", "high", 3)),
        "- high a.c:3  wp_goal: WP did not prove this obligation. Suggested fix: Inspect the proof obligation."
    );
    assert_eq!(proofread_action_reason(&j("{}"), "fix it"), "unknown:?: fix it");
    assert_eq!(
        proofread_finding_ref(&finding("x", "high", 3)).to_text(),
        r#"{"id":"x","severity":"high","category":"timeout","file":"a.c","line":3}"#
    );
    assert_eq!(proofread_why_problem("none", "rte_mem"), "The runtime-error obligation is still open.");

    let mut kept = report.copy();
    proofread_drop_stale_retry_advice(&mut kept, &j(r#"{"attempted":true,"flipped":["g"]}"#));
    assert!(kept.same(&report));
    let mut changed = report.copy();
    proofread_drop_stale_retry_advice(&mut changed, &j(r#"{"attempted":true,"flipped":[]}"#));
    let first = &changed.list("findings").unwrap()[0];
    assert!(first.text("suggested_fix").unwrap().starts_with("This run already retried the goal"));
    assert_eq!(first.list("evidence").unwrap().len(), 1);
    assert!(changed.text("markdown").unwrap().contains("did not flip"));
}

#[test]
fn tasks_win_over_the_report() {
    let report = j(r#"{"findings":[{"category":"timeout","trigger":"g"},{"category":"rte"}]}"#);
    let from_tasks = wp_timeout_triage_from_tasks_and_report(&j(r#"{"message":"Killed"}"#), Some(&report));
    assert_eq!(from_tasks.text("kind"), Some("cancelled_task"));
    let from_report = wp_timeout_triage_from_tasks_and_report(&j("{}"), Some(&report));
    assert_eq!(from_report.text("kind"), Some("prover_timeout"));
    assert_eq!(
        from_report.get("evidence").unwrap().to_text(),
        r#"[{"field":"goals_at_timeout","value":1},{"field":"triggers","value":["g"]}]"#
    );
    assert_eq!(wp_failure_kind("rte", "status_propagation_delay"), "status_pending");
    assert_eq!(wp_failure_kind("internal_error", "none"), "frama_c_internal");
    assert_eq!(
        wp_prover_result(&j(r#"{"status":"Valid"}"#)).to_text(),
        r#"{"status":"Valid","raw_status":null,"normalized_status":null,"raw_property_status":null,"normalized_property_status":null,"counts_as_progress":false,"vacuous":false,"requires_hypotheses":false}"#
    );
}

#[test]
fn a_crashed_backend_is_diagnosed() {
    assert!(wp_backend_diagnosis(&vec![j(r#"{"message":"all fine"}"#)], None).is_null());
    let cast = j(r#"{"message":"Cast with incompatible pointer types","source":{"line":4}}"#);
    let abort = j(r#"{"message":"[Why3 Error] anomaly: x"}"#);
    let messages = vec![cast.copy(), abort.copy(), cast.copy()];
    let found = wp_backend_diagnosis(&messages, Some("Typed+NoCast"));
    assert_eq!(found.text("kind"), Some("why3_anomaly_with_pointer_cast"));
    assert_eq!(found.get("cast_warning_lines").unwrap().to_text(), "[4]");
    assert_eq!(found.at("next_action", "tool").unwrap().as_text(), Some("run_wp"));
    let plain = wp_backend_diagnosis(&messages, Some("Typed+cast"));
    assert_eq!(plain.text("kind"), Some("why3_anomaly"));
    let many: Vec<Json> = (0..7).map(|_| abort.copy()).collect();
    let capped = wp_backend_diagnosis(&many, None);
    assert_eq!(capped.nat_at("anomaly_count"), Some(7));
    assert_eq!(capped.list("anomalies").unwrap().len(), 5);
    assert_eq!(capped.flag("anomalies_truncated"), Some(true));
}

#[test]
fn verdicts_mean_what_their_names_say() {
    assert!(alarm_is_undischarged(&j(r#"{"kind":"assert","descr":"rte: x","status":"unknown"}"#)));
    assert!(!alarm_is_undischarged(&j(r#"{"kind":"assert","descr":"rte: x","status":"unknown_but_dead"}"#)));
    assert!(!alarm_is_undischarged(&j(r#"{"kind":"assert","descr":"mine","status":"unknown"}"#)));
    let goals = j(r#"[{"property":"p","normalized_status":"valid"}]"#);
    let none = j("[]");
    let lemma = j(r#"{"kind":"lemma","key":"p","status":"unknown"}"#);
    assert!(!property_is_unproved_lemma(&lemma, &goals));
    assert!(property_is_unproved_lemma(&lemma, &none));
    let wrong = j(r#"{"key":"p","status":"invalid"}"#);
    assert!(property_is_disproved(&wrong, &none));
    assert!(!property_is_disproved(&wrong, &goals));
    assert!(property_is_inconsistent(&j(r#"{"status":"inconsistent"}"#)));
    assert!(property_is_disproved_reachability(&j(r#"{"kind":"reachable","status":"invalid"}"#)));
    assert!(property_is_assumed_valid(&j(r#"{"status":"considered_valid"}"#)));
    assert!(check_goal_counts_as_progress(&j(r#"{"status":"VALID"}"#)));
    assert!(!check_goal_counts_as_progress(&j(r#"{"status":"VALID","counts_as_progress":false}"#)));
    let vacuous = j(r#"{"normalized_status":"valid","vacuous":true}"#);
    assert!(goal_is_vacuously_proved(&vacuous));
    assert!(goal_needs_failure_classification(&vacuous));
    assert!(!goal_needs_failure_classification(&j(r#"{"normalized_status":"valid"}"#)));
}

#[test]
fn the_shape_of_an_obligation_suggests_a_fix() {
    assert!(contains_acsl_word("a \\fresh b", "\\fresh"));
    assert!(!contains_acsl_word("\\fresher", "\\fresh"));
    assert!(contains_acsl_word("a + b", ""));
    assert!(!contains_acsl_word("ab", ""));
    assert!(contains_acsl_word("", ""));
    let vc = j(
        r#"{"failure_classification":{},"prover_result":{"status":"Unknown"},"wp_print":{"conclusion":"(a * b) % n shift_ Mint_0","hypotheses":["(* Pre-condition *)","Have: x","(* Heap *)","Have: separated"]}}"#,
    );
    let kinds = |warnings: &Vec<Json>| -> Vec<String> {
        semantic_suggestions_for_vc(&vc, warnings)
            .iter()
            .map(|s| s.text("kind").unwrap().to_string())
            .collect()
    };
    assert_eq!(
        kinds(&vec![]),
        v(&["check_vacuity_or_contradiction", "decompose_modular_multiplication", "add_separated_or_typed_ref"])
    );
    assert_eq!(vc_prover_statuses(&vc), v(&["unknown"]));
    assert_eq!(
        wp_print_precondition_text(vc.get("wp_print").unwrap()),
        "(* Pre-condition *) Have: x"
    );
    let mut all = vec![vc.copy(), vc.copy().without("failure_classification")];
    enrich_semantic_suggestions(&mut all, &vec![]);
    assert_eq!(
        all[0].at("failure_classification", "semantic_suggestions").unwrap().as_list().unwrap().len(),
        3
    );
    assert!(all[1].get("failure_classification").is_none());
    let fresh = j(r#"{"wp_print":{"conclusion":"\\fresh(p)"}}"#);
    let warned = vec![Json::str("Allocation, initialization and danglingness Not Yet Implemented")];
    assert_eq!(
        semantic_suggestions_for_vc(&fresh, &warned)[0].text("kind"),
        Some("fresh_allocation_model_limit")
    );
    assert!(semantic_suggestions_for_vc(&fresh, &vec![]).is_empty());
}

#[test]
fn printed_obligations_are_attached() {
    let output = "Function f with behavior default\n----\nGoal Assertion (file a.c, line 7):\nAssume {\n  Have: x\n}\nProve: x > 0.\nProver Z3 returns Unknown\nGoal Post-condition 'p'\n(file a.c, line 9):\nProve: true.\n";
    let blocks = parse_wp_print_blocks(output);
    assert_eq!(blocks.len(), 2);
    assert_eq!(blocks[0].text("function"), Some("f"));
    assert_eq!(blocks[0].text("kind"), Some("assert"));
    assert_eq!(blocks[0].nat_at("source_line"), Some(7));
    assert_eq!(blocks[0].text("conclusion"), Some("x > 0."));
    assert_eq!(blocks[1].text("title"), Some("Post-condition 'p' (file a.c, line 9)"));
    assert_eq!(blocks[1].text("kind"), Some("ensures"));
    let mut vcs = vec![
        j(r#"{"function":"f","goal_kind":"user_assert","source_location":{"line":7}}"#),
        j(r#"{"function":"f","goal_kind":"user_assert","source_location":{"line":8}}"#),
        j(r#"{"function":"f","clause":{"kind":"ensures"}}"#),
    ];
    attach_wp_print_blocks(&mut vcs, &blocks);
    assert_eq!(vcs[0].at("wp_print", "conclusion").unwrap().as_text(), Some("x > 0."));
    assert!(vcs[1].get("wp_print").is_none());
    assert!(vcs[2].get("wp_print").is_some());
    let dumps = vec![j(r#"{"goal_id":"typed_f_ensures"}"#), j(r#"{"goal_id":"typed_g"}"#)];
    let mut goals = vec![j(r#"{"wpo":"f_ensures"}"#), j(r#"{"wpo":"h"}"#)];
    attach_why3_dumps(&mut goals, &dumps);
    assert_eq!(goals[0].get("why3_dumps").unwrap().to_text(), r#"[{"goal_id":"typed_f_ensures"}]"#);
    assert!(goals[1].get("why3_dumps").is_none());
    assert_eq!(
        wp_output_warnings("[wp] Warning: a\n[wp] Warning: Missing RTE guards\nfine", " b Warning: c "),
        v(&["[wp] Warning: a", "b Warning: c"])
    );
}

#[test]
fn an_alarm_is_summed_up() {
    let property = j(
        r##"{"key":"#p1","kinstr":"#s4","alarm":"division_by_zero","predicate":"d != 0","status":"Unknown","sid":4}"##,
    );
    assert_eq!(alarm_kind_text(&property), "division_by_zero");
    assert_eq!(rte_suggestion_kind("index_bound", &j("{}")), ("index_bound", "index_in_bounds"));
    assert_eq!(rte_suggestion_kind("x", &j(r#"{"descr":"initialized"}"#)).0, "uninitialized_read");
    let goals = vec![
        j(r#"{"normalized_status":"valid","stable_goal_id":"a"}"#),
        j(r#"{"normalized_status":"timeout","stable_goal_id":"b"}"#),
    ];
    let values = j(r#"{"vBefore":"[0..9]"}"#);
    let summary = alarm_diagnostic_summary(&property, Some(&values), &goals, Some(2));
    assert_eq!(summary.text("property_marker"), Some("#p1"));
    assert_eq!(summary.text("kinstr_marker"), Some("#s4"));
    assert_eq!(summary.nat_at("callstack"), Some(2));
    assert_eq!(summary.text("value_before"), Some("[0..9]"));
    assert!(summary.get("value_after").unwrap().is_null());
    assert_eq!(summary.at("wp_status", "current_status").unwrap().as_text(), Some("timeout"));
    assert_eq!(
        summary.at("likely_acsl_obligation", "description").unwrap().as_text(),
        Some("Require or assert the divisor is nonzero before this operation.")
    );
    let suggestions = summary.list("suggestions").unwrap();
    assert_eq!(suggestions[0].text("clause"), Some("requires d != 0;"));
    assert_eq!(suggestions[0].text("confidence"), Some("high"));
    assert_eq!(
        suggestions[0].list("proposed_requires").unwrap()[0].text("necessity"),
        Some("Discharges Frama-C RTE division_by_zero property #p1 at 4")
    );
    assert_eq!(suggestions[1].text("clause"), Some("assert d != 0;"));
}

#[test]
fn soundness_categories_are_reported_and_locations_are_capped() {
    let empty = parse_diagnostics_of_text("", "/w");
    let categories = empty.get("categories").unwrap();
    for name in ["kernel:asm:clobber", "kernel:attrs:unknown"] {
        assert_eq!(categories.at(name, "count").unwrap().as_nat(), Some(0));
    }
    let lines: Vec<String> =
        (1..=23).map(|n| format!("[kernel:asm:clobber] a.c:{n}: Warning: clobbered")).collect();
    let text = lines.join("\n")
        + "\n[kernel:attrs:unknown] b.c:1: Warning: \n  Ignoring unknown attribute: zz\n[kernel:attrs:unknown] c.c:2:5: Warning: Ignoring unknown attribute: aa\n[kernel:attrs:unknown] d.c:3: Warning: Ignoring unknown attribute: zz\n";
    let found = parse_diagnostics_of_text(&text, "/w");
    let clobber = found.at("categories", "kernel:asm:clobber").unwrap();
    assert_eq!(clobber.nat_at("count"), Some(23));
    assert_eq!(clobber.list("locations").unwrap().len(), 20);
    assert_eq!(clobber.nat_at("locations_omitted"), Some(3));
    let unknown = found.at("categories", "kernel:attrs:unknown").unwrap();
    assert_eq!(
        unknown.to_text(),
        r#"{"count":2,"count_unit":"distinct_attribute_names","locations_omitted":0,"locations":[{"attribute":"aa","location":{"file":"/w/c.c","line":2,"column":5}},{"attribute":"zz","location":{"file":"/w/b.c","line":1,"column":null}}]}"#
    );
}

#[test]
fn receipts_name_what_was_proved() {
    let config = j(r#"{"functions":["e1:f","g"]}"#);
    assert_eq!(receipt_functions(&config), vec!["e1:f".to_string(), "g".to_string()]);
    let contract = j(
        r#"{"function":{"contract":{"requires":[{"predicate":{"text":"re_0123abcd_A: x > 0"}}],"ensures":[{"kind":"exits","predicate":{"text":"\\false"}}],"complete":[["a","b"]]}}}"#,
    );
    let contracts = proof_receipt_contracts("wp_fetch_goals", &vec![("f".to_string(), Some(contract)), ("g".to_string(), None)]);
    assert_eq!(
        contracts.to_text(),
        r#"{"f":{"complete":["a, b"],"exits":["\\false"],"requires":["x > 0"]}}"#
    );
    assert_eq!(
        proof_receipt_contracts("unavailable_isolated_cli_retry", &vec![]).as_text(),
        Some("unavailable_isolated_cli_retry")
    );
    let (digest, reason) = ast_digest_unprinted("not_run_reload_failed").unwrap();
    assert!(digest.is_null());
    assert_eq!(reason.as_text(), Some("reload_failed"));
    assert!(ast_digest_unprinted("wp_fetch_goals").is_none());
    let goal = receipt_goal(&j(r#"{"name":"g","status":"VALID","fct":"f"}"#), None, &Json::object());
    assert_eq!(goal.text("status"), Some("valid"));
    let gaps = vec![j(r#"{"code":"A"}"#), j(r#"{"code":"B"}"#)];
    assert_eq!(incomplete_identities(&gaps).len(), 2);
    let other = j(r#"[{"code":"A"}]"#);
    assert!(!incomplete_digest(&Json::array(gaps)).same(&incomplete_digest(&other)));
}

#[test]
fn symbols_and_requests_are_described() {
    let global = || GlobalInfo {
        name: "x".to_string(),
        marker: "#v1".to_string(),
        typ: "int".to_string(),
        file: Some("a.c".to_string()),
        line: Some(2),
        declaration: "d".to_string(),
    };
    assert_eq!(
        lookup_symbol_payload(Symbol::Global(global())).to_text(),
        r##"{"kind":"global_variable","name":"x","type":"int","file":"a.c","line":2,"marker":"#v1","declaration":"d"}"##
    );
    assert_eq!(
        list_globals_payload(&vec![global()]).to_text(),
        r#"[{"name":"x","type":"int","file":"a.c","line":2}]"#
    );
    let function = sandbox_function_payload("f", Json::str("int f(void);"));
    assert_eq!(
        lookup_symbol_payload(Symbol::Function(function)).to_text(),
        r#"{"name":"f","declaration":"int f(void);","kind":"function"}"#
    );
    assert!(request_exposure("plugins.ast-utils.dumpProject").is_some());
    assert!(request_exposure("kernel.ast.getFiles").is_none());
    assert_eq!(request_kind_name(ProbeKind::Exec), "EXEC");
    let request = RequiredRequest { domain: "wp", request: "plugins.wp.x", kind: ProbeKind::Get };
    let reports = not_probed_requests(&vec![request], "why");
    assert_eq!(reports[0].text("status"), Some("not_probed"));
    assert_eq!(reports[0].text("reason"), Some("why"));
    let fields = collect_json_string_fields(
        &j(r#"{"a":"1","b":[{"a":"2"},{"c":{"a":3,"b":"4"}}]}"#),
        &vec!["a"],
    );
    assert_eq!(fields, v(&["1", "2"]));
}
