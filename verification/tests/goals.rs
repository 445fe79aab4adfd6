use frama_c_mcp::alarms::{
    alarm_obligation_text, current_assigns_from_properties, require_known_e_acsl_tool,
    rte_precondition_suggestions,
};
use frama_c_mcp::goals::{
    add_identity_fields, add_ordered_instance_vacuity_warnings, enrich_goal_with_goal_dependencies,
    enrich_goal_with_property_status, enrich_properties, goal_covers_property, property_status_map,
    timeout_retry_report,
};
use frama_c_mcp::json::Json;
use frama_c_mcp::labels::{
    full_label, generate_hash_label, hash_label, hex_of_words, random_hex, strip_generated_label,
};
use frama_c_mcp::markers::{
    function_marker_locations, marker_kind, marker_snapshot, marker_stmt_id, stale_marker_locations,
};
use frama_c_mcp::stable::{
    classify_goal_name, classify_wp_goal, enrich_goal_stable_id, finish_goal, sha256_hex,
    stable_goal_id_for, stable_goal_part_key, stable_goal_source_key, stable_id_of_digest,
};
use frama_c_mcp::verdicts::{
    goal_is_valid_under_hypotheses, goals_for_property_all_valid, is_generated_alarm, property_is_dead,
};

fn j(s: &str) -> Json {
    Json::parse(s).unwrap()
}

fn v(items: &[&str]) -> Vec<String> {
    items.iter().map(|s| s.to_string()).collect()
}

#[test]
fn rows_get_their_identity() {
    let mut row = j(r##"{"key":"#p1","status":"Valid","scope":"#F1","kinstr":"#s3","source":{"line":4},"wpo":"w"}"##);
    add_identity_fields(&mut row);
    assert_eq!(row.text("property_marker"), Some("#p1"));
    assert_eq!(row.text("wpo_id"), Some("w"));
    assert_eq!(row.text("function_marker"), Some("#F1"));
    assert_eq!(row.text("kinstr_marker"), Some("#s3"));
    assert_eq!(row.at("source_location", "line").unwrap().as_nat(), Some(4));
    assert_eq!(row.text("normalized_status"), Some("valid"));
}

fn instance(key: &str, line: u64, status: &str) -> Json {
    Json::object()
        .with("key", Json::str(key))
        .with("kind", Json::str("instance"))
        .with("scope", Json::str("#F1"))
        .with("predicate", Json::str("x != 0"))
        .with("source", Json::object().with("line", Json::num(line)))
        .with("normalized_status", Json::str(status))
}

#[test]
fn a_later_instance_of_a_failed_one_is_suspect() {
    let mut rows = vec![
        instance("late", 9, "valid"),
        instance("failed", 5, "unknown"),
        instance("early", 3, "valid"),
        instance("beside", 5, "valid"),
    ];
    add_ordered_instance_vacuity_warnings(&mut rows);
    assert_eq!(rows[0].text("normalized_status"), Some("valid_under_false_hypothesis"));
    assert_eq!(rows[0].flag("counts_as_progress"), Some(false));
    assert_eq!(rows[0].flag("vacuous"), Some(true));
    assert_eq!(
        rows[0].get("vacuity_dependency").unwrap().to_text(),
        r#"{"property":"failed","status":"unknown","line":5}"#
    );
    assert_eq!(rows[2].to_text(), instance("early", 3, "valid").to_text());
    assert_eq!(rows[3].to_text(), instance("beside", 5, "valid").to_text());
}

#[test]
fn properties_are_enriched_in_one_go() {
    let row = |key: &str, line: u64, status: &str| instance(key, line, "").without("normalized_status").with("status", Json::str(status));
    let rows = enrich_properties(vec![row("a", 1, "Unknown"), row("b", 2, "Valid")]);
    assert_eq!(rows[0].text("normalized_status"), Some("unknown"));
    assert_eq!(rows[0].text("property_marker"), Some("a"));
    assert_eq!(rows[1].text("normalized_status"), Some("valid_under_false_hypothesis"));
}

#[test]
fn a_goal_takes_over_the_status_of_its_property() {
    let properties = property_status_map(&vec![
        j(r#"{"key":"p","status":"Valid_but_dead","kinstr":"s1","predicate":"P","origin":"user"}"#),
        j(r#"{"key":"h","status":"Unknown"}"#),
        j(r#"{"status":"Valid"}"#),
    ]);
    let mut goal = j(r#"{"property":"p","status":"VALID","deps":["h","absent"]}"#);
    enrich_goal_with_property_status(&mut goal, &properties);
    assert_eq!(goal.text("normalized_property_status"), Some("valid_but_dead"));
    assert_eq!(goal.text("raw_property_status"), Some("Valid_but_dead"));
    assert_eq!(goal.text("kinstr_marker"), Some("s1"));
    assert_eq!(goal.text("predicate"), Some("P"));
    assert_eq!(goal.text("origin"), Some("user"));
    assert_eq!(goal.flag("vacuous"), Some(true));
    assert_eq!(goal.flag("counts_as_progress"), Some(false));
    assert_eq!(goal.list("hypotheses").unwrap().len(), 1);
    assert_eq!(
        goal.text("vacuity_reason"),
        Some("The WP goal is proved only under at least one non-progress hypothesis")
    );
}

#[test]
fn a_goal_is_blocked_by_the_goals_it_depends_on() {
    let goals = property_status_map(&vec![
        j(r#"{"property":"d","status":"Timeout"}"#),
        j(r#"{"property":"ok","status":"Valid"}"#),
    ]);
    let mut goal = j(r#"{"property":"p","counts_as_progress":true,"deps":["d","ok"]}"#);
    enrich_goal_with_goal_dependencies(&mut goal, &goals);
    assert_eq!(goal.flag("counts_as_progress"), Some(false));
    assert_eq!(goal.flag("vacuous"), Some(true));
    assert_eq!(goal.list("hypotheses").unwrap().len(), 2);
    let mut free = j(r#"{"property":"p","counts_as_progress":true,"deps":["ok"]}"#);
    enrich_goal_with_goal_dependencies(&mut free, &goals);
    assert_eq!(free.flag("counts_as_progress"), Some(true));
    assert!(goal_covers_property(&j(r#"{"property":"p"}"#), "p"));
    assert!(!goal_covers_property(&j(r#"{"property":"q"}"#), "p"));
}

#[test]
fn retried_goals_are_reported() {
    let report = timeout_retry_report(
        &v(&["b", "a", "b"]),
        &vec![
            j(r#"{"wpo":"a","name":"A","status":"Valid"}"#),
            j(r#"{"wpo":"b","name":"B","status":"Timeout"}"#),
            j(r#"{"wpo":"c","name":"C","status":"Valid"}"#),
        ],
        10,
        20,
    );
    assert_eq!(
        report.to_text(),
        r#"{"attempted":true,"timeout_seconds":{"first_pass":10,"retry":20},"timed_out_first_pass":2,"still_unproved":1,"flipped":[{"wpo_id":"a","name":"A","property":null}]}"#
    );
}

#[test]
fn goals_are_classified_by_their_names() {
    let kind = |name: &str| classify_wp_goal(&Json::object().with("name", Json::str(name)));
    assert_eq!(kind("typed_f_assert_rte_signed_overflow"), ("rte_overflow".to_string(), None));
    assert_eq!(kind("index_bound 2"), ("rte_bound".to_string(), None));
    assert_eq!(kind("Division_By_Zero"), ("rte_division".to_string(), None));
    assert_eq!(kind("mem_access"), ("rte_pointer".to_string(), None));
    assert_eq!(kind("shift"), ("rte_shift".to_string(), None));
    assert_eq!(kind("Post en_0123abcd_user"), ("spec".to_string(), Some("en_0123abcd".to_string())));
    assert_eq!(kind("xen_0123abcd"), ("spec".to_string(), None));
    assert_eq!(kind("Assertion 'x'"), ("user_assert".to_string(), None));
    assert_eq!(kind("Post-condition"), ("spec".to_string(), None));
    assert_eq!(
        classify_goal_name("Post", Some("en_0123abcd".to_string())),
        ("spec".to_string(), Some("en_0123abcd".to_string()))
    );
}

#[test]
fn a_label_is_the_stable_id() {
    let labelled = j(r#"{"name":"Post","hash_label":"en_0123abcd"}"#);
    assert_eq!(stable_goal_id_for(&labelled, "spec", None), "en_0123abcd");
    let plain = j(r#"{"name":"Post","fct":"f","source":{"file":"/a/f.c","line":3}}"#);
    let id = stable_goal_id_for(&plain, "spec", None);
    assert_eq!(stable_goal_id_for(&plain, "spec", Some("f")), id);
    assert_ne!(stable_goal_id_for(&plain, "rte_bound", None), id);
    let mut goal = plain.copy();
    enrich_goal_stable_id(&mut goal, "spec", None);
    assert_eq!(goal.text("stable_goal_id"), Some(id.as_str()));
    assert!(id.starts_with("sg_") && id.len() == 19);
    assert_eq!(stable_id_of_digest("0123456789abcdef0123"), "sg_0123456789abcdef");
    assert_eq!(stable_goal_source_key(&plain), "/a/f.c:3:");
}

#[test]
fn stable_ids_ignore_markers() {
    let goal = |marker: &str| {
        Json::object()
            .with("name", Json::str("Post"))
            .with("fct", Json::str("f"))
            .with("property", Json::str(marker))
            .with("scope", Json::str(marker))
    };
    assert_eq!(
        stable_goal_id_for(&goal("#p1"), "spec", None),
        stable_goal_id_for(&goal("#p999"), "spec", None)
    );
}

#[test]
fn a_fetched_goal_is_finished_label_first() {
    let mut goal = j(r#"{"name":"Post en_0123abcd","deps":[]}"#);
    finish_goal(&mut goal, &Json::object(), None);
    assert_eq!(goal.text("goal_kind"), Some("spec"));
    assert_eq!(goal.text("hash_label"), Some("en_0123abcd"));
    assert_eq!(goal.text("stable_goal_id"), Some("en_0123abcd"));
}

#[test]
fn digests_are_those_of_sha256() {
    assert_eq!(
        sha256_hex(b"abc"),
        "ba7816bf8f01cfea414140de5dae2223b00361a396177a9cb410ff61f20015ad"
    );
}

#[test]
fn labels_are_made_and_taken_off() {
    for (kind, prefix) in [
        ("requires", "re_"),
        ("ensures", "en_"),
        ("assigns", "as_"),
        ("loop_invariant", "li_"),
        ("loop_assigns", "la_"),
        ("loop_variant", "lv_"),
        ("assert", "at_"),
        ("anything", "an_"),
    ] {
        let label = generate_hash_label(kind);
        assert_eq!(label.len(), 11);
        assert!(label.starts_with(prefix));
        assert_eq!(hash_label(kind, "0123abcd"), format!("{prefix}0123abcd"));
    }
    assert_eq!(full_label("en_0123abcd", Some("mine")), "en_0123abcd_mine");
    assert_eq!(full_label("en_0123abcd", None), "en_0123abcd");
    assert_eq!(strip_generated_label("en_0123abcd: x > 0"), "x > 0");
    assert_eq!(strip_generated_label("x > 0"), "x > 0");
}

#[test]
fn random_digits_are_hexadecimal_and_differ() {
    let a = random_hex(12);
    assert_eq!(a.len(), 12);
    assert!(a.chars().all(|c| c.is_ascii_hexdigit() && !c.is_ascii_uppercase()));
    assert_ne!(random_hex(32), random_hex(32));
    assert_eq!(random_hex(0), "");
    assert_eq!(hex_of_words(&vec![0x0123456789abcdef, 0xff], 20), "0123456789abcdef0000");
}

#[test]
fn markers_say_what_they_are() {
    assert_eq!(marker_kind(Some("#s12")), "statement");
    assert_eq!(marker_stmt_id("#s12"), Some(12));
    assert_eq!(marker_stmt_id("#s"), None);
    assert_eq!(marker_stmt_id("#sx"), None);
    assert_eq!(marker_stmt_id("#v3"), None);
}

#[test]
fn a_marker_that_moved_is_stale() {
    let functions = vec![j(r##"{"name":"f","decl":"#F1","sloc":{"file":"a.c","line":3}}"##)];
    let moved = vec![j(r##"{"name":"f","decl":"#F1","sloc":{"file":"a.c","line":4}}"##)];
    let properties = vec![j(r##"{"key":"#p1","scope":"#F1","source":{"file":"a.c","line":5}}"##)];
    let before = marker_snapshot(&functions, &properties);
    assert_eq!(before.get("#F1").unwrap().source_line, Some(3));
    assert_eq!(before.get("#p1").unwrap().function_name, Some("f".to_string()));
    assert_eq!(before.get("#p1").unwrap().source_line, Some(5));
    let elsewhere = vec![j(r##"{"key":"#p2","loc":{"file":"b.c","line":8}}"##)];
    let found = marker_snapshot(&functions, &elsewhere);
    assert_eq!(found.get("#p2").unwrap().source_line, Some(8));
    assert!(stale_marker_locations(&before, &before).is_empty());
    let after = function_marker_locations(&moved);
    let stale = stale_marker_locations(&before, &after);
    assert_eq!(stale.len(), 2);
    assert_eq!(stale[0].0, "#F1");
    assert_eq!(stale[0].1.current.source_line, Some(4));
    assert_eq!(stale[1].0, "#p1");
    assert_eq!(stale[1].1.current.marker_kind, "missing");
}

#[test]
fn alarms_are_turned_into_obligations() {
    assert_eq!(
        alarm_obligation_text("division_by_zero", &j("{}")),
        ("Require or assert the divisor is nonzero before this operation.".to_string(), "medium")
    );
    assert_eq!(
        alarm_obligation_text("odd", &j(r#"{"descr":"D"}"#)),
        ("Prove or assume this Frama-C property: D".to_string(), "low")
    );
    assert_eq!(
        alarm_obligation_text("odd", &j("{}")),
        ("Prove or assume the reported Frama-C property.".to_string(), "low")
    );
    assert_eq!(rte_precondition_suggestions(&j(r#"{"predicate":"  "}"#)).to_text(), "[]");
    let drafted = rte_precondition_suggestions(
        &j(r##"{"predicate":"y != 0","descr":"division_by_zero","key":"#p1","sid":7}"##),
    );
    let first = &drafted.as_list().unwrap()[0];
    assert_eq!(first.text("clause"), Some("requires y != 0;"));
    assert_eq!(first.text("kind"), Some("requires"));
    assert!(drafted.to_text().contains("property #p1 at 7"));
}

#[test]
fn only_known_wrappers_are_run() {
    assert!(require_known_e_acsl_tool("e-acsl-gcc").is_ok());
    assert!(require_known_e_acsl_tool("e-acsl-gcc.sh").is_ok());
    let error = require_known_e_acsl_tool("/bin/sh").unwrap_err();
    assert_eq!(
        error.message,
        "tool must be one of e-acsl-gcc or e-acsl-gcc.sh; it names the executable this server runs"
    );
    assert_eq!(
        error.data.unwrap().to_text(),
        r#"{"kind":"UnknownEAcslTool","tool":"/bin/sh","expected":["e-acsl-gcc","e-acsl-gcc.sh"]}"#
    );
}

#[test]
fn verdicts_are_read_off_rows() {
    assert!(is_generated_alarm(&j(r#"{"kind":"assert","descr":"assert rte: mem_access: x"}"#)));
    assert!(is_generated_alarm(&j(r#"{"kind":"assert","description":"Eva: overflow"}"#)));
    assert!(!is_generated_alarm(&j(r#"{"kind":"ensures","descr":"assert rte: mem_access: x"}"#)));
    assert!(property_is_dead(&j(r#"{"normalized_status":"valid_but_dead"}"#)));
    let goals = j(r#"[{"property":"p","normalized_status":"valid"},{"property_marker":"p","normalized_status":"timeout"},{"property":"q","normalized_status":"valid"}]"#);
    assert_eq!(goals_for_property_all_valid(&j(r#"{"key":"p"}"#), &goals), Some(false));
    assert_eq!(goals_for_property_all_valid(&j(r#"{"key":"q"}"#), &goals), Some(true));
    assert_eq!(goals_for_property_all_valid(&j(r#"{"key":"r"}"#), &goals), None);
    assert_eq!(goals_for_property_all_valid(&j("{}"), &goals), None);
    assert!(!goal_is_valid_under_hypotheses(&j("{}")));
    assert!(goal_is_valid_under_hypotheses(&j(r#"{"hypotheses":[{"counts_as_progress":false}]}"#)));
    assert!(!goal_is_valid_under_hypotheses(&j(r#"{"hypotheses":[{"counts_as_progress":true}]}"#)));
    assert!(current_assigns_from_properties(&vec![], None).is_empty());
}

#[test]
fn stable_ids_survive_renumbering() {
    let goal = |wpo: &str, marker: &str| {
        j(r#"{"name":"Assigns","fct":"bsearch_tut","source":{"file":"f.c","line":3}}"#)
            .with("wpo_id", Json::str(wpo))
            .with("scope", Json::str(marker))
            .with("function_marker", Json::str(marker))
    };
    let id = |wpo: &str, marker: &str, scope: Option<&str>| stable_goal_id_for(&goal(wpo, marker), "spec", scope);
    for scope in [None, Some("bsearch_tut")] {
        let first = id("bsearch_tut_assigns_part3", "#F1", scope);
        assert_eq!(id("bsearch_tut_assigns_3_part3", "#F9", scope), first);
        assert_ne!(id("bsearch_tut_assigns_part4", "#F1", scope), first);
    }
    assert_eq!(stable_goal_part_key(&goal("x_part1_part22", "")), "_part22");
    assert_eq!(stable_goal_part_key(&goal("parse_partition", "")), "");
    assert_eq!(stable_goal_part_key(&goal("x_3", "")), "");
}
