use frama_c_mcp::json::Json;
use frama_c_mcp::options::{
    cpp_extra_args, is_cpp_arg_char, project_cli_args, validate_project_options, ProjectLoadOptions,
    ISYSTEM_COMPLAINT,
};
use frama_c_mcp::proofread::{proofread_report, proofread_report_with_basis, proofread_severity_rank};
use frama_c_mcp::suggest::{contains_acsl_word, looks_like_modular_multiplication};
use frama_c_mcp::triage::{
    wp_failure_kind_from_task_text, wp_failure_kind_from_tasks, wp_timeout_triage_from_goal,
    wp_timeout_triage_from_task_text, wp_timeout_triage_from_tasks, wp_timeout_triage_none,
};
use frama_c_mcp::types::RunWpParams;
use frama_c_mcp::wpclass::{classify_wp_failure_from_goal, proofread_report_from_wp_goals};
use frama_c_mcp::wpcli::{
    command_timeout_seconds, counter_example_arguments, no_attempts, retry_arguments,
    retry_attempt_of_text, retry_reported, retry_settings, run_isolated_wp_retries, run_why3_dump,
    run_wp_counter_examples, run_wp_memory_model_probe, run_wp_print, take_attempt, why3_dump_arguments,
    why3_dump_prefix, wp_print_arguments, CommandOutput, CommandRun, IsolatedWpRetry, ModelProbe,
    ModelQuestion, Why3Dump,
};
use frama_c_mcp::wpconfig::{
    debug_texts, default_wp_provers, effective_wp_par_from, effective_wp_provers_from,
    effective_wp_timeout_from, parse_wp_provers, prover_id_matches, prover_selection, pvdecl_marker,
    validate_wp_cache_mode, validate_wp_par, wp_command_options, wp_run_response, WpEnvironment,
};
use frama_c_mcp::wpmodel::{default_wp_model, parse_wp_model_support, WpModelSupport};
use frama_c_mcp::wpout::{
    capped_lossy_string, collect_why3_dump_files, parse_e_acsl_violation, parse_proved_goals,
    parse_wp_print_blocks, select_why3_dumps, why3_dump_goal_id, wp_output_warnings, DumpRead,
};

fn j(s: &str) -> Json {
    Json::parse(s).unwrap()
}

fn v(items: &[&str]) -> Vec<String> {
    items.iter().map(|s| s.to_string()).collect()
}

fn params() -> RunWpParams {
    RunWpParams {
        functions: None,
        prover: None,
        provers: None,
        timeout: None,
        par: None,
        model: None,
        prop: None,
        smoke: None,
        cache: None,
        cancel: None,
        drain_timeout_seconds: None,
        retry_unproved: None,
        verify_profile: None,
    }
}

fn no_environment() -> WpEnvironment {
    WpEnvironment { provers: None, timeout: None, par: None }
}

fn no_options() -> ProjectLoadOptions {
    ProjectLoadOptions {
        include_paths: vec![],
        isystem_paths: vec![],
        nostdinc: false,
        defines: vec![],
        force_includes: vec![],
        machdep: None,
        compilation_database: None,
    }
}

fn finished(success: bool, code: Option<i32>, stdout: &str, stderr: &str) -> CommandRun {
    CommandRun::Finished(CommandOutput {
        success,
        code,
        stdout: stdout.as_bytes().to_vec(),
        stderr: stderr.as_bytes().to_vec(),
    })
}

#[test]
fn options_become_arguments() {
    let options = ProjectLoadOptions {
        include_paths: v(&["inc"]),
        isystem_paths: vec![],
        nostdinc: false,
        defines: v(&["A=1"]),
        force_includes: v(&["x.h"]),
        machdep: Some("x86_64".to_string()),
        compilation_database: Some("db.json".to_string()),
    };
    assert!(validate_project_options(&options).is_ok());
    let cpp = cpp_extra_args(&options).unwrap();
    assert!(cpp.contains("-Iinc") && cpp.contains("-DA=1") && cpp.contains("x.h"));
    let args = project_cli_args(&options);
    assert_eq!(args[0], format!("-cpp-extra-args={cpp}"));
    assert_eq!(&args[1..], &v(&["-machdep", "x86_64", "-compilation-db", "db.json"])[..]);
    assert_eq!(cpp_extra_args(&no_options()), None);
    assert!(project_cli_args(&no_options()).is_empty());
}

#[test]
fn options_that_a_shell_would_read_are_refused() {
    assert!(!is_cpp_arg_char(';'));
    assert!(is_cpp_arg_char('_'));
    for bad in ["a b", "$(x)", "a;b"] {
        let mut options = no_options();
        options.include_paths = v(&[bad]);
        assert!(validate_project_options(&options).is_err(), "{bad}");
        let mut options = no_options();
        options.defines = v(&[bad]);
        assert!(validate_project_options(&options).is_err(), "{bad}");
    }
}

#[test]
fn default_provers_are_those_that_are_installed() {
    assert_eq!(default_wp_provers(false, false), "Alt-Ergo");
    assert_eq!(default_wp_provers(true, true), "Alt-Ergo,CVC5,Z3");
    assert_eq!(default_wp_model(), "Typed+nocast");
}

#[test]
fn the_call_beats_the_environment() {
    let mut p = params();
    assert_eq!(effective_wp_timeout_from(&p, Some(" 7 ")).unwrap(), Some(7));
    assert_eq!(effective_wp_timeout_from(&p, None).unwrap(), None);
    assert_eq!(
        effective_wp_timeout_from(&p, Some("x")).unwrap_err().message,
        "FRAMAC_TIMEOUT must be a non-negative integer"
    );
    p.timeout = Some(3);
    assert_eq!(effective_wp_timeout_from(&p, Some("x")).unwrap(), Some(3));
    p.par = Some(0);
    assert_eq!(
        effective_wp_par_from(&p, None).unwrap_err().message,
        "WP parallelism must be at least 1"
    );
    assert!(validate_wp_par(1).is_ok());
    p.prover = Some("z3".to_string());
    assert_eq!(effective_wp_provers_from(&p, Some("cvc5")).unwrap(), Some(v(&["z3"])));
    p.prover = None;
    assert_eq!(effective_wp_provers_from(&p, Some("cvc5, z3")).unwrap(), Some(v(&["cvc5", "z3"])));
    assert_eq!(parse_wp_provers(None).unwrap(), None);
}

#[test]
fn cache_modes_are_known() {
    assert_eq!(validate_wp_cache_mode("none").unwrap(), "None");
    assert_eq!(validate_wp_cache_mode("REPLAY").unwrap(), "Replay");
    assert!(validate_wp_cache_mode("bogus").is_err());
}

#[test]
fn markers_of_declarations_become_those_of_variables() {
    assert_eq!(pvdecl_marker("#F26").unwrap(), "#v26");
    assert_eq!(
        pvdecl_marker("f").unwrap_err().message,
        "expected an AST.Decl marker like #F26, got \"f\""
    );
}

#[test]
fn provers_are_matched_by_name_and_version() {
    assert!(prover_id_matches("Alt-Ergo", "why3:alt-ergo:2.5"));
    assert!(prover_id_matches("z3:4.8", "Z3:4.8"));
    assert!(!prover_id_matches("z3:4.8", "z3:4.9"));
    assert!(!prover_id_matches("z3:4.8", "z3"));
    assert!(!prover_id_matches("z3", "cvc5"));
    let reply = j(r#"["Z3:4.8","cvc5:1.0"]"#);
    assert_eq!(
        prover_selection(&v(&["z3"]), &reply).unwrap(),
        vec![("Z3:4.8".to_string(), true), ("cvc5:1.0".to_string(), false)]
    );
    assert_eq!(
        prover_selection(&v(&["vampire"]), &reply).unwrap_err().message,
        r#"no prover matches ["vampire"]; this Frama-C offers ["Z3:4.8", "cvc5:1.0"]"#
    );
    assert!(prover_selection(&v(&["z3"]), &Json::Null).unwrap().is_empty());
    assert_eq!(debug_texts(&v(&["a\"b"])), r#"["a\"b"]"#);
}

#[test]
fn models_are_read_off_the_help() {
    let fallback = parse_wp_model_support("nothing here");
    assert!(fallback.validate("Typed").is_ok());
    assert!(fallback.validate("Typed+nocast").is_ok());
    assert!(fallback.validate("Bogus").is_err());
    assert!(fallback.validate("Typed,Hoare").is_ok());
    let support = WpModelSupport { bases: v(&["Typed"]), modifiers: v(&["cast"]), source: "frama-c -wp-h" };
    assert_eq!(support.common_models(), v(&["Typed", "Typed+cast"]));
    assert!(support.validate("Typed+nocast").is_err());
}

#[test]
fn a_run_amounts_to_a_command_line() {
    let mut p = params();
    p.timeout = Some(5);
    p.prop = Some("@ensures".to_string());
    assert_eq!(
        wp_command_options(&p, &no_environment(), true),
        v(&["-wp", "-wp-model", "Typed+nocast", "-wp-rte", "-wp-timeout", "5", "-wp-prop", "@ensures"])
    );
    let response = wp_run_response(
        j(r#"{"todo":0,"id":"t1"}"#),
        &p,
        &no_environment(),
        &v(&["f"]),
        "main",
        true,
        vec![],
        None,
    );
    assert_eq!(response.nat_at("todo"), Some(0));
    let config = response.get("effective_wp_config").unwrap();
    assert_eq!(config.at("timeout_seconds", "effective").unwrap().as_nat(), Some(5));
    assert_eq!(config.get("raw_task_ids").unwrap().to_text(), r#"["t1"]"#);
    assert_eq!(response.at("wp_timeout_triage", "kind").unwrap().as_text(), Some("none"));
}

#[test]
fn timeouts_are_triaged() {
    assert_eq!(wp_timeout_triage_none().text("kind"), Some("none"));
    assert_eq!(
        wp_timeout_triage_from_goal(&j(r#"{"status":"Timeout"}"#)).text("kind"),
        Some("prover_timeout")
    );
    assert_eq!(wp_timeout_triage_from_goal(&j(r#"{"status":"Valid"}"#)).text("kind"), Some("none"));
    let tasks = j(r#"{"message":"request TIMEOUT"}"#);
    assert_eq!(wp_timeout_triage_from_tasks(&tasks).text("kind"), Some("mcp_server_timeout"));
    assert_eq!(wp_timeout_triage_from_task_text(&tasks, "fine").text("kind"), Some("none"));
    let none = wp_timeout_triage_none();
    assert_eq!(wp_failure_kind_from_task_text(&j("{}"), &none, "prover not found"), "missing_prover");
    assert_eq!(
        wp_failure_kind_from_tasks(&j(r#"[{"status":"FAILED","goal_kind":"g"}]"#), &none),
        "frama_c_internal"
    );
    assert_eq!(
        wp_failure_kind_from_tasks(&j(r#"{"g":{"status":"unknown","property_marker":"p"}}"#), &none),
        "proof_obligation"
    );
    assert_eq!(wp_failure_kind_from_tasks(&j(r#"[{"status":"FAILED","name":"g"}]"#), &none), "none");
}

#[test]
fn failures_are_classified() {
    let timeout = classify_wp_failure_from_goal(&j(r#"{"name":"Post","status":"Timeout"}"#), Some("f"));
    assert_eq!(timeout.text("category"), Some("timeout"));
    let report = proofread_report_from_wp_goals(
        &vec![j(r#"{"name":"Post","status":"Timeout","fct":"f"}"#), j(r#"{"name":"Pre","status":"Valid"}"#)],
        Some("f"),
        vec![],
    );
    assert_eq!(report.at("summary", "finding_count").unwrap().as_nat(), Some(1));
    assert_eq!(proofread_report(vec![]).at("summary", "finding_count").unwrap().as_nat(), Some(0));
    assert_eq!(proofread_report_with_basis(vec![], "b").text("basis"), Some("b"));
    let ranks = ["info", "low", "medium", "high", "critical"].map(proofread_severity_rank);
    assert_eq!(ranks, [0, 1, 2, 3, 4]);
}

#[test]
fn words_of_acsl_are_found_whole() {
    assert!(contains_acsl_word("a \\valid(p) b", "valid"));
    assert!(!contains_acsl_word("invalid", "valid"));
    assert!(!looks_like_modular_multiplication("x + y"));
}

#[test]
fn proved_goals_are_counted() {
    assert_eq!(parse_proved_goals("[wp] Proved goals:    3 / 5\n"), (Some(3), Some(5)));
    assert_eq!(parse_proved_goals("nothing"), (None, None));
}

#[test]
fn violations_are_parsed() {
    let violation = parse_e_acsl_violation(
        "a.c: In function 'main'\na.c:4: Error: Assertion failed:\n\tThe failing predicate is:\n\tx > 0.\n",
    );
    assert!(violation.is_object());
}

#[test]
fn long_output_is_capped() {
    assert_eq!(capped_lossy_string(b"abc", 3), ("abc".to_string(), false));
    assert_eq!(capped_lossy_string(b"abcd", 3), ("abc".to_string(), true));
    assert_eq!(capped_lossy_string(&[0xff, b'a'], 9), ("\u{fffd}a".to_string(), false));
}

#[test]
fn dumps_are_sorted_before_the_cap() {
    let names = v(&["b_Why3_z3.psmt2", "notes.txt", "a_Why3_z3.why", "c_Why3_x.smt2"]);
    assert_eq!(
        select_why3_dumps(&names, 2),
        (v(&["a_Why3_z3.why", "b_Why3_z3.psmt2"]), 3)
    );
    assert_eq!(why3_dump_goal_id("f_post_Why3_z3.why"), "typed_f_post");
    let read = |name: &str, size: Option<u64>| DumpRead {
        file_name: name.to_string(),
        path: format!("/o/{name}"),
        size_bytes: size,
        content: Some("text".to_string()),
    };
    let (kept, omitted) =
        collect_why3_dump_files(&vec![read("a_Why3_z3.why", Some(4)), read("b_Why3_z3.why", None), read("c_Why3_z3.why", Some(9))], 5, 5);
    assert_eq!(kept.len(), 2);
    assert_eq!(omitted, 3);
    assert_eq!(kept[0].text("content"), Some("text"));
    assert!(kept[1].get("content").unwrap().is_null());
    assert_eq!(kept[1].flag("truncated"), Some(true));
}

#[test]
fn printed_obligations_are_answered() {
    let files = v(&["a.c"]);
    let args = wp_print_arguments(&no_options(), &files, true, "f");
    assert_eq!(
        args,
        v(&["a.c", "-wp", "-wp-print", "-wp-prover", "none", "-wp-fct", "f", "-wp-rte"])
    );
    let answer = run_wp_print(
        "frama-c",
        &files,
        &no_options(),
        true,
        "f",
        &finished(true, Some(0), "[wp] Warning: odd\n", " note \n"),
        60,
    );
    assert_eq!(answer.text("status"), Some("ok"));
    assert_eq!(answer.nat_at("code"), Some(0));
    assert_eq!(answer.text("stderr"), Some("note"));
    assert_eq!(answer.list("command").unwrap().len(), 9);
    assert_eq!(answer.nat_at("block_count"), Some(0));
    assert_eq!(wp_output_warnings("[wp] Warning: odd\n", "").len(), 1);
    assert!(parse_wp_print_blocks("").is_empty());
    assert_eq!(
        run_wp_print("frama-c", &vec![], &no_options(), false, "f", &CommandRun::TimedOut, 60).to_text(),
        r#"{"status":"unavailable","reason":"no source files available"}"#
    );
    assert_eq!(
        run_wp_print("frama-c", &files, &no_options(), false, "f", &CommandRun::TimedOut, 60).to_text(),
        r#"{"status":"timeout","timeout_seconds":60}"#
    );
    assert_eq!(
        run_wp_print("frama-c", &files, &no_options(), false, "f", &CommandRun::NotStarted("gone".to_string()), 60)
            .to_text(),
        r#"{"status":"error","error":"gone"}"#
    );
}

#[test]
fn memory_model_hypotheses_are_asked_for() {
    let (files, functions, options) = (v(&["a.c"]), v(&["f", "g"]), no_options());
    let question = ModelQuestion {
        frama_c_path: "frama-c",
        files: &files,
        project_options: &options,
        rte: false,
        model: Some("Typed"),
        functions: &functions,
        prop: None,
    };
    match run_wp_memory_model_probe(&question, &finished(true, Some(0), "", ""), vec![j("1")], "a run", 60) {
        ModelProbe::Answered(answer) => assert_eq!(
            answer.to_text(),
            r#"{"ran":true,"read_from":"a run","model":"Typed","command":["frama-c","a.c","-wp","-wp-prover","none","-wp-model","Typed","-wp-fct","f","-wp-fct","g"],"exit_code":0,"hypotheses":[1]}"#
        ),
        ModelProbe::Absent(reason) => panic!("{reason}"),
    }
    match run_wp_memory_model_probe(&question, &finished(false, None, " out ", ""), vec![], "a run", 60) {
        ModelProbe::Answered(answer) => {
            assert_eq!(answer.flag("ran"), Some(false));
            assert_eq!(
                answer.text("reason"),
                Some("frama-c exited on a signal during the memory-model probe")
            );
            assert_eq!(answer.text("stdout"), Some("out"));
            assert_eq!(answer.flag("stdout_truncated"), Some(false));
        }
        ModelProbe::Absent(reason) => panic!("{reason}"),
    }
    match run_wp_memory_model_probe(&question, &CommandRun::TimedOut, vec![], "a run", 60) {
        ModelProbe::Absent(reason) => assert_eq!(reason, "the memory-model probe exceeded 60 seconds"),
        ModelProbe::Answered(_) => panic!("answered"),
    }
    match run_wp_memory_model_probe(&question, &CommandRun::NotStarted("gone".to_string()), vec![], "a run", 60) {
        ModelProbe::Absent(reason) => assert_eq!(reason, "frama-c could not be started: gone"),
        ModelProbe::Answered(_) => panic!("answered"),
    }
}

#[test]
fn why3_dumps_are_answered() {
    let (files, options) = (v(&["a.c"]), no_options());
    let dump = Why3Dump {
        frama_c_path: "frama-c",
        files: &files,
        project_options: &options,
        rte: false,
        function: "exp:f",
        provers: "alt-ergo",
        out_dir: "/o",
    };
    assert_eq!(why3_dump_prefix("exp:f"), "frama-c-why3-dump-exp-f-");
    assert_eq!(
        why3_dump_arguments(&options, &files, false, "f", "alt-ergo", "/o"),
        v(&["a.c", "-wp", "-wp-gen", "-wp-prover", "alt-ergo", "-wp-out", "/o", "-wp-fct", "f"])
    );
    let none = run_why3_dump(&dump, &finished(true, Some(0), "", ""), vec![], 0, 60);
    assert_eq!(none.text("status"), Some("not_found"));
    let some = run_why3_dump(&dump, &finished(true, Some(0), "", ""), vec![j("{}")], 2, 60);
    assert_eq!(some.text("status"), Some("ok"));
    assert_eq!(some.nat_at("files_omitted"), Some(2));
    let failed = run_why3_dump(&dump, &finished(false, Some(1), "", ""), vec![j("{}")], 0, 60);
    assert_eq!(failed.text("status"), Some("error"));
    assert_eq!(
        run_why3_dump(&dump, &CommandRun::TimedOut, vec![], 0, 60).to_text(),
        r#"{"status":"timeout","timeout_seconds":60,"wp_out":"/o"}"#
    );
}

#[test]
fn counterexamples_are_answered() {
    let files = v(&["a.c"]);
    let args = counter_example_arguments(&no_options(), &files, true, "f", "z3");
    assert_eq!(
        args,
        v(&["a.c", "-wp", "-wp-counter-examples", "-wp-prover", "z3", "-wp-fct", "f", "-wp-rte"])
    );
    let answer = run_wp_counter_examples("frama-c", &files, &args, &finished(true, Some(0), "model", ""), 60);
    assert_eq!(answer.text("raw_stdout"), Some("model"));
    assert_eq!(answer.flag("truncated"), Some(false));
    assert_eq!(
        run_wp_counter_examples("frama-c", &vec![], &args, &CommandRun::TimedOut, 60).to_text(),
        r#"{"status":"unavailable","reason":"no source files available","command":[],"raw_stdout":null,"raw_stderr":null,"truncated":false}"#
    );
}

#[test]
fn each_prover_gets_an_attempt() {
    let mut p = params();
    p.timeout = Some(5);
    p.smoke = Some(true);
    p.cache = Some("none".to_string());
    let retry = IsolatedWpRetry {
        files: v(&["a.c"]),
        project_options: no_options(),
        rte_enabled: true,
        functions: v(&["f", "g"]),
        reported_functions: v(&["exp:f", "exp:g"]),
        provers: v(&["z3", "cvc5"]),
        params: &p,
        scope: "sandbox",
    };
    let env = no_environment();
    let settings = retry_settings(&p, &env).unwrap();
    assert_eq!(settings.cache, "none");
    assert_eq!(
        retry_arguments(&retry, &settings, "z3"),
        v(&[
            "a.c", "-wp", "-wp-prover", "z3", "-wp-model", "Typed+nocast", "-wp-rte", "-wp-timeout", "5",
            "-wp-smoke-tests", "-wp-cache", "none", "-wp-fct", "f,g"
        ])
    );
    assert_eq!(command_timeout_seconds(Some(5)), 35);
    assert_eq!(command_timeout_seconds(None), 630);

    let state = no_attempts();
    let state = take_attempt(
        state,
        "z3",
        &settings,
        &finished(false, Some(1), "died", ""),
        vec![j("1")],
        vec![j("1")],
    )
    .unwrap();
    let state = take_attempt(state, "slow", &settings, &CommandRun::TimedOut, vec![], vec![]).unwrap();
    let state = take_attempt(
        state,
        "cvc5",
        &settings,
        &finished(true, Some(0), "[wp] Proved goals:    2 / 2\n", ""),
        vec![],
        vec![j("1")],
    )
    .unwrap();
    let state = take_attempt(
        state,
        "alt-ergo",
        &settings,
        &finished(true, Some(0), "", ""),
        vec![j("7")],
        vec![],
    )
    .unwrap();
    assert_eq!(state.attempts.len(), 4);
    let answer = run_isolated_wp_retries(&retry, &settings, &env, state, "the retries");
    assert_eq!(
        answer.get("memory_model_probe").unwrap().to_text(),
        r#"{"ran":true,"reason":null,"read_from":"the retries","model":"Typed+nocast","hypotheses":[]}"#
    );
    assert_eq!(answer.at("wp_timeout_triage", "kind").unwrap().as_text(), Some("mcp_server_timeout"));
    assert_eq!(answer.at("effective_wp_config", "functions").unwrap().to_text(), r#"["exp:f","exp:g"]"#);
    assert_eq!(answer.list("wp_attempts").unwrap()[2].nat_at("proved_goals"), Some(2));
    assert_eq!(retry_reported(&answer).text("failure_kind"), answer.text("failure_kind"));
}

#[test]
fn a_failed_reading_is_only_partial() {
    let p = params();
    let env = no_environment();
    let settings = retry_settings(&p, &env).unwrap();
    assert_eq!(settings.cache, "update");
    let retry = IsolatedWpRetry {
        files: v(&["a.c"]),
        project_options: no_options(),
        rte_enabled: false,
        functions: vec![],
        reported_functions: vec![],
        provers: v(&["z3"]),
        params: &p,
        scope: "main",
    };
    let state = take_attempt(
        no_attempts(),
        "z3",
        &settings,
        &finished(false, Some(2), "", "Timeout"),
        vec![],
        vec![j("3")],
    )
    .unwrap();
    let answer = run_isolated_wp_retries(&retry, &settings, &env, state, "r");
    assert_eq!(answer.at("memory_model_probe", "ran").unwrap().as_flag(), Some(false));
    assert_eq!(answer.at("memory_model_probe", "hypotheses").unwrap().to_text(), "[3]");
    assert_eq!(answer.at("wp_timeout_triage", "kind").unwrap().as_text(), Some("prover_timeout"));
    let error = match take_attempt(
        no_attempts(),
        "z3",
        &settings,
        &CommandRun::NotStarted("gone".to_string()),
        vec![],
        vec![],
    ) {
        Ok(_) => panic!("it ran"),
        Err(error) => error,
    };
    assert_eq!(error.message, "failed to run isolated WP retry: gone");
    let bad = WpEnvironment { provers: None, timeout: Some("x".to_string()), par: None };
    assert!(retry_settings(&p, &bad).is_err());
    assert_eq!(
        retry_attempt_of_text("z3", Some(1), true, None, "fine").text("prover"),
        Some("z3")
    );
}

#[test]
fn system_directories_reach_the_preprocessor() {
    let options = ProjectLoadOptions {
        include_paths: v(&["inc"]),
        isystem_paths: v(&["sys", "sys2"]),
        nostdinc: true,
        defines: v(&["A=1"]),
        force_includes: v(&["x.h"]),
        ..no_options()
    };
    let args = project_cli_args(&options);
    assert_eq!(
        args[0],
        "-cpp-extra-args=-Iinc -isystem sys -isystem sys2 -nostdinc -DA=1 -include x.h"
    );
    let alone = ProjectLoadOptions { nostdinc: true, ..no_options() };
    assert_eq!(cpp_extra_args(&alone).unwrap(), "-nostdinc");
    let spaced = ProjectLoadOptions { isystem_paths: v(&["a b"]), ..no_options() };
    match validate_project_options(&spaced) {
        Ok(_) => panic!("accepted"),
        Err(e) => assert_eq!(e.message, ISYSTEM_COMPLAINT),
    }
}
