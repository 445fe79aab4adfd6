use frama_c_mcp::capability::{
    capabilities_payload, domain_requests, requests_available, ServerIdentity,
};
use frama_c_mcp::json::Json;
use frama_c_mcp::requests::{
    ast_utils_registered_requests, known_request_names, not_probed_reports, parameter_requests,
    probe_frame, probe_payload, probe_step, request_probe_status, required_requests, ProbeFrame,
    ProbeKind, ProbeReply, ProbeStep, RequiredRequest, unprobed_requests,
};
use frama_c_mcp::selfcheck::{
    buggy_fixture_reason, canary_payload, canary_unwritable, e_acsl_tool_entry, fixed_fixture_reason,
    no_socket_status, probe_failure, probe_failure_among, scratch_root_error, self_check_found,
    self_check_payload, spawn_plan, spawn_report, temp_dir_writeability, tool_surface_payload,
    CanaryRun, SelfCheck, SpawnOutcome, SpawnPlan, ToolSize,
};
use frama_c_mcp::session::frama_c_version_limitations;
use frama_c_mcp::version::{frama_c_version, min_frama_c_version, with_version_verdict};
use frama_c_mcp::wpmodel::WpModelSupport;

fn j(s: &str) -> Json {
    Json::parse(s).unwrap()
}

fn v(items: &[&str]) -> Vec<String> {
    items.iter().map(|s| s.to_string()).collect()
}

#[test]
fn versions_are_read_off_banners() {
    assert_eq!(frama_c_version("32.1 (Germanium)"), Some((32, 1)));
    assert_eq!(frama_c_version("33.0-beta"), Some((33, 0)));
    assert_eq!(frama_c_version("no number"), None);
    assert_eq!(min_frama_c_version(), "32.1");
    let good = with_version_verdict(j(r#"{"status":"ok","stdout":"32.1 (Germanium)"}"#));
    assert_eq!(good.flag("supported"), Some(true));
    let old = with_version_verdict(j(r#"{"status":"ok","stdout":"32.0 (Germanium)"}"#));
    assert_eq!(old.flag("supported"), Some(false));
    assert!(old.text("unsupported_reason").unwrap().starts_with("Frama-C 32.0 is below the 32.1"));
    let gone = with_version_verdict(j(r#"{"status":"missing"}"#));
    assert_eq!(gone.text("unsupported_reason"), Some("Frama-C did not report a version"));
    assert_eq!(frama_c_version_limitations(&good).len(), 1);
    assert_eq!(frama_c_version_limitations(&old).len(), 2);
    assert_eq!(
        frama_c_version_limitations(&j("{}"))[1],
        "The Frama-C in use is not supported: self_check reported no Frama-C version verdict."
    );
}

#[test]
fn a_tool_works_where_it_prints_what_a_working_one_prints() {
    assert_eq!(probe_failure(&j(r#"{"stderr":"x\nUsage: y"}"#), "Usage:"), None);
    assert_eq!(
        probe_failure(&j(r#"{"stdout":"a\n  FATAL Error: no cc "}"#), "Usage:"),
        Some("FATAL Error: no cc".to_string())
    );
    assert_eq!(
        probe_failure(&j(r#"{"error":" denied "}"#), "Usage:"),
        Some("denied".to_string())
    );
    assert_eq!(
        probe_failure(&j(r#"{"status":"ok"}"#), "Usage:"),
        Some("probe ok without a Usage: line".to_string())
    );
    assert_eq!(
        probe_failure(&j("{}"), "Usage:"),
        Some("probe unknown without a Usage: line".to_string())
    );
    assert_eq!(
        probe_failure_among(&j("{}"), "Usage:", &v(&["A", "B"]), &v(&["a", "b fatal error"])),
        Some("B".to_string())
    );
    assert_eq!(
        e_acsl_tool_entry("e-acsl-gcc", None).to_text(),
        r#"{"tool":"e-acsl-gcc","status":"missing","usable":false}"#
    );
    let found = e_acsl_tool_entry("e-acsl-gcc", Some(j(r#"{"stdout":"Usage: x"}"#)));
    assert_eq!(found.flag("usable"), Some(true));
    assert!(found.get("probe_error").unwrap().is_null());
}

#[test]
fn a_server_is_started_where_it_can_be() {
    let ok = j(r#"{"status":"ok"}"#);
    let bad = j(r#"{"status":"error"}"#);
    assert!(spawn_plan(&ok, &ok) == SpawnPlan::Spawn);
    assert!(spawn_plan(&bad, &ok) == SpawnPlan::NotWritable);
    assert!(spawn_plan(&bad, &bad) == SpawnPlan::NoFramaC);
    assert!(spawn_plan(&ok, &bad) == SpawnPlan::NoFramaC);
    assert_eq!(temp_dir_writeability("/t", &None).to_text(), r#"{"status":"ok","path":"/t"}"#);
    assert_eq!(
        temp_dir_writeability("/t", &Some("denied".to_string())).to_text(),
        r#"{"status":"error","path":"/t","error":"denied"}"#
    );
    assert_eq!(
        scratch_root_error("denied").to_text(),
        r#"{"status":"error","reason":"scratch root unusable: denied"}"#
    );
}

#[test]
fn what_was_not_asked_is_reported_with_the_reason() {
    let readback = vec!["plugins.eva.getX"];
    for (outcome, status, reason) in [
        (SpawnOutcome::NotWritable, "not_run", "temp-dir write check failed"),
        (SpawnOutcome::NoFramaC, "missing", "Frama-C binary is unavailable"),
        (SpawnOutcome::SourceNotWritten("e".to_string()), "error", "probe source could not be written"),
        (SpawnOutcome::NotSpawned("e".to_string()), "missing", "Frama-C binary could not be spawned"),
        (
            SpawnOutcome::NoSocket { socket: "/s".to_string(), output: Ok((b" out ".to_vec(), vec![])) },
            "error",
            "Frama-C probe server did not start",
        ),
    ] {
        let report = spawn_report(outcome, &readback);
        assert_eq!(report.status.text("status"), Some(status));
        assert!(report.required.iter().chain(&report.registered).all(|r| {
            r.text("status") == Some("not_probed") && r.text("reason") == Some(reason)
        }));
        let (required, registered) = not_probed_reports(reason, &readback);
        assert_eq!(report.required.len(), required.len());
        assert_eq!(report.registered.len(), registered.len());
    }
    assert_eq!(
        no_socket_status("/s", "ast_utils_plugin can't be found", "").text("ast_utils_plugin"),
        Some("missing")
    );
    assert_eq!(no_socket_status("/s", "", "").text("ast_utils_plugin"), Some("unknown"));
}

#[test]
fn reports_are_cut_apart_where_they_were_put_together() {
    let readback = vec!["plugins.eva.getX"];
    let (a, b, c) =
        (required_requests().len(), ast_utils_registered_requests().len(), parameter_requests(&readback).len());
    let probed: Vec<Json> = (0..a + b + c).map(|n| Json::num(n as u64)).collect();
    let report = spawn_report(SpawnOutcome::Started { socket: "/s".to_string(), probed }, &readback);
    assert_eq!(report.required.len(), a + c);
    assert_eq!(report.registered.len(), b);
    assert_eq!(report.registered[0].as_nat(), Some(a as u64));
    assert_eq!(report.required[a].as_nat(), Some((a + b) as u64));
    assert_eq!(
        report.status.to_text(),
        r#"{"status":"ok","socket":"/s","ast_utils_plugin":"loaded"}"#
    );
}

#[test]
fn probes_are_conversations() {
    let get = RequiredRequest { domain: "eva", request: "plugins.eva.x", kind: ProbeKind::Get };
    match probe_step(&get, "self_check", 3) {
        ProbeStep::Send { id, timeout_ms, accept_on_timeout, .. } => {
            assert_eq!(id, "self_check.3");
            assert_eq!(timeout_ms, 5000);
            assert!(!accept_on_timeout);
        }
        ProbeStep::Skip(_) => panic!("skipped"),
    }
    let dump = RequiredRequest {
        domain: "ast-utils",
        request: "plugins.ast-utils.dumpProject",
        kind: ProbeKind::Exec,
    };
    assert!(matches!(probe_step(&dump, "s", 0), ProbeStep::Skip(_)));
    assert!(matches!(
        probe_frame(ProbeFrame::Data { id: "a".to_string() }, "a", false),
        Some(ProbeReply::Answered)
    ));
    assert!(probe_frame(ProbeFrame::Data { id: "b".to_string() }, "a", false).is_none());
    assert!(probe_frame(ProbeFrame::Other, "a", false).is_none());
    assert!(matches!(
        probe_frame(ProbeFrame::TimedOut { error: "t".to_string() }, "a", true),
        Some(ProbeReply::Answered)
    ));
    assert!(matches!(
        probe_frame(ProbeFrame::TimedOut { error: "t".to_string() }, "a", false),
        Some(ProbeReply::Failed { .. })
    ));
    assert_eq!(request_probe_status(&get, &ProbeReply::Answered).text("status"), Some("present"));
    assert_eq!(request_probe_status(&get, &ProbeReply::Rejected).text("status"), Some("missing"));
    assert_eq!(
        request_probe_status(&get, &ProbeReply::Failed { error: "e".to_string() }).text("status"),
        Some("error")
    );
    assert!(probe_payload("kernel.ast.setFiles").to_text() == "[]");
}

#[test]
fn probed_requests_are_known() {
    let readback = vec!["plugins.eva.getX"];
    let names = known_request_names(&readback);
    for request in required_requests().iter().chain(&parameter_requests(&readback)) {
        assert!(names.contains(&request.request), "{}", request.request);
    }
    for (name, reason) in unprobed_requests() {
        assert!(names.contains(&name) && !reason.is_empty());
        assert!(!required_requests().iter().any(|request| request.request == name));
    }
    let mut sorted = names.clone();
    sorted.sort();
    sorted.dedup();
    assert_eq!(sorted.len(), names.len());
}

#[test]
fn the_report_is_put_together() {
    let ok = j(r#"{"status":"ok"}"#);
    let check = SelfCheck {
        version: "1.0".to_string(),
        build_commit: "abc".to_string(),
        frama_c_path: "frama-c".to_string(),
        max_sandboxes: 4,
        frama_c: ok.copy(),
        opam_switch_hint: ok.copy(),
        why3_provers: ok.copy(),
        e_acsl_tools: vec![j(r#"{"tool":"e-acsl-gcc","status":"found","usable":true}"#)],
        temp_dir_writeability: ok.copy(),
        spawn: spawn_report(SpawnOutcome::NoFramaC, &vec![]),
        processes: j("{}"),
    };
    let found = self_check_found(check);
    assert_eq!(found.at("ast_utils", "status").unwrap().as_text(), Some("not_loaded"));
    assert_eq!(found.at("server", "max_sandboxes").unwrap().as_nat(), Some(4));
    let support = WpModelSupport { bases: v(&["Typed"]), modifiers: vec![], source: "fallback" };
    let server = ServerIdentity {
        version: "1.0".to_string(),
        protocol_version: "2025-06-18".to_string(),
        supported_protocol_versions: v(&["2025-06-18"]),
    };
    let capabilities = capabilities_payload(&found, &server, &support, true, false);
    assert_eq!(capabilities.at("e_acsl", "available").unwrap().as_flag(), Some(true));
    assert_eq!(capabilities.at("e_acsl", "tools").unwrap().to_text(), r#"["e-acsl-gcc"]"#);
    assert_eq!(capabilities.at("wp", "available").unwrap().as_flag(), Some(false));
    assert_eq!(capabilities.at("wp", "default_provers").unwrap().to_text(), r#"["Alt-Ergo","CVC5"]"#);
    assert_eq!(capabilities.at("server", "tool_count").unwrap().as_nat(), Some(14));
    assert_eq!(capabilities.list("supported_workflows").unwrap().len(), 3);
    let payload = self_check_payload(found, capabilities, j("{}"));
    assert!(payload.get("capabilities").is_some() && payload.get("tool_surface").is_some());
    let reports = j(r#"{"required_requests":[{"domain":"eva","status":"present"},{"domain":"wp","status":"missing"}]}"#);
    assert!(requests_available(&domain_requests(&reports, "eva")));
    assert!(!requests_available(&domain_requests(&reports, "wp")));
    assert!(!requests_available(&domain_requests(&reports, "none")));
}

#[test]
fn the_largest_tools_are_shown() {
    let size = |tool: &str, bytes: u64| ToolSize { tool: tool.to_string(), bytes };
    let payload =
        tool_surface_payload(vec![size("a", 5), size("b", 9), size("c", 1), size("d", 7)], 40);
    assert_eq!(
        payload.to_text(),
        r#"{"tool_count":4,"tools_list_bytes":40,"largest":[{"tool":"b","bytes":9},{"tool":"d","bytes":7},{"tool":"a","bytes":5}]}"#
    );
}

#[test]
fn a_canary_is_judged_by_the_reason() {
    let alarm = j(r#"{"code":"ALARM_NOT_VALID","descr":"signed_overflow: x"}"#);
    let other = j(r#"{"code":"GOAL_OPEN"}"#);
    assert_eq!(buggy_fixture_reason("incomplete", &vec![other.copy(), alarm.copy()], &vec![]), None);
    assert_eq!(
        buggy_fixture_reason("proved", &vec![], &vec![]),
        Some("verdict proved, expected incomplete".to_string())
    );
    assert_eq!(
        buggy_fixture_reason("incomplete", &vec![other.copy()], &v(&["GOAL_OPEN"])),
        Some("incomplete, but no ALARM_NOT_VALID naming signed_overflow; got [\"GOAL_OPEN\"]".to_string())
    );
    assert_eq!(fixed_fixture_reason("proved", &vec![], &vec![]), None);
    assert_eq!(
        fixed_fixture_reason("proved", &vec![other.copy()], &v(&["GOAL_OPEN"])),
        Some("proved but incomplete[] is not empty: [\"GOAL_OPEN\"]".to_string())
    );
    assert_eq!(
        fixed_fixture_reason("incomplete", &vec![other.copy()], &v(&["A", "B"])),
        Some("verdict incomplete, expected proved; incomplete [\"A\", \"B\"]".to_string())
    );
    let buggy = CanaryRun::Checked(Ok(Json::object()
        .with("verdict", Json::str("incomplete"))
        .with("incomplete", Json::list1(alarm))));
    let fixed = CanaryRun::Checked(Ok(j(r#"{"verdict":"proved","incomplete":[]}"#)));
    let good = canary_payload(&buggy, &fixed);
    assert_eq!(good.flag("reliable"), Some(true));
    assert_eq!(good.list("cases").unwrap().len(), 2);
    let broken = canary_payload(&CanaryRun::NotWritten("full".to_string()), &CanaryRun::Checked(Err("x".to_string())));
    assert_eq!(broken.flag("reliable"), Some(false));
    assert_eq!(
        broken.text("reason"),
        Some("abs-int-buggy.c: could not write fixture: full; abs-int-fixed.c: check failed: x")
    );
    assert_eq!(broken.list("cases").unwrap().len(), 1);
    assert_eq!(
        canary_unwritable("full").to_text(),
        r#"{"reliable":false,"reason":"could not write the canary fixtures: full","cases":[]}"#
    );
}
