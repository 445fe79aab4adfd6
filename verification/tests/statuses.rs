use frama_c_mcp::error::{ErrorCode, ToolError};
use frama_c_mcp::json::Json;
use frama_c_mcp::status::{
    add_status_fields, consolidated_status, is_proved, normalize_frama_c_status, normalized_or_derived,
    own_status, own_status_is_proved, own_status_is_timeout, raw_status, status_counts_as_progress,
    status_is_failed, status_is_timeout, status_is_vacuous, status_requires_hypotheses,
};
use frama_c_mcp::verdicts::{
    append_to_error_message, goal_status_matches, known_goal_statuses, present_statuses,
    reject_unknown_status, render_sequent, wp_timed_out,
};

fn j(s: &str) -> Json {
    Json::parse(s).unwrap()
}

fn v(items: &[&str]) -> Vec<String> {
    items.iter().map(|s| s.to_string()).collect()
}

#[test]
fn spellings_are_folded() {
    for (raw, normalized) in [
        ("Valid", "valid"),
        ("VALID_UNDER_HYP", "valid_under_hyp"),
        ("Valid under hypothesis", "valid_under_hyp"),
        ("invalid-under-hypothesis", "invalid_under_hyp"),
        ("never_tried", "noresult"),
        ("No Result", "noresult"),
        ("", "unknown"),
        ("  ", "unknown"),
        ("Stronger Later!", "stronger_later"),
        ("valid_but_dead", "valid_but_dead"),
    ] {
        assert_eq!(normalize_frama_c_status(raw), normalized, "{raw}");
    }
}

#[test]
fn normalizing_twice_changes_nothing() {
    for raw in ["Valid", "no result", "Valid under hypothesis", "", "a__b--C", "été"] {
        let once = normalize_frama_c_status(raw);
        assert_eq!(normalize_frama_c_status(&once), once, "{raw}");
    }
}

#[test]
fn progress_is_unconditional() {
    assert!(status_counts_as_progress("valid"));
    assert!(!status_counts_as_progress("Valid"));
    assert!(!status_counts_as_progress("valid_under_hyp"));
    assert!(!status_requires_hypotheses("valid"));
    assert!(!status_is_vacuous("valid"));
    assert!(status_requires_hypotheses("valid_under_hyp"));
    assert!(status_requires_hypotheses("valid_under_false_hypothesis"));
    assert!(status_is_vacuous("valid_but_dead"));
    assert!(status_is_vacuous("valid_under_false_hypothesis"));
    assert!(is_proved("VALID"));
    assert!(!is_proved("valid_under_hyp"));
    assert!(status_is_failed("Failed"));
    assert!(status_is_timeout("TIMEOUT"));
}

#[test]
fn a_row_has_two_verdicts() {
    let row = j(r#"{"status":"VALID","normalized_property_status":"valid_under_hyp"}"#);
    assert_eq!(own_status(&row), Some("VALID"));
    assert_eq!(consolidated_status(&row), Some("valid_under_hyp"));
    assert_eq!(raw_status(&row), Some("VALID"));
    assert_eq!(normalized_or_derived(&row), "valid");
    assert!(own_status_is_proved(&row));
    assert!(!own_status_is_timeout(&row));
    assert_eq!(normalized_or_derived(&j("{}")), "unknown");
    assert!(!own_status_is_proved(&j("{}")));
}

#[test]
fn status_fields_are_added_once() {
    let mut row = j(r#"{"status":"Timeout"}"#);
    add_status_fields(&mut row);
    let once = row.to_text();
    assert_eq!(row.text("raw_status"), Some("Timeout"));
    assert_eq!(row.text("normalized_status"), Some("timeout"));
    assert_eq!(row.text("status"), Some("Timeout"));
    add_status_fields(&mut row);
    assert_eq!(row.to_text(), once);
}

#[test]
fn a_status_to_filter_by_must_be_known_or_present() {
    assert!(reject_unknown_status("valid", &v(&[])).is_ok());
    assert!(reject_unknown_status("odd_one", &v(&["odd_one"])).is_ok());
    let error = reject_unknown_status("odd_one", &v(&["valid"])).unwrap_err();
    assert!(error.code == ErrorCode::InvalidParams);
    assert!(error.message.starts_with(
        "status \"odd_one\" is not a status this data can hold; accepted: "
    ));
    assert!(reject_unknown_status("UNPROVED", &v(&[])).is_ok());
    assert!(known_goal_statuses().contains(&"valid".to_string()));
    assert!(goal_status_matches("valid", "valid"));
    let rows = vec![j(r#"{"status":"Valid"}"#), j(r#"{"status":"Unknown"}"#), j(r#"{"status":"Valid"}"#)];
    assert_eq!(present_statuses(&rows), v(&["Unknown", "Valid"]));
}

#[test]
fn errors_take_a_further_sentence() {
    let data = j(r#"{"kind":"WpTimeout","message":"it broke"}"#);
    let mut error = ToolError::internal_with("it broke".to_string(), data);
    append_to_error_message(&mut error, "try again");
    assert_eq!(error.message, "it broke; try again");
    assert_eq!(error.data.as_ref().unwrap().text("message"), Some("it broke; try again"));
    assert!(error.code == ErrorCode::InternalError);
    assert!(wp_timed_out(&error));
    let mut bare = ToolError::invalid("no".to_string());
    append_to_error_message(&mut bare, "never");
    assert_eq!(bare.message, "no; never");
    assert!(bare.data.is_none());
    assert!(!wp_timed_out(&bare));
}

#[test]
fn sequents_are_rendered() {
    let vc = j(
        r#"{"hypotheses":[{"kind":"type","formula":"is_sint32(x)"},{"formula":"0 <=\n x","loc":{"line":3},"description":"pre"}],"goal":"x  > 0"}"#,
    );
    assert_eq!(
        render_sequent(&vc),
        "WP terms, not source ACSL\n  type  is_sint32(x)\n  have  0 <= x    [line 3, pre]\n-------------------------------\n  goal  x > 0"
    );
    assert_eq!(
        render_sequent(&j("{}")),
        "WP terms, not source ACSL\n------------------------\n  goal  (no goal reported)"
    );
}

#[test]
fn a_normalized_status_has_one_form() {
    for raw in ["", "__", "Valid", " vALID -- Under\tHypothesis ", "Time Out!", "\u{e9}tat 7"] {
        let status = normalize_frama_c_status(raw);
        assert!(!status.is_empty());
        assert!(status.chars().all(|c| c.is_ascii_lowercase() || c.is_ascii_digit() || c == '_'));
        assert!(!status.starts_with('_') && !status.ends_with('_') && !status.contains("__"));
        assert_eq!(normalize_frama_c_status(&status), status);
        assert_eq!(normalize_frama_c_status(&raw.to_ascii_uppercase()), status);
        assert_eq!(normalize_frama_c_status(&raw.to_ascii_lowercase()), status);
    }
    assert_eq!(normalize_frama_c_status(" vALID -- Under\tHypothesis "), "valid_under_hyp");
    assert_eq!(normalize_frama_c_status("\u{e9}tat 7"), "tat_7");
}
