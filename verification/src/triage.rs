//! Why a WP run settled nothing: timeouts, cancelled tasks, a prover that crashed.

use crate::advice::{
    ANOMALY, ANOMALY_CAST, ANOMALY_CAST_RETRY, ANOMALY_VERSIONS, GOAL_TIMEOUT, GOALS_AT_BUDGET,
    NO_TIMEOUT, STATUS_PENDING, TASK_CANCELLED, TASK_REJECTED, TASK_TIMEOUT,
};
use crate::alarms::{evidence_item, evidence_of};
use crate::json::{
    collected, has_equal, json_eq, lemma_array_view, lemma_models_push, lemma_object_view,
    lemma_take_next, models, opt_json, str_or, text_or, Json, JsonView,
};
use crate::outside::json_text;
use crate::status::{
    consolidated_status, consolidated_status_spec, is_failed, is_timeout, raw_status,
    raw_status_spec, status_is_failed, status_is_timeout,
};
use crate::text::{ascii_lower, contains, occurs, opt_text, same, to_ascii_lowercase};
use crate::verdicts::is_text;
use crate::order::lemma_kept;
use vstd::prelude::*;

verus! {

/// What a run without a verdict is put down to.
pub open spec fn triage(
    kind: Seq<char>,
    retry: bool,
    confidence: Seq<char>,
    reason: Seq<char>,
    evidence: JsonView,
) -> JsonView {
    JsonView::object().with("kind"@, JsonView::Str(kind)).with(
        "retry_with_higher_prover_timeout"@,
        JsonView::Bool(retry),
    ).with("confidence"@, JsonView::Str(confidence)).with("reason"@, JsonView::Str(reason)).with(
        "evidence"@,
        evidence,
    )
}

/// What a run without a verdict is put down to.
pub fn wp_timeout_triage(
    kind: &str,
    retry_with_higher_prover_timeout: bool,
    confidence: &str,
    reason: &str,
    evidence: Json,
) -> (r: Json)
    ensures
        r@ == triage(kind@, retry_with_higher_prover_timeout, confidence@, reason@, evidence@),
{
    Json::object().with("kind", Json::str(kind)).with(
        "retry_with_higher_prover_timeout",
        Json::Bool(retry_with_higher_prover_timeout),
    ).with("confidence", Json::str(confidence)).with("reason", Json::str(reason)).with(
        "evidence",
        evidence,
    )
}

/// Nothing speaks of a timeout.
pub open spec fn triage_none() -> JsonView {
    triage("none"@, false, "high"@, NO_TIMEOUT@, JsonView::Array(Seq::empty()))
}

/// Nothing speaks of a timeout.
pub fn wp_timeout_triage_none() -> (r: Json)
    ensures
        r@ == triage_none(),
{
    wp_timeout_triage("none", false, "high", NO_TIMEOUT, Json::list0())
}

/// The status by which a goal is triaged.
pub open spec fn triage_status(goal: JsonView) -> Seq<char> {
    text_or(consolidated_status_spec(goal), "unknown"@)
}

/// The raw status by which a goal is triaged.
pub open spec fn triage_raw(goal: JsonView) -> Seq<char> {
    text_or(raw_status_spec(goal), triage_status(goal))
}

/// The two statuses of a goal, as evidence.
pub open spec fn status_evidence(goal: JsonView) -> JsonView {
    JsonView::Array(
        seq![
            evidence_item("normalized_status"@, JsonView::Str(triage_status(goal))),
            evidence_item("raw_status"@, JsonView::Str(triage_raw(goal))),
        ],
    )
}

/// Whether a goal says that its prover timed out.
pub open spec fn goal_timed_out(normalized: Seq<char>, raw: Seq<char>) -> bool {
    normalized == "timeout"@ || is_timeout(raw)
}

/// What a goal says of timeouts.
pub open spec fn goal_triage(goal: JsonView) -> JsonView {
    if goal_timed_out(triage_status(goal), triage_raw(goal)) {
        triage("prover_timeout"@, true, "high"@, GOAL_TIMEOUT@, status_evidence(goal))
    } else if (triage_status(goal) == "noresult"@ || triage_status(goal) == "unknown"@) && (
    raw_status_spec(goal) == Some("NORESULT"@) || raw_status_spec(goal) == Some("Never_tried"@)) {
        triage(
            "status_propagation_delay"@,
            false,
            "medium"@,
            STATUS_PENDING@,
            status_evidence(goal),
        )
    } else {
        triage_none()
    }
}

/// What a goal says of timeouts: that its prover timed out, that it has no final status yet, or
/// nothing.
pub fn wp_timeout_triage_from_goal(goal: &Json) -> (r: Json)
    ensures
        r@ == goal_triage(goal@),
{
    let normalized = str_or(consolidated_status(goal), "unknown");
    let raw = str_or(raw_status(goal), normalized);
    if same(normalized, "timeout") || status_is_timeout(raw) {
        let evidence = Json::list2(
            evidence_of("normalized_status", Json::str(normalized)),
            evidence_of("raw_status", Json::str(raw)),
        );
        return wp_timeout_triage("prover_timeout", true, "high", GOAL_TIMEOUT, evidence);
    }
    if (same(normalized, "noresult") || same(normalized, "unknown")) && (is_text(
        raw_status(goal),
        "NORESULT",
    ) || is_text(raw_status(goal), "Never_tried")) {
        let evidence = Json::list2(
            evidence_of("normalized_status", Json::str(normalized)),
            evidence_of("raw_status", Json::str(raw)),
        );
        return wp_timeout_triage(
            "status_propagation_delay",
            false,
            "medium",
            STATUS_PENDING,
            evidence,
        );
    }
    wp_timeout_triage_none()
}

/// What the tasks of a run say of timeouts, given their JSON text.
pub open spec fn tasks_triage(tasks: JsonView, text: Seq<char>) -> JsonView {
    let t = ascii_lower(text);
    let evidence = JsonView::Array(seq![evidence_item("tasks"@, tasks)]);
    if occurs(t, "timeout"@) {
        triage("mcp_server_timeout"@, false, "low"@, TASK_TIMEOUT@, evidence)
    } else if occurs(t, "killed"@) || occurs(t, "cancel"@) {
        triage("cancelled_task"@, false, "medium"@, TASK_CANCELLED@, evidence)
    } else if occurs(t, "reject"@) {
        triage("rejected_task"@, false, "medium"@, TASK_REJECTED@, evidence)
    } else {
        triage_none()
    }
}

/// What the tasks of a run say of timeouts, given their JSON text.
pub fn wp_timeout_triage_from_task_text(tasks: &Json, text: &str) -> (r: Json)
    ensures
        r@ == tasks_triage(tasks@, text@),
{
    let lower = to_ascii_lowercase(text);
    let t = lower.as_str();
    if contains(t, "timeout") {
        return wp_timeout_triage(
            "mcp_server_timeout",
            false,
            "low",
            TASK_TIMEOUT,
            Json::list1(evidence_of("tasks", tasks.copy())),
        );
    }
    if contains(t, "killed") || contains(t, "cancel") {
        return wp_timeout_triage(
            "cancelled_task",
            false,
            "medium",
            TASK_CANCELLED,
            Json::list1(evidence_of("tasks", tasks.copy())),
        );
    }
    if contains(t, "reject") {
        return wp_timeout_triage(
            "rejected_task",
            false,
            "medium",
            TASK_REJECTED,
            Json::list1(evidence_of("tasks", tasks.copy())),
        );
    }
    wp_timeout_triage_none()
}

/// What the tasks of a run say of timeouts.
pub fn wp_timeout_triage_from_tasks(tasks: &Json) -> (r: Json)
    ensures
        r@ == tasks_triage(tasks@, json_text(collected(tasks@))),
{
    let text = tasks.to_text();
    wp_timeout_triage_from_task_text(tasks, text.as_str())
}

/// The findings of a report about goals that timed out.
pub open spec fn timeout_findings(report: Option<JsonView>) -> Seq<JsonView> {
    match report {
        Some(r) => match r.list("findings"@) {
            Some(findings) => findings.filter(
                |f: JsonView| f.text("category"@) == Some("timeout"@),
            ),
            None => Seq::empty(),
        },
        None => Seq::empty(),
    }
}

/// The triggers of some findings, as far as they have one.
pub open spec fn triggers(findings: Seq<JsonView>) -> Seq<JsonView>
    decreases findings.len(),
{
    if findings.len() == 0 {
        Seq::empty()
    } else {
        match findings.last().get("trigger"@) {
            Some(t) => triggers(findings.drop_last()).push(t),
            None => triggers(findings.drop_last()),
        }
    }
}

/// What the tasks of a run say of timeouts or, where they say nothing, what its report says.
pub open spec fn run_triage(tasks: JsonView, text: Seq<char>, report: Option<JsonView>) -> JsonView {
    let from_tasks = tasks_triage(tasks, text);
    let found = timeout_findings(report);
    if from_tasks.text("kind"@) != Some("none"@) || found.len() == 0 {
        from_tasks
    } else {
        triage(
            "prover_timeout"@,
            false,
            "high"@,
            GOALS_AT_BUDGET@,
            JsonView::Array(
                seq![
                    evidence_item("goals_at_timeout"@, JsonView::num(found.len() as int)),
                    evidence_item("triggers"@, JsonView::Array(triggers(found))),
                ],
            ),
        )
    }
}

/// The number of findings about goals that timed out, and their triggers.
fn collect_timeouts(report: Option<&Json>) -> (r: (u64, Vec<Json>))
    ensures
        r.0 == timeout_findings(opt_json(report)).len(),
        models(r.1@) == triggers(timeout_findings(opt_json(report))),
{
    let empty: Vec<Json> = Vec::new();
    assert(models(empty@) =~= Seq::empty());
    let findings = match report {
        Some(r) => match r.list("findings") {
            Some(f) => f,
            None => {
                return (0, empty);
            },
        },
        None => {
            return (0, empty);
        },
    };
    let ghost all = models(findings@);
    let ghost wanted = |f: JsonView| f.text("category"@) == Some("timeout"@);
    let mut names: Vec<Json> = Vec::new();
    let mut count: u64 = 0;
    let mut i: usize = 0;
    proof {
        reveal(Seq::filter);
        assert(all.subrange(0, 0).filter(wanted) =~= Seq::empty());
        assert(models(names@) =~= Seq::empty());
    }
    while i < findings.len()
        invariant
            i <= findings@.len(),
            all == models(findings@),
            wanted == (|f: JsonView| f.text("category"@) == Some("timeout"@)),
            count <= i,
            count == all.subrange(0, i as int).filter(wanted).len(),
            models(names@) == triggers(all.subrange(0, i as int).filter(wanted)),
        decreases findings@.len() - i,
    {
        proof {
            reveal(Seq::filter);
            lemma_take_next(all, i as int);
        }
        let ghost kept = all.subrange(0, i as int).filter(wanted);
        let f = &findings[i];
        if is_text(f.text("category"), "timeout") {
            count = count + 1;
            assert(kept.push(all[i as int]).drop_last() =~= kept);
            match f.get("trigger") {
                Some(t) => {
                    let c = t.copy();
                    proof {
                        lemma_models_push(names@, c);
                    }
                    names.push(c);
                },
                None => {},
            }
        }
        i = i + 1;
    }
    assert(all.subrange(0, i as int) =~= all);
    (count, names)
}

/// Goal-level timeout evidence, given the JSON text of the tasks. The task-level answer wins when
/// it has one, since a cancelled or rejected task explains the whole run; the report is consulted
/// only where the tasks are silent.
pub fn wp_timeout_triage_from_task_text_and_report(
    tasks: &Json,
    text: &str,
    report: Option<&Json>,
) -> (r: Json)
    ensures
        r@ == run_triage(tasks@, text@, opt_json(report)),
{
    let from_tasks = wp_timeout_triage_from_task_text(tasks, text);
    if !is_text(from_tasks.text("kind"), "none") {
        return from_tasks;
    }
    let (count, names) = collect_timeouts(report);
    if count == 0 {
        return from_tasks;
    }
    let evidence = Json::list2(
        evidence_of("goals_at_timeout", Json::num(count)),
        evidence_of("triggers", Json::array(names)),
    );
    wp_timeout_triage("prover_timeout", false, "high", GOALS_AT_BUDGET, evidence)
}

/// Goal-level timeout evidence, for the caller that has a report.
pub fn wp_timeout_triage_from_tasks_and_report(tasks: &Json, report: Option<&Json>) -> (r: Json)
    ensures
        r@ == run_triage(tasks@, json_text(collected(tasks@)), opt_json(report)),
{
    let text = tasks.to_text();
    wp_timeout_triage_from_task_text_and_report(tasks, text.as_str(), report)
}

/// Where the tasks of a run say something of timeouts, the report does not change it.
pub proof fn law_tasks_win_over_the_report(
    tasks: JsonView,
    text: Seq<char>,
    report: Option<JsonView>,
)
    requires
        tasks_triage(tasks, text).text("kind"@) != Some("none"@),
    ensures
        run_triage(tasks, text, report) == tasks_triage(tasks, text),
{
}

// ---------------------------------------------------------------------------
// Failure kinds
// ---------------------------------------------------------------------------

/// The kind of a failure, by how it was triaged or, where that says nothing, by its category.
pub open spec fn failure_kind(category: Seq<char>, triage_kind: Seq<char>) -> Seq<char> {
    if triage_kind == "prover_timeout"@ {
        "prover_timeout"@
    } else if triage_kind == "mcp_server_timeout"@ {
        "mcp_timeout"@
    } else if triage_kind == "rejected_task"@ {
        "request_rejected"@
    } else if triage_kind == "cancelled_task"@ {
        "request_cancelled"@
    } else if triage_kind == "status_propagation_delay"@ {
        "status_pending"@
    } else if category == "timeout"@ {
        "prover_timeout"@
    } else if category == "internal_error"@ {
        "frama_c_internal"@
    } else if category == "missing_prover"@ {
        "missing_prover"@
    } else if category == "missing_why3_config"@ {
        "missing_why3_config"@
    } else if category == "request_rejected"@ {
        "request_rejected"@
    } else {
        "proof_obligation"@
    }
}

/// The kind of a failure, by how it was triaged or, where that says nothing, by its category.
pub fn wp_failure_kind(category: &str, triage_kind: &str) -> (r: &'static str)
    ensures
        r@ == failure_kind(category@, triage_kind@),
{
    if same(triage_kind, "prover_timeout") {
        "prover_timeout"
    } else if same(triage_kind, "mcp_server_timeout") {
        "mcp_timeout"
    } else if same(triage_kind, "rejected_task") {
        "request_rejected"
    } else if same(triage_kind, "cancelled_task") {
        "request_cancelled"
    } else if same(triage_kind, "status_propagation_delay") {
        "status_pending"
    } else if same(category, "timeout") {
        "prover_timeout"
    } else if same(category, "internal_error") {
        "frama_c_internal"
    } else if same(category, "missing_prover") {
        "missing_prover"
    } else if same(category, "missing_why3_config") {
        "missing_why3_config"
    } else if same(category, "request_rejected") {
        "request_rejected"
    } else {
        "proof_obligation"
    }
}

/// What is looked for among the goals of a run.
#[derive(Clone, Copy, Debug, PartialEq, Eq, Structural)]
pub enum WantedGoal {
    Failed,
    Unproved,
}

/// Whether a status is what is looked for.
pub open spec fn wanted_status(status: Seq<char>, wanted: WantedGoal) -> bool {
    match wanted {
        WantedGoal::Failed => is_failed(status),
        WantedGoal::Unproved => status == "unknown"@ || status == "invalid"@ || status
            == "failed"@,
    }
}

/// Whether a value is a goal, by the keys that name one.
pub open spec fn is_goal(v: JsonView) -> bool {
    v.get("stable_goal_id"@) is Some || v.get("goal_kind"@) is Some || v.get("property_marker"@)
        is Some
}

/// Whether a value is a goal with the status that is looked for.
pub open spec fn wanted_goal(v: JsonView, wanted: WantedGoal) -> bool {
    is_goal(v) && match consolidated_status_spec(v) {
        Some(s) => wanted_status(s, wanted),
        None => false,
    }
}

/// Whether a value holds, anywhere in it, a goal with the status that is looked for.
pub open spec fn holds_goal(v: JsonView, wanted: WantedGoal) -> bool
    decreases v,
{
    match v {
        JsonView::Array(s) => exists|i: int|
            #![trigger s[i]]
            0 <= i < s.len() && holds_goal(s[i], wanted),
        JsonView::Object(s) => wanted_goal(v, wanted) || exists|i: int|
            #![trigger s[i]]
            0 <= i < s.len() && holds_goal(s[i].1, wanted),
        _ => false,
    }
}

/// An array holds what one of its values holds.
proof fn lemma_array_holds_goal(s: Seq<JsonView>, i: int, wanted: WantedGoal)
    requires
        0 <= i < s.len(),
        holds_goal(s[i], wanted),
    ensures
        holds_goal(JsonView::Array(s), wanted),
{
    let a = JsonView::Array(s);
    assert(a->Array_0[i] == s[i]);
}

fn accepts(status: &str, wanted: WantedGoal) -> (r: bool)
    ensures
        r == wanted_status(status@, wanted),
{
    match wanted {
        WantedGoal::Failed => status_is_failed(status),
        WantedGoal::Unproved => same(status, "unknown") || same(status, "invalid") || same(
            status,
            "failed",
        ),
    }
}

/// Whether the payload holds a goal whose consolidated status the caller looks for, anywhere in
/// it.
pub fn wp_tasks_contain_goal_with_status(value: &Json, wanted: WantedGoal) -> (r: bool)
    ensures
        r == holds_goal(value@, wanted),
    decreases value,
{
    match value {
        Json::Array(v) => {
            let ghost all = models(v@);
            proof {
                lemma_array_view(*v);
            }
            let mut i: usize = 0;
            while i < v.len()
                invariant
                    *value == Json::Array(*v),
                    value@ == JsonView::Array(all),
                    i <= v@.len(),
                    all == models(v@),
                    forall|k: int| #![trigger all[k]] 0 <= k < i ==> !holds_goal(all[k], wanted),
                decreases v@.len() - i,
            {
                assert(decreases_to!(*value => value->Array_0));
                assert(decreases_to!(value->Array_0 => v@));
                assert(decreases_to!(v@ => v@[i as int]));
                assert(all[i as int] == v@[i as int]@);
                if wp_tasks_contain_goal_with_status(&v[i], wanted) {
                    proof {
                        lemma_array_holds_goal(all, i as int, wanted);
                    }
                    return true;
                }
                i = i + 1;
            }
            false
        },
        Json::Object(v) => {
            let ghost all = crate::json::entries(v@);
            proof {
                lemma_object_view(*v);
            }
            let named: bool = value.get("stable_goal_id").is_some() || value.get(
                "goal_kind",
            ).is_some() || value.get("property_marker").is_some();
            let judged: bool = match consolidated_status(value) {
                Some(s) => accepts(s, wanted),
                None => false,
            };
            if named && judged {
                return true;
            }
            let mut i: usize = 0;
            while i < v.len()
                invariant
                    *value == Json::Object(*v),
                    value@ == JsonView::Object(all),
                    !wanted_goal(value@, wanted),
                    i <= v@.len(),
                    all == crate::json::entries(v@),
                    forall|k: int| #![trigger all[k]] 0 <= k < i ==> !holds_goal(all[k].1, wanted),
                decreases v@.len() - i,
            {
                assert(decreases_to!(*value => value->Object_0));
                assert(decreases_to!(value->Object_0 => v@));
                assert(decreases_to!(v@ => v@[i as int]));
                assert(decreases_to!(v@[i as int] => v@[i as int].1));
                assert(all[i as int] == (v@[i as int].0@, v@[i as int].1@));
                if wp_tasks_contain_goal_with_status(&v[i].1, wanted) {
                    let ghost w = i as int;
                    assert(0 <= w < all.len() && holds_goal(all[w].1, wanted));
                    return true;
                }
                i = i + 1;
            }
            false
        },
        _ => false,
    }
}

/// Whether the payload holds a goal whose prover run failed.
pub fn wp_tasks_contain_failed_goal(value: &Json) -> (r: bool)
    ensures
        r == holds_goal(value@, WantedGoal::Failed),
{
    wp_tasks_contain_goal_with_status(value, WantedGoal::Failed)
}

/// Whether the payload holds a goal that is still to be proved.
pub fn wp_tasks_contain_unproved_goal(value: &Json) -> (r: bool)
    ensures
        r == holds_goal(value@, WantedGoal::Unproved),
{
    wp_tasks_contain_goal_with_status(value, WantedGoal::Unproved)
}

/// Whether a text, in small letters, speaks of a prover that is not there.
pub open spec fn says_missing_prover(t: Seq<char>) -> bool {
    occurs(t, "prover"@) && (occurs(t, "not found"@) || occurs(t, "unknown"@) || occurs(
        t,
        "missing"@,
    ) || occurs(t, "not available"@))
}

/// Whether a text, in small letters, speaks of a prover that is not there.
pub fn mentions_missing_prover(t: &str) -> (r: bool)
    ensures
        r == says_missing_prover(t@),
{
    contains(t, "prover") && (contains(t, "not found") || contains(t, "unknown") || contains(
        t,
        "missing",
    ) || contains(t, "not available"))
}

/// Whether a text, in small letters, speaks of Why3 not being configured.
pub open spec fn says_missing_why3(t: Seq<char>) -> bool {
    occurs(t, "why3"@) && (occurs(t, "config"@) || occurs(t, "configuration"@) || occurs(
        t,
        "not configured"@,
    ) || occurs(t, "no prover"@) || occurs(t, "not found"@))
}

/// Whether a text, in small letters, speaks of Why3 not being configured.
pub fn mentions_missing_why3(t: &str) -> (r: bool)
    ensures
        r == says_missing_why3(t@),
{
    contains(t, "why3") && (contains(t, "config") || contains(t, "configuration") || contains(
        t,
        "not configured",
    ) || contains(t, "no prover") || contains(t, "not found"))
}

/// The kind of failure that the tasks of a run show, given how they were triaged and their text.
pub open spec fn tasks_failure_kind(tasks: JsonView, triaged: JsonView, text: Seq<char>) -> Seq<char> {
    let kind = text_or(triaged.text("kind"@), "none"@);
    let t = ascii_lower(text);
    if kind != "none"@ {
        failure_kind("prover_unknown"@, kind)
    } else if holds_goal(tasks, WantedGoal::Failed) {
        "frama_c_internal"@
    } else if says_missing_prover(t) {
        "missing_prover"@
    } else if says_missing_why3(t) {
        "missing_why3_config"@
    } else if holds_goal(tasks, WantedGoal::Unproved) {
        "proof_obligation"@
    } else {
        "none"@
    }
}

/// The kind of failure that the tasks of a run show, given how they were triaged and their text.
/// A goal that no prover answered comes before what the text says: the tasks carry goal records
/// and no log text.
pub fn wp_failure_kind_from_task_text(tasks: &Json, triage: &Json, text: &str) -> (r: &'static str)
    ensures
        r@ == tasks_failure_kind(tasks@, triage@, text@),
{
    let kind = str_or(triage.text("kind"), "none");
    if !same(kind, "none") {
        return wp_failure_kind("prover_unknown", kind);
    }
    let lower = to_ascii_lowercase(text);
    let t = lower.as_str();
    if wp_tasks_contain_failed_goal(tasks) {
        "frama_c_internal"
    } else if mentions_missing_prover(t) {
        "missing_prover"
    } else if mentions_missing_why3(t) {
        "missing_why3_config"
    } else if wp_tasks_contain_unproved_goal(tasks) {
        "proof_obligation"
    } else {
        "none"
    }
}

/// The kind of failure that the tasks of a run show.
pub fn wp_failure_kind_from_tasks(tasks: &Json, triage: &Json) -> (r: &'static str)
    ensures
        r@ == tasks_failure_kind(tasks@, triage@, json_text(collected(tasks@))),
{
    let text = tasks.to_text();
    wp_failure_kind_from_task_text(tasks, triage, text.as_str())
}

// ---------------------------------------------------------------------------
// The backend
// ---------------------------------------------------------------------------

/// Whether a text, in small letters, reports Why3 giving up.
pub open spec fn why3_abort(t: Seq<char>) -> bool {
    occurs(t, "why3"@) && (occurs(t, "anomaly"@) || occurs(t, "invalid_argument"@) || occurs(
        t,
        "internal error"@,
    ) || occurs(t, "fatal error"@))
}

/// Whether already-lowercased text reports Why3 giving up rather than judging.
pub fn why3_aborted(text: &str) -> (r: bool)
    ensures
        r == why3_abort(text@),
{
    contains(text, "why3") && (contains(text, "anomaly") || contains(text, "invalid_argument")
        || contains(text, "internal error") || contains(text, "fatal error"))
}

/// The text of a message, in small letters.
pub open spec fn message_text(message: JsonView) -> Seq<char> {
    ascii_lower(text_or(message.text("message"@), ""@))
}

/// The messages that report Why3 giving up.
pub open spec fn abort_messages(messages: Seq<JsonView>) -> Seq<JsonView> {
    messages.filter(|m: JsonView| why3_abort(message_text(m)))
}

/// Whether a message warns about a cast between incompatible pointers.
pub open spec fn cast_warning(message: JsonView) -> bool {
    occurs(message_text(message), "cast with incompatible pointer"@)
}

/// Whether some message warns about a cast between incompatible pointers.
pub open spec fn warns_of_cast(messages: Seq<JsonView>) -> bool {
    exists|i: int| 0 <= i < messages.len() && cast_warning(#[trigger] messages[i])
}

/// The lines of the cast warnings that have one, each once, in the order in which they came.
pub open spec fn cast_lines(messages: Seq<JsonView>) -> Seq<JsonView>
    decreases messages.len(),
{
    if messages.len() == 0 {
        Seq::empty()
    } else {
        let rest = cast_lines(messages.drop_last());
        let m = messages.last();
        match m.at("source"@, "line"@) {
            Some(line) => if cast_warning(m) && !has_equal(rest, line) {
                rest.push(line)
            } else {
                rest
            },
            None => rest,
        }
    }
}

/// The most aborts that are shown.
pub const ANOMALY_SAMPLE: usize = 5;

/// The first `n` values, or all of them.
pub open spec fn first_values(s: Seq<JsonView>, n: int) -> Seq<JsonView> {
    if s.len() <= n {
        s
    } else {
        s.subrange(0, n)
    }
}

/// What some abort messages say.
pub open spec fn abort_texts(messages: Seq<JsonView>) -> Seq<JsonView> {
    messages.map_values(|m: JsonView| JsonView::or_null(m.get("message"@)))
}

/// Whether a memory model refuses casts.
pub open spec fn refuses_casts(model: Option<Seq<char>>) -> bool {
    match model {
        Some(m) => occurs(ascii_lower(m), "nocast"@),
        None => false,
    }
}

/// What to do next about an abort.
pub open spec fn abort_action(cast: bool) -> JsonView {
    if cast {
        JsonView::object().with("tool"@, JsonView::Str("run_wp"@)).with(
            "args"@,
            JsonView::object().with("model"@, JsonView::Str("Typed+cast"@)).with(
                "cache"@,
                JsonView::Str("None"@),
            ),
        ).with("reason"@, JsonView::Str(ANOMALY_CAST_RETRY@))
    } else {
        JsonView::object().with("tool"@, JsonView::Str("self_check"@)).with(
            "args"@,
            JsonView::object(),
        ).with("reason"@, JsonView::Str(ANOMALY_VERSIONS@))
    }
}

/// What the messages of a run say about the backend rather than about the code: nothing where
/// none reports an abort.
pub open spec fn backend_diagnosis(messages: Seq<JsonView>, model: Option<Seq<char>>) -> JsonView {
    let aborts = abort_messages(messages);
    let cast = refuses_casts(model) && warns_of_cast(messages);
    if aborts.len() == 0 {
        JsonView::Null
    } else {
        JsonView::object().with(
            "kind"@,
            JsonView::Str(
                if cast {
                    "why3_anomaly_with_pointer_cast"@
                } else {
                    "why3_anomaly"@
                },
            ),
        ).with("confidence"@, JsonView::Str("high"@)).with("model"@, JsonView::opt_text(model)).with(
            "reason"@,
            JsonView::Str(
                if cast {
                    ANOMALY_CAST@
                } else {
                    ANOMALY@
                },
            ),
        ).with("anomaly_count"@, JsonView::num(aborts.len() as int)).with(
            "anomalies"@,
            JsonView::Array(first_values(abort_texts(aborts), ANOMALY_SAMPLE as int)),
        ).with("anomalies_truncated"@, JsonView::Bool(aborts.len() > ANOMALY_SAMPLE)).with(
            "cast_warning_lines"@,
            JsonView::Array(cast_lines(messages)),
        ).with("cast_warning_lines_are_a_sample"@, JsonView::Bool(true)).with(
            "next_action"@,
            abort_action(cast),
        )
    }
}

/// Everything that is gathered from the messages of a run.
pub struct BackendSigns {
    pub anomalies: Vec<Json>,
    pub anomaly_count: u64,
    pub cast_lines: Vec<Json>,
    pub cast_warned: bool,
}

fn gather_signs(messages: &Vec<Json>) -> (r: BackendSigns)
    ensures
        r.anomaly_count == abort_messages(models(messages@)).len(),
        models(r.anomalies@) == first_values(
            abort_texts(abort_messages(models(messages@))),
            ANOMALY_SAMPLE as int,
        ),
        models(r.cast_lines@) == cast_lines(models(messages@)),
        r.cast_warned == warns_of_cast(models(messages@)),
{
    let ghost all = models(messages@);
    let mut anomalies: Vec<Json> = Vec::new();
    let mut count: u64 = 0;
    let mut lines: Vec<Json> = Vec::new();
    let mut warned: bool = false;
    let mut i: usize = 0;
    proof {
        reveal(Seq::filter);
        assert(abort_messages(all.subrange(0, 0)) =~= Seq::empty());
        assert(models(anomalies@) =~= Seq::empty());
        assert(abort_texts(Seq::empty()) =~= Seq::empty());
        assert(models(lines@) =~= Seq::empty());
    }
    while i < messages.len()
        invariant
            i <= messages@.len(),
            all == models(messages@),
            count <= i,
            count == abort_messages(all.subrange(0, i as int)).len(),
            models(anomalies@) == first_values(
                abort_texts(abort_messages(all.subrange(0, i as int))),
                ANOMALY_SAMPLE as int,
            ),
            models(lines@) == cast_lines(all.subrange(0, i as int)),
            warned == exists|k: int| 0 <= k < i && cast_warning(#[trigger] all[k]),
        decreases messages@.len() - i,
    {
        let ghost so_far = abort_messages(all.subrange(0, i as int));
        proof {
            reveal(Seq::filter);
            lemma_take_next(all, i as int);
        }
        let m = &messages[i];
        assert(all[i as int] == m@);
        let text = to_ascii_lowercase(str_or(m.text("message"), ""));
        if why3_aborted(text.as_str()) {
            proof {
                assert(abort_texts(so_far.push(all[i as int])) =~= abort_texts(so_far).push(
                    JsonView::or_null(all[i as int].get("message"@)),
                ));
                assert(models(anomalies@).len() == anomalies@.len());
            }
            count = count + 1;
            if anomalies.len() < ANOMALY_SAMPLE {
                let c = Json::or_null(m.get("message"));
                proof {
                    lemma_models_push(anomalies@, c);
                }
                anomalies.push(c);
            } else {
                assert(first_values(
                    abort_texts(so_far.push(all[i as int])),
                    ANOMALY_SAMPLE as int,
                ) =~= first_values(abort_texts(so_far), ANOMALY_SAMPLE as int));
            }
        }
        if contains(text.as_str(), "cast with incompatible pointer") {
            warned = true;
            match m.at("source", "line") {
                Some(line) => if !holds_value(&lines, line) {
                    let c = line.copy();
                    proof {
                        lemma_models_push(lines@, c);
                    }
                    lines.push(c);
                },
                None => {},
            }
        }
        i = i + 1;
    }
    assert(all.subrange(0, i as int) =~= all);
    BackendSigns { anomalies, anomaly_count: count, cast_lines: lines, cast_warned: warned }
}

/// Whether a value is equal to one of some values.
pub fn holds_value(values: &Vec<Json>, v: &Json) -> (r: bool)
    ensures
        r == has_equal(models(values@), v@),
{
    let ghost all = models(values@);
    let mut i: usize = 0;
    while i < values.len()
        invariant
            i <= values@.len(),
            all == models(values@),
            forall|k: int| 0 <= k < i ==> !json_eq(#[trigger] all[k], v@),
        decreases values@.len() - i,
    {
        assert(all[i as int] == values@[i as int]@);
        if values[i].same(v) {
            return true;
        }
        i = i + 1;
    }
    false
}

/// What the WP message stream says about the backend rather than about the code. When Why3
/// aborts, the goal is stamped failed and nothing in it names the abort: the anomaly is on the
/// message stream. Beside a cast warning, under a model that refuses casts, the next step is the
/// model and not the specification.
pub fn wp_backend_diagnosis(messages: &Vec<Json>, model: Option<&str>) -> (r: Json)
    ensures
        r@ == backend_diagnosis(models(messages@), opt_text(model)),
{
    let signs = gather_signs(messages);
    if signs.anomaly_count == 0 {
        return Json::Null;
    }
    let nocast: bool = match model {
        Some(m) => contains(to_ascii_lowercase(m).as_str(), "nocast"),
        None => false,
    };
    let cast: bool = nocast && signs.cast_warned;
    let kind = if cast {
        "why3_anomaly_with_pointer_cast"
    } else {
        "why3_anomaly"
    };
    let reason = if cast {
        ANOMALY_CAST
    } else {
        ANOMALY
    };
    let action = if cast {
        Json::object().with("tool", Json::str("run_wp")).with(
            "args",
            Json::object().with("model", Json::str("Typed+cast")).with("cache", Json::str("None")),
        ).with("reason", Json::str(ANOMALY_CAST_RETRY))
    } else {
        Json::object().with("tool", Json::str("self_check")).with("args", Json::object()).with(
            "reason",
            Json::str(ANOMALY_VERSIONS),
        )
    };
    Json::object().with("kind", Json::str(kind)).with("confidence", Json::str("high")).with(
        "model",
        Json::opt_str(model),
    ).with("reason", Json::str(reason)).with("anomaly_count", Json::num(signs.anomaly_count)).with(
        "anomalies",
        Json::array(signs.anomalies),
    ).with("anomalies_truncated", Json::Bool(signs.anomaly_count > ANOMALY_SAMPLE as u64)).with(
        "cast_warning_lines",
        Json::array(signs.cast_lines),
    ).with("cast_warning_lines_are_a_sample", Json::Bool(true)).with("next_action", action)
}

/// What the provers said of a goal.
pub open spec fn prover_result(goal: JsonView) -> JsonView {
    JsonView::object().with("status"@, JsonView::or_null(goal.get("status"@))).with(
        "raw_status"@,
        JsonView::or_null(goal.get("raw_status"@)),
    ).with("normalized_status"@, JsonView::or_null(goal.get("normalized_status"@))).with(
        "raw_property_status"@,
        JsonView::or_null(goal.get("raw_property_status"@)),
    ).with(
        "normalized_property_status"@,
        JsonView::or_null(goal.get("normalized_property_status"@)),
    ).with("counts_as_progress"@, crate::alarms::or_false(goal.get("counts_as_progress"@))).with(
        "vacuous"@,
        crate::alarms::or_false(goal.get("vacuous"@)),
    ).with(
        "requires_hypotheses"@,
        crate::alarms::or_false(goal.get("requires_hypotheses"@)),
    )
}

/// What the provers said of a goal.
pub fn wp_prover_result(goal: &Json) -> (r: Json)
    ensures
        r@ == prover_result(goal@),
{
    Json::object().with("status", Json::or_null(goal.get("status"))).with(
        "raw_status",
        Json::or_null(goal.get("raw_status")),
    ).with("normalized_status", Json::or_null(goal.get("normalized_status"))).with(
        "raw_property_status",
        Json::or_null(goal.get("raw_property_status")),
    ).with(
        "normalized_property_status",
        Json::or_null(goal.get("normalized_property_status")),
    ).with(
        "counts_as_progress",
        crate::alarms::copy_or_false(goal.get("counts_as_progress")),
    ).with("vacuous", crate::alarms::copy_or_false(goal.get("vacuous"))).with(
        "requires_hypotheses",
        crate::alarms::copy_or_false(goal.get("requires_hypotheses")),
    )
}

// ---------------------------------------------------------------------------
// What the triage comes to
// ---------------------------------------------------------------------------

/// More time is advised for a goal whose prover ran out of it, and for no other; a goal that was
/// not tried yet is waited for.
pub proof fn law_only_a_prover_timeout_asks_for_more_time(goal: JsonView, s: Seq<char>, raw: Seq<char>)
    requires
        goal.text("normalized_status"@) == Some(s),
        goal.text("raw_status"@) == Some(raw),
    ensures
        s == "timeout"@ || ascii_lower(raw) == ascii_lower("timeout"@) ==> goal_triage(goal).text(
            "kind"@,
        ) == Some("prover_timeout"@) && goal_triage(goal).flag("retry_with_higher_prover_timeout"@)
            == Some(true),
        s != "timeout"@ && ascii_lower(raw) != ascii_lower("timeout"@) ==> goal_triage(goal).flag(
            "retry_with_higher_prover_timeout"@,
        ) == Some(false),
        (s == "noresult"@ || s == "unknown"@) && (raw == "NORESULT"@ || raw == "Never_tried"@)
            && ascii_lower(raw) != ascii_lower("timeout"@) ==> goal_triage(goal).text("kind"@)
            == Some("status_propagation_delay"@),
        s != "timeout"@ && ascii_lower(raw) != ascii_lower("timeout"@) && raw != "NORESULT"@ && raw
            != "Never_tried"@ ==> goal_triage(goal).text("kind"@) == Some("none"@),
{
    broadcast use crate::json::group_object_reads;

    reveal_strlit("kind");
    reveal_strlit("retry_with_higher_prover_timeout");
    reveal_strlit("confidence");
    reveal_strlit("reason");
    reveal_strlit("evidence");
    assert("kind"@.len() == 4 && "retry_with_higher_prover_timeout"@.len() == 32);
    assert("confidence"@.len() == 10 && "reason"@.len() == 6);
    assert("evidence"@.len() == 8);
    reveal_strlit("noresult");
    reveal_strlit("unknown");
    reveal_strlit("timeout");
    assert("noresult"@.len() == 8 && "unknown"@.len() == 7);
    assert("timeout"@.len() == 7);
    assert("unknown"@[0] != "timeout"@[0]);
}

/// What the tasks of a run speak of decides what is told of it: a timeout, then that they were
/// killed or cancelled, then that they were refused; none of these asks for more time.
pub proof fn law_the_tasks_tell_what_happened(tasks: JsonView, text: Seq<char>)
    ensures
        ({
            let t = ascii_lower(text);
            let r = tasks_triage(tasks, text);
            &&& occurs(t, "timeout"@) ==> r.text("kind"@) == Some("mcp_server_timeout"@)
            &&& !occurs(t, "timeout"@) && (occurs(t, "killed"@) || occurs(t, "cancel"@)) ==> r.text(
                "kind"@,
            ) == Some("cancelled_task"@)
            &&& !occurs(t, "timeout"@) && !occurs(t, "killed"@) && !occurs(t, "cancel"@) && occurs(
                t,
                "reject"@,
            ) ==> r.text("kind"@) == Some("rejected_task"@)
            &&& !occurs(t, "timeout"@) && !occurs(t, "killed"@) && !occurs(t, "cancel"@) && !occurs(
                t,
                "reject"@,
            ) ==> r.text("kind"@) == Some("none"@)
            &&& r.flag("retry_with_higher_prover_timeout"@) == Some(false)
        }),
{
    broadcast use crate::json::group_object_reads;

    reveal_strlit("kind");
    reveal_strlit("retry_with_higher_prover_timeout");
    reveal_strlit("confidence");
    reveal_strlit("reason");
    reveal_strlit("evidence");
    assert("kind"@.len() == 4 && "retry_with_higher_prover_timeout"@.len() == 32);
    assert("confidence"@.len() == 10 && "reason"@.len() == 6);
    assert("evidence"@.len() == 8);
}

/// Goals that a report found at their time budget are told as a prover timeout that more time need
/// not help, where the tasks themselves tell nothing.
pub proof fn law_goals_at_their_budget_are_told(
    tasks: JsonView,
    text: Seq<char>,
    report: JsonView,
    findings: Seq<JsonView>,
    i: int,
)
    requires
        report.list("findings"@) == Some(findings),
        tasks_triage(tasks, text).text("kind"@) == Some("none"@),
    ensures
        0 <= i < findings.len() && findings[i].text("category"@) == Some("timeout"@) ==> run_triage(
            tasks,
            text,
            Some(report),
        ).text("kind"@) == Some("prover_timeout"@) && run_triage(tasks, text, Some(report)).flag(
            "retry_with_higher_prover_timeout"@,
        ) == Some(false),
        (forall|k: int|
            0 <= k < findings.len() ==> (#[trigger] findings[k]).text("category"@) != Some(
                "timeout"@,
            )) ==> run_triage(tasks, text, Some(report)).text("kind"@) == Some("none"@),
        run_triage(tasks, text, None).text("kind"@) == Some("none"@),
{
    broadcast use crate::json::group_object_reads;

    reveal_strlit("kind");
    reveal_strlit("retry_with_higher_prover_timeout");
    reveal_strlit("confidence");
    reveal_strlit("reason");
    reveal_strlit("evidence");
    assert("kind"@.len() == 4 && "retry_with_higher_prover_timeout"@.len() == 32);
    assert("confidence"@.len() == 10 && "reason"@.len() == 6);
    assert("evidence"@.len() == 8);
    let keep = |f: JsonView| f.text("category"@) == Some("timeout"@);
    let kept = timeout_findings(Some(report));
    assert(kept == findings.filter(keep));
    if 0 <= i < findings.len() && findings[i].text("category"@) == Some("timeout"@) {
        lemma_kept(findings, keep, i);
    }
    if kept.len() > 0 {
        lemma_kept(findings, keep, 0);
        let k = choose|k: int| 0 <= k < findings.len() && findings[k] == kept[0];
        assert(findings[k].text("category"@) == Some("timeout"@));
    }
}

/// What kind of failure a goal is follows from what its triage found before it follows from its
/// category; what is neither is an open obligation.
pub proof fn law_the_triage_decides_the_kind_of_failure(category: Seq<char>)
    ensures
        failure_kind(category, "prover_timeout"@) == "prover_timeout"@,
        failure_kind(category, "mcp_server_timeout"@) == "mcp_timeout"@,
        failure_kind(category, "rejected_task"@) == "request_rejected"@,
        failure_kind(category, "cancelled_task"@) == "request_cancelled"@,
        failure_kind(category, "status_propagation_delay"@) == "status_pending"@,
        failure_kind("timeout"@, "none"@) == "prover_timeout"@,
        failure_kind("internal_error"@, "none"@) == "frama_c_internal"@,
        failure_kind("missing_prover"@, "none"@) == "missing_prover"@,
        failure_kind("missing_why3_config"@, "none"@) == "missing_why3_config"@,
        failure_kind("request_rejected"@, "none"@) == "request_rejected"@,
        category != "timeout"@ && category != "internal_error"@ && category != "missing_prover"@
            && category != "missing_why3_config"@ && category != "request_rejected"@
            ==> failure_kind(category, "none"@) == "proof_obligation"@,
{
    reveal_strlit("prover_timeout");
    reveal_strlit("mcp_server_timeout");
    reveal_strlit("rejected_task");
    reveal_strlit("cancelled_task");
    reveal_strlit("status_propagation_delay");
    reveal_strlit("none");
    assert("prover_timeout"@.len() == 14 && "mcp_server_timeout"@.len() == 18);
    assert("rejected_task"@.len() == 13 && "cancelled_task"@.len() == 14);
    assert("status_propagation_delay"@.len() == 24 && "none"@.len() == 4);
    assert("prover_timeout"@[0] != "cancelled_task"@[0]);
    reveal_strlit("timeout");
    reveal_strlit("internal_error");
    reveal_strlit("missing_prover");
    reveal_strlit("missing_why3_config");
    reveal_strlit("request_rejected");
    assert("timeout"@.len() == 7 && "internal_error"@.len() == 14);
    assert("missing_prover"@.len() == 14 && "missing_why3_config"@.len() == 19);
    assert("request_rejected"@.len() == 16);
    assert("internal_error"@[0] != "missing_prover"@[0]);
}

/// A goal that failed is found among the tasks however deep it stands, and so is one that is open;
/// a text, a number or an empty list holds none.
pub proof fn law_goals_are_found_at_any_depth(v: JsonView, key: Seq<char>, s: Seq<char>, w: WantedGoal)
    ensures
        v.text("goal_kind"@) == Some(key) && v.text("normalized_status"@) == Some(s) && ascii_lower(s)
            == ascii_lower("failed"@) ==> holds_goal(v, WantedGoal::Failed),
        v.text("stable_goal_id"@) == Some(key) && v.text("normalized_status"@) == Some(s) && (s
            == "unknown"@ || s == "invalid"@ || s == "failed"@) ==> holds_goal(
            v,
            WantedGoal::Unproved,
        ),
        holds_goal(v, w) ==> holds_goal(JsonView::Array(seq![JsonView::Null, v]), w) && holds_goal(
            JsonView::Object(seq![(key, v)]),
            w,
        ),
        !holds_goal(JsonView::Str(s), w) && !holds_goal(JsonView::Null, w) && !holds_goal(
            JsonView::Array(Seq::empty()),
            w,
        ),
{
    if holds_goal(v, w) {
        let list = JsonView::Array(seq![JsonView::Null, v]);
        let two = list->Array_0;
        assert(0 <= 1 < two.len() && two[1] == v);
        assert(exists|i: int| #![trigger two[i]] 0 <= i < two.len() && holds_goal(two[i], w));
        let object = JsonView::Object(seq![(key, v)]);
        let one = object->Object_0;
        assert(0 <= 0 < one.len() && one[0].1 == v);
        assert(exists|i: int| #![trigger one[i]] 0 <= i < one.len() && holds_goal(one[i].1, w));
    }
}

/// What a run failed of is told in one order: what its triage found; a goal that failed; a prover
/// that is missing; a Why3 without configuration; a goal that is open; and nothing otherwise.
pub proof fn law_what_a_run_failed_of(tasks: JsonView, triaged: JsonView, text: Seq<char>, kind: Seq<char>)
    ensures
        ({
            let t = ascii_lower(text);
            let r = tasks_failure_kind(tasks, triaged, text);
            let quiet = triaged.text("kind"@) == Some("none"@);
            &&& triaged.text("kind"@) == Some("prover_timeout"@) ==> r == "prover_timeout"@
            &&& triaged.text("kind"@) == Some("cancelled_task"@) ==> r == "request_cancelled"@
            &&& quiet && holds_goal(tasks, WantedGoal::Failed) ==> r == "frama_c_internal"@
            &&& quiet && !holds_goal(tasks, WantedGoal::Failed) && occurs(t, "prover"@) && occurs(
                t,
                "not found"@,
            ) ==> r == "missing_prover"@
            &&& quiet && !holds_goal(tasks, WantedGoal::Failed) && !occurs(t, "prover"@) && occurs(
                t,
                "why3"@,
            ) && occurs(t, "config"@) ==> r == "missing_why3_config"@
            &&& quiet && !holds_goal(tasks, WantedGoal::Failed) && !occurs(t, "prover"@) && !occurs(
                t,
                "why3"@,
            ) && holds_goal(tasks, WantedGoal::Unproved) ==> r == "proof_obligation"@
            &&& quiet && !holds_goal(tasks, WantedGoal::Failed) && !holds_goal(
                tasks,
                WantedGoal::Unproved,
            ) && !occurs(t, "prover"@) && !occurs(t, "why3"@) ==> r == "none"@
        }),
{
    reveal_strlit("prover_timeout");
    reveal_strlit("mcp_server_timeout");
    reveal_strlit("rejected_task");
    reveal_strlit("cancelled_task");
    reveal_strlit("status_propagation_delay");
    reveal_strlit("none");
    assert("prover_timeout"@.len() == 14 && "mcp_server_timeout"@.len() == 18);
    assert("rejected_task"@.len() == 13 && "cancelled_task"@.len() == 14);
    assert("status_propagation_delay"@.len() == 24 && "none"@.len() == 4);
    assert("prover_timeout"@[0] != "cancelled_task"@[0]);
}

/// A crash of Why3 is told where a message of its speaks of an anomaly or a fatal error, with a
/// retry under a model that admits casts where the model in force refuses them and a cast was
/// warned of; without such a message there is nothing to tell.
pub proof fn law_a_crash_of_why3_is_diagnosed(
    messages: Seq<JsonView>,
    model: Seq<char>,
    i: int,
    j: int,
    text: Seq<char>,
    warning: Seq<char>,
)
    requires
        0 <= i < messages.len(),
        messages[i].text("message"@) == Some(text),
        occurs(ascii_lower(text), "why3"@),
        occurs(ascii_lower(text), "anomaly"@) || occurs(ascii_lower(text), "fatal error"@) || occurs(
            ascii_lower(text),
            "internal error"@,
        ) || occurs(ascii_lower(text), "invalid_argument"@),
    ensures
        ({
            let d = backend_diagnosis(messages, Some(model));
            let cast = occurs(ascii_lower(model), "nocast"@) && 0 <= j < messages.len()
                && messages[j].text("message"@) == Some(warning) && occurs(
                ascii_lower(warning),
                "cast with incompatible pointer"@,
            );
            &&& d is Object
            &&& cast ==> d.text("kind"@) == Some("why3_anomaly_with_pointer_cast"@) && d.at(
                "next_action"@,
                "tool"@,
            ) == Some(JsonView::Str("run_wp"@))
            &&& !occurs(ascii_lower(model), "nocast"@) ==> d.text("kind"@) == Some("why3_anomaly"@)
                && d.at("next_action"@, "tool"@) == Some(JsonView::Str("self_check"@))
            &&& d.text("model"@) == Some(model)
        }),
        backend_diagnosis(Seq::empty(), Some(model)) is Null,
{
    broadcast use crate::json::group_object_reads;

    reveal_strlit("kind");
    reveal_strlit("confidence");
    reveal_strlit("model");
    reveal_strlit("reason");
    reveal_strlit("anomaly_count");
    reveal_strlit("anomalies");
    reveal_strlit("anomalies_truncated");
    reveal_strlit("cast_warning_lines");
    reveal_strlit("cast_warning_lines_are_a_sample");
    reveal_strlit("next_action");
    assert("kind"@.len() == 4 && "confidence"@.len() == 10);
    assert("model"@.len() == 5 && "reason"@.len() == 6);
    assert("anomaly_count"@.len() == 13 && "anomalies"@.len() == 9);
    assert("anomalies_truncated"@.len() == 19 && "cast_warning_lines"@.len() == 18);
    assert("cast_warning_lines_are_a_sample"@.len() == 31 && "next_action"@.len() == 11);
    reveal_strlit("tool");
    reveal_strlit("args");
    reveal_strlit("reason");
    assert("tool"@.len() == 4 && "args"@.len() == 4);
    assert("reason"@.len() == 6);
    assert("tool"@[0] != "args"@[0]);
    let keep = |m: JsonView| why3_abort(message_text(m));
    assert(abort_messages(messages) == messages.filter(keep));
    lemma_kept(messages, keep, i);
    assert(abort_messages(messages).len() > 0);
    if 0 <= j < messages.len() && messages[j].text("message"@) == Some(warning) && occurs(
        ascii_lower(warning),
        "cast with incompatible pointer"@,
    ) {
        assert(cast_warning(messages[j]));
        assert(warns_of_cast(messages));
    }
    reveal(Seq::filter);
    assert(abort_messages(Seq::empty()) =~= Seq::empty());
}

/// What a prover answered is reported as the goal has it, field by field; a flag that is absent is
/// not set.
pub proof fn law_what_a_prover_answered_is_copied(goal: JsonView, v: JsonView)
    ensures
        goal.get("status"@) == Some(v) ==> prover_result(goal).get("status"@) == Some(v),
        goal.get("raw_status"@) == Some(v) ==> prover_result(goal).get("raw_status"@) == Some(v),
        goal.get("normalized_status"@) == Some(v) ==> prover_result(goal).get("normalized_status"@)
            == Some(v),
        goal.get("raw_property_status"@) == Some(v) ==> prover_result(goal).get(
            "raw_property_status"@,
        ) == Some(v),
        goal.get("normalized_property_status"@) == Some(v) ==> prover_result(goal).get(
            "normalized_property_status"@,
        ) == Some(v),
        goal.get("counts_as_progress"@) == Some(v) ==> prover_result(goal).get(
            "counts_as_progress"@,
        ) == Some(v),
        goal.get("counts_as_progress"@) is None ==> prover_result(goal).flag("counts_as_progress"@)
            == Some(false),
        goal.get("vacuous"@) == Some(v) ==> prover_result(goal).get("vacuous"@) == Some(v),
        goal.get("requires_hypotheses"@) == Some(v) ==> prover_result(goal).get(
            "requires_hypotheses"@,
        ) == Some(v),
{
    broadcast use crate::json::group_object_reads;

    reveal_strlit("status");
    reveal_strlit("raw_status");
    reveal_strlit("normalized_status");
    reveal_strlit("raw_property_status");
    reveal_strlit("normalized_property_status");
    reveal_strlit("counts_as_progress");
    reveal_strlit("vacuous");
    reveal_strlit("requires_hypotheses");
    assert("status"@.len() == 6 && "raw_status"@.len() == 10);
    assert("normalized_status"@.len() == 17 && "raw_property_status"@.len() == 19);
    assert("normalized_property_status"@.len() == 26 && "counts_as_progress"@.len() == 18);
    assert("vacuous"@.len() == 7 && "requires_hypotheses"@.len() == 19);
    assert("raw_property_status"@[1] != "requires_hypotheses"@[1]);
}

/// The lines where a cast was warned about are listed once each, in the order of the warnings.
pub proof fn law_cast_warnings_are_listed_once(messages: Seq<JsonView>, m: JsonView, line: JsonView)
    ensures
        m.at("source"@, "line"@) == Some(line) && cast_warning(m) && !has_equal(
            cast_lines(messages),
            line,
        ) ==> cast_lines(messages.push(m)) == cast_lines(messages).push(line),
        m.at("source"@, "line"@) == Some(line) && has_equal(cast_lines(messages), line)
            ==> cast_lines(messages.push(m)) == cast_lines(messages),
        !cast_warning(m) ==> cast_lines(messages.push(m)) == cast_lines(messages),
        m.at("source"@, "line"@) is None ==> cast_lines(messages.push(m)) == cast_lines(messages),
        cast_warning(m) <==> occurs(
            ascii_lower(text_or(m.text("message"@), ""@)),
            "cast with incompatible pointer"@,
        ),
{
    assert(messages.push(m).drop_last() =~= messages);
}

/// What was said of a crash is shown in its own words, and a status is shown raw and normalized.
pub proof fn law_what_was_said_is_shown(
    messages: Seq<JsonView>,
    i: int,
    t: Seq<char>,
    goal: JsonView,
)
    ensures
        0 <= i < messages.len() && messages[i].text("message"@) == Some(t) ==> abort_texts(
            messages,
        )[i] == JsonView::Str(t),
        abort_texts(messages).len() == messages.len(),
        ({
            let e = status_evidence(goal);
            &&& e is Array && e->Array_0.len() == 2
            &&& e->Array_0[0].text("field"@) == Some("normalized_status"@)
            &&& e->Array_0[0].text("value"@) == Some(triage_status(goal))
            &&& e->Array_0[1].text("field"@) == Some("raw_status"@)
            &&& e->Array_0[1].text("value"@) == Some(triage_raw(goal))
        }),
{
    broadcast use crate::json::group_object_reads;

    reveal_strlit("field");
    reveal_strlit("value");
    assert("field"@.len() == 5 && "value"@.len() == 5);
    assert("field"@[0] != "value"@[0]);
}

/// A text speaks of a prover that is missing, of Why3 without its configuration, or of a crash of
/// Why3, by these words.
pub proof fn law_what_a_text_speaks_of(t: Seq<char>)
    ensures
        occurs(t, "prover"@) && (occurs(t, "not found"@) || occurs(t, "unknown"@) || occurs(
            t,
            "missing"@,
        ) || occurs(t, "not available"@)) <==> says_missing_prover(t),
        occurs(t, "why3"@) && (occurs(t, "config"@) || occurs(t, "not configured"@) || occurs(
            t,
            "no prover"@,
        ) || occurs(t, "not found"@)) ==> says_missing_why3(t),
        !occurs(t, "why3"@) ==> !says_missing_why3(t) && !why3_abort(t),
        occurs(t, "why3"@) && (occurs(t, "anomaly"@) || occurs(t, "invalid_argument"@) || occurs(
            t,
            "internal error"@,
        ) || occurs(t, "fatal error"@)) <==> why3_abort(t),
{
}

} // verus!
