//! Which failure a goal that did not prove is, and what to do about it.

use crate::advice::{
    BACKEND_UNAVAILABLE, BAD_ASSIGNS, BEHAVIOR_PARTITION, CALLEE_CONTRACT, CALLEE_REQUIRES,
    COVERAGE_WARNING, INTERNAL_ERROR, LOOP_ASSIGNS, LOOP_INVARIANT, LOOP_VARIANT, MISSING_PROVER,
    MISSING_REQUIRES, MISSING_WHY3, NEEDS_COUNTEREXAMPLE, NO_EVIDENCE, PROVER_UNKNOWN,
    REQUEST_REJECTED, RTE, RUNTIME_CHECK, SPECIFICATION_WEAK, SPECIFICATION_WRONG, TIMEOUT_OTHER,
    TIMEOUT_RTE, UNSUPPORTED_PREDICATE, WEAK_ENSURES,
};
use crate::alarms::{e_acsl_wrappers, evidence_item, evidence_of};
use crate::goals::{add_identity_fields, copies_and, with_identity};
use crate::json::{
    collected, lemma_take_next, models, opt_list, str_or, text_in, text_or, texts_of, Json,
    JsonView,
};
use crate::outside::json_text;
use crate::proofread::{
    action_reason, failure_finding, finding_ref, proofread_action_reason,
    proofread_finding_from_wp_failure, proofread_finding_ref, proofread_report, report, FailureView,
    GOAL_BASIS, WpFailure,
};
use crate::stable::{
    classify_wp_goal, enrich_goal_stable_id, goal_name, with_stable_id, wp_goal_class,
};
use crate::status::{consolidated_status, raw_status, status_is_timeout};
use crate::text::{
    ascii_alnum, ascii_lower, begins, cat5, chars_of, contains, is_ascii_alnum, occurs, opt_text,
    owned, same, stands_at, stands_at_chars, starts_with, texts, to_ascii_lowercase,
};
use crate::triage::{
    failure_kind, goal_timed_out, goal_triage, mentions_missing_prover, mentions_missing_why3,
    says_missing_prover, says_missing_why3, triage_raw, triage_status, wp_failure_kind,
    wp_timeout_triage_from_goal,
};
use vstd::prelude::*;
use vstd::string::*;

verus! {

// ---------------------------------------------------------------------------
// Words
// ---------------------------------------------------------------------------

/// Whether `word` stands in `text` at `i`, with no letter or digit beside it.
pub open spec fn word_at(text: Seq<char>, word: Seq<char>, i: int) -> bool {
    &&& stands_at(text, word, i)
    &&& i == 0 || !is_ascii_alnum(text[i - 1])
    &&& i + word.len() == text.len() || !is_ascii_alnum(text[i + word.len()])
}

/// Whether every character is an ASCII letter or digit.
pub open spec fn all_alnum(s: Seq<char>) -> bool {
    forall|i: int| 0 <= i < s.len() ==> is_ascii_alnum(#[trigger] s[i])
}

/// Whether `word` is one of the runs of ASCII letters and digits that make up `text`.
pub open spec fn has_word(text: Seq<char>, word: Seq<char>) -> bool {
    all_alnum(word) && exists|i: int| word_at(text, word, i)
}

/// Whether `word` is one of the runs of ASCII letters and digits that make up `text`.
pub fn text_has_word(text: &str, word: &str) -> (r: bool)
    ensures
        r == has_word(text@, word@),
{
    let t = chars_of(text);
    let w = chars_of(word);
    let n: usize = t.len();
    let mut k: usize = 0;
    while k < w.len()
        invariant
            w@ == word@,
            k <= w@.len(),
            forall|j: int| 0 <= j < k ==> is_ascii_alnum(#[trigger] word@[j]),
        decreases w@.len() - k,
    {
        if !ascii_alnum(w[k]) {
            assert(!is_ascii_alnum(word@[k as int]));
            return false;
        }
        k = k + 1;
    }
    assert(all_alnum(word@));
    if w.len() > n {
        assert(forall|i: int| !word_at(text@, word@, i));
        return false;
    }
    let last: usize = n - w.len();
    let mut i: usize = 0;
    loop
        invariant
            t@ == text@,
            w@ == word@,
            n == t@.len(),
            all_alnum(word@),
            last == n - w@.len(),
            i <= last,
            forall|j: int| 0 <= j < i ==> !word_at(text@, word@, j),
        decreases last - i,
    {
        if stands_at_chars(&t, &w, i) && (i == 0 || !ascii_alnum(t[i - 1])) && (i == last
            || !ascii_alnum(t[i + w.len()])) {
            assert(word_at(text@, word@, i as int));
            return true;
        }
        assert(!word_at(text@, word@, i as int));
        if i == last {
            assert(forall|j: int| j > last ==> !word_at(text@, word@, j));
            assert(forall|j: int| !word_at(text@, word@, j));
            return false;
        }
        i = i + 1;
    }
}

// ---------------------------------------------------------------------------
// Categories
// ---------------------------------------------------------------------------

/// Which failure a goal is, how sure that is, what to do about it, and what showed it.
pub struct FailureReason {
    pub category: &'static str,
    pub confidence: &'static str,
    pub reason: &'static str,
    pub evidence: Json,
}

/// A failure and what showed it, as a mathematical object.
pub struct ReasonView {
    pub category: Seq<char>,
    pub confidence: Seq<char>,
    pub reason: Seq<char>,
    pub evidence: JsonView,
}

impl View for FailureReason {
    type V = ReasonView;

    open spec fn view(&self) -> ReasonView {
        ReasonView {
            category: self.category@,
            confidence: self.confidence@,
            reason: self.reason@,
            evidence: self.evidence@,
        }
    }
}

/// What is said of a failure that its status shows.
pub open spec fn by_status(
    category: Seq<char>,
    confidence: Seq<char>,
    reason: Seq<char>,
    status: Seq<char>,
) -> ReasonView {
    ReasonView {
        category,
        confidence,
        reason,
        evidence: evidence_item("normalized_status"@, JsonView::Str(status)),
    }
}

/// What is said of a failure that the goal's text shows.
pub open spec fn by_text(
    category: Seq<char>,
    confidence: Seq<char>,
    reason: Seq<char>,
    name: Seq<char>,
) -> ReasonView {
    ReasonView {
        category,
        confidence,
        reason,
        evidence: evidence_item("goal_text"@, JsonView::Str(name)),
    }
}

/// Whether a goal's text, in small letters, speaks of an internal failure.
pub open spec fn says_internal(t: Seq<char>) -> bool {
    occurs(t, "internal"@) || occurs(t, "exception"@) || occurs(t, "rejected"@) || occurs(
        t,
        "server error"@,
    ) || occurs(t, "plugin error"@)
}

/// Whether a goal's text, in small letters, speaks of something WP does not know.
pub open spec fn says_unsupported(t: Seq<char>) -> bool {
    occurs(t, "unsupported"@) || occurs(t, "unbound"@) || occurs(t, "unknown predicate"@) || occurs(
        t,
        "unknown logic"@,
    )
}

/// Which failure a goal's text, in small letters, shows, where neither its status nor its kind
/// does.
pub open spec fn text_reason(status: Seq<char>, name: Seq<char>, t: Seq<char>) -> ReasonView {
    if says_unsupported(t) {
        by_text("unsupported_predicate"@, "medium"@, UNSUPPORTED_PREDICATE@, name)
    } else if occurs(t, "call"@) && occurs(t, "requires"@) {
        by_text("callee_requires_too_strict"@, "high"@, CALLEE_REQUIRES@, name)
    } else if occurs(t, "behavior"@) && (occurs(t, "complete"@) || occurs(t, "disjoint"@) || occurs(
        t,
        "partition"@,
    )) {
        by_text("incomplete_behavior_partition"@, "medium"@, BEHAVIOR_PARTITION@, name)
    } else if (occurs(t, "call"@) || occurs(t, "callee"@)) && (occurs(t, "ensures"@) || occurs(
        t,
        "post"@,
    )) {
        by_text("callee_contract_too_weak"@, "medium"@, CALLEE_CONTRACT@, name)
    } else if occurs(t, "loop"@) && (occurs(t, "assigns"@) || occurs(t, "frame"@)) {
        by_text("weak_loop_assigns"@, "medium"@, LOOP_ASSIGNS@, name)
    } else if occurs(t, "loop"@) && has_word(t, "variant"@) {
        by_text("weak_loop_variant"@, "medium"@, LOOP_VARIANT@, name)
    } else if occurs(t, "loop"@) && occurs(t, "invariant"@) {
        by_text("weak_loop_invariant"@, "medium"@, LOOP_INVARIANT@, name)
    } else if occurs(t, "assigns"@) || occurs(t, "frame"@) {
        by_text("bad_assigns"@, "medium"@, BAD_ASSIGNS@, name)
    } else if occurs(t, "post"@) || occurs(t, "ensures"@) {
        by_text("weak_ensures"@, "medium"@, WEAK_ENSURES@, name)
    } else if occurs(t, "precondition"@) || occurs(t, "requires"@) {
        by_text("missing_requires"@, "medium"@, MISSING_REQUIRES@, name)
    } else {
        by_status("prover_unknown"@, "low"@, PROVER_UNKNOWN@, status)
    }
}

/// Which failure a goal is. A timeout is read before anything about the goal's text, because a
/// prover that ran out of time has not told what is wrong; setup failures come next for the same
/// reason. Only past those does the text of the goal decide.
pub open spec fn failure_reason(
    status: Seq<char>,
    raw: Seq<char>,
    goal_kind: Seq<char>,
    name: Seq<char>,
    t: Seq<char>,
) -> ReasonView {
    if goal_timed_out(status, raw) {
        by_status(
            "timeout"@,
            "high"@,
            if begins(goal_kind, "rte_"@) {
                TIMEOUT_RTE@
            } else {
                TIMEOUT_OTHER@
            },
            status,
        )
    } else if says_missing_prover(t) {
        by_text("missing_prover"@, "high"@, MISSING_PROVER@, name)
    } else if says_missing_why3(t) {
        by_text("missing_why3_config"@, "high"@, MISSING_WHY3@, name)
    } else if occurs(t, "rejected"@) || occurs(t, "reject"@) {
        by_text("request_rejected"@, "high"@, REQUEST_REJECTED@, name)
    } else if status == "failed"@ || says_internal(t) {
        by_status("internal_error"@, "high"@, INTERNAL_ERROR@, status)
    } else if begins(goal_kind, "rte_"@) {
        ReasonView {
            category: "rte"@,
            confidence: "high"@,
            reason: RTE@,
            evidence: evidence_item("goal_kind"@, JsonView::Str(goal_kind)),
        }
    } else {
        text_reason(status, name, t)
    }
}

fn shown_by_status(
    category: &'static str,
    confidence: &'static str,
    reason: &'static str,
    status: &str,
) -> (r: FailureReason)
    ensures
        r@ == by_status(category@, confidence@, reason@, status@),
{
    FailureReason {
        category,
        confidence,
        reason,
        evidence: evidence_of("normalized_status", Json::str(status)),
    }
}

fn shown_by_text(
    category: &'static str,
    confidence: &'static str,
    reason: &'static str,
    name: &str,
) -> (r: FailureReason)
    ensures
        r@ == by_text(category@, confidence@, reason@, name@),
{
    FailureReason {
        category,
        confidence,
        reason,
        evidence: evidence_of("goal_text", Json::str(name)),
    }
}

fn classify_by_text(status: &str, name: &str, t: &str) -> (r: FailureReason)
    ensures
        r@ == text_reason(status@, name@, t@),
{
    if contains(t, "unsupported") || contains(t, "unbound") || contains(t, "unknown predicate")
        || contains(t, "unknown logic") {
        shown_by_text("unsupported_predicate", "medium", UNSUPPORTED_PREDICATE, name)
    } else if contains(t, "call") && contains(t, "requires") {
        shown_by_text("callee_requires_too_strict", "high", CALLEE_REQUIRES, name)
    } else if contains(t, "behavior") && (contains(t, "complete") || contains(t, "disjoint")
        || contains(t, "partition")) {
        shown_by_text("incomplete_behavior_partition", "medium", BEHAVIOR_PARTITION, name)
    } else if (contains(t, "call") || contains(t, "callee")) && (contains(t, "ensures") || contains(
        t,
        "post",
    )) {
        shown_by_text("callee_contract_too_weak", "medium", CALLEE_CONTRACT, name)
    } else if contains(t, "loop") && (contains(t, "assigns") || contains(t, "frame")) {
        shown_by_text("weak_loop_assigns", "medium", LOOP_ASSIGNS, name)
    } else if contains(t, "loop") && text_has_word(t, "variant") {
        shown_by_text("weak_loop_variant", "medium", LOOP_VARIANT, name)
    } else if contains(t, "loop") && contains(t, "invariant") {
        shown_by_text("weak_loop_invariant", "medium", LOOP_INVARIANT, name)
    } else if contains(t, "assigns") || contains(t, "frame") {
        shown_by_text("bad_assigns", "medium", BAD_ASSIGNS, name)
    } else if contains(t, "post") || contains(t, "ensures") {
        shown_by_text("weak_ensures", "medium", WEAK_ENSURES, name)
    } else if contains(t, "precondition") || contains(t, "requires") {
        shown_by_text("missing_requires", "medium", MISSING_REQUIRES, name)
    } else {
        shown_by_status("prover_unknown", "low", PROVER_UNKNOWN, status)
    }
}

/// Which failure this is, what to write about it, and what showed it. The text is that of the
/// goal, in small letters.
pub fn classify_failure_reason(
    normalized_status: &str,
    raw_status: &str,
    goal_kind: &str,
    name: &str,
    text: &str,
) -> (r: FailureReason)
    ensures
        r@ == failure_reason(normalized_status@, raw_status@, goal_kind@, name@, text@),
{
    if same(normalized_status, "timeout") || status_is_timeout(raw_status) {
        let reason = if starts_with(goal_kind, "rte_") {
            TIMEOUT_RTE
        } else {
            TIMEOUT_OTHER
        };
        shown_by_status("timeout", "high", reason, normalized_status)
    } else if mentions_missing_prover(text) {
        shown_by_text("missing_prover", "high", MISSING_PROVER, name)
    } else if mentions_missing_why3(text) {
        shown_by_text("missing_why3_config", "high", MISSING_WHY3, name)
    } else if contains(text, "rejected") || contains(text, "reject") {
        shown_by_text("request_rejected", "high", REQUEST_REJECTED, name)
    } else if same(normalized_status, "failed") || contains(text, "internal") || contains(
        text,
        "exception",
    ) || contains(text, "rejected") || contains(text, "server error") || contains(
        text,
        "plugin error",
    ) {
        shown_by_status("internal_error", "high", INTERNAL_ERROR, normalized_status)
    } else if starts_with(goal_kind, "rte_") {
        FailureReason {
            category: "rte",
            confidence: "high",
            reason: RTE,
            evidence: evidence_of("goal_kind", Json::str(goal_kind)),
        }
    } else {
        classify_by_text(normalized_status, name, text)
    }
}

/// A goal whose prover ran out of time is a timeout, whatever its text says.
pub proof fn law_timeout_is_read_first(
    status: Seq<char>,
    raw: Seq<char>,
    goal_kind: Seq<char>,
    name: Seq<char>,
    t: Seq<char>,
)
    requires
        goal_timed_out(status, raw),
    ensures
        failure_reason(status, raw, goal_kind, name, t).category == "timeout"@,
{
}

// ---------------------------------------------------------------------------
// What could be checked at run time
// ---------------------------------------------------------------------------

/// Whether a claim that did not prove could be checked at run time.
pub open spec fn checkable(category: Seq<char>, goal_kind: Seq<char>) -> bool {
    category == "missing_requires"@ || category == "callee_requires_too_strict"@ || category
        == "weak_ensures"@ || category == "weak_loop_invariant"@ || category == "rte"@ || goal_kind
        == "user_assert"@ || begins(goal_kind, "rte_"@)
}

/// Whether a claim that did not prove could be checked at run time.
pub fn runtime_checkable_claim(category: &str, goal_kind: &str) -> (r: bool)
    ensures
        r == checkable(category@, goal_kind@),
{
    same(category, "missing_requires") || same(category, "callee_requires_too_strict") || same(
        category,
        "weak_ensures",
    ) || same(category, "weak_loop_invariant") || same(category, "rte") || same(
        goal_kind,
        "user_assert",
    ) || starts_with(goal_kind, "rte_")
}

/// The suggestion to check a claim at run time, or null.
pub open spec fn runtime_suggestion(category: Seq<char>, goal_kind: Seq<char>) -> JsonView {
    if checkable(category, goal_kind) {
        JsonView::object().with("kind"@, JsonView::Str("external_manual_e_acsl"@)).with(
            "reason"@,
            JsonView::Str(RUNTIME_CHECK@),
        ).with(
            "availability"@,
            JsonView::object().with("tool"@, JsonView::Str("self_check"@)).with(
                "field"@,
                JsonView::Str("capabilities.e_acsl.available"@),
            ),
        ).with("manual_tools"@, JsonView::strings(e_acsl_wrappers())).with(
            "coverage_warning"@,
            JsonView::Str(COVERAGE_WARNING@),
        )
    } else {
        JsonView::Null
    }
}

/// The suggestion to check a claim at run time, or null.
pub fn runtime_check_suggestion(category: &str, goal_kind: &str) -> (r: Json)
    ensures
        r@ == runtime_suggestion(category@, goal_kind@),
{
    if !runtime_checkable_claim(category, goal_kind) {
        return Json::Null;
    }
    let mut tools: Vec<String> = Vec::new();
    tools.push(owned("e-acsl-gcc"));
    tools.push(owned("e-acsl-gcc.sh"));
    assert(texts(tools@) =~= e_acsl_wrappers());
    Json::object().with("kind", Json::str("external_manual_e_acsl")).with(
        "reason",
        Json::str(RUNTIME_CHECK),
    ).with(
        "availability",
        Json::object().with("tool", Json::str("self_check")).with(
            "field",
            Json::str("capabilities.e_acsl.available"),
        ),
    ).with("manual_tools", Json::strings(&tools)).with(
        "coverage_warning",
        Json::str(COVERAGE_WARNING),
    )
}

/// Whether a category says that no prover reached a verdict.
pub open spec fn setup_failure(category: Seq<char>) -> bool {
    category == "missing_prover"@ || category == "missing_why3_config"@ || category
        == "request_rejected"@ || category == "internal_error"@
}

/// What a failure means: its kind, in plain words, and the tool to call next.
pub open spec fn verdict_of(category: Seq<char>, suggested: bool) -> (
    Seq<char>,
    Seq<char>,
    Seq<char>,
) {
    if setup_failure(category) {
        ("backend_unavailable"@, BACKEND_UNAVAILABLE@, "self_check"@)
    } else if suggested {
        ("needs_e_acsl_counterexample"@, NEEDS_COUNTEREXAMPLE@, "self_check"@)
    } else if category == "prover_unknown"@ {
        ("specification_too_weak"@, NO_EVIDENCE@, "get_wp_goals"@)
    } else if category == "unsupported_predicate"@ || category == "incomplete_behavior_partition"@ {
        ("specification_wrong"@, SPECIFICATION_WRONG@, "get_wp_goals"@)
    } else {
        ("specification_too_weak"@, SPECIFICATION_WEAK@, "get_wp_goals"@)
    }
}

/// What a failure means.
pub open spec fn semantic_verdict(category: Seq<char>, suggestion: JsonView) -> JsonView {
    let v = verdict_of(category, !(suggestion is Null));
    JsonView::object().with("kind"@, JsonView::Str(v.0)).with(
        "plain_language"@,
        JsonView::Str(v.1),
    ).with("next_tool"@, JsonView::Str(v.2)).with("runtime_check_suggestion"@, suggestion)
}

/// What a failure means. The setup categories say that no prover reached a verdict, so they are
/// never read as a weak specification.
pub fn semantic_wp_verdict(category: &str, runtime_check_suggestion: &Json) -> (r: Json)
    ensures
        r@ == semantic_verdict(category@, runtime_check_suggestion@),
{
    let (kind, plain, tool) = if same(category, "missing_prover") || same(
        category,
        "missing_why3_config",
    ) || same(category, "request_rejected") || same(category, "internal_error") {
        ("backend_unavailable", BACKEND_UNAVAILABLE, "self_check")
    } else if !runtime_check_suggestion.is_null() {
        ("needs_e_acsl_counterexample", NEEDS_COUNTEREXAMPLE, "self_check")
    } else if same(category, "prover_unknown") {
        ("specification_too_weak", NO_EVIDENCE, "get_wp_goals")
    } else if same(category, "unsupported_predicate") || same(
        category,
        "incomplete_behavior_partition",
    ) {
        ("specification_wrong", SPECIFICATION_WRONG, "get_wp_goals")
    } else {
        ("specification_too_weak", SPECIFICATION_WEAK, "get_wp_goals")
    };
    Json::object().with("kind", Json::str(kind)).with("plain_language", Json::str(plain)).with(
        "next_tool",
        Json::str(tool),
    ).with("runtime_check_suggestion", runtime_check_suggestion.copy())
}

// ---------------------------------------------------------------------------
// Classifying a goal
// ---------------------------------------------------------------------------

/// The kind of a goal: the one it carries, or the one its name shows.
pub open spec fn kind_of_goal(goal: JsonView) -> Seq<char> {
    text_or(goal.text("goal_kind"@), wp_goal_class(goal).0)
}

/// The text in which a goal's failure is looked for, given the goal's JSON text.
pub open spec fn failure_text(goal: JsonView, text: Seq<char>) -> Seq<char> {
    ascii_lower(
        goal_name(goal) + " "@ + text_or(
            texts_of(
                goal.or_get(goal.or_get(goal.get("property"@), "property_marker"@), "wpo"@),
            ),
            ""@,
        ) + " "@ + text,
    )
}

/// Which failure a goal is, given its JSON text.
pub open spec fn goal_reason(goal: JsonView, text: Seq<char>) -> ReasonView {
    failure_reason(
        triage_status(goal),
        triage_raw(goal),
        kind_of_goal(goal),
        goal_name(goal),
        failure_text(goal, text),
    )
}

/// The finding about a goal, given its JSON text.
pub open spec fn goal_finding(goal: JsonView, function: Option<Seq<char>>, text: Seq<char>) -> JsonView {
    let reason = goal_reason(goal, text);
    failure_finding(
        goal,
        FailureView {
            function,
            category: reason.category,
            confidence: reason.confidence,
            reason: reason.reason,
            evidence: JsonView::Array(seq![reason.evidence]),
            goal_kind: kind_of_goal(goal),
            raw_status: triage_raw(goal),
            normalized_status: triage_status(goal),
        },
    )
}

/// Whether a kind of failure is one that only the setup can answer.
pub open spec fn needs_self_check(kind: Seq<char>) -> bool {
    kind == "missing_prover"@ || kind == "missing_why3_config"@ || kind == "request_rejected"@
        || kind == "frama_c_internal"@
}

/// The tool to call next about a failure, and why.
pub open spec fn next_tool(
    kind: Seq<char>,
    function: Option<Seq<char>>,
    reason: Seq<char>,
) -> JsonView {
    if needs_self_check(kind) {
        JsonView::object().with("tool"@, JsonView::Str("self_check"@)).with(
            "args"@,
            JsonView::object(),
        ).with("reason"@, JsonView::Str(reason))
    } else {
        JsonView::object().with("tool"@, JsonView::Str("get_wp_goals"@)).with(
            "args"@,
            match function {
                Some(f) => JsonView::object().with(
                    "want"@,
                    JsonView::Array(seq![JsonView::Str("vc"@)]),
                ).with("function"@, JsonView::Str(f)),
                None => JsonView::object(),
            },
        ).with("reason"@, JsonView::Str(reason))
    }
}

/// The first finding of a report, or null.
pub open spec fn top_finding(r: JsonView) -> JsonView {
    match r.list("findings"@) {
        Some(findings) => if findings.len() > 0 {
            findings[0]
        } else {
            JsonView::Null
        },
        None => JsonView::Null,
    }
}

fn first_finding(report: &Json) -> (r: Json)
    ensures
        r@ == top_finding(report@),
{
    match report.list("findings") {
        Some(findings) => if findings.len() > 0 {
            assert(models(findings@)[0] == findings@[0]@);
            findings[0].copy()
        } else {
            assert(models(findings@).len() == 0);
            Json::Null
        },
        None => Json::Null,
    }
}

/// The kind under which a goal was triaged.
pub open spec fn triage_kind(goal: JsonView) -> Seq<char> {
    text_or(goal_triage(goal).text("kind"@), "none"@)
}

/// The classification of a goal that did not prove, given its JSON text.
pub open spec fn classification(
    goal: JsonView,
    function: Option<Seq<char>>,
    text: Seq<char>,
) -> JsonView {
    let reason = goal_reason(goal, text);
    let kind = failure_kind(reason.category, triage_kind(goal));
    let goal_report = report(seq![goal_finding(goal, function, text)], GOAL_BASIS@);
    let top = top_finding(goal_report);
    let suggestion = runtime_suggestion(reason.category, kind_of_goal(goal));
    let tool = next_tool(kind, function, action_reason(top, reason.reason)).with(
        "blockers"@,
        JsonView::Array(Seq::empty()),
    ).with("confidence"@, JsonView::Str(reason.confidence)).with("finding"@, finding_ref(top));
    let action = if suggestion is Null {
        tool
    } else {
        tool.with("runtime_check_suggestion"@, suggestion)
    };
    JsonView::object().with("category"@, JsonView::Str(reason.category)).with(
        "failure_kind"@,
        JsonView::Str(kind),
    ).with("confidence"@, JsonView::Str(reason.confidence)).with(
        "status"@,
        JsonView::Str(triage_raw(goal)),
    ).with("normalized_status"@, JsonView::Str(triage_status(goal))).with(
        "goal_kind"@,
        JsonView::Str(kind_of_goal(goal)),
    ).with("evidence"@, JsonView::Array(seq![reason.evidence])).with("next_action"@, action).with(
        "wp_timeout_triage"@,
        goal_triage(goal),
    ).with("proofread_report"@, goal_report).with("runtime_check_suggestion"@, suggestion).with(
        "semantic_verdict"@,
        semantic_verdict(reason.category, suggestion),
    )
}

fn next_tool_for(kind: &str, function: Option<&str>, reason: &str) -> (r: Json)
    ensures
        r@ == next_tool(kind@, opt_text(function), reason@),
{
    if same(kind, "missing_prover") || same(kind, "missing_why3_config") || same(
        kind,
        "request_rejected",
    ) || same(kind, "frama_c_internal") {
        Json::object().with("tool", Json::str("self_check")).with("args", Json::object()).with(
            "reason",
            Json::str(reason),
        )
    } else {
        let args = match function {
            Some(f) => Json::object().with("want", Json::list1(Json::str("vc"))).with(
                "function",
                Json::str(f),
            ),
            None => Json::object(),
        };
        Json::object().with("tool", Json::str("get_wp_goals")).with("args", args).with(
            "reason",
            Json::str(reason),
        )
    }
}

/// The classification of a goal that did not prove, given its JSON text.
pub fn classify_wp_failure_from_text(goal: &Json, function: Option<&str>, text: &str) -> (r: Json)
    ensures
        r@ == classification(goal@, opt_text(function), text@),
{
    let normalized = str_or(consolidated_status(goal), "unknown");
    let raw = str_or(raw_status(goal), normalized);
    let inferred = classify_wp_goal(goal);
    let goal_kind = str_or(goal.text("goal_kind"), inferred.0.as_str());
    let name = str_or(goal.text("name"), "");
    let property = str_or(
        text_in(goal.or_get(goal.or_get(goal.get("property"), "property_marker"), "wpo")),
        "",
    );
    let searched = to_ascii_lowercase(cat5(name, " ", property, " ", text).as_str());
    let triaged = wp_timeout_triage_from_goal(goal);
    let triage_kind = str_or(triaged.text("kind"), "none");
    let reason = classify_failure_reason(normalized, raw, goal_kind, name, searched.as_str());
    let kind = wp_failure_kind(reason.category, triage_kind);
    let evidence = Json::list1(reason.evidence.copy());
    let finding = proofread_finding_from_wp_failure(
        goal,
        &WpFailure {
            function,
            category: reason.category,
            confidence: reason.confidence,
            reason: reason.reason,
            evidence: &evidence,
            goal_kind,
            raw_status: raw,
            normalized_status: normalized,
        },
    );
    assert(finding@ == goal_finding(goal@, opt_text(function), text@));
    let mut findings: Vec<Json> = Vec::new();
    findings.push(finding);
    assert(models(findings@) =~= seq![finding@]);
    let goal_report = proofread_report(findings);
    let top = first_finding(&goal_report);
    let why = proofread_action_reason(&top, reason.reason);
    let suggestion = runtime_check_suggestion(reason.category, goal_kind);
    let verdict = semantic_wp_verdict(reason.category, &suggestion);
    let tool = next_tool_for(kind, function, why.as_str()).with("blockers", Json::list0()).with(
        "confidence",
        Json::str(reason.confidence),
    ).with("finding", proofread_finding_ref(&top));
    let action = if suggestion.is_null() {
        tool
    } else {
        tool.with("runtime_check_suggestion", suggestion.copy())
    };
    Json::object().with("category", Json::str(reason.category)).with(
        "failure_kind",
        Json::str(kind),
    ).with("confidence", Json::str(reason.confidence)).with("status", Json::str(raw)).with(
        "normalized_status",
        Json::str(normalized),
    ).with("goal_kind", Json::str(goal_kind)).with("evidence", evidence).with(
        "next_action",
        action,
    ).with("wp_timeout_triage", triaged).with("proofread_report", goal_report).with(
        "runtime_check_suggestion",
        suggestion,
    ).with("semantic_verdict", verdict)
}

/// The classification of a goal that did not prove: which failure it is, what showed it, and what
/// to call next.
pub fn classify_wp_failure_from_goal(goal: &Json, function: Option<&str>) -> (r: Json)
    ensures
        r@ == classification(goal@, opt_text(function), json_text(collected(goal@))),
{
    let text = goal.to_text();
    classify_wp_failure_from_text(goal, function, text.as_str())
}

// ---------------------------------------------------------------------------
// The report on the goals of a run
// ---------------------------------------------------------------------------

/// A goal with what the report needs of it: identity, kind, label and stable name.
pub open spec fn prepared(goal: JsonView, function: Option<Seq<char>>) -> JsonView {
    let g = with_identity(goal);
    let class = wp_goal_class(g);
    let kinded = g.fill("goal_kind"@, JsonView::Str(class.0));
    let labelled = match class.1 {
        Some(label) => kinded.fill("hash_label"@, JsonView::Str(label)),
        None => kinded,
    };
    with_stable_id(labelled, class.0, function)
}

fn prepare_goal(goal: &Json, function: Option<&str>) -> (r: Json)
    ensures
        r@ == prepared(goal@, opt_text(function)),
{
    let mut g = goal.copy();
    add_identity_fields(&mut g);
    let (kind, label) = classify_wp_goal(&g);
    let kinded = g.fill("goal_kind", Json::str(kind.as_str()));
    let mut labelled = match &label {
        Some(l) => kinded.fill("hash_label", Json::str(l.as_str())),
        None => kinded,
    };
    enrich_goal_stable_id(&mut labelled, kind.as_str(), function);
    labelled
}

/// The goals of a run, each with what the report needs of it.
pub fn prepare_goals(goals: &Vec<Json>, function: Option<&str>) -> (r: Vec<Json>)
    ensures
        models(r@) == models(goals@).map_values(|g: JsonView| prepared(g, opt_text(function))),
{
    let mut out: Vec<Json> = Vec::new();
    let mut i: usize = 0;
    while i < goals.len()
        invariant
            i <= goals@.len(),
            out@.len() == i,
            forall|k: int|
                0 <= k < i ==> (#[trigger] out@[k])@ == prepared(goals@[k]@, opt_text(function)),
        decreases goals@.len() - i,
    {
        out.push(prepare_goal(&goals[i], function));
        i = i + 1;
    }
    assert(models(out@) =~= models(goals@).map_values(
        |g: JsonView| prepared(g, opt_text(function)),
    ));
    out
}

/// The findings of the report that a classification holds.
pub open spec fn held_findings(classification: JsonView) -> Option<Seq<JsonView>> {
    match classification.at("proofread_report"@, "findings"@) {
        Some(v) => v.as_list(),
        None => None,
    }
}

fn findings_held<'a>(classification: &'a Json) -> (r: Option<&'a Vec<Json>>)
    ensures
        opt_list(r) == held_findings(classification@),
{
    match classification.at("proofread_report", "findings") {
        Some(v) => v.as_list(),
        None => None,
    }
}

/// The findings about one goal: those its classification holds or, where it is not classified and
/// does not move a proof forward, those of a fresh classification.
pub open spec fn goal_findings(goal: JsonView, function: Option<Seq<char>>) -> Seq<JsonView> {
    let existing = match goal.get("failure_classification"@) {
        Some(c) => held_findings(c),
        None => None,
    };
    match existing {
        Some(findings) => findings,
        None => if goal.flag("counts_as_progress"@) == Some(true) {
            Seq::empty()
        } else {
            match held_findings(classification(goal, function, json_text(collected(goal)))) {
                Some(findings) => findings,
                None => Seq::empty(),
            }
        },
    }
}

/// The findings about some goals, in the order of the goals.
pub open spec fn all_findings(goals: Seq<JsonView>, function: Option<Seq<char>>) -> Seq<JsonView>
    decreases goals.len(),
{
    if goals.len() == 0 {
        Seq::empty()
    } else {
        all_findings(goals.drop_last(), function) + goal_findings(goals.last(), function)
    }
}

fn findings_about(goal: &Json, function: Option<&str>) -> (r: Vec<Json>)
    ensures
        models(r@) == goal_findings(goal@, opt_text(function)),
{
    let none: Vec<Json> = Vec::new();
    assert(models(none@) =~= Seq::empty());
    let existing = match goal.get("failure_classification") {
        Some(c) => findings_held(c),
        None => None,
    };
    match existing {
        Some(findings) => {
            let copied = copies_and(findings, none);
            assert(models(copied@) =~= models(findings@));
            return copied;
        },
        None => {},
    }
    let progress: bool = match goal.flag("counts_as_progress") {
        Some(b) => b,
        None => false,
    };
    if progress {
        return none;
    }
    let fresh = classify_wp_failure_from_goal(goal, function);
    match findings_held(&fresh) {
        Some(findings) => {
            let copied = copies_and(findings, none);
            assert(models(copied@) =~= models(findings@));
            copied
        },
        None => none,
    }
}

/// The report on the prepared goals of a run, with the findings about what they assume.
pub fn proofread_report_from_prepared_goals(
    goals: &Vec<Json>,
    function: Option<&str>,
    assumption_findings: Vec<Json>,
) -> (r: Json)
    ensures
        r@ == report(
            all_findings(models(goals@), opt_text(function)) + models(assumption_findings@),
            GOAL_BASIS@,
        ),
{
    let ghost all = models(goals@);
    let mut findings: Vec<Json> = Vec::new();
    let mut i: usize = 0;
    assert(models(findings@) =~= all_findings(all.subrange(0, 0), opt_text(function)));
    while i < goals.len()
        invariant
            i <= goals@.len(),
            all == models(goals@),
            models(findings@) == all_findings(all.subrange(0, i as int), opt_text(function)),
        decreases goals@.len() - i,
    {
        proof {
            lemma_take_next(all, i as int);
        }
        let mut more = findings_about(&goals[i], function);
        let ghost before = findings@;
        let ghost added = more@;
        findings.append(&mut more);
        assert(models(findings@) =~= models(before) + models(added));
        i = i + 1;
    }
    assert(all.subrange(0, i as int) =~= all);
    let ghost before = findings@;
    let mut more = assumption_findings;
    findings.append(&mut more);
    assert(models(findings@) =~= models(before) + models(assumption_findings@));
    proofread_report(findings)
}

/// The report on the goals of a run, with the findings about what they assume. The goals are
/// prepared once, so that every pass reads the same goals.
pub fn proofread_report_from_wp_goals(
    goals: &Vec<Json>,
    function: Option<&str>,
    assumption_findings: Vec<Json>,
) -> (r: Json)
    ensures
        r@ == report(
            all_findings(
                models(goals@).map_values(|g: JsonView| prepared(g, opt_text(function))),
                opt_text(function),
            ) + models(assumption_findings@),
            GOAL_BASIS@,
        ),
{
    let prepared_goals = prepare_goals(goals, function);
    proofread_report_from_prepared_goals(&prepared_goals, function, assumption_findings)
}

// ---------------------------------------------------------------------------
// What the categories mean
// ---------------------------------------------------------------------------

/// A goal is given a category only where what it stands for is there to be read: a timeout was
/// reported, or the words of the category stand in the text of the goal.
pub proof fn law_a_category_is_given_for_a_reason(
    status: Seq<char>,
    raw: Seq<char>,
    goal_kind: Seq<char>,
    name: Seq<char>,
    t: Seq<char>,
)
    ensures
        ({
            let c = failure_reason(status, raw, goal_kind, name, t).category;
            &&& c == "timeout"@ ==> status == "timeout"@ || ascii_lower(raw) == ascii_lower("timeout"@)
            &&& c == "missing_prover"@ ==> occurs(t, "prover"@)
            &&& c == "missing_why3_config"@ ==> occurs(t, "why3"@)
            &&& c == "request_rejected"@ ==> occurs(t, "reject"@)
            &&& c == "internal_error"@ ==> status == "failed"@ || occurs(t, "internal"@) || occurs(t, "exception"@) || occurs(t, "server error"@) || occurs(t, "plugin error"@) || occurs(t, "rejected"@)
            &&& c == "rte"@ ==> begins(goal_kind, "rte_"@)
            &&& c == "unsupported_predicate"@ ==> occurs(t, "unsupported"@) || occurs(t, "unbound"@) || occurs(t, "unknown predicate"@) || occurs(t, "unknown logic"@)
            &&& c == "callee_requires_too_strict"@ ==> occurs(t, "call"@) && occurs(t, "requires"@)
            &&& c == "incomplete_behavior_partition"@ ==> occurs(t, "behavior"@) && (occurs(t, "complete"@) || occurs(t, "disjoint"@) || occurs(t, "partition"@))
            &&& c == "callee_contract_too_weak"@ ==> occurs(t, "call"@) && (occurs(t, "ensures"@) || occurs(t, "post"@))
            &&& c == "weak_loop_assigns"@ ==> occurs(t, "loop"@) && (occurs(t, "assigns"@) || occurs(t, "frame"@))
            &&& c == "weak_loop_variant"@ ==> occurs(t, "loop"@) && occurs(t, "variant"@)
            &&& c == "weak_loop_invariant"@ ==> occurs(t, "loop"@) && occurs(t, "invariant"@)
            &&& c == "bad_assigns"@ ==> occurs(t, "assigns"@) || occurs(t, "frame"@)
            &&& c == "weak_ensures"@ ==> (occurs(t, "post"@) || occurs(t, "ensures"@)) && !occurs(t, "assigns"@) && !occurs(t, "frame"@)
            &&& c == "missing_requires"@ ==> (occurs(t, "precondition"@) || occurs(t, "requires"@)) && !occurs(t, "assigns"@) && !occurs(t, "frame"@) && !occurs(t, "post"@) && !occurs(t, "ensures"@)
            &&& c == "prover_unknown"@ ==> !occurs(t, "assigns"@) && !occurs(t, "frame"@) && !occurs(t, "post"@) && !occurs(t, "ensures"@) && !occurs(t, "requires"@) && !occurs(t, "precondition"@) && !occurs(t, "unsupported"@) && !occurs(t, "unbound"@)
        }),
{
    reveal_strlit("timeout");
    reveal_strlit("missing_prover");
    reveal_strlit("missing_why3_config");
    reveal_strlit("request_rejected");
    reveal_strlit("internal_error");
    reveal_strlit("rte");
    reveal_strlit("unsupported_predicate");
    reveal_strlit("callee_requires_too_strict");
    reveal_strlit("incomplete_behavior_partition");
    reveal_strlit("callee_contract_too_weak");
    reveal_strlit("weak_loop_assigns");
    reveal_strlit("weak_loop_variant");
    reveal_strlit("weak_loop_invariant");
    reveal_strlit("bad_assigns");
    reveal_strlit("weak_ensures");
    reveal_strlit("missing_requires");
    reveal_strlit("prover_unknown");
    assert("timeout"@.len() == 7 && "missing_prover"@.len() == 14);
    assert("missing_why3_config"@.len() == 19 && "request_rejected"@.len() == 16);
    assert("internal_error"@.len() == 14 && "rte"@.len() == 3);
    assert("unsupported_predicate"@.len() == 21 && "callee_requires_too_strict"@.len() == 26);
    assert("incomplete_behavior_partition"@.len() == 29 && "callee_contract_too_weak"@.len() == 24);
    assert("weak_loop_assigns"@.len() == 17 && "weak_loop_variant"@.len() == 17);
    assert("weak_loop_invariant"@.len() == 19 && "bad_assigns"@.len() == 11);
    assert("weak_ensures"@.len() == 12 && "missing_requires"@.len() == 16);
    assert("prover_unknown"@.len() == 14);
    assert("missing_prover"@[0] != "internal_error"@[0]);
    assert("missing_prover"@[0] != "prover_unknown"@[0]);
    assert("missing_why3_config"@[0] != "weak_loop_invariant"@[0]);
    assert("request_rejected"@[0] != "missing_requires"@[0]);
    assert("internal_error"@[0] != "prover_unknown"@[0]);
    assert("weak_loop_assigns"@[10] != "weak_loop_variant"@[10]);
    lemma_callee_is_a_call(t);
    lemma_variant_is_a_word(t);
    lemma_rejected_is_reject(t);
}

proof fn lemma_callee_is_a_call(t: Seq<char>)
    ensures
        occurs(t, "callee"@) ==> occurs(t, "call"@),
{
    reveal_strlit("callee");
    reveal_strlit("call");
    if occurs(t, "callee"@) {
        let i = choose|i: int| stands_at(t, "callee"@, i);
        assert(t.subrange(i, i + 4) =~= "call"@) by {
            assert forall|k: int| 0 <= k < 4 implies t.subrange(i, i + 4)[k] == "call"@[k] by {
                assert(t.subrange(i, i + 6)[k] == "callee"@[k]);
            }
        }
        assert(stands_at(t, "call"@, i));
    }
}

proof fn lemma_variant_is_a_word(t: Seq<char>)
    ensures
        has_word(t, "variant"@) ==> occurs(t, "variant"@),
{
    if has_word(t, "variant"@) {
        let i = choose|i: int| word_at(t, "variant"@, i);
        assert(stands_at(t, "variant"@, i));
    }
}

/// Whether nothing is said of a goal before its text is read: its prover did not run out of time,
/// nothing failed in the setup, and it is no check for a runtime error.
pub open spec fn read_by_text(status: Seq<char>, raw: Seq<char>, goal_kind: Seq<char>, t: Seq<char>) -> bool {
    &&& status != "timeout"@ && ascii_lower(raw) != ascii_lower("timeout"@) && status != "failed"@
    &&& occurs(t, "prover"@) ==> !occurs(t, "not found"@) && !occurs(t, "unknown"@) && !occurs(
        t,
        "missing"@,
    ) && !occurs(t, "not available"@)
    &&& occurs(t, "why3"@) ==> !occurs(t, "config"@) && !occurs(t, "configuration"@) && !occurs(
        t,
        "not configured"@,
    ) && !occurs(t, "no prover"@) && !occurs(t, "not found"@)
    &&& !occurs(t, "reject"@)
    &&& !occurs(t, "internal"@) && !occurs(t, "exception"@)
    &&& !occurs(t, "server error"@) && !occurs(t, "plugin error"@)
    &&& !begins(goal_kind, "rte_"@)
}

proof fn lemma_rejected_is_reject(t: Seq<char>)
    ensures
        occurs(t, "rejected"@) ==> occurs(t, "reject"@),
{
    reveal_strlit("rejected");
    reveal_strlit("reject");
    if occurs(t, "rejected"@) {
        let i = choose|i: int| stands_at(t, "rejected"@, i);
        assert(t.subrange(i, i + 6) =~= "reject"@) by {
            assert forall|k: int| 0 <= k < 6 implies t.subrange(i, i + 6)[k] == "reject"@[k] by {
                assert(t.subrange(i, i + 8)[k] == "rejected"@[k]);
            }
        }
        assert(stands_at(t, "reject"@, i));
    }
}

/// What the text of a goal is about decides its category: an assigns clause that is neither a
/// loop's nor a callee's is a wrong assigns, a postcondition a weak one, a precondition a missing
/// one; a loop's clauses and a callee's are told apart from the function's own.
pub proof fn law_the_text_decides_the_category(
    status: Seq<char>,
    raw: Seq<char>,
    goal_kind: Seq<char>,
    name: Seq<char>,
    t: Seq<char>,
)
    requires
        read_by_text(status, raw, goal_kind, t),
    ensures
        ({
            let c = failure_reason(status, raw, goal_kind, name, t).category;
            let plain = !occurs(t, "unsupported"@) && !occurs(t, "unbound"@) && !occurs(t, "unknown predicate"@) && !occurs(t, "unknown logic"@);
            let alone = plain && !occurs(t, "call"@) && !occurs(t, "behavior"@) && !occurs(t, "loop"@);
            &&& !plain ==> c == "unsupported_predicate"@
            &&& plain && occurs(t, "call"@) && occurs(t, "requires"@) ==> c
                == "callee_requires_too_strict"@
            &&& plain && !occurs(t, "call"@) && occurs(t, "behavior"@) && (occurs(t, "complete"@) || occurs(t, "disjoint"@) || occurs(t, "partition"@))
                ==> c == "incomplete_behavior_partition"@
            &&& plain && !occurs(t, "behavior"@) && occurs(t, "call"@) && !occurs(t, "requires"@) && (occurs(t, "ensures"@) || occurs(t, "post"@)) ==> c == "callee_contract_too_weak"@
            &&& plain && !occurs(t, "call"@) && !occurs(t, "behavior"@) && occurs(t, "loop"@) && (occurs(t, "assigns"@) || occurs(t, "frame"@)) ==> c == "weak_loop_assigns"@
            &&& plain && !occurs(t, "call"@) && !occurs(t, "behavior"@) && !occurs(t, "assigns"@) && !occurs(t, "frame"@) && occurs(t, "loop"@)
                && has_word(t, "variant"@) ==> c == "weak_loop_variant"@
            &&& plain && !occurs(t, "call"@) && !occurs(t, "behavior"@) && !occurs(t, "assigns"@) && !occurs(t, "frame"@) && occurs(t, "loop"@)
                && !has_word(t, "variant"@) && occurs(t, "invariant"@) ==> c == "weak_loop_invariant"@
            &&& alone && occurs(t, "assigns"@) ==> c == "bad_assigns"@
            &&& alone && occurs(t, "frame"@) ==> c == "bad_assigns"@
            &&& alone && !occurs(t, "assigns"@) && !occurs(t, "frame"@) && occurs(t, "post"@) ==> c == "weak_ensures"@
            &&& alone && !occurs(t, "assigns"@) && !occurs(t, "frame"@) && occurs(t, "ensures"@) ==> c == "weak_ensures"@
            &&& alone && !occurs(t, "assigns"@) && !occurs(t, "frame"@) && !occurs(t, "post"@) && !occurs(t, "ensures"@) && (occurs(t, "precondition"@) || occurs(t, "requires"@)) ==> c == "missing_requires"@
            &&& alone && !occurs(t, "assigns"@) && !occurs(t, "frame"@) && !occurs(t, "post"@) && !occurs(t, "ensures"@) && !occurs(t, "precondition"@) && !occurs(t, "requires"@)
                ==> c == "prover_unknown"@
        }),
{
    lemma_rejected_is_reject(t);
    lemma_callee_is_a_call(t);
}

/// What kept a goal from being tried is told before its text is read: a prover that is missing, a
/// Why3 that is not configured, a request that was refused, a crash; then that it is a check for a
/// runtime error.
pub proof fn law_setup_failures_come_before_the_text(
    status: Seq<char>,
    raw: Seq<char>,
    goal_kind: Seq<char>,
    name: Seq<char>,
    t: Seq<char>,
)
    requires
        status != "timeout"@,
        ascii_lower(raw) != ascii_lower("timeout"@),
    ensures
        ({
            let c = failure_reason(status, raw, goal_kind, name, t).category;
            &&& occurs(t, "prover"@) && occurs(t, "not found"@) ==> c == "missing_prover"@
            &&& occurs(t, "prover"@) && occurs(t, "unknown"@) ==> c == "missing_prover"@
            &&& occurs(t, "prover"@) && occurs(t, "missing"@) ==> c == "missing_prover"@
            &&& occurs(t, "prover"@) && occurs(t, "not available"@) ==> c == "missing_prover"@
            &&& !occurs(t, "prover"@) && occurs(t, "why3"@) && occurs(t, "config"@) ==> c
                == "missing_why3_config"@
            &&& !occurs(t, "prover"@) && occurs(t, "why3"@) && occurs(t, "not found"@) ==> c
                == "missing_why3_config"@
            &&& !occurs(t, "prover"@) && !occurs(t, "why3"@) && occurs(t, "reject"@) ==> c == "request_rejected"@
            &&& !occurs(t, "prover"@) && !occurs(t, "why3"@) && !occurs(t, "reject"@) && status == "failed"@ ==> c == "internal_error"@
            &&& !occurs(t, "prover"@) && !occurs(t, "why3"@) && !occurs(t, "reject"@) && occurs(t, "exception"@) ==> c
                == "internal_error"@
            &&& !occurs(t, "prover"@) && !occurs(t, "why3"@) && !occurs(t, "reject"@) && occurs(t, "internal"@) ==> c
                == "internal_error"@
            &&& !occurs(t, "prover"@) && !occurs(t, "why3"@) && !occurs(t, "reject"@) && !occurs(t, "internal"@) && !occurs(t, "exception"@) && !occurs(t, "server error"@) && !occurs(t, "plugin error"@)
                && status != "failed"@ && begins(goal_kind, "rte_"@) ==> c == "rte"@
        }),
{
    lemma_rejected_is_reject(t);
}

/// Each category comes with how sure it is and with what to do about it.
pub proof fn law_each_category_says_what_to_do(
    status: Seq<char>,
    raw: Seq<char>,
    goal_kind: Seq<char>,
    name: Seq<char>,
    t: Seq<char>,
)
    ensures
        ({
            let r = failure_reason(status, raw, goal_kind, name, t);
            &&& r.category == "missing_prover"@ ==> r.confidence == "high"@ && r.reason
                == "Inspect capabilities and prover setup before changing annotations."@
            &&& r.category == "missing_why3_config"@ ==> r.confidence == "high"@ && r.reason
                == "Run self_check and configure Why3 provers before changing annotations."@
            &&& r.category == "request_rejected"@ ==> r.confidence == "high"@ && r.reason
                == "Run self_check and inspect Frama-C request compatibility before changing annotations."@
            &&& r.category == "internal_error"@ ==> r.confidence == "high"@ && r.reason
                == "No prover returned a verdict, so this is not evidence that the C code or ACSL is wrong. A goal record says only FAILED; the reason is on the message stream, which check reports as wp_backend_diagnosis and context {want: [\"messages\"]} returns directly. If that names a Why3 anomaly, try the other memory model before touching the annotation: on Frama-C 33 a pointer cast reaching the goal aborts Why3 under Typed+nocast and proves under Typed+cast."@
            &&& r.category == "rte"@ ==> r.confidence == "high"@ && r.reason
                == "The obligation is a runtime-error check, so the fix is a fact the caller must guarantee or the code must establish: the requires that rules the value out, an assert that carries the fact to this point, or a loop invariant that keeps the index in range. Strengthening the postcondition will not close it. Read the goal's own predicate to choose which: the goal usually carries one, and the open access then reads as \\valid(p + i) directly. Do not work from the goal name, which cannot distinguish siblings: the trailing number in mem_access_7 counts checks generated from one statement and names none of them. Guessing an invariant from the name costs a proof run per guess and does not converge. context {want: [\"rte_obligations\"]} covers both gaps: it drafts the requires, which no goal carries, and it is the fallback for the goals whose property row supplied no predicate to copy."@
            &&& r.category == "unsupported_predicate"@ ==> r.confidence == "medium"@ && r.reason
                == "Two different faults share this branch. If the name is unbound, it has no definition in scope: declare the predicate or logic function, or include the header that does. If WP could not encode the construct, replace it with one the memory model handles: a quantifier over an integer range rather than over a set, an explicit valid_read over the range you index, or a named predicate whose definition is first-order. Under Typed+nocast a pointer cast is the usual culprit."@
            &&& r.category == "callee_requires_too_strict"@ ==> r.confidence == "high"@ && r.reason
                == "The callee's requires is not established at this call. Either the caller carries the fact to the call site, as its own requires or an assert before the call, or the callee asks for more than it needs and its requires should be weakened."@
            &&& r.category == "incomplete_behavior_partition"@ ==> r.confidence == "medium"@ && r.reason
                == "The behaviors do not cover the input space the way the clauses claim. Add the behavior for the case nothing assumes, or drop the complete behaviors clause that promises a partition the assumes do not form. Disjointness fails the other way: two assumes overlap and one has to be narrowed."@
            &&& r.category == "callee_contract_too_weak"@ ==> r.confidence == "medium"@ && r.reason
                == "The callee's ensures does not say enough for the caller's goal. Strengthen the callee contract to state what it actually establishes and re-prove the callee; assuming the fact in the caller would be assuming what nothing checks."@
            &&& r.category == "weak_loop_assigns"@ ==> r.confidence == "medium"@ && r.reason
                == "The loop writes something its assigns does not list, so WP cannot tell what survives the loop. List every location the body writes, the induction variable included, and nothing more. Both directions cost: WP havocs everything the clause lists, so a location named but not written loses its facts across the loop just as one written but not named does."@
            &&& r.category == "weak_loop_variant"@ ==> r.confidence == "medium"@ && r.reason
                == "The variant must be an integer expression that stays non-negative and strictly decreases on every iteration. Both halves fail the same way here: an expression that can go negative, and one that decreases on only some paths through the body."@
            &&& r.category == "weak_loop_invariant"@ ==> r.confidence == "medium"@ && r.reason
                == "A loop invariant has to hold on entry and survive the body, and the two fail differently. Failing on entry means it claims something the code has not done yet. Failing on preservation means it is too weak to imply itself after one iteration, and it usually needs the missing conjunct about what the body just did."@
            &&& r.category == "bad_assigns"@ ==> r.confidence == "medium"@ && r.reason
                == "The assigns clause and the code disagree about what is written. Either the function writes a location the clause omits, which loses every fact about it, or the clause lists one the function leaves alone, which weakens every caller for nothing."@
            &&& r.category == "weak_ensures"@ ==> r.confidence == "medium"@ && r.reason
                == "The postcondition does not follow from what the body establishes. Work back from the VC: either the code does not achieve the claim, or the facts that would prove it were lost at a loop boundary or a call, and the invariant or the callee contract is where they have to be reinstated."@
            &&& r.category == "missing_requires"@ ==> r.confidence == "medium"@ && r.reason
                == "The proof needs a fact no caller is obliged to supply. Add it as a requires so callers carry the obligation, or establish it in the body if the function can. Assuming it silently is the one option that proves nothing."@
            &&& r.category == "prover_unknown"@ ==> r.confidence == "low"@ && r.reason
                == "Inspect the VC details before changing annotations."@
            &&& r.category == "timeout"@ && begins(goal_kind, "rte_"@) ==> r.reason
                == "Set retry_unproved to tell a slow goal from an unprovable one: it re-runs at double the budget and reports which flip. If none flip, more time is not the fix. This one is a runtime-error check, so read the goal's own predicate rather than its name: the name's trailing number counts siblings from one statement and names none of them, while the predicate says which access is open. context {want: [\"rte_obligations\"]} adds the drafted requires, which no goal carries, and is the fallback when this goal carries no predicate either."@
            &&& r.category == "timeout"@ && !begins(goal_kind, "rte_"@) ==> r.reason
                == "Set retry_unproved to tell a slow goal from an unprovable one: it re-runs at double the budget and reports which flip. If none flip, more time is not the fix -- read the VC and supply the missing fact."@
            &&& r.category == "timeout"@ ==> r.confidence == "high"@
        }),
{
    reveal_strlit("timeout");
    reveal_strlit("missing_prover");
    reveal_strlit("missing_why3_config");
    reveal_strlit("request_rejected");
    reveal_strlit("internal_error");
    reveal_strlit("rte");
    reveal_strlit("unsupported_predicate");
    reveal_strlit("callee_requires_too_strict");
    reveal_strlit("incomplete_behavior_partition");
    reveal_strlit("callee_contract_too_weak");
    reveal_strlit("weak_loop_assigns");
    reveal_strlit("weak_loop_variant");
    reveal_strlit("weak_loop_invariant");
    reveal_strlit("bad_assigns");
    reveal_strlit("weak_ensures");
    reveal_strlit("missing_requires");
    reveal_strlit("prover_unknown");
    assert("timeout"@.len() == 7 && "missing_prover"@.len() == 14);
    assert("missing_why3_config"@.len() == 19 && "request_rejected"@.len() == 16);
    assert("internal_error"@.len() == 14 && "rte"@.len() == 3);
    assert("unsupported_predicate"@.len() == 21 && "callee_requires_too_strict"@.len() == 26);
    assert("incomplete_behavior_partition"@.len() == 29 && "callee_contract_too_weak"@.len() == 24);
    assert("weak_loop_assigns"@.len() == 17 && "weak_loop_variant"@.len() == 17);
    assert("weak_loop_invariant"@.len() == 19 && "bad_assigns"@.len() == 11);
    assert("weak_ensures"@.len() == 12 && "missing_requires"@.len() == 16);
    assert("prover_unknown"@.len() == 14);
    assert("missing_prover"@[0] != "internal_error"@[0]);
    assert("missing_prover"@[0] != "prover_unknown"@[0]);
    assert("missing_why3_config"@[0] != "weak_loop_invariant"@[0]);
    assert("request_rejected"@[0] != "missing_requires"@[0]);
    assert("internal_error"@[0] != "prover_unknown"@[0]);
    assert("weak_loop_assigns"@[10] != "weak_loop_variant"@[10]);
}

/// What showed a failure is the status for a timeout, a crash and a goal that says nothing; the
/// kind of goal for a runtime error; and the name of the goal for all that was read off its text.
pub proof fn law_the_evidence_is_what_was_read(
    status: Seq<char>,
    raw: Seq<char>,
    goal_kind: Seq<char>,
    name: Seq<char>,
    t: Seq<char>,
)
    ensures
        ({
            let r = failure_reason(status, raw, goal_kind, name, t);
            &&& r.category == "timeout"@ || r.category == "internal_error"@ || r.category
                == "prover_unknown"@ ==> r.evidence.text("field"@) == Some("normalized_status"@)
                && r.evidence.text("value"@) == Some(status)
            &&& r.category == "rte"@ ==> r.evidence.text("field"@) == Some("goal_kind"@)
                && r.evidence.text("value"@) == Some(goal_kind)
            &&& r.category == "bad_assigns"@ || r.category == "weak_ensures"@ || r.category
                == "missing_requires"@ || r.category == "missing_prover"@ ==> r.evidence.text(
                "field"@,
            ) == Some("goal_text"@) && r.evidence.text("value"@) == Some(name)
        }),
{
    broadcast use crate::json::group_object_reads;

    reveal_strlit("timeout");
    reveal_strlit("missing_prover");
    reveal_strlit("missing_why3_config");
    reveal_strlit("request_rejected");
    reveal_strlit("internal_error");
    reveal_strlit("rte");
    reveal_strlit("unsupported_predicate");
    reveal_strlit("callee_requires_too_strict");
    reveal_strlit("incomplete_behavior_partition");
    reveal_strlit("callee_contract_too_weak");
    reveal_strlit("weak_loop_assigns");
    reveal_strlit("weak_loop_variant");
    reveal_strlit("weak_loop_invariant");
    reveal_strlit("bad_assigns");
    reveal_strlit("weak_ensures");
    reveal_strlit("missing_requires");
    reveal_strlit("prover_unknown");
    assert("timeout"@.len() == 7 && "missing_prover"@.len() == 14);
    assert("missing_why3_config"@.len() == 19 && "request_rejected"@.len() == 16);
    assert("internal_error"@.len() == 14 && "rte"@.len() == 3);
    assert("unsupported_predicate"@.len() == 21 && "callee_requires_too_strict"@.len() == 26);
    assert("incomplete_behavior_partition"@.len() == 29 && "callee_contract_too_weak"@.len() == 24);
    assert("weak_loop_assigns"@.len() == 17 && "weak_loop_variant"@.len() == 17);
    assert("weak_loop_invariant"@.len() == 19 && "bad_assigns"@.len() == 11);
    assert("weak_ensures"@.len() == 12 && "missing_requires"@.len() == 16);
    assert("prover_unknown"@.len() == 14);
    assert("missing_prover"@[0] != "internal_error"@[0]);
    assert("missing_prover"@[0] != "prover_unknown"@[0]);
    assert("missing_why3_config"@[0] != "weak_loop_invariant"@[0]);
    assert("request_rejected"@[0] != "missing_requires"@[0]);
    assert("internal_error"@[0] != "prover_unknown"@[0]);
    assert("weak_loop_assigns"@[10] != "weak_loop_variant"@[10]);
    reveal_strlit("field");
    reveal_strlit("value");
    assert("field"@.len() == 5 && "value"@.len() == 5);
    assert("field"@[0] != "value"@[0]);
}

/// The classification of a goal reports the category and the confidence that its status, its kind,
/// its name and its text come to, the status it had, and what kind of failure that is.
pub proof fn law_a_classification_reports_the_reason(
    goal: JsonView,
    function: Option<Seq<char>>,
    text: Seq<char>,
    name: Seq<char>,
    status: Seq<char>,
    raw: Seq<char>,
    kind: Seq<char>,
    property: Seq<char>,
)
    requires
        goal.text("name"@) == Some(name),
        goal.text("normalized_status"@) == Some(status),
        goal.text("raw_status"@) == Some(raw),
        goal.text("goal_kind"@) == Some(kind),
        goal.text("property"@) == Some(property),
    ensures
        ({
            let t = ascii_lower(name + " "@ + property + " "@ + text);
            let reason = failure_reason(status, raw, kind, name, t);
            let c = classification(goal, function, text);
            &&& c.text("category"@) == Some(reason.category)
            &&& c.text("confidence"@) == Some(reason.confidence)
            &&& c.text("status"@) == Some(raw)
            &&& c.text("normalized_status"@) == Some(status)
            &&& c.text("goal_kind"@) == Some(kind)
            &&& c.list("evidence"@) == Some(seq![reason.evidence])
        }),
{
    broadcast use crate::json::group_object_reads;

    reveal_strlit("category");
    reveal_strlit("failure_kind");
    reveal_strlit("confidence");
    reveal_strlit("status");
    reveal_strlit("normalized_status");
    reveal_strlit("goal_kind");
    reveal_strlit("evidence");
    reveal_strlit("next_action");
    reveal_strlit("wp_timeout_triage");
    reveal_strlit("proofread_report");
    reveal_strlit("runtime_check_suggestion");
    reveal_strlit("semantic_verdict");
    assert("category"@.len() == 8 && "failure_kind"@.len() == 12);
    assert("confidence"@.len() == 10 && "status"@.len() == 6);
    assert("normalized_status"@.len() == 17 && "goal_kind"@.len() == 9);
    assert("evidence"@.len() == 8 && "next_action"@.len() == 11);
    assert("wp_timeout_triage"@.len() == 17 && "proofread_report"@.len() == 16);
    assert("runtime_check_suggestion"@.len() == 24 && "semantic_verdict"@.len() == 16);
    assert("category"@[0] != "evidence"@[0]);
    assert("normalized_status"@[0] != "wp_timeout_triage"@[0]);
    assert("proofread_report"@[0] != "semantic_verdict"@[0]);
}

/// A claim about values could be checked at run time: a precondition, a callee's, a postcondition,
/// a loop invariant, a runtime error and an assertion; an assigns, a variant and a setup failure
/// could not.
pub proof fn law_what_could_be_checked_at_run_time(kind: Seq<char>)
    ensures
        checkable("missing_requires"@, kind),
        checkable("callee_requires_too_strict"@, kind),
        checkable("weak_ensures"@, kind),
        checkable("weak_loop_invariant"@, kind),
        checkable("rte"@, kind),
        checkable("bad_assigns"@, "user_assert"@),
        begins(kind, "rte_"@) ==> checkable("timeout"@, kind),
        kind != "user_assert"@ && !begins(kind, "rte_"@) ==> !checkable("bad_assigns"@, kind)
            && !checkable("weak_loop_assigns"@, kind) && !checkable("weak_loop_variant"@, kind)
            && !checkable("missing_prover"@, kind) && !checkable("internal_error"@, kind)
            && !checkable("timeout"@, kind) && !checkable("prover_unknown"@, kind),
        runtime_suggestion("bad_assigns"@, "spec"@) is Null,
        runtime_suggestion("weak_ensures"@, kind).text("kind"@) == Some("external_manual_e_acsl"@),
{
    broadcast use crate::json::group_object_reads;

    reveal_strlit("timeout");
    reveal_strlit("missing_prover");
    reveal_strlit("missing_why3_config");
    reveal_strlit("request_rejected");
    reveal_strlit("internal_error");
    reveal_strlit("rte");
    reveal_strlit("unsupported_predicate");
    reveal_strlit("callee_requires_too_strict");
    reveal_strlit("incomplete_behavior_partition");
    reveal_strlit("callee_contract_too_weak");
    reveal_strlit("weak_loop_assigns");
    reveal_strlit("weak_loop_variant");
    reveal_strlit("weak_loop_invariant");
    reveal_strlit("bad_assigns");
    reveal_strlit("weak_ensures");
    reveal_strlit("missing_requires");
    reveal_strlit("prover_unknown");
    assert("timeout"@.len() == 7 && "missing_prover"@.len() == 14);
    assert("missing_why3_config"@.len() == 19 && "request_rejected"@.len() == 16);
    assert("internal_error"@.len() == 14 && "rte"@.len() == 3);
    assert("unsupported_predicate"@.len() == 21 && "callee_requires_too_strict"@.len() == 26);
    assert("incomplete_behavior_partition"@.len() == 29 && "callee_contract_too_weak"@.len() == 24);
    assert("weak_loop_assigns"@.len() == 17 && "weak_loop_variant"@.len() == 17);
    assert("weak_loop_invariant"@.len() == 19 && "bad_assigns"@.len() == 11);
    assert("weak_ensures"@.len() == 12 && "missing_requires"@.len() == 16);
    assert("prover_unknown"@.len() == 14);
    assert("missing_prover"@[0] != "internal_error"@[0]);
    assert("missing_prover"@[0] != "prover_unknown"@[0]);
    assert("missing_why3_config"@[0] != "weak_loop_invariant"@[0]);
    assert("request_rejected"@[0] != "missing_requires"@[0]);
    assert("internal_error"@[0] != "prover_unknown"@[0]);
    assert("weak_loop_assigns"@[10] != "weak_loop_variant"@[10]);
    reveal_strlit("spec");
    reveal_strlit("user_assert");
    assert("spec"@.len() == 4 && "user_assert"@.len() == 11);
    reveal_strlit("kind");
    reveal_strlit("availability");
    reveal_strlit("manual_tools");
    reveal_strlit("coverage_warning");
    assert("kind"@.len() == 4 && "availability"@.len() == 12);
    assert("manual_tools"@.len() == 12 && "coverage_warning"@.len() == 16);
    assert("availability"@[0] != "manual_tools"@[0]);
    reveal_strlit("reason");
    assert("reason"@.len() == 6);
    reveal_strlit("rte_");
    assert("spec"@[0] == 's' && "rte_"@[0] == 'r' && "rte_"@.len() == 4);
    if begins("spec"@, "rte_"@) {
        assert("spec"@.subrange(0, 4)[0] == "spec"@[0]);
    }
}

/// What a failure means for the code: nothing where the setup failed; that a counterexample is
/// needed where one could be collected; that the specification is wrong or too weak otherwise.
pub proof fn law_what_a_failure_means(category: Seq<char>, suggestion: JsonView)
    ensures
        ({
            let v = semantic_verdict(category, suggestion);
            let setup = category == "missing_prover"@ || category == "missing_why3_config"@
                || category == "request_rejected"@ || category == "internal_error"@;
            &&& v.text("kind"@) == Some("backend_unavailable"@) <==> setup
            &&& setup ==> v.text("next_tool"@) == Some("self_check"@)
            &&& !setup && !(suggestion is Null) ==> v.text("kind"@) == Some(
                "needs_e_acsl_counterexample"@,
            ) && v.text("next_tool"@) == Some("self_check"@)
            &&& !setup && suggestion is Null && (category == "unsupported_predicate"@ || category
                == "incomplete_behavior_partition"@) ==> v.text("kind"@) == Some(
                "specification_wrong"@,
            )
            &&& !setup && suggestion is Null && category != "unsupported_predicate"@ && category
                != "incomplete_behavior_partition"@ ==> v.text("kind"@) == Some(
                "specification_too_weak"@,
            ) && v.text("next_tool"@) == Some("get_wp_goals"@)
            &&& v.get("runtime_check_suggestion"@) == Some(suggestion)
        }),
{
    broadcast use crate::json::group_object_reads;

    reveal_strlit("timeout");
    reveal_strlit("missing_prover");
    reveal_strlit("missing_why3_config");
    reveal_strlit("request_rejected");
    reveal_strlit("internal_error");
    reveal_strlit("rte");
    reveal_strlit("unsupported_predicate");
    reveal_strlit("callee_requires_too_strict");
    reveal_strlit("incomplete_behavior_partition");
    reveal_strlit("callee_contract_too_weak");
    reveal_strlit("weak_loop_assigns");
    reveal_strlit("weak_loop_variant");
    reveal_strlit("weak_loop_invariant");
    reveal_strlit("bad_assigns");
    reveal_strlit("weak_ensures");
    reveal_strlit("missing_requires");
    reveal_strlit("prover_unknown");
    assert("timeout"@.len() == 7 && "missing_prover"@.len() == 14);
    assert("missing_why3_config"@.len() == 19 && "request_rejected"@.len() == 16);
    assert("internal_error"@.len() == 14 && "rte"@.len() == 3);
    assert("unsupported_predicate"@.len() == 21 && "callee_requires_too_strict"@.len() == 26);
    assert("incomplete_behavior_partition"@.len() == 29 && "callee_contract_too_weak"@.len() == 24);
    assert("weak_loop_assigns"@.len() == 17 && "weak_loop_variant"@.len() == 17);
    assert("weak_loop_invariant"@.len() == 19 && "bad_assigns"@.len() == 11);
    assert("weak_ensures"@.len() == 12 && "missing_requires"@.len() == 16);
    assert("prover_unknown"@.len() == 14);
    assert("missing_prover"@[0] != "internal_error"@[0]);
    assert("missing_prover"@[0] != "prover_unknown"@[0]);
    assert("missing_why3_config"@[0] != "weak_loop_invariant"@[0]);
    assert("request_rejected"@[0] != "missing_requires"@[0]);
    assert("internal_error"@[0] != "prover_unknown"@[0]);
    assert("weak_loop_assigns"@[10] != "weak_loop_variant"@[10]);
    reveal_strlit("kind");
    reveal_strlit("plain_language");
    reveal_strlit("next_tool");
    reveal_strlit("runtime_check_suggestion");
    assert("kind"@.len() == 4 && "plain_language"@.len() == 14);
    assert("next_tool"@.len() == 9 && "runtime_check_suggestion"@.len() == 24);
    reveal_strlit("backend_unavailable");
    reveal_strlit("needs_e_acsl_counterexample");
    reveal_strlit("specification_too_weak");
    reveal_strlit("specification_wrong");
    assert("backend_unavailable"@.len() == 19 && "needs_e_acsl_counterexample"@.len() == 27);
    assert("specification_too_weak"@.len() == 22 && "specification_wrong"@.len() == 19);
    assert("backend_unavailable"@[0] != "specification_wrong"@[0]);
}

/// What is looked at next is the setup where that failed, and otherwise the goals of the function.
pub proof fn law_what_is_looked_at_next(kind: Seq<char>, function: Seq<char>, reason: Seq<char>)
    ensures
        ({
            let setup = kind == "missing_prover"@ || kind == "missing_why3_config"@ || kind
                == "request_rejected"@ || kind == "frama_c_internal"@;
            let next = next_tool(kind, Some(function), reason);
            &&& setup ==> next.text("tool"@) == Some("self_check"@)
            &&& !setup ==> next.text("tool"@) == Some("get_wp_goals"@)
            &&& !setup ==> next.at("args"@, "function"@) == Some(JsonView::Str(function))
            &&& next.text("reason"@) == Some(reason)
        }),
{
    broadcast use crate::json::group_object_reads;

    reveal_strlit("tool");
    reveal_strlit("args");
    reveal_strlit("reason");
    assert("tool"@.len() == 4 && "args"@.len() == 4);
    assert("reason"@.len() == 6);
    assert("tool"@[0] != "args"@[0]);
    reveal_strlit("want");
    reveal_strlit("function");
    assert("want"@.len() == 4 && "function"@.len() == 8);
}

/// The finding that comes first in a report is the one that is looked at.
pub proof fn law_the_first_finding_is_looked_at(r: JsonView, findings: Seq<JsonView>)
    ensures
        r.list("findings"@) == Some(findings) && findings.len() > 0 ==> top_finding(r) == findings[0],
        r.list("findings"@) == Some(findings) && findings.len() == 0 ==> top_finding(r)
            == JsonView::Null,
        r.list("findings"@) is None ==> top_finding(r) == JsonView::Null,
{
}

} // verus!
