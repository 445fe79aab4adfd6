//! What a recorded status means.
//!
//! The predicates that read a property or a goal and answer one question about its status: is
//! this alarm generated rather than written, is this property dead, is this goal valid only under
//! hypotheses nothing establishes, does this status match the filter the caller named.

use crate::error::{ToolError, ToolErrorView};
use crate::json::{lemma_take_next, models, str_or, text_in, text_or, texts_of, Json, JsonView};
use crate::order::{insert_text, sort_unique, sorted_unique};
use crate::outside::{debug_quoted, debug_text};
use crate::status::{
    is_proved, own_proved, own_status, own_status_is_proved, own_status_spec, proved,
};
use crate::text::{
    ascii_lower, begins, cat3, cat4, contains, decimal, decimal_text, ends, ends_with, join,
    join_spec, occurs, opt_text, owned, same, same_ignoring_case, stands_at, texts, words,
    words_spec,
};
use vstd::prelude::*;
use vstd::string::*;

verus! {

// ---------------------------------------------------------------------------
// Properties
// ---------------------------------------------------------------------------

/// The marker under which a row is known.
pub open spec fn marker_of(row: JsonView) -> Option<Seq<char>> {
    row.or_text(
        row.or_text(
            row.or_text(row.or_text(row.text("key"@), "property"@), "prop"@),
            "marker"@,
        ),
        "id"@,
    )
}

/// The marker under which a row is known: the first of its identifying fields that is a text.
pub fn value_marker(row: &Json) -> (r: Option<&str>)
    ensures
        opt_text(r) == marker_of(row@),
{
    row.or_text(
        row.or_text(row.or_text(row.or_text(row.text("key"), "property"), "prop"), "marker"),
        "id",
    )
}

/// The text of a row under "descr" or, where that is absent, under "description".
pub open spec fn description_of(row: JsonView) -> Option<Seq<char>> {
    texts_of(row.or_get(row.get("descr"@), "description"@))
}

/// Whether a property is a generated safety assertion.
pub open spec fn generated_alarm(property: JsonView) -> bool {
    property.text("kind"@) == Some("assert"@) && match description_of(property) {
        Some(d) => occurs(d, "rte:"@) || occurs(d, "Eva:"@),
        None => false,
    }
}

/// Whether a kernel property is a generated safety assertion rather than a clause the caller
/// wrote. Frama-C tags them by emitter in the description.
pub fn is_generated_alarm(property: &Json) -> (r: bool)
    ensures
        r == generated_alarm(property@),
{
    if !is_text(property.text("kind"), "assert") {
        return false;
    }
    match text_in(property.or_get(property.get("descr"), "description")) {
        Some(d) => contains(d, "rte:") || contains(d, "Eva:"),
        None => false,
    }
}

/// Whether an optional text is the given one.
pub fn is_text(o: Option<&str>, s: &str) -> (r: bool)
    ensures
        r == (opt_text(o) == Some(s@)),
{
    match o {
        Some(t) => same(t, s),
        None => false,
    }
}

/// The status that judges a property row.
pub open spec fn property_status(property: JsonView) -> Seq<char> {
    text_or(own_status_spec(property), ""@)
}

/// The normalized status of a property row, which is what has to be judged rather than the raw
/// `status`.
pub fn property_normalized_status(property: &Json) -> (r: &str)
    ensures
        r@ == property_status(property@),
{
    str_or(own_status(property), "")
}

/// The consolidated status of a row or, where it has none, its own.
pub open spec fn consolidated_or_own(row: JsonView) -> Seq<char> {
    text_or(row.text("normalized_property_status"@), property_status(row))
}

/// The consolidated status of a row or, where it has none, its own.
fn consolidated_or_own_of(row: &Json) -> (r: &str)
    ensures
        r@ == consolidated_or_own(row@),
{
    str_or(row.text("normalized_property_status"), property_normalized_status(row))
}

/// Whether a property belongs to unreachable code.
pub open spec fn dead(property: JsonView) -> bool {
    ends(consolidated_or_own(property), "_but_dead"@)
}

/// Unreachable code, which is narrower than the `vacuous` flag: that one also covers a proof that
/// leaned on an impossible hypothesis.
pub fn property_is_dead(property: &Json) -> (r: bool)
    ensures
        r == dead(property@),
{
    ends_with(consolidated_or_own_of(property), "_but_dead")
}

/// Whether a goal moves a proof forward.
pub open spec fn goal_progress(goal: JsonView) -> bool {
    match goal.flag("counts_as_progress"@) {
        Some(b) => b,
        None => own_proved(goal),
    }
}

/// Whether a goal moves a proof forward: by its flag or, without one, by its own status.
pub fn check_goal_counts_as_progress(goal: &Json) -> (r: bool)
    ensures
        r == goal_progress(goal@),
{
    match goal.flag("counts_as_progress") {
        Some(b) => b,
        None => own_status_is_proved(goal),
    }
}

/// Whether some row does not move a proof forward.
pub open spec fn any_without_progress(rows: Seq<JsonView>) -> bool {
    exists|i: int| 0 <= i < rows.len() && !goal_progress(#[trigger] rows[i])
}

/// Whether a goal is proved, but only under hypotheses nothing has established.
pub open spec fn valid_under_hypotheses(goal: JsonView) -> bool {
    consolidated_or_own(goal) == "valid_under_hyp"@ || match goal.list("hypotheses"@) {
        Some(hs) => any_without_progress(hs),
        None => false,
    }
}

/// Proved, but only under hypotheses nothing has established.
///
/// Two shapes, because Frama-C reports the same situation two ways: the consolidated property
/// status is one, a goal whose hypotheses name a property that did not prove is the other.
pub fn goal_is_valid_under_hypotheses(goal: &Json) -> (r: bool)
    ensures
        r == valid_under_hypotheses(goal@),
{
    if same(consolidated_or_own_of(goal), "valid_under_hyp") {
        return true;
    }
    let hs = match goal.list("hypotheses") {
        Some(hs) => hs,
        None => {
            return false;
        },
    };
    let ghost all = models(hs@);
    let mut i: usize = 0;
    while i < hs.len()
        invariant
            i <= hs@.len(),
            all == models(hs@),
            goal@.list("hypotheses"@) == Some(all),
            forall|k: int| 0 <= k < i ==> goal_progress(#[trigger] all[k]),
        decreases hs@.len() - i,
    {
        if !check_goal_counts_as_progress(&hs[i]) {
            let ghost w = i as int;
            assert(0 <= w < all.len() && !goal_progress(all[w]));
            assert(any_without_progress(all));
            return true;
        }
        i = i + 1;
    }
    false
}

/// Whether a status is a disproof.
pub open spec fn disproof(status: Seq<char>) -> bool {
    status == "invalid"@ || status == "invalid_under_hyp"@
}

/// Whether EVA left a generated alarm undischarged on live code.
pub open spec fn undischarged(alarm: JsonView) -> bool {
    generated_alarm(alarm) && !dead(alarm) && (disproof(property_status(alarm)) || property_status(
        alarm,
    ) == "unknown"@)
}

/// Whether EVA left a generated alarm undischarged on live code. Judged on the status rather than
/// on the progress flag, which is also false for an alarm never evaluated.
pub fn alarm_is_undischarged(alarm: &Json) -> (r: bool)
    ensures
        r == undischarged(alarm@),
{
    let status = property_normalized_status(alarm);
    is_generated_alarm(alarm) && !property_is_dead(alarm) && (same(status, "invalid") || same(
        status,
        "invalid_under_hyp",
    ) || same(status, "unknown"))
}

/// Whether a goal stands for the property under `marker`.
pub open spec fn stands_for(goal: JsonView, marker: Seq<char>) -> bool {
    texts_of(goal.or_get(goal.get("property"@), "property_marker"@)) == Some(marker)
}

/// Whether some goal stands for the property under `marker`.
pub open spec fn covered(goals: Seq<JsonView>, marker: Seq<char>) -> bool {
    exists|i: int| 0 <= i < goals.len() && stands_for(#[trigger] goals[i], marker)
}

/// Whether every goal that stands for the property under `marker` is valid.
pub open spec fn all_valid(goals: Seq<JsonView>, marker: Seq<char>) -> bool {
    forall|i: int|
        0 <= i < goals.len() && stands_for(#[trigger] goals[i], marker) ==> goals[i].text(
            "normalized_status"@,
        ) == Some("valid"@)
}

/// Whether every goal standing for a property is valid, where some goal does.
pub open spec fn goals_verdict(property: JsonView, wp_goals: JsonView) -> Option<bool> {
    match (marker_of(property), wp_goals.as_list()) {
        (Some(marker), Some(goals)) => if covered(goals, marker) {
            Some(all_valid(goals, marker))
        } else {
            None
        },
        _ => None,
    }
}

/// Whether every WP goal standing for this property is valid, or `None` when no goal covers it.
/// All of them, not any: one valid part says nothing about the rest.
pub fn goals_for_property_all_valid(property: &Json, wp_goals: &Json) -> (r: Option<bool>)
    ensures
        r == goals_verdict(property@, wp_goals@),
{
    let marker = match value_marker(property) {
        Some(m) => m,
        None => {
            return None;
        },
    };
    let goals = match wp_goals.as_list() {
        Some(g) => g,
        None => {
            return None;
        },
    };
    let ghost all = models(goals@);
    let mut any: bool = false;
    let mut valid: bool = true;
    let mut i: usize = 0;
    while i < goals.len()
        invariant
            i <= goals@.len(),
            all == models(goals@),
            any == exists|k: int| 0 <= k < i && stands_for(#[trigger] all[k], marker@),
            valid == forall|k: int|
                0 <= k < i && stands_for(#[trigger] all[k], marker@) ==> all[k].text(
                    "normalized_status"@,
                ) == Some("valid"@),
        decreases goals@.len() - i,
    {
        let goal = &goals[i];
        assert(all[i as int] == goal@);
        if is_text(text_in(goal.or_get(goal.get("property"), "property_marker")), marker) {
            any = true;
            if !is_text(goal.text("normalized_status"), "valid") {
                valid = false;
            }
        }
        i = i + 1;
    }
    if any {
        Some(valid)
    } else {
        None
    }
}

/// Whether a property is a lemma that WP has not discharged.
pub open spec fn unproved_lemma(property: JsonView, wp_goals: JsonView) -> bool {
    property.text("kind"@) == Some("lemma"@) && match goals_verdict(property, wp_goals) {
        Some(valid) => !valid,
        None => property_status(property) != "valid"@,
    }
}

/// A lemma WP has not discharged. WP assumes every lemma while proving everything else, so an
/// undischarged one licenses the whole file. Judged by the WP goals; the property decides only
/// when no goal covers the lemma.
pub fn property_is_unproved_lemma(property: &Json, wp_goals: &Json) -> (r: bool)
    ensures
        r == unproved_lemma(property@, wp_goals@),
{
    if !is_text(property.text("kind"), "lemma") {
        return false;
    }
    match goals_for_property_all_valid(property, wp_goals) {
        Some(valid) => !valid,
        None => !same(property_normalized_status(property), "valid"),
    }
}

/// Whether a property is disproved and no goal will revisit it.
pub open spec fn disproved(property: JsonView, wp_goals: JsonView) -> bool {
    disproof(property_status(property)) && !dead(property) && goals_verdict(property, wp_goals)
        is None
}

/// A property Frama-C disproved that no WP goal will revisit.
pub fn property_is_disproved(property: &Json, wp_goals: &Json) -> (r: bool)
    ensures
        r == disproved(property@, wp_goals@),
{
    let status = property_normalized_status(property);
    (same(status, "invalid") || same(status, "invalid_under_hyp")) && !property_is_dead(property)
        && goals_for_property_all_valid(property, wp_goals).is_none()
}

/// A property Frama-C consolidated contradictory statuses for.
pub fn property_is_inconsistent(property: &Json) -> (r: bool)
    ensures
        r == (property_status(property@) == "inconsistent"@),
{
    same(property_normalized_status(property), "inconsistent")
}

/// A reachability property EVA disproved, which is how Frama-C states dead code.
pub fn property_is_disproved_reachability(property: &Json) -> (r: bool)
    ensures
        r == (property@.text("kind"@) == Some("reachable"@) && disproof(
            property_status(property@),
        )),
{
    let status = property_normalized_status(property);
    is_text(property.text("kind"), "reachable") && (same(status, "invalid") || same(
        status,
        "invalid_under_hyp",
    ))
}

/// A property Frama-C records as valid because it was told to, not because anything proved it.
pub fn property_is_assumed_valid(property: &Json) -> (r: bool)
    ensures
        r == (property_status(property@) == "considered_valid"@),
{
    same(property_normalized_status(property), "considered_valid")
}

/// Whether a goal is proved only because its hypotheses cannot hold.
pub open spec fn vacuously_proved(goal: JsonView) -> bool {
    goal.flag("vacuous"@) == Some(true) && !dead(goal)
}

/// Proved, but only because the hypotheses cannot hold. Dead code is not that shape, even though
/// it also sets the vacuous flag.
pub fn goal_is_vacuously_proved(goal: &Json) -> (r: bool)
    ensures
        r == vacuously_proved(goal@),
{
    let vacuous: bool = match goal.flag("vacuous") {
        Some(b) => b,
        None => false,
    };
    vacuous && !property_is_dead(goal)
}

/// Whether a goal should carry a classification of its failure. Judged on the goal's own status
/// plus vacuity, never on the progress flag, which holds the consolidated property verdict.
pub fn goal_needs_failure_classification(goal: &Json) -> (r: bool)
    ensures
        r == (!own_proved(goal@) || vacuously_proved(goal@)),
{
    !own_status_is_proved(goal) || goal_is_vacuously_proved(goal)
}

// ---------------------------------------------------------------------------
// Status filters
// ---------------------------------------------------------------------------

/// The status filter that means "anything WP did not discharge".
pub const GOAL_STATUS_UNPROVED: &'static str = "unproved";

/// Whether a status satisfies a status filter.
pub open spec fn status_matches(goal_status: Seq<char>, filter: Seq<char>) -> bool {
    if ascii_lower(filter) == ascii_lower(GOAL_STATUS_UNPROVED@) {
        !proved(goal_status)
    } else {
        ascii_lower(goal_status) == ascii_lower(filter)
    }
}

/// Whether a goal's status satisfies a status filter.
pub fn goal_status_matches(goal_status: &str, filter: &str) -> (r: bool)
    ensures
        r == status_matches(goal_status@, filter@),
{
    if same_ignoring_case(filter, GOAL_STATUS_UNPROVED) {
        return !is_proved(goal_status);
    }
    same_ignoring_case(goal_status, filter)
}

/// The statuses a filter may name whether or not a run produced one.
pub open spec fn known_statuses() -> Seq<Seq<char>> {
    seq![
        "considered_valid"@,
        "failed"@,
        "inconsistent"@,
        "invalid"@,
        "invalid_but_dead"@,
        "invalid_under_hyp"@,
        "never_tried"@,
        "noresult"@,
        "stepout"@,
        "timeout"@,
        "unknown"@,
        "unknown_but_dead"@,
        "valid"@,
        "valid_but_dead"@,
        "valid_under_false_hypothesis"@,
        "valid_under_hyp"@,
    ]
}

/// The statuses a filter may name whether or not a run produced one.
pub fn known_goal_statuses() -> (r: Vec<String>)
    ensures
        texts(r@) == known_statuses(),
{
    let mut v: Vec<String> = Vec::new();
    v.push(owned("considered_valid"));
    v.push(owned("failed"));
    v.push(owned("inconsistent"));
    v.push(owned("invalid"));
    v.push(owned("invalid_but_dead"));
    v.push(owned("invalid_under_hyp"));
    v.push(owned("never_tried"));
    v.push(owned("noresult"));
    v.push(owned("stepout"));
    v.push(owned("timeout"));
    v.push(owned("unknown"));
    v.push(owned("unknown_but_dead"));
    v.push(owned("valid"));
    v.push(owned("valid_but_dead"));
    v.push(owned("valid_under_false_hypothesis"));
    v.push(owned("valid_under_hyp"));
    assert(texts(v@) =~= known_statuses());
    v
}

/// The statuses of the rows that have one as a text.
pub open spec fn row_statuses(rows: Seq<JsonView>) -> Seq<Seq<char>>
    decreases rows.len(),
{
    if rows.len() == 0 {
        Seq::empty()
    } else {
        match rows.last().text("status"@) {
            Some(s) => row_statuses(rows.drop_last()).push(s),
            None => row_statuses(rows.drop_last()),
        }
    }
}

/// The distinct statuses a set of property or goal rows carries, in order.
pub fn present_statuses(rows: &Vec<Json>) -> (r: Vec<String>)
    ensures
        texts(r@) == sorted_unique(row_statuses(models(rows@))),
{
    let ghost all = models(rows@);
    let mut out: Vec<String> = Vec::new();
    let mut i: usize = 0;
    assert(texts(out@) =~= Seq::empty());
    while i < rows.len()
        invariant
            i <= rows@.len(),
            all == models(rows@),
            texts(out@) == sorted_unique(row_statuses(all.subrange(0, i as int))),
        decreases rows@.len() - i,
    {
        proof {
            lemma_take_next(all, i as int);
            let before = row_statuses(all.subrange(0, i as int));
            if let Some(s) = all[i as int].text("status"@) {
                assert(before.push(s).drop_last() =~= before);
            }
        }
        match rows[i].text("status") {
            Some(s) => {
                insert_text(&mut out, owned(s));
            },
            None => {},
        }
        i = i + 1;
    }
    assert(all.subrange(0, i as int) =~= all);
    out
}

/// Whether some text differs from `status` in nothing but the case of ASCII letters.
pub open spec fn names_any(candidates: Seq<Seq<char>>, status: Seq<char>) -> bool {
    exists|i: int|
        0 <= i < candidates.len() && ascii_lower(#[trigger] candidates[i]) == ascii_lower(status)
}

/// Whether some text differs from `status` in nothing but the case of ASCII letters.
fn any_named(candidates: &Vec<String>, status: &str) -> (r: bool)
    ensures
        r == names_any(texts(candidates@), status@),
{
    let ghost all = texts(candidates@);
    let mut i: usize = 0;
    while i < candidates.len()
        invariant
            i <= candidates@.len(),
            all == texts(candidates@),
            forall|k: int|
                0 <= k < i ==> ascii_lower(#[trigger] all[k]) != ascii_lower(status@),
        decreases candidates@.len() - i,
    {
        assert(all[i as int] == candidates@[i as int]@);
        if same_ignoring_case(candidates[i].as_str(), status) {
            return true;
        }
        i = i + 1;
    }
    false
}

/// Whether a filter may name a status on a run that produced those in `present`.
pub open spec fn status_accepted(status: Seq<char>, present: Seq<Seq<char>>) -> bool {
    ascii_lower(status) == ascii_lower(GOAL_STATUS_UNPROVED@) || names_any(known_statuses(), status)
        || names_any(present, status)
}

/// What an unknown status is answered.
pub open spec fn status_refusal(status: Seq<char>, present: Seq<Seq<char>>) -> ToolErrorView {
    ToolErrorView::invalid(
        "status "@ + debug_quoted(status) + " is not a status this data can hold; accepted: "@
            + join_spec(sorted_unique((known_statuses() + present).push(GOAL_STATUS_UNPROVED@)), ", "@),
    )
}

/// Refuses a status filter that names neither a status this library knows nor one this run
/// produced. An empty list is the answer to "which goals are valid" on a run that proved none;
/// only a typo is rejected.
pub fn reject_unknown_status(status: &str, present: &Vec<String>) -> (r: Result<(), ToolError>)
    ensures
        match r {
            Ok(_) => status_accepted(status@, texts(present@)),
            Err(e) => !status_accepted(status@, texts(present@)) && e@ == status_refusal(
                status@,
                texts(present@),
            ),
        },
{
    let mut accepted = known_goal_statuses();
    if same_ignoring_case(status, GOAL_STATUS_UNPROVED) || any_named(&accepted, status) || any_named(
        present,
        status,
    ) {
        return Ok(());
    }
    let ghost known = texts(accepted@);
    let mut i: usize = 0;
    assert(known =~= known + texts(present@).subrange(0, 0));
    while i < present.len()
        invariant
            i <= present@.len(),
            texts(accepted@) == known + texts(present@).subrange(0, i as int),
        decreases present@.len() - i,
    {
        let ghost before = accepted@;
        accepted.push(present[i].clone());
        assert(texts(accepted@) =~= texts(before).push(present@[i as int]@));
        assert(known + texts(present@).subrange(0, i + 1) =~= (known + texts(present@).subrange(
            0,
            i as int,
        )).push(present@[i as int]@));
        i = i + 1;
    }
    let ghost before = accepted@;
    accepted.push(owned(GOAL_STATUS_UNPROVED));
    assert(texts(present@).subrange(0, i as int) =~= texts(present@));
    assert(texts(accepted@) =~= texts(before).push(GOAL_STATUS_UNPROVED@));
    let sorted = sort_unique(&accepted);
    let message = cat4(
        "status ",
        debug_text(status).as_str(),
        " is not a status this data can hold; accepted: ",
        join(&sorted, ", ").as_str(),
    );
    Err(ToolError::invalid(message))
}

/// A run's own statuses are never refused.
pub proof fn law_present_status_accepted(present: Seq<Seq<char>>, i: int)
    requires
        0 <= i < present.len(),
    ensures
        status_accepted(present[i], present),
{
}

/// What is unproved and what is valid share no goal, and between them hold every goal.
pub proof fn law_unproved_is_the_complement_of_valid(goal_status: Seq<char>)
    ensures
        status_matches(goal_status, GOAL_STATUS_UNPROVED@) <==> !status_matches(goal_status, "valid"@),
{
    reveal_strlit("unproved");
    reveal_strlit("valid");
    assert(ascii_lower("unproved"@).len() == 8);
    assert(ascii_lower("valid"@).len() == 5);
}

// ---------------------------------------------------------------------------
// Errors
// ---------------------------------------------------------------------------

/// Whether an error is WP running out of its budget.
pub open spec fn timed_out(error: ToolErrorView) -> bool {
    match error.data {
        Some(data) => data.text("kind"@) == Some("WpTimeout"@),
        None => false,
    }
}

/// Whether an error is WP running out of its EXEC budget, as opposed to any other failure. Read
/// from the structured "kind" rather than by matching the message.
pub fn wp_timed_out(error: &ToolError) -> (r: bool)
    ensures
        r == timed_out(error@),
{
    match &error.data {
        Some(data) => is_text(data.text("kind"), "WpTimeout"),
        None => false,
    }
}

/// An error with one more sentence, on both copies of its text.
pub open spec fn with_sentence(error: ToolErrorView, sentence: Seq<char>) -> ToolErrorView {
    let combined = error.message + "; "@ + sentence;
    ToolErrorView {
        code: error.code,
        message: combined,
        data: match error.data {
            Some(data) => if data.get("message"@) is Some {
                Some(data.with("message"@, JsonView::Str(combined)))
            } else {
                Some(data)
            },
            None => None,
        },
    }
}

/// Appends a sentence to an error, on both copies of its text: a client reads whichever it reads.
pub fn append_to_error_message(error: &mut ToolError, sentence: &str)
    ensures
        final(error)@ == with_sentence(old(error)@, sentence@),
{
    let combined = cat3(error.message.as_str(), "; ", sentence);
    let mut data: Option<Json> = None;
    core::mem::swap(&mut error.data, &mut data);
    let next = match data {
        Some(d) => {
            let has: bool = d.get("message").is_some();
            if has {
                Some(d.with("message", Json::str(combined.as_str())))
            } else {
                Some(d)
            }
        },
        None => None,
    };
    error.message = combined;
    error.data = next;
}

// ---------------------------------------------------------------------------
// Sequents
// ---------------------------------------------------------------------------

/// A text on one line: its words with one space between neighbours.
pub open spec fn one_line(s: Seq<char>) -> Seq<char> {
    join_spec(words_spec(s), " "@)
}

/// A text on one line.
pub fn on_one_line(s: &str) -> (r: String)
    ensures
        r@ == one_line(s@),
{
    join(&words(s), " ")
}

/// `n` copies of a character.
pub open spec fn repeated(c: char, n: nat) -> Seq<char> {
    Seq::new(n, |i: int| c)
}

/// `n` copies of a character.
pub fn repeat_char(c: char, n: usize) -> (r: String)
    ensures
        r@ == repeated(c, n as nat),
{
    let mut out = String::new();
    let mut i: usize = 0;
    while i < n
        invariant
            i <= n,
            out@ =~= repeated(c, i as nat),
        decreases n - i,
    {
        out.push(c);
        i = i + 1;
    }
    out
}

/// A text with spaces behind it up to a width.
pub open spec fn padded(s: Seq<char>, width: nat) -> Seq<char> {
    s + repeated(
        ' ',
        if s.len() < width {
            (width - s.len()) as nat
        } else {
            0
        },
    )
}

/// Where a hypothesis came from, as far as WP says.
pub open spec fn origin_spec(hypothesis: JsonView) -> Seq<char> {
    let line = match hypothesis.at("loc"@, "line"@) {
        Some(v) => v.as_nat(),
        None => None,
    };
    match (line, hypothesis.text("description"@)) {
        (Some(n), Some(d)) => "    [line "@ + decimal(n as nat) + ", "@ + d + "]"@,
        (Some(n), None) => "    [line "@ + decimal(n as nat) + "]"@,
        (None, Some(d)) => "    ["@ + d + "]"@,
        (None, None) => ""@,
    }
}

/// The line of a sequent that shows a hypothesis.
pub open spec fn hypothesis_line(hypothesis: JsonView) -> Seq<char> {
    "  "@ + padded(text_or(hypothesis.text("kind"@), "have"@), 6) + one_line(
        text_or(hypothesis.text("formula"@), ""@),
    ) + origin_spec(hypothesis)
}

/// Where a hypothesis came from, as far as WP says.
fn hypothesis_origin(hypothesis: &Json) -> (r: String)
    ensures
        r@ == origin_spec(hypothesis@),
{
    let line: Option<u64> = match hypothesis.at("loc", "line") {
        Some(v) => v.as_nat(),
        None => None,
    };
    match (line, hypothesis.text("description")) {
        (Some(n), Some(d)) => crate::text::cat5(
            "    [line ",
            decimal_text(n).as_str(),
            ", ",
            d,
            "]",
        ),
        (Some(n), None) => cat3("    [line ", decimal_text(n).as_str(), "]"),
        (None, Some(d)) => cat3("    [", d, "]"),
        (None, None) => owned(""),
    }
}

/// The line of a sequent that shows a hypothesis.
fn render_hypothesis(hypothesis: &Json) -> (r: String)
    ensures
        r@ == hypothesis_line(hypothesis@),
{
    let kind = str_or(hypothesis.text("kind"), "have");
    let formula = on_one_line(str_or(hypothesis.text("formula"), ""));
    let origin = hypothesis_origin(hypothesis);
    let width: usize = kind.unicode_len();
    let mut padding: usize = 0;
    if width < 6 {
        padding = 6 - width;
    }
    let mut out = owned("  ");
    let mut shown = owned(kind);
    shown.append(repeat_char(' ', padding).as_str());
    out.append(shown.as_str());
    out.append(formula.as_str());
    out.append(origin.as_str());
    out
}

/// The hypotheses of a sequent, one line each.
pub open spec fn hypothesis_block(hs: Seq<JsonView>) -> Seq<char>
    decreases hs.len(),
{
    if hs.len() == 0 {
        ""@
    } else {
        hypothesis_block(hs.drop_last()) + hypothesis_line(hs.last()) + "\n"@
    }
}

/// The length of the longest line that shows a hypothesis.
pub open spec fn hypothesis_width(hs: Seq<JsonView>) -> nat
    decreases hs.len(),
{
    if hs.len() == 0 {
        0
    } else {
        let w = hypothesis_width(hs.drop_last());
        let n = hypothesis_line(hs.last()).len();
        if n > w {
            n
        } else {
            w
        }
    }
}

/// A number held between two bounds.
pub open spec fn clamped(n: nat, least: nat, most: nat) -> nat {
    if n < least {
        least
    } else if n > most {
        most
    } else {
        n
    }
}

/// The hypotheses that a verification condition lists.
pub open spec fn condition_hypotheses(raw: JsonView) -> Seq<JsonView> {
    match raw.list("hypotheses"@) {
        Some(hs) => hs,
        None => Seq::empty(),
    }
}

/// A verification condition as a sequent.
pub open spec fn sequent(raw: JsonView) -> Seq<char> {
    let hs = condition_hypotheses(raw);
    "WP terms, not source ACSL\n"@ + hypothesis_block(hs) + repeated(
        '-',
        clamped(hypothesis_width(hs), 24, 78),
    ) + "\n"@ + "  goal  "@ + one_line(text_or(raw.text("goal"@), "(no goal reported)"@))
}

/// A verification condition as a sequent: hypotheses above the line, the goal below it. These are
/// WP terms, not source ACSL, and the header says so.
pub fn render_sequent(raw_vc_text: &Json) -> (r: String)
    ensures
        r@ == sequent(raw_vc_text@),
{
    let mut block = owned("");
    let mut width: usize = 0;
    let ghost hs = condition_hypotheses(raw_vc_text@);
    match raw_vc_text.list("hypotheses") {
        Some(items) => {
            let mut i: usize = 0;
            assert(hs.subrange(0, 0) =~= Seq::empty());
            while i < items.len()
                invariant
                    i <= items@.len(),
                    hs == models(items@),
                    block@ == hypothesis_block(hs.subrange(0, i as int)),
                    width == hypothesis_width(hs.subrange(0, i as int)),
                decreases items@.len() - i,
            {
                proof {
                    lemma_take_next(hs, i as int);
                }
                let line = render_hypothesis(&items[i]);
                let n: usize = line.as_str().unicode_len();
                if n > width {
                    width = n;
                }
                block.append(line.as_str());
                block.append("\n");
                i = i + 1;
            }
            assert(hs.subrange(0, i as int) =~= hs);
        },
        None => {
            assert(hs =~= Seq::empty());
        },
    }
    let rule: usize = if width < 24 {
        24
    } else if width > 78 {
        78
    } else {
        width
    };
    let mut out = owned("WP terms, not source ACSL\n");
    out.append(block.as_str());
    out.append(repeat_char('-', rule).as_str());
    out.append("\n");
    out.append("  goal  ");
    out.append(on_one_line(str_or(raw_vc_text.text("goal"), "(no goal reported)")).as_str());
    out
}

// ---------------------------------------------------------------------------
// What the judgements come to
// ---------------------------------------------------------------------------

/// The status that judges a row is its normalized one; without it the raw one; without that the
/// one under `status`.
pub proof fn law_the_normalized_status_judges(row: JsonView, s: Seq<char>)
    ensures
        row.text("normalized_status"@) == Some(s) ==> property_status(row) == s,
        row.get("normalized_status"@) is None && row.text("raw_status"@) == Some(s)
            ==> property_status(row) == s,
        row.get("normalized_status"@) is None && row.get("raw_status"@) is None && row.text(
            "status"@,
        ) == Some(s) ==> property_status(row) == s,
        row.text("normalized_property_status"@) == Some(s) ==> consolidated_or_own(row) == s,
        row.text("normalized_property_status"@) is None && row.text("normalized_status"@) == Some(s)
            ==> consolidated_or_own(row) == s,
{
}

/// A generated alarm is an assertion that RTE or EVA tagged in its description, and nothing else
/// is.
pub proof fn law_generated_alarms_are_tagged(property: JsonView, d: Seq<char>)
    ensures
        property.text("kind"@) == Some("assert"@) && property.text("descr"@) == Some(d) ==> (
        generated_alarm(property) <==> occurs(d, "rte:"@) || occurs(d, "Eva:"@)),
        property.text("kind"@) == Some("assert"@) && property.get("descr"@) is None
            && property.text("description"@) == Some(d) ==> (generated_alarm(property) <==> occurs(
            d,
            "rte:"@,
        ) || occurs(d, "Eva:"@)),
        property.text("kind"@) != Some("assert"@) ==> !generated_alarm(property),
        property.get("descr"@) is None && property.get("description"@) is None ==> !generated_alarm(
            property,
        ),
{
}

/// A generated alarm on live code is undischarged where its status is a disproof, outright or
/// under hypotheses, and where it is unknown; a proof or an alarm that was never tried is not.
pub proof fn law_a_disproved_alarm_is_undischarged(alarm: JsonView, d: Seq<char>, status: Seq<char>)
    requires
        alarm.text("kind"@) == Some("assert"@),
        alarm.text("descr"@) == Some(d),
        occurs(d, "rte:"@) || occurs(d, "Eva:"@),
        alarm.text("normalized_status"@) == Some(status),
        alarm.text("normalized_property_status"@) is None,
        !ends(status, "_but_dead"@),
    ensures
        status == "invalid"@ ==> undischarged(alarm),
        status == "invalid_under_hyp"@ ==> undischarged(alarm),
        status == "unknown"@ ==> undischarged(alarm),
        status == "valid"@ ==> !undischarged(alarm),
        status == "valid_under_hyp"@ ==> !undischarged(alarm),
        status == "noresult"@ ==> !undischarged(alarm),
        undischarged(alarm) ==> status == "invalid"@ || status == "invalid_under_hyp"@ || status
            == "unknown"@,
{
    reveal_strlit("invalid");
    reveal_strlit("invalid_under_hyp");
    reveal_strlit("unknown");
    reveal_strlit("valid");
    reveal_strlit("valid_under_hyp");
    reveal_strlit("noresult");
    assert("invalid"@.len() == 7 && "invalid_under_hyp"@.len() == 17);
    assert("unknown"@.len() == 7 && "valid"@.len() == 5);
    assert("valid_under_hyp"@.len() == 15 && "noresult"@.len() == 8);
    assert("invalid"@[0] != "unknown"@[0]);
}

/// What is undischarged was generated and is live; the status of the consolidated property makes
/// an alarm dead before its own does.
pub proof fn law_only_live_generated_alarms_are_undischarged(alarm: JsonView, s: Seq<char>)
    ensures
        undischarged(alarm) ==> alarm.text("kind"@) == Some("assert"@),
        alarm.text("normalized_property_status"@) == Some(s + "_but_dead"@) ==> dead(alarm)
            && !undischarged(alarm),
        alarm.text("normalized_property_status"@) is None && alarm.text("normalized_status"@) == Some(
            s + "_but_dead"@,
        ) ==> dead(alarm) && !undischarged(alarm),
        alarm.text("normalized_property_status"@) == Some(s) && !ends(s, "_but_dead"@) ==> !dead(
            alarm,
        ),
{
    let t = s + "_but_dead"@;
    assert(t.subrange(t.len() - "_but_dead"@.len(), t.len() as int) =~= "_but_dead"@);
}

/// A row is known by the first of its identifying fields that is a text.
pub proof fn law_the_first_identifying_field_names_a_row(row: JsonView, m: Seq<char>)
    ensures
        row.text("key"@) == Some(m) ==> marker_of(row) == Some(m),
        row.text("key"@) is None && row.text("property"@) == Some(m) ==> marker_of(row) == Some(m),
        row.text("key"@) is None && row.text("property"@) is None && row.text("prop"@) == Some(m)
            ==> marker_of(row) == Some(m),
        row.text("key"@) is None && row.text("property"@) is None && row.text("prop"@) is None
            && row.text("marker"@) == Some(m) ==> marker_of(row) == Some(m),
        row.text("key"@) is None && row.text("property"@) is None && row.text("prop"@) is None
            && row.text("marker"@) is None ==> marker_of(row) == row.text("id"@),
{
}

/// The goals of a property decide it together: one that is not valid keeps it open, and where none
/// stands for it they decide nothing.
pub proof fn law_every_goal_of_a_property_counts(
    property: JsonView,
    goals: Seq<JsonView>,
    marker: Seq<char>,
    i: int,
)
    requires
        property.text("key"@) == Some(marker),
        0 <= i < goals.len(),
        goals[i].text("property"@) == Some(marker),
    ensures
        goals[i].text("normalized_status"@) != Some("valid"@) ==> goals_verdict(
            property,
            JsonView::Array(goals),
        ) == Some(false),
        (forall|k: int|
            0 <= k < goals.len() ==> (#[trigger] goals[k]).text("normalized_status"@) == Some(
                "valid"@,
            )) ==> goals_verdict(property, JsonView::Array(goals)) == Some(true),
        goals_verdict(property, JsonView::Array(Seq::empty())) is None,
        goals_verdict(property, JsonView::Null) is None,
{
    assert(stands_for(goals[i], marker));
}

/// A lemma is open where a goal of it is not valid or, without a goal, where its own status is not
/// valid; what is no lemma is never one.
pub proof fn law_a_lemma_is_judged_by_its_goals(
    property: JsonView,
    goals: Seq<JsonView>,
    marker: Seq<char>,
    status: Seq<char>,
    i: int,
)
    requires
        property.text("key"@) == Some(marker),
        property.text("normalized_status"@) == Some(status),
    ensures
        property.text("kind"@) == Some("lemma"@) && 0 <= i < goals.len() && goals[i].text(
            "property"@,
        ) == Some(marker) && goals[i].text("normalized_status"@) != Some("valid"@)
            ==> unproved_lemma(property, JsonView::Array(goals)),
        property.text("kind"@) == Some("lemma"@) ==> (unproved_lemma(
            property,
            JsonView::Array(Seq::empty()),
        ) <==> status != "valid"@),
        property.text("kind"@) != Some("lemma"@) ==> !unproved_lemma(
            property,
            JsonView::Array(goals),
        ),
{
    if 0 <= i < goals.len() && goals[i].text("property"@) == Some(marker) {
        law_every_goal_of_a_property_counts(property, goals, marker, i);
    }
}

/// A live property that is disproved and that no goal covers is reported as disproved, and only
/// such a one.
pub proof fn law_an_uncovered_disproof_is_reported(
    property: JsonView,
    goals: Seq<JsonView>,
    marker: Seq<char>,
    status: Seq<char>,
    i: int,
)
    requires
        property.text("key"@) == Some(marker),
        property.text("normalized_status"@) == Some(status),
        property.text("normalized_property_status"@) is None,
    ensures
        status == "invalid"@ ==> disproved(property, JsonView::Array(Seq::empty())),
        status == "invalid_under_hyp"@ ==> disproved(property, JsonView::Array(Seq::empty())),
        disproved(property, JsonView::Array(goals)) ==> status == "invalid"@ || status
            == "invalid_under_hyp"@,
        0 <= i < goals.len() && goals[i].text("property"@) == Some(marker) ==> !disproved(
            property,
            JsonView::Array(goals),
        ),
{
    reveal_strlit("invalid");
    reveal_strlit("invalid_under_hyp");
    reveal_strlit("_but_dead");
    assert("invalid"@.len() == 7 && "_but_dead"@.len() == 9);
    assert("invalid_under_hyp"@.len() == 17);
    assert("invalid_under_hyp"@[8] == 'u' && "_but_dead"@[0] == '_');
    if ends(status, "_but_dead"@) && status == "invalid_under_hyp"@ {
        assert(status.subrange(8, 17)[0] == status[8]);
    }
    if 0 <= i < goals.len() && goals[i].text("property"@) == Some(marker) {
        law_every_goal_of_a_property_counts(property, goals, marker, i);
    }
}

/// A goal is valid only under hypotheses where its property says so, and where one of its
/// hypotheses did not prove; a goal without hypotheses whose property is plainly valid is not.
pub proof fn law_an_open_hypothesis_makes_a_goal_conditional(
    goal: JsonView,
    hs: Seq<JsonView>,
    i: int,
)
    ensures
        goal.text("normalized_property_status"@) == Some("valid_under_hyp"@)
            ==> valid_under_hypotheses(goal),
        goal.list("hypotheses"@) == Some(hs) && 0 <= i < hs.len() && hs[i].flag(
            "counts_as_progress"@,
        ) == Some(false) ==> valid_under_hypotheses(goal),
        goal.list("hypotheses"@) == Some(hs) && 0 <= i < hs.len() && hs[i].flag(
            "counts_as_progress"@,
        ) is None && hs[i].text("normalized_status"@) == Some("unknown"@) ==> valid_under_hypotheses(
            goal,
        ),
        goal.list("hypotheses"@) is None && goal.text("normalized_property_status"@) == Some("valid"@)
            ==> !valid_under_hypotheses(goal),
        goal.list("hypotheses"@) == Some(hs) && goal.text("normalized_property_status"@) == Some(
            "valid"@,
        ) && (forall|k: int|
            0 <= k < hs.len() ==> (#[trigger] hs[k]).flag("counts_as_progress"@) == Some(true))
            ==> !valid_under_hypotheses(goal),
{
    reveal_strlit("valid");
    reveal_strlit("valid_under_hyp");
    reveal_strlit("unknown");
    assert("valid"@.len() == 5 && "valid_under_hyp"@.len() == 15);
    assert("unknown"@.len() == 7);
    if goal.list("hypotheses"@) == Some(hs) && 0 <= i < hs.len() {
        if hs[i].flag("counts_as_progress"@) == Some(false) {
            assert(!goal_progress(hs[i]));
        }
        if hs[i].flag("counts_as_progress"@) is None && hs[i].text("normalized_status"@) == Some(
            "unknown"@,
        ) {
            assert(ascii_lower("unknown"@).len() == 7);
            assert(ascii_lower("valid"@).len() == 5);
            assert(!goal_progress(hs[i]));
        }
    }
}

/// A vacuous proof on live code is told, dead code is not called one, and what needs a
/// classification is what did not prove or proved vacuously.
pub proof fn law_vacuity_is_not_dead_code(goal: JsonView, s: Seq<char>)
    ensures
        goal.flag("vacuous"@) == Some(true) && goal.text("normalized_property_status"@) == Some(
            "valid_under_false_hypothesis"@,
        ) ==> vacuously_proved(goal),
        goal.flag("vacuous"@) == Some(true) && goal.text("normalized_property_status"@) == Some(
            s + "_but_dead"@,
        ) ==> !vacuously_proved(goal),
        goal.flag("vacuous"@) != Some(true) ==> !vacuously_proved(goal),
{
    reveal_strlit("valid_under_false_hypothesis");
    reveal_strlit("_but_dead");
    let v = "valid_under_false_hypothesis"@;
    assert(v.len() == 28 && "_but_dead"@.len() == 9);
    assert(v[27] == 's' && "_but_dead"@[8] == 'd');
    if ends(v, "_but_dead"@) {
        assert(v.subrange(19, 28)[8] == v[27]);
    }
    let t = s + "_but_dead"@;
    assert(t.subrange(t.len() - 9, t.len() as int) =~= "_but_dead"@);
}

/// A filter by status finds the goals whose status it names, in any case; the word for what is not
/// proved finds all that are not valid.
pub proof fn law_a_filter_finds_what_it_names(status: Seq<char>, filter: Seq<char>)
    ensures
        ascii_lower(filter) != ascii_lower("unproved"@) ==> (status_matches(status, filter)
            <==> ascii_lower(status) == ascii_lower(filter)),
        status_matches(status, "unproved"@) <==> ascii_lower(status) != ascii_lower("valid"@),
        !status_matches("valid"@, "unproved"@),
        status_matches("unknown"@, "unproved"@),
        status_matches("timeout"@, "unproved"@),
        status_matches("invalid"@, "unproved"@),
{
    reveal_strlit("valid");
    reveal_strlit("unknown");
    reveal_strlit("timeout");
    reveal_strlit("invalid");
    assert("valid"@.len() == 5 && "unknown"@.len() == 7);
    assert("timeout"@.len() == 7 && "invalid"@.len() == 7);
    assert("unknown"@[0] != "timeout"@[0]);
    assert("unknown"@[0] != "invalid"@[0]);
    assert("timeout"@[0] != "invalid"@[0]);
    assert(ascii_lower("valid"@).len() == 5);
    assert(ascii_lower("unknown"@).len() == 7);
    assert(ascii_lower("timeout"@).len() == 7);
    assert(ascii_lower("invalid"@).len() == 7);
}

/// A status is accepted as a filter where it is one that goals can have, one that is there, or the
/// word for what is not proved, in any case; and no other is.
pub proof fn law_a_filter_names_a_status(status: Seq<char>, present: Seq<Seq<char>>)
    ensures
        status_accepted("considered_valid"@, present),
        status_accepted("failed"@, present),
        status_accepted("inconsistent"@, present),
        status_accepted("invalid"@, present),
        status_accepted("invalid_but_dead"@, present),
        status_accepted("invalid_under_hyp"@, present),
        status_accepted("never_tried"@, present),
        status_accepted("noresult"@, present),
        status_accepted("stepout"@, present),
        status_accepted("timeout"@, present),
        status_accepted("unknown"@, present),
        status_accepted("unknown_but_dead"@, present),
        status_accepted("valid"@, present),
        status_accepted("valid_but_dead"@, present),
        status_accepted("valid_under_false_hypothesis"@, present),
        status_accepted("valid_under_hyp"@, present),
        status_accepted("unproved"@, present),
        present.contains(status) ==> status_accepted(status, present),
        status_accepted(status, Seq::empty()) ==> ascii_lower(status) == ascii_lower(
            "unproved"@,
        ) || exists|i: int|
            0 <= i < 16 && ascii_lower(#[trigger] known_statuses()[i]) == ascii_lower(status),
{
    let k = known_statuses();
    assert(k.len() == 16);
    assert(k[0] == "considered_valid"@);
    assert(k[1] == "failed"@);
    assert(k[2] == "inconsistent"@);
    assert(k[3] == "invalid"@);
    assert(k[4] == "invalid_but_dead"@);
    assert(k[5] == "invalid_under_hyp"@);
    assert(k[6] == "never_tried"@);
    assert(k[7] == "noresult"@);
    assert(k[8] == "stepout"@);
    assert(k[9] == "timeout"@);
    assert(k[10] == "unknown"@);
    assert(k[11] == "unknown_but_dead"@);
    assert(k[12] == "valid"@);
    assert(k[13] == "valid_but_dead"@);
    assert(k[14] == "valid_under_false_hypothesis"@);
    assert(k[15] == "valid_under_hyp"@);
    if present.contains(status) {
        let i = choose|i: int| 0 <= i < present.len() && present[i] == status;
        assert(ascii_lower(present[i]) == ascii_lower(status));
    }
}

/// A sentence is put behind the message, after a semicolon; the code stays, and data that repeats
/// the message repeats the new one and is otherwise as it was.
pub proof fn law_a_sentence_is_put_behind(error: ToolErrorView, sentence: Seq<char>, key: Seq<char>)
    ensures
        with_sentence(error, sentence).message == error.message + "; "@ + sentence,
        with_sentence(error, sentence).code == error.code,
        error.data is None ==> with_sentence(error, sentence).data is None,
        error.data is Some ==> with_sentence(error, sentence).data is Some,
        error.data is Some && error.data->0.get("message"@) is Some ==> with_sentence(
            error,
            sentence,
        ).data->0.text("message"@) == Some(error.message + "; "@ + sentence),
        error.data is Some && key != "message"@ ==> with_sentence(error, sentence).data->0.get(key)
            == error.data->0.get(key),
{
    broadcast use crate::json::group_object_reads;

}

/// A timeout is told by the kind in the data of an error, and by nothing else.
pub proof fn law_a_timeout_is_told_by_its_kind(error: ToolErrorView, data: JsonView)
    ensures
        error.data == Some(data) ==> (timed_out(error) <==> data.text("kind"@) == Some("WpTimeout"@)),
        error.data is None ==> !timed_out(error),
{
}

proof fn lemma_block_holds(hs: Seq<JsonView>, i: int)
    requires
        0 <= i < hs.len(),
    ensures
        occurs(hypothesis_block(hs), hypothesis_line(hs[i])),
    decreases hs.len(),
{
    let line = hypothesis_line(hs[i]);
    let before = hypothesis_block(hs.drop_last());
    let all = hypothesis_block(hs);
    if i == hs.len() - 1 {
        let at = before.len() as int;
        assert(all.subrange(at, at + line.len()) =~= line);
        assert(stands_at(all, line, at));
    } else {
        lemma_block_holds(hs.drop_last(), i);
        let at = choose|at: int| stands_at(before, line, at);
        assert(all.subrange(at, at + line.len()) =~= before.subrange(at, at + line.len()));
        assert(stands_at(all, line, at));
    }
}

proof fn lemma_occurs_within(a: Seq<char>, m: Seq<char>, b: Seq<char>, n: Seq<char>)
    requires
        occurs(m, n),
    ensures
        occurs(a + m + b, n),
{
    let at = choose|at: int| stands_at(m, n, at);
    let all = a + m + b;
    let k = a.len() + at;
    assert(all.subrange(k, k + n.len()) =~= m.subrange(at, at + n.len()));
    assert(stands_at(all, n, k));
}

/// A printed sequent shows the formula of every hypothesis and ends with the goal, each on one
/// line.
pub proof fn law_a_sequent_shows_every_hypothesis(
    raw: JsonView,
    hs: Seq<JsonView>,
    i: int,
    formula: Seq<char>,
    goal: Seq<char>,
)
    ensures
        raw.list("hypotheses"@) == Some(hs) && 0 <= i < hs.len() && hs[i].text("formula"@) == Some(
            formula,
        ) ==> occurs(sequent(raw), join_spec(words_spec(formula), " "@)),
        raw.text("goal"@) == Some(goal) ==> ends(
            sequent(raw),
            "  goal  "@ + join_spec(words_spec(goal), " "@),
        ),
        begins(sequent(raw), "WP terms, not source ACSL\n"@),
{
    let h = condition_hypotheses(raw);
    let top = "WP terms, not source ACSL\n"@;
    let block = hypothesis_block(h);
    let rule = repeated('-', clamped(hypothesis_width(h), 24, 78)) + "\n"@;
    let last = "  goal  "@ + one_line(text_or(raw.text("goal"@), "(no goal reported)"@));
    assert(sequent(raw) =~= top + block + (rule + last));
    assert(sequent(raw).subrange(0, top.len() as int) =~= top);
    let n = sequent(raw).len() - last.len();
    assert(sequent(raw).subrange(n, sequent(raw).len() as int) =~= last);
    if raw.list("hypotheses"@) == Some(hs) && 0 <= i < hs.len() && hs[i].text("formula"@) == Some(
        formula,
    ) {
        let shown = one_line(formula);
        lemma_block_holds(hs, i);
        let line = hypothesis_line(hs[i]);
        let left = "  "@ + padded(text_or(hs[i].text("kind"@), "have"@), 6);
        assert(line =~= left + shown + origin_spec(hs[i]));
        assert(shown.subrange(0, shown.len() as int) =~= shown);
        assert(stands_at(shown, shown, 0));
        lemma_occurs_within(left, shown, origin_spec(hs[i]), shown);
        let at = choose|at: int| stands_at(block, line, at);
        let a = block.subrange(0, at);
        let b = block.subrange(at + line.len(), block.len() as int);
        assert(block =~= a + line + b);
        lemma_occurs_within(a, line, b, shown);
        lemma_occurs_within(top, block, rule + last, shown);
    }
}

/// A goal counts as progress where it is flagged so, and by its status where it has no flag.
pub proof fn law_progress_of_a_goal(goal: JsonView, b: bool)
    ensures
        goal.flag("counts_as_progress"@) == Some(b) ==> goal_progress(goal) == b,
        goal.flag("counts_as_progress"@) is None && goal.get("normalized_status"@) == Some(
            JsonView::Str("valid"@),
        ) ==> goal_progress(goal),
        goal.flag("counts_as_progress"@) is None && goal.get("normalized_status"@) == Some(
            JsonView::Str("unknown"@),
        ) ==> !goal_progress(goal),
{
    reveal_strlit("valid");
    reveal_strlit("unknown");
    assert(crate::text::ascii_lower("valid"@).len() == 5);
    assert(crate::text::ascii_lower("unknown"@).len() == 7);
}

/// A goal stands for the property it names, in full or by its marker.
pub proof fn law_a_goal_stands_for_its_property(goal: JsonView, marker: Seq<char>, goals: Seq<JsonView>, i: int)
    ensures
        goal.get("property"@) == Some(JsonView::Str(marker)) ==> stands_for(goal, marker),
        goal.get("property"@) is None && goal.get("property_marker"@) == Some(JsonView::Str(marker))
            ==> stands_for(goal, marker),
        goal.get("property"@) is None && goal.get("property_marker"@) is None ==> !stands_for(
            goal,
            marker,
        ),
        0 <= i < goals.len() && stands_for(goals[i], marker) ==> covered(goals, marker),
{
}

/// A status is named in any case, and the statuses of the rows are read in order.
pub proof fn law_statuses_are_named_in_any_case(
    candidates: Seq<Seq<char>>,
    i: int,
    status: Seq<char>,
    rows: Seq<JsonView>,
    row: JsonView,
)
    ensures
        0 <= i < candidates.len() && crate::text::ascii_lower(candidates[i])
            == crate::text::ascii_lower(status) ==> names_any(candidates, status),
        candidates.len() == 0 ==> !names_any(candidates, status),
        row.text("status"@) == Some(status) ==> row_statuses(rows.push(row)) == row_statuses(
            rows,
        ).push(status),
        row.text("status"@) is None ==> row_statuses(rows.push(row)) == row_statuses(rows),
{
    assert(rows.push(row).drop_last() =~= rows);
}

/// A hypothesis is shown with its line and what it is, as far as they are known, behind a mark of at
/// least six characters.
pub proof fn law_a_hypothesis_tells_its_origin(
    h: JsonView,
    loc: JsonView,
    n: int,
    d: Seq<char>,
    s: Seq<char>,
)
    ensures
        h.get("loc"@) == Some(loc) && loc.nat_at("line"@) == Some(n) && h.text("description"@)
            == Some(d) ==> origin_spec(h) == "    [line "@ + decimal(n as nat) + ", "@ + d + "]"@,
        h.get("loc"@) == Some(loc) && loc.nat_at("line"@) == Some(n) && h.text("description"@) is None
            ==> origin_spec(h) == "    [line "@ + decimal(n as nat) + "]"@,
        h.get("loc"@) is None && h.text("description"@) == Some(d) ==> origin_spec(h) == "    ["@ + d
            + "]"@,
        h.get("loc"@) is None && h.text("description"@) is None ==> origin_spec(h) == ""@,
        s.len() >= 6 ==> padded(s, 6) == s,
        s.len() < 6 ==> padded(s, 6).len() == 6 && padded(s, 6).subrange(0, s.len() as int) == s,
{
    if s.len() >= 6 {
        assert(padded(s, 6) =~= s);
    } else {
        assert(padded(s, 6).subrange(0, s.len() as int) =~= s);
    }
}

} // verus!
