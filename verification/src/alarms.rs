//! What an alarm is about, and what could be required so that it does not arise.

use crate::error::{ToolError, ToolErrorView};
use crate::goals::{goal_status, wp_goal_counts_as_progress, wp_goal_status, wp_progress};
use crate::json::{
    lemma_models_push, lemma_take_next, models, opt_json, str_or, text_in, text_or, texts_of, Json,
    JsonView,
};
use crate::status::{
    counts_as_progress, normalize, normalize_frama_c_status, normalized_or_derived,
    normalized_or_derived_spec, raw_status, raw_status_spec, status_counts_as_progress,
};
use crate::text::{
    ascii_lower, cat2, cat3, cat5, contains, int_decimal, int_text, occurs, opt_string, opt_text,
    owned, same, to_ascii_lowercase, trim, trim_spec,
};
use crate::verdicts::{is_text, marker_of, value_marker};
use vstd::prelude::*;
use vstd::string::*;

verus! {

/// The name of what an alarm is about.
pub open spec fn alarm_kind(property: JsonView) -> Seq<char> {
    text_or(
        texts_of(
            property.or_get(
                property.or_get(
                    property.or_get(property.get("alarm"@), "alarm_descr"@),
                    "kind"@,
                ),
                "descr"@,
            ),
        ),
        "unknown"@,
    )
}

/// The name of what an alarm is about.
pub fn alarm_kind_text(property: &Json) -> (r: String)
    ensures
        r@ == alarm_kind(property@),
{
    owned(
        str_or(
            text_in(
                property.or_get(
                    property.or_get(property.or_get(property.get("alarm"), "alarm_descr"), "kind"),
                    "descr",
                ),
            ),
            "unknown",
        ),
    )
}

/// Whether any of three words occurs in a text.
pub open spec fn mentions3(t: Seq<char>, a: Seq<char>, b: Seq<char>, c: Seq<char>) -> bool {
    occurs(t, a) || occurs(t, b) || occurs(t, c)
}

/// Whether any of three words occurs in a text.
pub fn mentions_any3(t: &str, a: &str, b: &str, c: &str) -> (r: bool)
    ensures
        r == mentions3(t@, a@, b@, c@),
{
    contains(t, a) || contains(t, b) || contains(t, c)
}

/// The text in which an alarm is looked for what it is about: its kind, its predicate and what
/// describes it, in small letters.
pub open spec fn alarm_text(kind: Seq<char>, property: JsonView, described: Option<Seq<char>>) -> Seq<
    char,
> {
    ascii_lower(
        kind + " "@ + text_or(property.text("predicate"@), ""@) + " "@ + text_or(described, ""@),
    )
}

/// What an alarm asks to be required or asserted, and with what confidence.
pub open spec fn obligation(kind: Seq<char>, property: JsonView) -> (Seq<char>, Seq<char>) {
    let t = alarm_text(kind, property, property.text("descr"@));
    if mentions3(t, "division"@, "divisor"@, "zero"@) {
        ("Require or assert the divisor is nonzero before this operation."@, "medium"@)
    } else if mentions3(t, "bound"@, "index"@, "array"@) {
        ("Require or assert that the index stays within the valid array bounds."@, "medium"@)
    } else if mentions3(t, "mem"@, "valid"@, "pointer"@) {
        (
            "Require or assert pointer validity, and separation when multiple memory regions interact."@,
            "medium"@,
        )
    } else if mentions3(t, "overflow"@, "signed"@, "unsigned"@) {
        (
            "Require or assert numeric bounds that make the arithmetic operation stay in range."@,
            "medium"@,
        )
    } else {
        match texts_of(property.or_get(property.get("predicate"@), "descr"@)) {
            Some(p) => ("Prove or assume this Frama-C property: "@ + p, "low"@),
            None => ("Prove or assume the reported Frama-C property."@, "low"@),
        }
    }
}

/// What an alarm asks to be required or asserted, and with what confidence.
pub fn alarm_obligation_text(kind: &str, property: &Json) -> (r: (String, &'static str))
    ensures
        (r.0@, r.1@) == obligation(kind@, property@),
{
    let text = cat5(
        kind,
        " ",
        str_or(property.text("predicate"), ""),
        " ",
        str_or(property.text("descr"), ""),
    );
    let text = to_ascii_lowercase(text.as_str());
    let t = text.as_str();
    if mentions_any3(t, "division", "divisor", "zero") {
        (owned("Require or assert the divisor is nonzero before this operation."), "medium")
    } else if mentions_any3(t, "bound", "index", "array") {
        (owned("Require or assert that the index stays within the valid array bounds."), "medium")
    } else if mentions_any3(t, "mem", "valid", "pointer") {
        (
            owned(
                "Require or assert pointer validity, and separation when multiple memory regions interact.",
            ),
            "medium",
        )
    } else if mentions_any3(t, "overflow", "signed", "unsigned") {
        (
            owned(
                "Require or assert numeric bounds that make the arithmetic operation stay in range.",
            ),
            "medium",
        )
    } else {
        match text_in(property.or_get(property.get("predicate"), "descr")) {
            Some(p) => (cat2("Prove or assume this Frama-C property: ", p), "low"),
            None => (owned("Prove or assume the reported Frama-C property."), "low"),
        }
    }
}

/// The kind of a runtime error, and the reason for a suggestion about it.
pub open spec fn suggestion_kind(kind: Seq<char>, property: JsonView) -> (Seq<char>, Seq<char>) {
    let t = alarm_text(
        kind,
        property,
        texts_of(property.or_get(property.get("description"@), "descr"@)),
    );
    if occurs(t, "division"@) || occurs(t, "zero"@) {
        ("division_by_zero"@, "divisor_nonzero"@)
    } else if mentions3(t, "bound"@, "index"@, "array"@) {
        ("index_bound"@, "index_in_bounds"@)
    } else if mentions3(t, "mem"@, "valid"@, "pointer"@) {
        ("invalid_pointer"@, "pointer_valid"@)
    } else if occurs(t, "uninitialized"@) || occurs(t, "initialized"@) {
        ("uninitialized_read"@, "value_initialized"@)
    } else if mentions3(t, "overflow"@, "signed"@, "unsigned"@) {
        ("overflow"@, "numeric_bounds"@)
    } else {
        ("unknown"@, "prove_rte_predicate"@)
    }
}

/// The kind of a runtime error, and the reason for a suggestion about it.
pub fn rte_suggestion_kind(kind: &str, property: &Json) -> (r: (&'static str, &'static str))
    ensures
        (r.0@, r.1@) == suggestion_kind(kind@, property@),
{
    let text = cat5(
        kind,
        " ",
        str_or(property.text("predicate"), ""),
        " ",
        str_or(text_in(property.or_get(property.get("description"), "descr")), ""),
    );
    let text = to_ascii_lowercase(text.as_str());
    let t = text.as_str();
    if contains(t, "division") || contains(t, "zero") {
        ("division_by_zero", "divisor_nonzero")
    } else if mentions_any3(t, "bound", "index", "array") {
        ("index_bound", "index_in_bounds")
    } else if mentions_any3(t, "mem", "valid", "pointer") {
        ("invalid_pointer", "pointer_valid")
    } else if contains(t, "uninitialized") || contains(t, "initialized") {
        ("uninitialized_read", "value_initialized")
    } else if mentions_any3(t, "overflow", "signed", "unsigned") {
        ("overflow", "numeric_bounds")
    } else {
        ("unknown", "prove_rte_predicate")
    }
}

/// The marker of the property a suggestion is about, as the row holds it.
pub open spec fn suggested_marker(p: JsonView) -> JsonView {
    JsonView::or_null(
        p.or_get(
            p.or_get(
                p.or_get(
                    p.or_get(p.or_get(p.get("property_marker"@), "key"@), "property"@),
                    "prop"@,
                ),
                "marker"@,
            ),
            "id"@,
        ),
    )
}

/// The statement a suggestion is about, as the row holds it.
pub open spec fn suggested_statement(p: JsonView) -> JsonView {
    JsonView::or_null(
        p.or_get(p.or_get(p.or_get(p.get("sid"@), "stmt_id"@), "kinstr_marker"@), "kinstr"@),
    )
}

/// How a statement is named in a sentence.
pub open spec fn statement_name(v: JsonView) -> Seq<char> {
    match v.as_text() {
        Some(s) => s,
        None => match v.as_int() {
            Some(n) => int_decimal(n),
            None => "unknown"@,
        },
    }
}

/// The statement behind a suggestion.
pub open spec fn statement_object(p: JsonView) -> JsonView {
    JsonView::object().with("marker"@, suggested_statement(p)).with(
        "stmt_id"@,
        JsonView::or_null(p.or_get(p.get("sid"@), "stmt_id"@)),
    ).with("loc"@, JsonView::or_null(p.or_get(p.get("stmt_loc"@), "loc"@)))
}

/// What a suggestion rests on.
pub open spec fn suggestion_source(p: JsonView, predicate: Seq<char>) -> JsonView {
    JsonView::object().with("property_marker"@, suggested_marker(p)).with(
        "source_statement"@,
        statement_object(p),
    ).with("alarm_kind"@, JsonView::Str(alarm_kind(p))).with(
        "loc"@,
        JsonView::or_null(p.or_get(p.get("stmt_loc"@), "loc"@)),
    ).with("predicate"@, JsonView::Str(predicate))
}

/// Why a suggested clause is needed.
pub open spec fn necessity(p: JsonView, rte_kind: Seq<char>) -> Seq<char> {
    "Discharges Frama-C RTE "@ + rte_kind + " property "@ + text_or(
        suggested_marker(p).as_text(),
        "unknown"@,
    ) + " at "@ + statement_name(suggested_statement(p))
}

/// How sure a suggestion is.
pub open spec fn suggestion_confidence(rte_kind: Seq<char>) -> Seq<char> {
    if rte_kind == "division_by_zero"@ {
        "high"@
    } else {
        "medium"@
    }
}

/// The suggestion to require the predicate.
pub open spec fn requires_suggestion(p: JsonView, predicate: Seq<char>) -> JsonView {
    let (rte_kind, reason) = suggestion_kind(alarm_kind(p), p);
    let clause = JsonView::object().with("acsl"@, JsonView::Str(predicate)).with(
        "necessity"@,
        JsonView::Str(necessity(p, rte_kind)),
    );
    let annotation = JsonView::object().with("kind"@, JsonView::Str("requires"@)).with(
        "acsl"@,
        JsonView::Str(predicate),
    ).with("necessity"@, JsonView::Str(necessity(p, rte_kind)));
    JsonView::object().with("kind"@, JsonView::Str("requires"@)).with(
        "rte_kind"@,
        JsonView::Str(rte_kind),
    ).with("acsl"@, JsonView::Str(predicate)).with(
        "clause"@,
        JsonView::Str("requires "@ + predicate + ";"@),
    ).with("annotations"@, JsonView::Array(seq![annotation])).with(
        "proposed_requires"@,
        JsonView::Array(seq![clause]),
    ).with("reason"@, JsonView::Str(reason)).with(
        "confidence"@,
        JsonView::Str(suggestion_confidence(rte_kind)),
    ).with("needs_validation"@, JsonView::Bool(true)).with(
        "source_property_marker"@,
        suggested_marker(p),
    ).with("source_statement"@, statement_object(p)).with(
        "source"@,
        suggestion_source(p, predicate),
    ).with("evidence"@, suggestion_source(p, predicate))
}

/// The suggestion to assert the predicate.
pub open spec fn assert_suggestion(p: JsonView, predicate: Seq<char>) -> JsonView {
    let (rte_kind, reason) = suggestion_kind(alarm_kind(p), p);
    JsonView::object().with("kind"@, JsonView::Str("assert"@)).with(
        "rte_kind"@,
        JsonView::Str(rte_kind),
    ).with("acsl"@, JsonView::Str(predicate)).with(
        "clause"@,
        JsonView::Str("assert "@ + predicate + ";"@),
    ).with("reason"@, JsonView::Str(reason)).with(
        "confidence"@,
        JsonView::Str(suggestion_confidence(rte_kind)),
    ).with("needs_validation"@, JsonView::Bool(true)).with(
        "source_property_marker"@,
        suggested_marker(p),
    ).with("source_statement"@, statement_object(p)).with(
        "source"@,
        suggestion_source(p, predicate),
    ).with("evidence"@, suggestion_source(p, predicate))
}

/// What could be required or asserted so that an alarm does not arise: nothing where the alarm
/// has no predicate.
pub open spec fn suggestions(p: JsonView) -> JsonView {
    let predicate = trim_spec(text_or(p.text("predicate"@), ""@));
    if predicate.len() == 0 {
        JsonView::Array(Seq::empty())
    } else {
        JsonView::Array(seq![requires_suggestion(p, predicate), assert_suggestion(p, predicate)])
    }
}

/// What could be required or asserted so that an alarm does not arise.
pub fn rte_precondition_suggestions(property: &Json) -> (r: Json)
    ensures
        r@ == suggestions(property@),
{
    let predicate_text = trim(str_or(property.text("predicate"), ""));
    let predicate = predicate_text.as_str();
    if predicate.is_empty() {
        return Json::list0();
    }
    let p = property;
    let kind = alarm_kind_text(p);
    let (rte_kind, reason) = rte_suggestion_kind(kind.as_str(), p);
    let marker = Json::or_null(
        p.or_get(
            p.or_get(
                p.or_get(
                    p.or_get(p.or_get(p.get("property_marker"), "key"), "property"),
                    "prop",
                ),
                "marker",
            ),
            "id",
        ),
    );
    let statement_marker = Json::or_null(
        p.or_get(p.or_get(p.or_get(p.get("sid"), "stmt_id"), "kinstr_marker"), "kinstr"),
    );
    let loc = Json::or_null(p.or_get(p.get("stmt_loc"), "loc"));
    let statement_text = match statement_marker.as_text() {
        Some(s) => owned(s),
        None => match statement_marker.as_int() {
            Some(n) => int_text(n),
            None => owned("unknown"),
        },
    };
    let confidence = if same(rte_kind, "division_by_zero") {
        "high"
    } else {
        "medium"
    };
    let mut why = owned("Discharges Frama-C RTE ");
    why.append(rte_kind);
    why.append(" property ");
    why.append(str_or(marker.as_text(), "unknown"));
    why.append(" at ");
    why.append(statement_text.as_str());
    let statement = Json::object().with("marker", statement_marker).with(
        "stmt_id",
        Json::or_null(p.or_get(p.get("sid"), "stmt_id")),
    ).with("loc", loc.copy());
    let source = Json::object().with("property_marker", marker.copy()).with(
        "source_statement",
        statement.copy(),
    ).with("alarm_kind", Json::str(kind.as_str())).with("loc", loc).with(
        "predicate",
        Json::str(predicate),
    );
    let clause = Json::object().with("acsl", Json::str(predicate)).with(
        "necessity",
        Json::str(why.as_str()),
    );
    let annotation = Json::object().with("kind", Json::str("requires")).with(
        "acsl",
        Json::str(predicate),
    ).with("necessity", Json::str(why.as_str()));
    let required = Json::object().with("kind", Json::str("requires")).with(
        "rte_kind",
        Json::str(rte_kind),
    ).with("acsl", Json::str(predicate)).with(
        "clause",
        Json::Str(cat3("requires ", predicate, ";")),
    ).with("annotations", Json::list1(annotation)).with("proposed_requires", Json::list1(clause)).with(
        "reason",
        Json::str(reason),
    ).with("confidence", Json::str(confidence)).with("needs_validation", Json::Bool(true)).with(
        "source_property_marker",
        marker.copy(),
    ).with("source_statement", statement.copy()).with("source", source.copy()).with(
        "evidence",
        source.copy(),
    );
    let asserted = Json::object().with("kind", Json::str("assert")).with(
        "rte_kind",
        Json::str(rte_kind),
    ).with("acsl", Json::str(predicate)).with("clause", Json::Str(cat3("assert ", predicate, ";"))).with(
        "reason",
        Json::str(reason),
    ).with("confidence", Json::str(confidence)).with("needs_validation", Json::Bool(true)).with(
        "source_property_marker",
        marker,
    ).with("source_statement", statement).with("source", source.copy()).with("evidence", source);
    Json::list2(required, asserted)
}

/// What is said of one WP goal of an alarm.
pub open spec fn goal_summary(goal: JsonView) -> JsonView {
    JsonView::object().with("stable_goal_id"@, JsonView::or_null(goal.get("stable_goal_id"@))).with(
        "frama_c_goal_name"@,
        JsonView::or_null(goal.get("frama_c_goal_name"@)),
    ).with("goal_kind"@, JsonView::or_null(goal.get("goal_kind"@))).with(
        "normalized_status"@,
        JsonView::Str(goal_status(goal)),
    ).with("counts_as_progress"@, JsonView::Bool(wp_progress(goal)))
}

/// The status of the first goal that does not move a proof forward or, where there is none, of
/// the first goal.
pub open spec fn current_status(goals: Seq<JsonView>) -> Option<Seq<char>> {
    if exists|i: int| first_open(goals, i) {
        Some(goal_status(goals[choose|i: int| first_open(goals, i)]))
    } else if goals.len() > 0 {
        Some(goal_status(goals[0]))
    } else {
        None
    }
}

/// Whether the status of the goal at `i` does not move a proof forward, and `i` is the first
/// such.
pub open spec fn first_open(goals: Seq<JsonView>, i: int) -> bool {
    &&& 0 <= i < goals.len()
    &&& !counts_as_progress(normalize(goal_status(goals[i])))
    &&& forall|k: int|
        0 <= k < i ==> counts_as_progress(normalize(goal_status(#[trigger] goals[k])))
}

/// The status of the first goal that does not move a proof forward or, where there is none, of
/// the first goal.
fn current_wp_status(goals: &Vec<Json>) -> (r: Option<String>)
    ensures
        opt_string(r) == current_status(models(goals@)),
{
    let ghost all = models(goals@);
    let mut i: usize = 0;
    while i < goals.len()
        invariant
            i <= goals@.len(),
            all == models(goals@),
            forall|k: int|
                0 <= k < i ==> counts_as_progress(normalize(goal_status(#[trigger] all[k]))),
        decreases goals@.len() - i,
    {
        let status = wp_goal_status(&goals[i]);
        assert(all[i as int] == goals@[i as int]@);
        let name = normalize_frama_c_status(status.as_str());
        if !status_counts_as_progress(name.as_str()) {
            proof {
                assert(first_open(all, i as int));
                let w = choose|w: int| first_open(all, w);
                assert(first_open(all, w));
                if w < i {
                    assert(counts_as_progress(normalize(goal_status(all[w]))));
                } else if i < w {
                    assert(counts_as_progress(normalize(goal_status(all[i as int]))));
                }
            }
            return Some(status);
        }
        i = i + 1;
    }
    assert(forall|w: int| !first_open(all, w));
    if goals.len() > 0 {
        assert(all[0] == goals@[0]@);
        Some(wp_goal_status(&goals[0]))
    } else {
        None
    }
}

/// A value or, where there is none, `false`.
pub open spec fn or_false(o: Option<JsonView>) -> JsonView {
    match o {
        Some(v) => v,
        None => JsonView::Bool(false),
    }
}

/// A copy of a value or, where there is none, `false`.
pub fn copy_or_false(o: Option<&Json>) -> (r: Json)
    ensures
        r@ == or_false(opt_json(o)),
{
    match o {
        Some(v) => v.copy(),
        None => Json::Bool(false),
    }
}

/// What EVA says of an alarm.
pub open spec fn eva_status(property: JsonView) -> JsonView {
    JsonView::object().with(
        "raw_status"@,
        JsonView::Str(text_or(raw_status_spec(property), "unknown"@)),
    ).with("normalized_status"@, JsonView::Str(normalized_or_derived_spec(property))).with(
        "counts_as_progress"@,
        or_false(property.get("counts_as_progress"@)),
    ).with("vacuous"@, or_false(property.get("vacuous"@))).with(
        "requires_hypotheses"@,
        or_false(property.get("requires_hypotheses"@)),
    )
}

/// What WP says of an alarm.
pub open spec fn wp_status(goals: Seq<JsonView>) -> JsonView {
    JsonView::object().with("matched"@, JsonView::Bool(goals.len() > 0)).with(
        "current_status"@,
        JsonView::opt_text(current_status(goals)),
    ).with("goals"@, JsonView::Array(goals.map_values(|g: JsonView| goal_summary(g))))
}

/// A fact about an alarm, with the field it comes from.
pub open spec fn evidence_item(field: Seq<char>, value: JsonView) -> JsonView {
    JsonView::object().with("field"@, JsonView::Str(field)).with("value"@, value)
}

/// A fact about an alarm, with the field it comes from.
pub fn evidence_of(field: &str, value: Json) -> (r: Json)
    ensures
        r@ == evidence_item(field@, value@),
{
    Json::object().with("field", Json::str(field)).with("value", value)
}

/// What is under `key` in an optional value.
pub open spec fn in_values(values: Option<JsonView>, key: Seq<char>) -> JsonView {
    match values {
        Some(v) => JsonView::or_null(v.get(key)),
        None => JsonView::Null,
    }
}

fn from_values(values: Option<&Json>, key: &str) -> (r: Json)
    ensures
        r@ == in_values(opt_json(values), key@),
{
    match values {
        Some(v) => Json::or_null(v.get(key)),
        None => Json::Null,
    }
}

/// The instruction marker of a property.
pub open spec fn kinstr_of(property: JsonView) -> Option<Seq<char>> {
    texts_of(property.or_get(property.get("kinstr_marker"@), "kinstr"@))
}

/// Everything known about an alarm at a statement.
pub open spec fn alarm_summary(
    property: JsonView,
    values: Option<JsonView>,
    goals: Seq<JsonView>,
    callstack: Option<int>,
) -> JsonView {
    let kind = alarm_kind(property);
    let marker = text_or(marker_of(property), ""@);
    let wanted = obligation(kind, property);
    JsonView::object().with("alarm_kind"@, JsonView::Str(kind)).with(
        "property_marker"@,
        JsonView::Str(marker),
    ).with("kinstr_marker"@, JsonView::opt_text(kinstr_of(property))).with(
        "callstack"@,
        JsonView::opt_int(callstack),
    ).with("value_before"@, in_values(values, "vBefore"@)).with(
        "value_after"@,
        in_values(values, "vAfter"@),
    ).with("eva_status"@, eva_status(property)).with("wp_status"@, wp_status(goals)).with(
        "diagnosis"@,
        JsonView::Str(
            "Eva cannot prove this runtime check at the current statement with the current abstract state."@,
        ),
    ).with(
        "likely_acsl_obligation"@,
        JsonView::object().with("kind"@, JsonView::Str("requires_or_assert"@)).with(
            "description"@,
            JsonView::Str(wanted.0),
        ).with("confidence"@, JsonView::Str(wanted.1)),
    ).with("rte_suggestions"@, suggestions(property)).with("suggestions"@, suggestions(property)).with(
        "evidence"@,
        JsonView::Array(
            seq![
                evidence_item("property_marker"@, JsonView::Str(marker)),
                evidence_item("kinstr_marker"@, JsonView::opt_text(kinstr_of(property))),
                evidence_item("alarm_kind"@, JsonView::Str(kind)),
            ],
        ),
    )
}

fn goal_summaries(goals: &Vec<Json>) -> (r: Json)
    ensures
        r@ == JsonView::Array(models(goals@).map_values(|g: JsonView| goal_summary(g))),
{
    let mut out: Vec<Json> = Vec::new();
    let mut i: usize = 0;
    while i < goals.len()
        invariant
            i <= goals@.len(),
            out@.len() == i,
            forall|k: int| 0 <= k < i ==> (#[trigger] out@[k])@ == goal_summary(goals@[k]@),
        decreases goals@.len() - i,
    {
        let goal = &goals[i];
        out.push(
            Json::object().with("stable_goal_id", Json::or_null(goal.get("stable_goal_id"))).with(
                "frama_c_goal_name",
                Json::or_null(goal.get("frama_c_goal_name")),
            ).with("goal_kind", Json::or_null(goal.get("goal_kind"))).with(
                "normalized_status",
                Json::Str(wp_goal_status(goal)),
            ).with("counts_as_progress", Json::Bool(wp_goal_counts_as_progress(goal))),
        );
        i = i + 1;
    }
    assert(models(out@) =~= models(goals@).map_values(|g: JsonView| goal_summary(g)));
    Json::array(out)
}

/// A small number as an optional integer.
pub open spec fn opt_u32(o: Option<u32>) -> Option<int> {
    match o {
        Some(n) => Some(n as int),
        None => None,
    }
}

/// A number or, where there is none, null.
pub fn json_opt_u32(o: Option<u32>) -> (r: Json)
    ensures
        r@ == JsonView::opt_int(opt_u32(o)),
{
    match o {
        Some(n) => Json::num(n as u64),
        None => Json::Null,
    }
}

/// Everything known about an alarm at a statement: what EVA and WP say of it, the values around
/// it, and what could be required.
pub fn alarm_diagnostic_summary(
    property: &Json,
    values: Option<&Json>,
    wp_goals: &Vec<Json>,
    callstack: Option<u32>,
) -> (r: Json)
    ensures
        r@ == alarm_summary(property@, opt_json(values), models(wp_goals@), opt_u32(callstack)),
{
    let kind = alarm_kind_text(property);
    let marker = str_or(value_marker(property), "");
    let kinstr = text_in(property.or_get(property.get("kinstr_marker"), "kinstr"));
    let eva = Json::object().with("raw_status", Json::str(str_or(raw_status(property), "unknown"))).with(
        "normalized_status",
        Json::Str(normalized_or_derived(property)),
    ).with("counts_as_progress", copy_or_false(property.get("counts_as_progress"))).with(
        "vacuous",
        copy_or_false(property.get("vacuous")),
    ).with("requires_hypotheses", copy_or_false(property.get("requires_hypotheses")));
    let current = current_wp_status(wp_goals);
    let current_json = match &current {
        Some(s) => Json::str(s.as_str()),
        None => Json::Null,
    };
    let wp = Json::object().with("matched", Json::Bool(wp_goals.len() > 0)).with(
        "current_status",
        current_json,
    ).with("goals", goal_summaries(wp_goals));
    let wanted = alarm_obligation_text(kind.as_str(), property);
    let suggested = rte_precondition_suggestions(property);
    let evidence = Json::list3(
        evidence_of("property_marker", Json::str(marker)),
        evidence_of("kinstr_marker", Json::opt_str(kinstr)),
        evidence_of("alarm_kind", Json::str(kind.as_str())),
    );
    Json::object().with("alarm_kind", Json::str(kind.as_str())).with(
        "property_marker",
        Json::str(marker),
    ).with("kinstr_marker", Json::opt_str(kinstr)).with("callstack", json_opt_u32(callstack)).with(
        "value_before",
        from_values(values, "vBefore"),
    ).with("value_after", from_values(values, "vAfter")).with("eva_status", eva).with(
        "wp_status",
        wp,
    ).with(
        "diagnosis",
        Json::str(
            "Eva cannot prove this runtime check at the current statement with the current abstract state.",
        ),
    ).with(
        "likely_acsl_obligation",
        Json::object().with("kind", Json::str("requires_or_assert")).with(
            "description",
            Json::Str(wanted.0),
        ).with("confidence", Json::str(wanted.1)),
    ).with("rte_suggestions", suggested.copy()).with("suggestions", suggested).with(
        "evidence",
        evidence,
    )
}

/// Whether a field of a property is a text that speaks of what is assigned.
pub open spec fn field_assigns(property: JsonView, field: Seq<char>) -> bool {
    match property.text(field) {
        Some(t) => occurs(ascii_lower(t), "assigns"@),
        None => false,
    }
}

/// Whether a property is about what is assigned in the function under a marker, or in any.
pub open spec fn about_assigns(property: JsonView, function_marker: Option<Seq<char>>) -> bool {
    (match function_marker {
        Some(m) => property.text("scope"@) == Some(m),
        None => true,
    }) && (field_assigns(property, "kind"@) || field_assigns(property, "name"@) || field_assigns(
        property,
        "descr"@,
    ) || field_assigns(property, "predicate"@))
}

fn mentions_assigns(property: &Json, field: &str) -> (r: bool)
    ensures
        r == field_assigns(property@, field@),
{
    match property.text(field) {
        Some(t) => contains(to_ascii_lowercase(t).as_str(), "assigns"),
        None => false,
    }
}

/// The properties about what is assigned in the function under a marker, or in any.
pub fn current_assigns_from_properties(
    properties: &Vec<Json>,
    function_marker: Option<&str>,
) -> (r: Vec<Json>)
    ensures
        models(r@) == models(properties@).filter(
            |p: JsonView| about_assigns(p, opt_text(function_marker)),
        ),
{
    let ghost all = models(properties@);
    let ghost wanted = |p: JsonView| about_assigns(p, opt_text(function_marker));
    let mut out: Vec<Json> = Vec::new();
    let mut i: usize = 0;
    proof {
        reveal(Seq::filter);
        assert(models(out@) =~= all.subrange(0, 0).filter(wanted));
    }
    while i < properties.len()
        invariant
            i <= properties@.len(),
            all == models(properties@),
            wanted == (|p: JsonView| about_assigns(p, opt_text(function_marker))),
            models(out@) == all.subrange(0, i as int).filter(wanted),
        decreases properties@.len() - i,
    {
        proof {
            reveal(Seq::filter);
            lemma_take_next(all, i as int);
        }
        let p = &properties[i];
        let in_scope: bool = match function_marker {
            Some(m) => is_text(p.text("scope"), m),
            None => true,
        };
        if in_scope && (mentions_assigns(p, "kind") || mentions_assigns(p, "name")
            || mentions_assigns(p, "descr") || mentions_assigns(p, "predicate")) {
            let c = p.copy();
            proof {
                lemma_models_push(out@, c);
            }
            out.push(c);
        }
        i = i + 1;
    }
    assert(all.subrange(0, i as int) =~= all);
    out
}

// ---------------------------------------------------------------------------
// The runtime checker
// ---------------------------------------------------------------------------

/// The names under which the E-ACSL wrapper is installed.
pub open spec fn e_acsl_wrappers() -> Seq<Seq<char>> {
    seq!["e-acsl-gcc"@, "e-acsl-gcc.sh"@]
}

/// What a tool that is not an E-ACSL wrapper is answered.
pub open spec fn unknown_e_acsl_tool(tool: Seq<char>) -> ToolErrorView {
    ToolErrorView::invalid_with(
        "tool must be one of e-acsl-gcc or e-acsl-gcc.sh; it names the executable this server runs"@,
        JsonView::object().with("kind"@, JsonView::Str("UnknownEAcslTool"@)).with(
            "tool"@,
            JsonView::Str(tool),
        ).with("expected"@, JsonView::strings(e_acsl_wrappers())),
    )
}

/// Accepts a caller-named E-ACSL wrapper only if it is one of the known names. A path is refused:
/// the point is to launch the installed wrapper and nothing else.
pub fn require_known_e_acsl_tool(tool: &str) -> (r: Result<(), ToolError>)
    ensures
        match r {
            Ok(_) => e_acsl_wrappers().contains(tool@),
            Err(e) => !e_acsl_wrappers().contains(tool@) && e@ == unknown_e_acsl_tool(tool@),
        },
{
    proof {
        assert(e_acsl_wrappers()[0] == "e-acsl-gcc"@ && e_acsl_wrappers()[1] == "e-acsl-gcc.sh"@);
    }
    if same(tool, "e-acsl-gcc") || same(tool, "e-acsl-gcc.sh") {
        return Ok(());
    }
    let mut names: Vec<String> = Vec::new();
    names.push(owned("e-acsl-gcc"));
    names.push(owned("e-acsl-gcc.sh"));
    assert(crate::text::texts(names@) =~= e_acsl_wrappers());
    let message = owned(
        "tool must be one of e-acsl-gcc or e-acsl-gcc.sh; it names the executable this server runs",
    );
    let data = Json::object().with("kind", Json::str("UnknownEAcslTool")).with(
        "tool",
        Json::str(tool),
    ).with("expected", Json::strings(&names));
    Err(ToolError::invalid_with(message, data))
}

// ---------------------------------------------------------------------------
// What is asked for, by what an alarm is about
// ---------------------------------------------------------------------------

/// What an alarm asks for follows from what its kind, its predicate and its description speak of,
/// in any case: a divisor that is not zero, an index within bounds, a valid pointer, numbers in
/// range, in this order; and the property itself where they speak of none of these.
pub proof fn law_an_alarm_asks_for_what_it_is_about(
    kind: Seq<char>,
    property: JsonView,
    predicate: Seq<char>,
    descr: Seq<char>,
)
    requires
        property.text("predicate"@) == Some(predicate),
        property.text("descr"@) == Some(descr),
    ensures
        ({
            let t = ascii_lower(kind + " "@ + predicate + " "@ + descr);
            let (asked, sure) = obligation(kind, property);
            &&& occurs(t, "division"@) || occurs(t, "divisor"@) || occurs(t, "zero"@) ==> asked
                == "Require or assert the divisor is nonzero before this operation."@
            &&& !occurs(t, "division"@) && !occurs(t, "divisor"@) && !occurs(t, "zero"@) && (occurs(t, "bound"@) || occurs(t, "index"@) || occurs(t, "array"@)) ==> asked
                == "Require or assert that the index stays within the valid array bounds."@
            &&& !occurs(t, "division"@) && !occurs(t, "divisor"@) && !occurs(t, "zero"@) && !occurs(t, "bound"@) && !occurs(t, "index"@) && !occurs(t, "array"@)
                && (occurs(t, "mem"@) || occurs(t, "valid"@) || occurs(t, "pointer"@)) ==> asked
                == "Require or assert pointer validity, and separation when multiple memory regions interact."@
            &&& !occurs(t, "division"@) && !occurs(t, "divisor"@) && !occurs(t, "zero"@) && !occurs(t, "bound"@) && !occurs(t, "index"@) && !occurs(t, "array"@) && !occurs(t, "mem"@) && !occurs(t, "valid"@) && !occurs(t, "pointer"@)
                && (occurs(t, "overflow"@) || occurs(t, "signed"@) || occurs(t, "unsigned"@)) ==> asked
                == "Require or assert numeric bounds that make the arithmetic operation stay in range."@
            &&& !occurs(t, "division"@) && !occurs(t, "divisor"@) && !occurs(t, "zero"@) && !occurs(t, "bound"@) && !occurs(t, "index"@) && !occurs(t, "array"@) && !occurs(t, "mem"@) && !occurs(t, "valid"@) && !occurs(t, "pointer"@) && !occurs(t, "overflow"@) && !occurs(t, "signed"@) && !occurs(t, "unsigned"@)
                ==> asked == "Prove or assume this Frama-C property: "@ + predicate && sure == "low"@
            &&& occurs(t, "division"@) || occurs(t, "divisor"@) || occurs(t, "zero"@) || occurs(t, "bound"@) || occurs(t, "index"@) || occurs(t, "array"@) || occurs(t, "mem"@) || occurs(t, "valid"@) || occurs(t, "pointer"@) || occurs(t, "overflow"@) || occurs(t, "signed"@) || occurs(t, "unsigned"@) ==> sure == "medium"@
        }),
{
}

/// An alarm without a predicate and a description is judged by its kind alone.
pub proof fn law_a_bare_alarm_is_judged_by_its_kind(kind: Seq<char>, property: JsonView)
    requires
        property.get("predicate"@) is None,
        property.get("descr"@) is None,
    ensures
        ({
            let t = ascii_lower(kind + " "@ + ""@ + " "@ + ""@);
            let (asked, sure) = obligation(kind, property);
            &&& occurs(t, "division"@) || occurs(t, "divisor"@) || occurs(t, "zero"@) ==> asked
                == "Require or assert the divisor is nonzero before this operation."@
            &&& !occurs(t, "division"@) && !occurs(t, "divisor"@) && !occurs(t, "zero"@) && !occurs(t, "bound"@) && !occurs(t, "index"@) && !occurs(t, "array"@) && occurs(t, "mem"@) ==> asked
                == "Require or assert pointer validity, and separation when multiple memory regions interact."@
            &&& !occurs(t, "division"@) && !occurs(t, "divisor"@) && !occurs(t, "zero"@) && !occurs(t, "bound"@) && !occurs(t, "index"@) && !occurs(t, "array"@) && !occurs(t, "mem"@) && !occurs(t, "valid"@) && !occurs(t, "pointer"@) && occurs(t, "overflow"@) ==> asked
                == "Require or assert numeric bounds that make the arithmetic operation stay in range."@
            &&& !occurs(t, "division"@) && !occurs(t, "divisor"@) && !occurs(t, "zero"@) && !occurs(t, "bound"@) && !occurs(t, "index"@) && !occurs(t, "array"@) && !occurs(t, "mem"@) && !occurs(t, "valid"@) && !occurs(t, "pointer"@) && !occurs(t, "overflow"@) && !occurs(t, "signed"@) && !occurs(t, "unsigned"@) ==> asked
                == "Prove or assume the reported Frama-C property."@
        }),
{
}

/// The kind of check that a suggestion is for, and why it is made, follow from the same words; a
/// read of something uninitialised is told apart there.
pub proof fn law_a_suggestion_is_for_what_the_alarm_is_about(
    kind: Seq<char>,
    property: JsonView,
    predicate: Seq<char>,
    description: Seq<char>,
)
    requires
        property.text("predicate"@) == Some(predicate),
        property.text("description"@) == Some(description),
    ensures
        ({
            let t = ascii_lower(kind + " "@ + predicate + " "@ + description);
            let (found, why) = suggestion_kind(kind, property);
            &&& occurs(t, "division"@) || occurs(t, "zero"@) ==> found == "division_by_zero"@ && why
                == "divisor_nonzero"@
            &&& !occurs(t, "division"@) && !occurs(t, "zero"@) && (occurs(t, "bound"@) || occurs(t, "index"@) || occurs(t, "array"@)) ==> found == "index_bound"@
                && why == "index_in_bounds"@
            &&& !occurs(t, "division"@) && !occurs(t, "zero"@) && !occurs(t, "bound"@) && !occurs(t, "index"@) && !occurs(t, "array"@) && (occurs(t, "mem"@) || occurs(t, "valid"@) || occurs(t, "pointer"@)) ==> found
                == "invalid_pointer"@ && why == "pointer_valid"@
            &&& !occurs(t, "division"@) && !occurs(t, "zero"@) && !occurs(t, "bound"@) && !occurs(t, "index"@) && !occurs(t, "array"@) && !occurs(t, "mem"@) && !occurs(t, "valid"@) && !occurs(t, "pointer"@) && (occurs(t, "uninitialized"@) || occurs(t, "initialized"@))
                ==> found == "uninitialized_read"@ && why == "value_initialized"@
            &&& !occurs(t, "division"@) && !occurs(t, "zero"@) && !occurs(t, "bound"@) && !occurs(t, "index"@) && !occurs(t, "array"@) && !occurs(t, "mem"@) && !occurs(t, "valid"@) && !occurs(t, "pointer"@) && !occurs(t, "uninitialized"@) && !occurs(t, "initialized"@) && (occurs(t, "overflow"@) || occurs(t, "signed"@) || occurs(t, "unsigned"@)) ==> found == "overflow"@ && why == "numeric_bounds"@
            &&& !occurs(t, "division"@) && !occurs(t, "zero"@) && !occurs(t, "bound"@) && !occurs(t, "index"@) && !occurs(t, "array"@) && !occurs(t, "mem"@) && !occurs(t, "valid"@) && !occurs(t, "pointer"@) && !occurs(t, "uninitialized"@) && !occurs(t, "initialized"@) && !occurs(t, "overflow"@) && !occurs(t, "signed"@) && !occurs(t, "unsigned"@)
                ==> found == "unknown"@ && why == "prove_rte_predicate"@
        }),
{
}

/// What an alarm is about is what it says under `alarm`; without it under `alarm_descr`; then its
/// kind, then its description.
pub proof fn law_an_alarm_names_its_kind(property: JsonView, s: Seq<char>)
    ensures
        property.text("alarm"@) == Some(s) ==> alarm_kind(property) == s,
        property.get("alarm"@) is None && property.text("alarm_descr"@) == Some(s) ==> alarm_kind(
            property,
        ) == s,
        property.get("alarm"@) is None && property.get("alarm_descr"@) is None && property.text(
            "kind"@,
        ) == Some(s) ==> alarm_kind(property) == s,
        property.get("alarm"@) is None && property.get("alarm_descr"@) is None && property.get(
            "kind"@,
        ) is None && property.text("descr"@) == Some(s) ==> alarm_kind(property) == s,
{
}

/// A predicate is suggested both as a precondition and as an assertion, as it stands but for the
/// white space around it; nothing is suggested where there is none.
pub proof fn law_the_predicate_itself_is_suggested(property: JsonView, predicate: Seq<char>)
    requires
        property.text("predicate"@) == Some(predicate),
    ensures
        ({
            let p = trim_spec(predicate);
            let found = suggestions(property);
            let (rte_kind, why) = suggestion_kind(alarm_kind(property), property);
            &&& p.len() == 0 ==> found == JsonView::Array(Seq::empty())
            &&& p.len() > 0 ==> match found {
                JsonView::Array(s) => {
                    &&& s.len() == 2
                    &&& s[0].text("kind"@) == Some("requires"@)
                    &&& s[0].text("acsl"@) == Some(p)
                    &&& s[0].text("clause"@) == Some("requires "@ + p + ";"@)
                    &&& s[1].text("kind"@) == Some("assert"@)
                    &&& s[1].text("acsl"@) == Some(p)
                    &&& s[1].text("clause"@) == Some("assert "@ + p + ";"@)
                    &&& s[0].flag("needs_validation"@) == Some(true)
                    &&& s[1].flag("needs_validation"@) == Some(true)
                    &&& s[0].text("rte_kind"@) == Some(rte_kind)
                    &&& s[1].text("rte_kind"@) == Some(rte_kind)
                    &&& s[0].text("reason"@) == Some(why)
                },
                _ => false,
            }
        }),
{
    broadcast use crate::json::group_object_reads;

    reveal_strlit("kind");
    reveal_strlit("rte_kind");
    reveal_strlit("acsl");
    reveal_strlit("clause");
    reveal_strlit("annotations");
    reveal_strlit("proposed_requires");
    reveal_strlit("reason");
    reveal_strlit("confidence");
    reveal_strlit("needs_validation");
    reveal_strlit("source_property_marker");
    reveal_strlit("source_statement");
    reveal_strlit("source");
    reveal_strlit("evidence");
    assert("kind"@.len() == 4 && "rte_kind"@.len() == 8);
    assert("acsl"@.len() == 4 && "clause"@.len() == 6);
    assert("annotations"@.len() == 11 && "proposed_requires"@.len() == 17);
    assert("reason"@.len() == 6 && "confidence"@.len() == 10);
    assert("needs_validation"@.len() == 16 && "source_property_marker"@.len() == 22);
    assert("source_statement"@.len() == 16 && "source"@.len() == 6);
    assert("evidence"@.len() == 8);
    assert("kind"@[0] != "acsl"@[0]);
    assert("rte_kind"@[0] != "evidence"@[0]);
    assert("clause"@[0] != "reason"@[0]);
    assert("clause"@[0] != "source"@[0]);
    assert("reason"@[0] != "source"@[0]);
    assert("needs_validation"@[0] != "source_statement"@[0]);
}

/// The explanation of an alarm carries what it is about, where it stands, what EVA and WP say of
/// it, the values around it, and what it asks for.
pub proof fn law_an_alarm_is_explained(
    property: JsonView,
    before: JsonView,
    after: JsonView,
    values: JsonView,
    goals: Seq<JsonView>,
    callstack: int,
    kind: Seq<char>,
    marker: Seq<char>,
)
    requires
        property.text("alarm"@) == Some(kind),
        property.text("key"@) == Some(marker),
        values.get("vBefore"@) == Some(before),
        values.get("vAfter"@) == Some(after),
    ensures
        ({
            let s = alarm_summary(property, Some(values), goals, Some(callstack));
            let (asked, sure) = obligation(kind, property);
            &&& s.text("alarm_kind"@) == Some(kind)
            &&& s.text("property_marker"@) == Some(marker)
            &&& s.get("callstack"@) == Some(JsonView::num(callstack))
            &&& s.get("value_before"@) == Some(before)
            &&& s.get("value_after"@) == Some(after)
            &&& s.at("likely_acsl_obligation"@, "description"@) == Some(JsonView::Str(asked))
            &&& s.at("likely_acsl_obligation"@, "confidence"@) == Some(JsonView::Str(sure))
            &&& s.at("wp_status"@, "matched"@) == Some(JsonView::Bool(goals.len() > 0))
            &&& s.get("suggestions"@) == Some(suggestions(property))
            &&& s.get("rte_suggestions"@) == Some(suggestions(property))
        }),
{
    broadcast use crate::json::group_object_reads;

    reveal_strlit("alarm_kind");
    reveal_strlit("property_marker");
    reveal_strlit("kinstr_marker");
    reveal_strlit("callstack");
    reveal_strlit("value_before");
    reveal_strlit("value_after");
    reveal_strlit("eva_status");
    reveal_strlit("wp_status");
    reveal_strlit("diagnosis");
    reveal_strlit("likely_acsl_obligation");
    reveal_strlit("rte_suggestions");
    reveal_strlit("suggestions");
    reveal_strlit("evidence");
    assert("alarm_kind"@.len() == 10 && "property_marker"@.len() == 15);
    assert("kinstr_marker"@.len() == 13 && "callstack"@.len() == 9);
    assert("value_before"@.len() == 12 && "value_after"@.len() == 11);
    assert("eva_status"@.len() == 10 && "wp_status"@.len() == 9);
    assert("diagnosis"@.len() == 9 && "likely_acsl_obligation"@.len() == 22);
    assert("rte_suggestions"@.len() == 15 && "suggestions"@.len() == 11);
    assert("evidence"@.len() == 8);
    assert("alarm_kind"@[0] != "eva_status"@[0]);
    assert("property_marker"@[0] != "rte_suggestions"@[0]);
    assert("callstack"@[0] != "wp_status"@[0]);
    assert("callstack"@[0] != "diagnosis"@[0]);
    assert("value_after"@[0] != "suggestions"@[0]);
    assert("wp_status"@[0] != "diagnosis"@[0]);
    reveal_strlit("kind");
    reveal_strlit("description");
    reveal_strlit("confidence");
    assert("kind"@.len() == 4 && "description"@.len() == 11);
    assert("confidence"@.len() == 10);
    reveal_strlit("matched");
    reveal_strlit("current_status");
    reveal_strlit("goals");
    assert("matched"@.len() == 7 && "current_status"@.len() == 14);
    assert("goals"@.len() == 5);
}

/// What EVA says of an alarm is its raw and its normalized status and its flags; a flag that is
/// absent is not set.
pub proof fn law_what_eva_says_of_an_alarm(property: JsonView, raw: Seq<char>, s: Seq<char>)
    requires
        property.text("raw_status"@) == Some(raw),
        property.text("normalized_status"@) == Some(s),
    ensures
        eva_status(property).text("raw_status"@) == Some(raw),
        eva_status(property).text("normalized_status"@) == Some(s),
        property.get("counts_as_progress"@) is None ==> eva_status(property).flag(
            "counts_as_progress"@,
        ) == Some(false),
        property.flag("vacuous"@) == Some(true) ==> eva_status(property).flag("vacuous"@) == Some(
            true,
        ),
        property.flag("counts_as_progress"@) == Some(true) ==> eva_status(property).flag(
            "counts_as_progress"@,
        ) == Some(true),
        property.flag("requires_hypotheses"@) == Some(true) ==> eva_status(property).flag(
            "requires_hypotheses"@,
        ) == Some(true),
{
    broadcast use crate::json::group_object_reads;

    reveal_strlit("raw_status");
    reveal_strlit("normalized_status");
    reveal_strlit("counts_as_progress");
    reveal_strlit("vacuous");
    reveal_strlit("requires_hypotheses");
    assert("raw_status"@.len() == 10 && "normalized_status"@.len() == 17);
    assert("counts_as_progress"@.len() == 18 && "vacuous"@.len() == 7);
    assert("requires_hypotheses"@.len() == 19);
}

/// What WP says of an alarm is the status of its first goal that is not proved, or of its first
/// goal where all are.
pub proof fn law_an_open_goal_speaks_for_the_alarm(goals: Seq<JsonView>, i: int, s: Seq<char>)
    requires
        0 <= i < goals.len(),
        goals[i].text("normalized_status"@) == Some(s),
        normalize(s) != "valid"@,
        forall|k: int|
            0 <= k < i ==> (#[trigger] goals[k]).text("normalized_status"@) == Some("valid"@),
    ensures
        current_status(goals) == Some(s),
        current_status(Seq::empty()) is None,
{
    crate::status::lemma_plain_verdicts();
    assert forall|k: int| 0 <= k < i implies counts_as_progress(
        normalize(goal_status(#[trigger] goals[k])),
    ) by {
        assert(goals[k].text("normalized_status"@) == Some("valid"@));
    }
    assert(first_open(goals, i));
    let j = choose|j: int| first_open(goals, j);
    if j < i {
        assert(counts_as_progress(normalize(goal_status(goals[j]))));
    } else if i < j {
        assert(counts_as_progress(normalize(goal_status(goals[i]))));
    }
    if exists|k: int| first_open(Seq::empty(), k) {
        let k = choose|k: int| first_open(Seq::empty(), k);
        assert(false);
    }
}

/// The clauses about what is assigned are those of the function that speak of it in their kind,
/// name, description or predicate, in any case.
pub proof fn law_assigns_clauses_are_found(property: JsonView, m: Seq<char>, s: Seq<char>)
    ensures
        property.text("scope"@) == Some(m) && property.text("kind"@) == Some(s) && occurs(
            ascii_lower(s),
            "assigns"@,
        ) ==> about_assigns(property, Some(m)) && about_assigns(property, None),
        property.text("scope"@) == Some(m) && property.text("name"@) == Some(s) && occurs(
            ascii_lower(s),
            "assigns"@,
        ) ==> about_assigns(property, Some(m)),
        property.text("scope"@) == Some(m) && property.text("descr"@) == Some(s) && occurs(
            ascii_lower(s),
            "assigns"@,
        ) ==> about_assigns(property, Some(m)),
        property.text("scope"@) == Some(m) && property.text("predicate"@) == Some(s) && occurs(
            ascii_lower(s),
            "assigns"@,
        ) ==> about_assigns(property, Some(m)),
        property.text("scope"@) != Some(m) ==> !about_assigns(property, Some(m)),
        property.get("kind"@) is None && property.get("name"@) is None && property.get("descr"@)
            is None && property.get("predicate"@) is None ==> !about_assigns(property, None),
{
}

/// The two wrappers of E-ACSL are accepted, and no other tool.
pub proof fn law_two_wrappers_are_known(tool: Seq<char>)
    ensures
        e_acsl_wrappers().contains(tool) <==> tool == "e-acsl-gcc"@ || tool == "e-acsl-gcc.sh"@,
{
    assert(e_acsl_wrappers()[0] == "e-acsl-gcc"@);
    assert(e_acsl_wrappers()[1] == "e-acsl-gcc.sh"@);
}

/// A suggestion says of which property and which statement it comes, where that stands, and how sure
/// it is: only a division by zero is sure.
pub proof fn law_a_suggestion_tells_where_it_comes_from(p: JsonView, predicate: Seq<char>, v: JsonView)
    ensures
        ({
            let a = requires_suggestion(p, predicate);
            let b = assert_suggestion(p, predicate);
            let kind = suggestion_kind(alarm_kind(p), p).0;
            &&& p.get("property_marker"@) == Some(v) ==> a.get("source_property_marker"@) == Some(v)
                && b.get("source_property_marker"@) == Some(v)
            &&& p.get("property_marker"@) is None && p.get("key"@) == Some(v) ==> a.get(
                "source_property_marker"@,
            ) == Some(v) && b.get("source_property_marker"@) == Some(v)
            &&& kind == "division_by_zero"@ ==> a.text("confidence"@) == Some("high"@) && b.text(
                "confidence"@,
            ) == Some("high"@)
            &&& kind != "division_by_zero"@ ==> a.text("confidence"@) == Some("medium"@) && b.text(
                "confidence"@,
            ) == Some("medium"@)
            &&& p.get("sid"@) == Some(v) ==> a.at("source_statement"@, "marker"@) == Some(v) && a.at(
                "source_statement"@,
                "stmt_id"@,
            ) == Some(v)
            &&& p.get("sid"@) is None && p.get("stmt_id"@) == Some(v) ==> a.at(
                "source_statement"@,
                "marker"@,
            ) == Some(v)
            &&& p.get("stmt_loc"@) == Some(v) ==> a.at("source_statement"@, "loc"@) == Some(v)
                && a.at("source"@, "loc"@) == Some(v) && b.at("evidence"@, "loc"@) == Some(v)
            &&& p.get("stmt_loc"@) is None && p.get("loc"@) == Some(v) ==> a.at("source"@, "loc"@)
                == Some(v)
            &&& a.at("source"@, "predicate"@) == Some(JsonView::Str(predicate))
            &&& a.at("source"@, "alarm_kind"@) == Some(JsonView::Str(alarm_kind(p)))
        }),
{
    broadcast use crate::json::group_object_reads;

    reveal_strlit("kind");
    reveal_strlit("rte_kind");
    reveal_strlit("acsl");
    reveal_strlit("clause");
    reveal_strlit("annotations");
    reveal_strlit("proposed_requires");
    reveal_strlit("reason");
    reveal_strlit("confidence");
    reveal_strlit("needs_validation");
    reveal_strlit("source_property_marker");
    reveal_strlit("source_statement");
    reveal_strlit("source");
    reveal_strlit("evidence");
    assert("kind"@.len() == 4 && "rte_kind"@.len() == 8);
    assert("acsl"@.len() == 4 && "clause"@.len() == 6);
    assert("annotations"@.len() == 11 && "proposed_requires"@.len() == 17);
    assert("reason"@.len() == 6 && "confidence"@.len() == 10);
    assert("needs_validation"@.len() == 16 && "source_property_marker"@.len() == 22);
    assert("source_statement"@.len() == 16 && "source"@.len() == 6);
    assert("evidence"@.len() == 8);
    assert("kind"@[0] != "acsl"@[0]);
    assert("rte_kind"@[0] != "evidence"@[0]);
    assert("clause"@[0] != "reason"@[0]);
    assert("clause"@[0] != "source"@[0]);
    assert("reason"@[0] != "source"@[0]);
    assert("needs_validation"@[0] != "source_statement"@[0]);
    reveal_strlit("marker");
    reveal_strlit("stmt_id");
    reveal_strlit("loc");
    assert("marker"@.len() == 6 && "stmt_id"@.len() == 7);
    assert("loc"@.len() == 3);
    reveal_strlit("property_marker");
    reveal_strlit("source_statement");
    reveal_strlit("alarm_kind");
    reveal_strlit("loc");
    reveal_strlit("predicate");
    assert("property_marker"@.len() == 15 && "source_statement"@.len() == 16);
    assert("alarm_kind"@.len() == 10 && "loc"@.len() == 3);
    assert("predicate"@.len() == 9);
}

/// What is told of a goal is its identity, its name, its kind, its status and whether it counts.
pub proof fn law_a_goal_in_short(goal: JsonView)
    ensures
        goal_summary(goal).get("stable_goal_id"@) == Some(
            JsonView::or_null(goal.get("stable_goal_id"@)),
        ),
        goal_summary(goal).get("frama_c_goal_name"@) == Some(
            JsonView::or_null(goal.get("frama_c_goal_name"@)),
        ),
        goal_summary(goal).get("goal_kind"@) == Some(JsonView::or_null(goal.get("goal_kind"@))),
        goal_summary(goal).text("normalized_status"@) == Some(goal_status(goal)),
        goal_summary(goal).flag("counts_as_progress"@) == Some(wp_progress(goal)),
{
    broadcast use crate::json::group_object_reads;

    reveal_strlit("stable_goal_id");
    reveal_strlit("frama_c_goal_name");
    reveal_strlit("goal_kind");
    reveal_strlit("normalized_status");
    reveal_strlit("counts_as_progress");
    assert("stable_goal_id"@.len() == 14 && "frama_c_goal_name"@.len() == 17);
    assert("goal_kind"@.len() == 9 && "normalized_status"@.len() == 17);
    assert("counts_as_progress"@.len() == 18);
    assert("frama_c_goal_name"@[0] != "normalized_status"@[0]);
}

/// An alarm stands at its statement, which is named in full or in short, with what EVA knows there
/// before and after.
pub proof fn law_an_alarm_tells_its_statement(
    property: JsonView,
    values: JsonView,
    goals: Seq<JsonView>,
    t: Seq<char>,
    callstack: int,
)
    ensures
        ({
            let a = alarm_summary(property, Some(values), goals, Some(callstack));
            &&& property.get("kinstr_marker"@) == Some(JsonView::Str(t)) ==> a.text(
                "kinstr_marker"@,
            ) == Some(t)
            &&& property.get("kinstr_marker"@) is None && property.get("kinstr"@) == Some(
                JsonView::Str(t),
            ) ==> a.text("kinstr_marker"@) == Some(t)
            &&& a.get("value_before"@) == Some(JsonView::or_null(values.get("vBefore"@)))
            &&& a.get("value_after"@) == Some(JsonView::or_null(values.get("vAfter"@)))
            &&& a.get("callstack"@) == Some(JsonView::num(callstack))
        }),
{
    broadcast use crate::json::group_object_reads;

    reveal_strlit("alarm_kind");
    reveal_strlit("property_marker");
    reveal_strlit("kinstr_marker");
    reveal_strlit("callstack");
    reveal_strlit("value_before");
    reveal_strlit("value_after");
    reveal_strlit("eva_status");
    reveal_strlit("wp_status");
    reveal_strlit("diagnosis");
    reveal_strlit("likely_acsl_obligation");
    reveal_strlit("rte_suggestions");
    reveal_strlit("suggestions");
    reveal_strlit("evidence");
    assert("alarm_kind"@.len() == 10 && "property_marker"@.len() == 15);
    assert("kinstr_marker"@.len() == 13 && "callstack"@.len() == 9);
    assert("value_before"@.len() == 12 && "value_after"@.len() == 11);
    assert("eva_status"@.len() == 10 && "wp_status"@.len() == 9);
    assert("diagnosis"@.len() == 9 && "likely_acsl_obligation"@.len() == 22);
    assert("rte_suggestions"@.len() == 15 && "suggestions"@.len() == 11);
    assert("evidence"@.len() == 8);
    assert("alarm_kind"@[0] != "eva_status"@[0]);
    assert("property_marker"@[0] != "rte_suggestions"@[0]);
    assert("callstack"@[0] != "wp_status"@[0]);
    assert("callstack"@[0] != "diagnosis"@[0]);
    assert("value_after"@[0] != "suggestions"@[0]);
    assert("wp_status"@[0] != "diagnosis"@[0]);
}

} // verus!
