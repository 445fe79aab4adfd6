//! Findings about goals that did not prove, and the report made of them.

use crate::advice::{
    ALREADY_RETRIED, WHY_ASSIGNS, WHY_BEHAVIORS, WHY_CALLEE_CONTRACT, WHY_CALLEE_REQUIRES,
    WHY_ENSURES, WHY_INTERNAL, WHY_LOOP_ASSIGNS, WHY_LOOP_INVARIANT, WHY_LOOP_VARIANT, WHY_REQUIRES,
    WHY_RTE, WHY_RTE_KIND, WHY_TIMEOUT, WHY_UNSUPPORTED,
};
use crate::json::{
    lemma_models_push, lemma_take_next, models, opt_json, str_or, text_in, text_or, texts_of, Json,
    JsonView,
};
use crate::markers::line_view;
use crate::order::{
    is_order, law_sort_by, law_text_lt_irreflexive, law_text_lt_total, law_text_lt_transitive,
    lemma_place_is, lt, sort_by, sorted_by, text_lt,
};
use crate::stable::{
    file_of_location, goal_location, goal_owner, location_file, location_number, location_of_goal,
    number_of_location, owner_of_goal, stable_goal_id_for, stable_id,
};
use crate::text::{
    begins, cat3, cat4, cat5, decimal, decimal_text, join, join_spec, opt_text, owned, same,
    starts_with, texts,
};
use crate::verdicts::is_text;
use vstd::prelude::*;
use vstd::string::*;

verus! {

// ---------------------------------------------------------------------------
// Reading findings
// ---------------------------------------------------------------------------

/// One text of a finding, or the fallback where it is absent or is no text.
pub fn finding_str<'a>(finding: &'a Json, key: &str, fallback: &'a str) -> (r: &'a str)
    ensures
        r@ == text_or(finding@.text(key@), fallback@),
{
    str_or(finding.text(key), fallback)
}

/// The line of a finding, as it is shown.
pub open spec fn shown_line(finding: JsonView) -> Seq<char> {
    match finding.nat_at("line"@) {
        Some(n) => decimal(n as nat),
        None => "?"@,
    }
}

/// A finding's line, rendered for text output.
pub fn finding_line(finding: &Json) -> (r: String)
    ensures
        r@ == shown_line(finding@),
{
    match finding.nat_at("line") {
        Some(n) => decimal_text(n),
        None => owned("?"),
    }
}

/// A finding as one line of a list.
pub open spec fn finding_markdown(f: JsonView) -> Seq<char> {
    "- "@ + text_or(f.text("severity"@), "info"@) + " "@ + text_or(f.text("file"@), "unknown"@)
        + ":"@ + shown_line(f) + " "@ + text_or(f.text("function"@), ""@) + " "@ + text_or(
        f.text("clause_or_goal_kind"@),
        "wp_goal"@,
    ) + ": "@ + text_or(f.text("why_problem"@), "WP did not prove this obligation."@)
        + " Suggested fix: "@ + text_or(
        f.text("suggested_fix"@),
        "Inspect the proof obligation."@,
    )
}

/// A finding as one line of a list.
pub fn proofread_finding_markdown(finding: &Json) -> (r: String)
    ensures
        r@ == finding_markdown(finding@),
{
    let mut out = owned("- ");
    out.append(finding_str(finding, "severity", "info"));
    out.append(" ");
    out.append(finding_str(finding, "file", "unknown"));
    out.append(":");
    out.append(finding_line(finding).as_str());
    out.append(" ");
    out.append(finding_str(finding, "function", ""));
    out.append(" ");
    out.append(finding_str(finding, "clause_or_goal_kind", "wp_goal"));
    out.append(": ");
    out.append(finding_str(finding, "why_problem", "WP did not prove this obligation."));
    out.append(" Suggested fix: ");
    out.append(finding_str(finding, "suggested_fix", "Inspect the proof obligation."));
    out
}

/// What identifies a finding.
pub open spec fn finding_ref(f: JsonView) -> JsonView {
    JsonView::object().with("id"@, JsonView::or_null(f.get("id"@))).with(
        "severity"@,
        JsonView::or_null(f.get("severity"@)),
    ).with("category"@, JsonView::or_null(f.get("category"@))).with(
        "file"@,
        JsonView::or_null(f.get("file"@)),
    ).with("line"@, JsonView::or_null(f.get("line"@)))
}

/// What identifies a finding.
pub fn proofread_finding_ref(finding: &Json) -> (r: Json)
    ensures
        r@ == finding_ref(finding@),
{
    Json::object().with("id", Json::or_null(finding.get("id"))).with(
        "severity",
        Json::or_null(finding.get("severity")),
    ).with("category", Json::or_null(finding.get("category"))).with(
        "file",
        Json::or_null(finding.get("file")),
    ).with("line", Json::or_null(finding.get("line")))
}

/// Why to act on a finding.
pub open spec fn action_reason(f: JsonView, fallback: Seq<char>) -> Seq<char> {
    text_or(f.text("file"@), "unknown"@) + ":"@ + shown_line(f) + ": "@ + text_or(
        f.text("suggested_fix"@),
        fallback,
    )
}

/// Why to act on a finding.
pub fn proofread_action_reason(finding: &Json, fallback: &str) -> (r: String)
    ensures
        r@ == action_reason(finding@, fallback@),
{
    cat5(
        finding_str(finding, "file", "unknown"),
        ":",
        finding_line(finding).as_str(),
        ": ",
        finding_str(finding, "suggested_fix", fallback),
    )
}

/// Why a goal that did not prove is a problem, by its category and kind.
pub open spec fn why_problem(category: Seq<char>, goal_kind: Seq<char>) -> Seq<char> {
    if category == "rte"@ {
        WHY_RTE@
    } else if category == "timeout"@ {
        WHY_TIMEOUT@
    } else if category == "internal_error"@ {
        WHY_INTERNAL@
    } else if category == "unsupported_predicate"@ {
        WHY_UNSUPPORTED@
    } else if category == "callee_requires_too_strict"@ {
        WHY_CALLEE_REQUIRES@
    } else if category == "callee_contract_too_weak"@ {
        WHY_CALLEE_CONTRACT@
    } else if category == "incomplete_behavior_partition"@ {
        WHY_BEHAVIORS@
    } else if category == "weak_loop_assigns"@ {
        WHY_LOOP_ASSIGNS@
    } else if category == "weak_loop_variant"@ {
        WHY_LOOP_VARIANT@
    } else if category == "weak_loop_invariant"@ {
        WHY_LOOP_INVARIANT@
    } else if category == "bad_assigns"@ {
        WHY_ASSIGNS@
    } else if category == "weak_ensures"@ {
        WHY_ENSURES@
    } else if category == "missing_requires"@ {
        WHY_REQUIRES@
    } else if begins(goal_kind, "rte_"@) {
        WHY_RTE_KIND@
    } else {
        "WP did not prove this obligation."@
    }
}

/// Why a goal that did not prove is a problem, by its category and kind.
pub fn proofread_why_problem(category: &str, goal_kind: &str) -> (r: &'static str)
    ensures
        r@ == why_problem(category@, goal_kind@),
{
    if same(category, "rte") {
        WHY_RTE
    } else if same(category, "timeout") {
        WHY_TIMEOUT
    } else if same(category, "internal_error") {
        WHY_INTERNAL
    } else if same(category, "unsupported_predicate") {
        WHY_UNSUPPORTED
    } else if same(category, "callee_requires_too_strict") {
        WHY_CALLEE_REQUIRES
    } else if same(category, "callee_contract_too_weak") {
        WHY_CALLEE_CONTRACT
    } else if same(category, "incomplete_behavior_partition") {
        WHY_BEHAVIORS
    } else if same(category, "weak_loop_assigns") {
        WHY_LOOP_ASSIGNS
    } else if same(category, "weak_loop_variant") {
        WHY_LOOP_VARIANT
    } else if same(category, "weak_loop_invariant") {
        WHY_LOOP_INVARIANT
    } else if same(category, "bad_assigns") {
        WHY_ASSIGNS
    } else if same(category, "weak_ensures") {
        WHY_ENSURES
    } else if same(category, "missing_requires") {
        WHY_REQUIRES
    } else if starts_with(goal_kind, "rte_") {
        WHY_RTE_KIND
    } else {
        "WP did not prove this obligation."
    }
}

// ---------------------------------------------------------------------------
// The order of findings
// ---------------------------------------------------------------------------

/// How severe a severity is.
pub open spec fn severity_rank(severity: Seq<char>) -> int {
    if severity == "critical"@ {
        4
    } else if severity == "high"@ {
        3
    } else if severity == "medium"@ {
        2
    } else if severity == "low"@ {
        1
    } else {
        0
    }
}

/// How severe a severity is.
pub fn proofread_severity_rank(severity: &str) -> (r: u8)
    ensures
        r == severity_rank(severity@),
{
    if same(severity, "critical") {
        4
    } else if same(severity, "high") {
        3
    } else if same(severity, "medium") {
        2
    } else if same(severity, "low") {
        1
    } else {
        0
    }
}

/// How severe a finding is.
pub open spec fn finding_rank(f: JsonView) -> int {
    severity_rank(text_or(f.text("severity"@), "info"@))
}

/// The file by which a finding is ordered.
pub open spec fn finding_file(f: JsonView) -> Seq<char> {
    text_or(f.text("file"@), ""@)
}

/// A number by which a finding is ordered: the largest where it has none.
pub open spec fn finding_number(f: JsonView, key: Seq<char>) -> int {
    match f.nat_at(key) {
        Some(n) => n,
        None => u64::MAX as int,
    }
}

/// Whether a finding comes before another: the more severe, then by file, line and column.
pub open spec fn finding_before(a: JsonView, b: JsonView) -> bool {
    if finding_rank(a) != finding_rank(b) {
        finding_rank(a) > finding_rank(b)
    } else if finding_file(a) != finding_file(b) {
        text_lt(finding_file(a), finding_file(b))
    } else if finding_number(a, "line"@) != finding_number(b, "line"@) {
        finding_number(a, "line"@) < finding_number(b, "line"@)
    } else {
        finding_number(a, "column"@) < finding_number(b, "column"@)
    }
}

/// The order of findings.
pub open spec fn finding_order() -> spec_fn(JsonView, JsonView) -> bool {
    |a: JsonView, b: JsonView| finding_before(a, b)
}

fn number_or_max(f: &Json, key: &str) -> (r: u64)
    ensures
        r == finding_number(f@, key@),
{
    match f.nat_at(key) {
        Some(n) => n,
        None => u64::MAX,
    }
}

/// Whether a finding comes before another.
pub fn comes_before(a: &Json, b: &Json) -> (r: bool)
    ensures
        r == finding_before(a@, b@),
{
    let ra = proofread_severity_rank(finding_str(a, "severity", "info"));
    let rb = proofread_severity_rank(finding_str(b, "severity", "info"));
    if ra != rb {
        return ra > rb;
    }
    let fa = finding_str(a, "file", "");
    let fb = finding_str(b, "file", "");
    if !same(fa, fb) {
        return lt(fa, fb);
    }
    let la = number_or_max(a, "line");
    let lb = number_or_max(b, "line");
    if la != lb {
        return la < lb;
    }
    number_or_max(a, "column") < number_or_max(b, "column")
}

/// The order of findings is one.
pub proof fn law_finding_order()
    ensures
        is_order(finding_order()),
{
    let before = finding_order();
    assert forall|a: JsonView| !#[trigger] before(a, a) by {
        law_text_lt_irreflexive(finding_file(a));
    }
    assert forall|a: JsonView, b: JsonView, c: JsonView| #[trigger]
        before(a, b) && #[trigger] before(b, c) implies before(a, c) by {
        let (x, y, z) = (finding_file(a), finding_file(b), finding_file(c));
        if text_lt(x, y) && text_lt(y, z) {
            law_text_lt_transitive(x, y, z);
        }
        if x == z {
            law_text_lt_irreflexive(x);
        }
    }
    assert forall|a: JsonView, b: JsonView, c: JsonView|
        !#[trigger] before(a, b) && !#[trigger] before(b, c) implies !before(a, c) by {
        let (x, y, z) = (finding_file(a), finding_file(b), finding_file(c));
        law_text_lt_total(x, y);
        law_text_lt_total(y, z);
        if text_lt(z, y) && text_lt(y, x) {
            law_text_lt_transitive(z, y, x);
            if text_lt(x, z) {
                law_text_lt_transitive(x, z, x);
                law_text_lt_irreflexive(x);
            }
        }
        if text_lt(x, z) && text_lt(z, x) {
            law_text_lt_transitive(x, z, x);
            law_text_lt_irreflexive(x);
        }
        if x == z {
            law_text_lt_irreflexive(x);
            if text_lt(y, x) {
                if text_lt(x, y) {
                    law_text_lt_transitive(x, y, x);
                }
            }
        }
        if text_lt(y, x) && text_lt(x, y) {
            law_text_lt_transitive(x, y, x);
            law_text_lt_irreflexive(x);
        }
        if text_lt(z, y) && text_lt(y, z) {
            law_text_lt_transitive(y, z, y);
            law_text_lt_irreflexive(y);
        }
    }
}

/// Findings in order.
fn sort_findings(findings: Vec<Json>) -> (r: Vec<Json>)
    ensures
        models(r@) == sort_by(models(findings@), finding_order()),
{
    let ghost all = models(findings@);
    let mut out: Vec<Json> = Vec::new();
    let mut i: usize = 0;
    assert(models(out@) =~= sort_by(all.subrange(0, 0), finding_order()));
    while i < findings.len()
        invariant
            i <= findings@.len(),
            all == models(findings@),
            models(out@) == sort_by(all.subrange(0, i as int), finding_order()),
        decreases findings@.len() - i,
    {
        proof {
            lemma_take_next(all, i as int);
        }
        let f = findings[i].copy();
        let ghost held = models(out@);
        let mut k: usize = 0;
        while k < out.len() && !comes_before(&f, &out[k])
            invariant
                k <= out@.len(),
                held == models(out@),
                forall|j: int| 0 <= j < k ==> !finding_before(f@, #[trigger] held[j]),
            decreases out@.len() - k,
        {
            assert(held[k as int] == out@[k as int]@);
            k = k + 1;
        }
        proof {
            if k < held.len() {
                assert(held[k as int] == out@[k as int]@);
            }
            lemma_place_is(held, f@, finding_order(), k as int);
        }
        out.insert(k, f);
        assert(models(out@) =~= held.insert(k as int, f@));
        i = i + 1;
    }
    assert(all.subrange(0, i as int) =~= all);
    out
}

// ---------------------------------------------------------------------------
// One finding per identity
// ---------------------------------------------------------------------------

/// Whether some finding has the identity `id`.
pub open spec fn has_id(findings: Seq<JsonView>, id: Seq<char>) -> bool {
    exists|i: int| 0 <= i < findings.len() && (#[trigger] findings[i]).text("id"@) == Some(id)
}

/// Of the findings with the same identity the first; every finding without one.
pub open spec fn first_by_id(findings: Seq<JsonView>) -> Seq<JsonView>
    decreases findings.len(),
{
    if findings.len() == 0 {
        Seq::empty()
    } else {
        let rest = first_by_id(findings.drop_last());
        match findings.last().text("id"@) {
            Some(id) => if has_id(findings.drop_last(), id) {
                rest
            } else {
                rest.push(findings.last())
            },
            None => rest.push(findings.last()),
        }
    }
}

fn id_seen(findings: &Vec<Json>, n: usize, id: &str) -> (r: bool)
    requires
        n <= findings@.len(),
    ensures
        r == has_id(models(findings@).subrange(0, n as int), id@),
{
    let ghost some = models(findings@).subrange(0, n as int);
    let mut i: usize = 0;
    while i < n
        invariant
            i <= n <= findings@.len(),
            some == models(findings@).subrange(0, n as int),
            forall|k: int| 0 <= k < i ==> (#[trigger] some[k]).text("id"@) != Some(id@),
        decreases n - i,
    {
        assert(some[i as int] == findings@[i as int]@);
        if is_text(findings[i].text("id"), id) {
            assert(has_id(some, id@));
            return true;
        }
        i = i + 1;
    }
    false
}

fn keep_first_by_id(findings: &Vec<Json>) -> (r: Vec<Json>)
    ensures
        models(r@) == first_by_id(models(findings@)),
{
    let ghost all = models(findings@);
    let mut out: Vec<Json> = Vec::new();
    let mut i: usize = 0;
    assert(models(out@) =~= first_by_id(all.subrange(0, 0)));
    while i < findings.len()
        invariant
            i <= findings@.len(),
            all == models(findings@),
            models(out@) == first_by_id(all.subrange(0, i as int)),
        decreases findings@.len() - i,
    {
        proof {
            lemma_take_next(all, i as int);
        }
        let f = &findings[i];
        let repeated: bool = match f.text("id") {
            Some(id) => id_seen(findings, i, id),
            None => false,
        };
        if !repeated {
            let c = f.copy();
            proof {
                lemma_models_push(out@, c);
            }
            out.push(c);
        }
        i = i + 1;
    }
    assert(all.subrange(0, i as int) =~= all);
    out
}

/// No two findings of a report share an identity, every identity that was found is in it, and so
/// is every finding without one.
pub proof fn law_one_finding_per_id(findings: Seq<JsonView>)
    ensures
        forall|i: int, j: int|
            0 <= i < j < first_by_id(findings).len() && (#[trigger] first_by_id(findings)[i]).text(
                "id"@,
            ) is Some ==> first_by_id(findings)[i].text("id"@) != (#[trigger] first_by_id(
                findings,
            )[j]).text("id"@),
        forall|id: Seq<char>| has_id(findings, id) <==> has_id(first_by_id(findings), id),
        forall|i: int|
            0 <= i < findings.len() && (#[trigger] findings[i]).text("id"@) is None
                ==> first_by_id(findings).contains(findings[i]),
    decreases findings.len(),
{
    if findings.len() > 0 {
        let t = findings.drop_last();
        let x = findings.last();
        law_one_finding_per_id(t);
        let rest = first_by_id(t);
        let r = first_by_id(findings);
        assert forall|id: Seq<char>| has_id(findings, id) <==> has_id(r, id) by {
            if has_id(findings, id) {
                let k = choose|k: int|
                    0 <= k < findings.len() && (#[trigger] findings[k]).text("id"@) == Some(id);
                if k < t.len() {
                    assert(t[k].text("id"@) == Some(id));
                    assert(has_id(t, id));
                    assert(has_id(rest, id));
                    let m = choose|m: int|
                        0 <= m < rest.len() && (#[trigger] rest[m]).text("id"@) == Some(id);
                    assert(r[m].text("id"@) == Some(id));
                } else if has_id(t, id) {
                    assert(has_id(rest, id));
                    let m = choose|m: int|
                        0 <= m < rest.len() && (#[trigger] rest[m]).text("id"@) == Some(id);
                    assert(r[m].text("id"@) == Some(id));
                } else {
                    assert(r[rest.len() as int] == x);
                }
            }
            if has_id(r, id) {
                let m = choose|m: int| 0 <= m < r.len() && (#[trigger] r[m]).text("id"@) == Some(id);
                if m < rest.len() {
                    assert(rest[m].text("id"@) == Some(id));
                    assert(has_id(rest, id));
                    assert(has_id(t, id));
                    let k = choose|k: int|
                        0 <= k < t.len() && (#[trigger] t[k]).text("id"@) == Some(id);
                    assert(findings[k].text("id"@) == Some(id));
                } else {
                    assert(findings[findings.len() - 1].text("id"@) == Some(id));
                }
            }
        }
        assert forall|i: int, j: int|
            0 <= i < j < r.len() && (#[trigger] r[i]).text("id"@) is Some implies r[i].text("id"@)
            != (#[trigger] r[j]).text("id"@) by {
            if j < rest.len() {
                assert(rest[i] == r[i] && rest[j] == r[j]);
            } else if r[i].text("id"@) == r[j].text("id"@) {
                let id = r[i].text("id"@)->0;
                assert(rest[i].text("id"@) == Some(id));
                assert(has_id(rest, id));
                assert(has_id(t, id));
            }
        }
        assert forall|i: int|
            0 <= i < findings.len() && (#[trigger] findings[i]).text("id"@) is None implies r.contains(
            findings[i],
        ) by {
            if i < t.len() {
                assert(t[i].text("id"@) is None);
                assert(rest.contains(t[i]));
                let m = choose|m: int| 0 <= m < rest.len() && rest[m] == t[i];
                assert(r[m] == findings[i]);
            } else {
                assert(r[rest.len() as int] == x);
            }
        }
    }
}

// ---------------------------------------------------------------------------
// The report
// ---------------------------------------------------------------------------

/// The lines of some findings.
pub open spec fn findings_markdown(findings: Seq<JsonView>) -> Seq<char> {
    join_spec(findings.map_values(|f: JsonView| finding_markdown(f)), "\n"@)
}

/// The lines of some findings.
fn markdown_of(findings: &Vec<Json>) -> (r: String)
    ensures
        r@ == findings_markdown(models(findings@)),
{
    let mut lines: Vec<String> = Vec::new();
    let mut i: usize = 0;
    while i < findings.len()
        invariant
            i <= findings@.len(),
            lines@.len() == i,
            forall|k: int| 0 <= k < i ==> (#[trigger] lines@[k])@ == finding_markdown(findings@[k]@),
        decreases findings@.len() - i,
    {
        lines.push(proofread_finding_markdown(&findings[i]));
        i = i + 1;
    }
    assert(texts(lines@) =~= models(findings@).map_values(|f: JsonView| finding_markdown(f)));
    join(&lines, "\n")
}

/// A field of the first finding, or `other`.
pub open spec fn top_field(findings: Seq<JsonView>, key: Seq<char>, other: JsonView) -> JsonView {
    if findings.len() > 0 {
        match findings[0].get(key) {
            Some(v) => v,
            None => other,
        }
    } else {
        other
    }
}

fn first_field(findings: &Vec<Json>, key: &str, other: Json) -> (r: Json)
    ensures
        r@ == top_field(models(findings@), key@, other@),
{
    if findings.len() > 0 {
        assert(models(findings@)[0] == findings@[0]@);
        match findings[0].get(key) {
            Some(v) => v.copy(),
            None => other,
        }
    } else {
        other
    }
}

/// The findings of a report: in order, and of those with the same identity the first.
pub open spec fn reported(findings: Seq<JsonView>) -> Seq<JsonView> {
    first_by_id(sort_by(findings, finding_order()))
}

/// The report made of some findings.
pub open spec fn report(findings: Seq<JsonView>, basis: Seq<char>) -> JsonView {
    let kept = reported(findings);
    JsonView::object().with(
        "summary"@,
        JsonView::object().with("finding_count"@, JsonView::num(kept.len() as int)).with(
            "max_severity"@,
            top_field(kept, "severity"@, JsonView::Str("info"@)),
        ).with("most_severe_finding_id"@, top_field(kept, "id"@, JsonView::Null)),
    ).with("basis"@, JsonView::Str(basis)).with("findings"@, JsonView::Array(kept)).with(
        "markdown"@,
        JsonView::Str(findings_markdown(kept)),
    )
}

/// The report made of some findings: the most severe first, then by file, line and column, and
/// one row per identity.
pub fn proofread_report_with_basis(findings: Vec<Json>, basis: &str) -> (r: Json)
    ensures
        r@ == report(models(findings@), basis@),
{
    let sorted = sort_findings(findings);
    let kept = keep_first_by_id(&sorted);
    let summary = Json::object().with("finding_count", Json::num(kept.len() as u64)).with(
        "max_severity",
        first_field(&kept, "severity", Json::str("info")),
    ).with("most_severe_finding_id", first_field(&kept, "id", Json::Null));
    let markdown = markdown_of(&kept);
    assert(models(kept@).len() == kept@.len());
    Json::object().with("summary", summary).with("basis", Json::str(basis)).with(
        "findings",
        Json::array(kept),
    ).with("markdown", Json::Str(markdown))
}

/// The basis of a report made from goals alone.
pub const GOAL_BASIS: &'static str = "wp_goal_metadata_only";

/// The report made of findings about goals.
pub fn proofread_report(findings: Vec<Json>) -> (r: Json)
    ensures
        r@ == report(models(findings@), GOAL_BASIS@),
{
    proofread_report_with_basis(findings, GOAL_BASIS)
}

/// The findings of a report are sorted: none comes before an earlier one.
pub proof fn law_reported_findings_are_sorted(findings: Seq<JsonView>)
    ensures
        sorted_by(reported(findings), finding_order()),
{
    law_finding_order();
    law_sort_by(findings, finding_order());
    lemma_first_by_id_sorted(sort_by(findings, finding_order()));
}

/// Dropping findings keeps them in order.
proof fn lemma_first_by_id_sorted(s: Seq<JsonView>)
    requires
        sorted_by(s, finding_order()),
    ensures
        sorted_by(first_by_id(s), finding_order()),
        forall|k: int|
            0 <= k < first_by_id(s).len() ==> s.contains(#[trigger] first_by_id(s)[k]),
    decreases s.len(),
{
    if s.len() > 0 {
        let t = s.drop_last();
        let before = finding_order();
        assert(sorted_by(t, before)) by {
            assert forall|i: int, j: int| 0 <= i < j < t.len() implies !before(
                #[trigger] t[j],
                #[trigger] t[i],
            ) by {
                assert(!before(s[j], s[i]));
            }
        }
        lemma_first_by_id_sorted(t);
        let rest = first_by_id(t);
        let r = first_by_id(s);
        assert forall|k: int| 0 <= k < r.len() implies s.contains(#[trigger] r[k]) by {
            if k < rest.len() {
                assert(t.contains(rest[k]));
                let m = choose|m: int| 0 <= m < t.len() && t[m] == rest[k];
                assert(s[m] == r[k]);
            } else {
                assert(s[s.len() - 1] == r[k]);
            }
        }
        assert forall|i: int, j: int| 0 <= i < j < r.len() implies !before(
            #[trigger] r[j],
            #[trigger] r[i],
        ) by {
            if j < rest.len() {
                assert(rest[i] == r[i] && rest[j] == r[j]);
            } else {
                assert(t.contains(rest[i]));
                let m = choose|m: int| 0 <= m < t.len() && t[m] == rest[i];
                assert(!before(s[s.len() - 1], s[m]));
            }
        }
    }
}

// ---------------------------------------------------------------------------
// Findings about goals
// ---------------------------------------------------------------------------

/// One classified WP failure, as the classifier decided it.
pub struct WpFailure<'a> {
    pub function: Option<&'a str>,
    pub category: &'a str,
    pub confidence: &'a str,
    pub reason: &'a str,
    pub evidence: &'a Json,
    pub goal_kind: &'a str,
    pub raw_status: &'a str,
    pub normalized_status: &'a str,
}

/// A classified WP failure, as a mathematical object.
pub struct FailureView {
    pub function: Option<Seq<char>>,
    pub category: Seq<char>,
    pub confidence: Seq<char>,
    pub reason: Seq<char>,
    pub evidence: JsonView,
    pub goal_kind: Seq<char>,
    pub raw_status: Seq<char>,
    pub normalized_status: Seq<char>,
}

impl<'a> View for WpFailure<'a> {
    type V = FailureView;

    open spec fn view(&self) -> FailureView {
        FailureView {
            function: opt_text(self.function),
            category: self.category@,
            confidence: self.confidence@,
            reason: self.reason@,
            evidence: self.evidence@,
            goal_kind: self.goal_kind@,
            raw_status: self.raw_status@,
            normalized_status: self.normalized_status@,
        }
    }
}

/// The column of a location.
pub open spec fn location_column(loc: Option<JsonView>) -> Option<int> {
    match loc {
        Some(l) => match l.or_get(l.get("column"@), "col"@) {
            Some(v) => v.as_nat(),
            None => None,
        },
        None => None,
    }
}

fn column_of_location(loc: Option<&Json>) -> (r: Option<u64>)
    ensures
        line_view(r) == location_column(opt_json(loc)),
{
    match loc {
        Some(l) => match l.or_get(l.get("column"), "col") {
            Some(v) => v.as_nat(),
            None => None,
        },
        None => None,
    }
}

/// What made a goal a finding.
pub open spec fn goal_trigger(goal: JsonView) -> Seq<char> {
    text_or(
        texts_of(
            goal.or_get(
                goal.or_get(goal.or_get(goal.get("name"@), "stable_goal_id"@), "property"@),
                "property_marker"@,
            ),
        ),
        "wp_goal"@,
    )
}

/// The severity of a finding, by how sure it is.
pub open spec fn severity_of(confidence: Seq<char>) -> Seq<char> {
    if confidence == "high"@ || confidence == "medium"@ || confidence == "low"@ {
        confidence
    } else {
        "info"@
    }
}

/// The function that a finding names: the goal's own, where that is a name and not a marker, or
/// the one the run was for.
pub open spec fn finding_owner(goal: JsonView, function: Option<Seq<char>>) -> Seq<char> {
    match goal_owner(goal) {
        Some(owner) => if owner.len() > 0 && !begins(owner, "#"@) {
            owner
        } else {
            text_or(function, ""@)
        },
        None => text_or(function, ""@),
    }
}

/// The stable name of a goal: the one it carries, or the one it gets.
pub open spec fn finding_goal_id(goal: JsonView, f: FailureView) -> Seq<char> {
    text_or(goal.text("stable_goal_id"@), stable_id(goal, f.goal_kind, f.function))
}

/// The finding about a goal that did not prove.
pub open spec fn failure_finding(goal: JsonView, f: FailureView) -> JsonView {
    let loc = goal_location(goal);
    JsonView::object().with(
        "id"@,
        JsonView::Str("wp_failure:"@ + finding_goal_id(goal, f) + ":"@ + f.category),
    ).with("severity"@, JsonView::Str(severity_of(f.confidence))).with(
        "category"@,
        JsonView::Str(f.category),
    ).with("confidence"@, JsonView::Str(f.confidence)).with(
        "file"@,
        JsonView::Str(text_or(location_file(loc), "unknown"@)),
    ).with("line"@, JsonView::opt_int(location_number(loc, "line"@))).with(
        "column"@,
        JsonView::opt_int(location_column(loc)),
    ).with("function"@, JsonView::Str(finding_owner(goal, f.function))).with(
        "clause_or_goal_kind"@,
        JsonView::Str(f.goal_kind),
    ).with("trigger"@, JsonView::Str(goal_trigger(goal))).with(
        "current_behavior"@,
        JsonView::Str(
            "WP status is "@ + f.raw_status + " (normalized: "@ + f.normalized_status + ")."@,
        ),
    ).with("why_problem"@, JsonView::Str(why_problem(f.category, f.goal_kind))).with(
        "suggested_fix"@,
        JsonView::Str(f.reason),
    ).with("evidence"@, f.evidence)
}

/// The finding about a goal that did not prove.
pub fn proofread_finding_from_wp_failure(goal: &Json, failure: &WpFailure<'_>) -> (r: Json)
    ensures
        r@ == failure_finding(goal@, failure@),
{
    let loc = location_of_goal(goal);
    let file = str_or(file_of_location(loc), "unknown");
    let line = number_of_location(loc, "line");
    let column = column_of_location(loc);
    let trigger = str_or(
        text_in(
            goal.or_get(
                goal.or_get(goal.or_get(goal.get("name"), "stable_goal_id"), "property"),
                "property_marker",
            ),
        ),
        "wp_goal",
    );
    let confidence = failure.confidence;
    let severity = if same(confidence, "high") || same(confidence, "medium") || same(
        confidence,
        "low",
    ) {
        confidence
    } else {
        "info"
    };
    let id = match goal.text("stable_goal_id") {
        Some(id) => owned(id),
        None => stable_goal_id_for(goal, failure.goal_kind, failure.function),
    };
    let owner = match owner_of_goal(goal) {
        Some(o) => if !o.is_empty() && !starts_with(o, "#") {
            o
        } else {
            str_or(failure.function, "")
        },
        None => str_or(failure.function, ""),
    };
    Json::object().with(
        "id",
        Json::Str(cat4("wp_failure:", id.as_str(), ":", failure.category)),
    ).with("severity", Json::str(severity)).with("category", Json::str(failure.category)).with(
        "confidence",
        Json::str(confidence),
    ).with("file", Json::str(file)).with("line", Json::opt_num(line)).with(
        "column",
        Json::opt_num(column),
    ).with("function", Json::str(owner)).with("clause_or_goal_kind", Json::str(failure.goal_kind)).with(
        "trigger",
        Json::str(trigger),
    ).with(
        "current_behavior",
        Json::Str(
            cat5(
                "WP status is ",
                failure.raw_status,
                " (normalized: ",
                failure.normalized_status,
                ").",
            ),
        ),
    ).with(
        "why_problem",
        Json::str(proofread_why_problem(failure.category, failure.goal_kind)),
    ).with("suggested_fix", Json::str(failure.reason)).with("evidence", failure.evidence.copy())
}

// ---------------------------------------------------------------------------
// Retries that were made already
// ---------------------------------------------------------------------------

/// Whether proving again was attempted and changed nothing.
pub open spec fn retried_in_vain(timeout_retry: JsonView) -> bool {
    timeout_retry.flag("attempted"@) == Some(true) && match timeout_retry.list("flipped"@) {
        Some(flipped) => flipped.len() == 0,
        None => false,
    }
}

/// A finding about a goal that was retried in vain.
pub open spec fn retried_finding(f: JsonView) -> JsonView {
    if f.text("category"@) != Some("timeout"@) {
        f
    } else {
        let g = f.with("suggested_fix"@, JsonView::Str(ALREADY_RETRIED@));
        match g.list("evidence"@) {
            Some(items) => g.with(
                "evidence"@,
                JsonView::Array(
                    items.push(
                        crate::alarms::evidence_item(
                            "timeout_retry"@,
                            JsonView::Str("retried at double the timeout, still unproved"@),
                        ),
                    ),
                ),
            ),
            None => g,
        }
    }
}

/// Whether some finding is about a timeout.
pub open spec fn any_timeout(findings: Seq<JsonView>) -> bool {
    exists|i: int|
        0 <= i < findings.len() && (#[trigger] findings[i]).text("category"@) == Some("timeout"@)
}

/// A report that no longer advises a retry that was made.
pub open spec fn without_stale_advice(r: JsonView, timeout_retry: JsonView) -> JsonView {
    match r.list("findings"@) {
        Some(findings) => if retried_in_vain(timeout_retry) && any_timeout(findings) {
            let rewritten = findings.map_values(|f: JsonView| retried_finding(f));
            r.with("findings"@, JsonView::Array(rewritten)).with(
                "markdown"@,
                JsonView::Str(findings_markdown(rewritten)),
            )
        } else {
            r
        },
        None => r,
    }
}

fn rewrite_retried(f: &Json) -> (r: Json)
    ensures
        r@ == retried_finding(f@),
{
    if !is_text(f.text("category"), "timeout") {
        return f.copy();
    }
    let g = f.copy().with("suggested_fix", Json::str(ALREADY_RETRIED));
    let extended = match g.list("evidence") {
        Some(items) => {
            let mut more: Vec<Json> = Vec::new();
            more.push(
                crate::alarms::evidence_of(
                    "timeout_retry",
                    Json::str("retried at double the timeout, still unproved"),
                ),
            );
            let all = crate::goals::copies_and(items, more);
            assert(models(all@) =~= models(items@).push(more@[0]@));
            Some(all)
        },
        None => None,
    };
    match extended {
        Some(items) => g.with("evidence", Json::array(items)),
        None => g,
    }
}

/// Stops advising a retry that the run already performed: where every goal that timed out was
/// proved again with double the time and none flipped, more time is not what it is short of.
pub fn proofread_drop_stale_retry_advice(report: &mut Json, timeout_retry: &Json)
    ensures
        final(report)@ == without_stale_advice(old(report)@, timeout_retry@),
{
    let attempted: bool = match timeout_retry.flag("attempted") {
        Some(b) => b,
        None => false,
    };
    let nothing: bool = match timeout_retry.list("flipped") {
        Some(flipped) => {
            assert(models(flipped@).len() == flipped@.len());
            flipped.len() == 0
        },
        None => false,
    };
    if !attempted || !nothing {
        return ;
    }
    let mut rewritten: Vec<Json> = Vec::new();
    let mut any: bool = false;
    match report.list("findings") {
        Some(findings) => {
            let ghost all = models(findings@);
            let mut i: usize = 0;
            while i < findings.len()
                invariant
                    i <= findings@.len(),
                    all == models(findings@),
                    rewritten@.len() == i,
                    forall|k: int|
                        0 <= k < i ==> (#[trigger] rewritten@[k])@ == retried_finding(all[k]),
                    any == exists|k: int|
                        0 <= k < i && (#[trigger] all[k]).text("category"@) == Some("timeout"@),
                decreases findings@.len() - i,
            {
                assert(all[i as int] == findings@[i as int]@);
                if is_text(findings[i].text("category"), "timeout") {
                    any = true;
                }
                rewritten.push(rewrite_retried(&findings[i]));
                i = i + 1;
            }
            assert(models(rewritten@) =~= all.map_values(|f: JsonView| retried_finding(f)));
        },
        None => {
            return ;
        },
    }
    if !any {
        return ;
    }
    let markdown = markdown_of(&rewritten);
    report.insert("findings", Json::array(rewritten));
    report.insert("markdown", Json::Str(markdown));
}

/// A report built without a retry, or with one that changed something, keeps its advice.
pub proof fn law_advice_kept_without_a_vain_retry(r: JsonView, timeout_retry: JsonView)
    requires
        !retried_in_vain(timeout_retry),
    ensures
        without_stale_advice(r, timeout_retry) == r,
{
}

// ---------------------------------------------------------------------------
// Splitting a classification
// ---------------------------------------------------------------------------

/// The key of the advice that goals of one category and kind share.
pub open spec fn advice_key(c: JsonView) -> Seq<char> {
    text_or(c.text("category"@), ""@) + ":"@ + text_or(c.text("goal_kind"@), ""@)
}

/// What a classification says of its goal alone.
pub open spec fn goal_half(c: JsonView) -> JsonView {
    JsonView::object().with("category"@, JsonView::or_null(c.get("category"@))).with(
        "failure_kind"@,
        JsonView::or_null(c.get("failure_kind"@)),
    ).with("confidence"@, JsonView::or_null(c.get("confidence"@))).with(
        "status"@,
        JsonView::or_null(c.get("status"@)),
    ).with("normalized_status"@, JsonView::or_null(c.get("normalized_status"@))).with(
        "goal_kind"@,
        JsonView::or_null(c.get("goal_kind"@)),
    ).with("evidence"@, JsonView::or_null(c.get("evidence"@))).with(
        "next_action"@,
        JsonView::or_null(c.get("next_action"@)).without("runtime_check_suggestion"@),
    ).with("wp_timeout_triage"@, JsonView::or_null(c.get("wp_timeout_triage"@))).with(
        "advice_key"@,
        JsonView::Str(advice_key(c)),
    )
}

/// The fix that the first finding of a classification's report suggests.
pub open spec fn classified_fix(c: JsonView) -> JsonView {
    match c.at("proofread_report"@, "findings"@) {
        Some(JsonView::Array(findings)) => if findings.len() > 0 {
            JsonView::or_null(findings[0].get("suggested_fix"@))
        } else {
            JsonView::Null
        },
        _ => JsonView::Null,
    }
}

/// What a classification shares with those of every goal of its category and kind.
pub open spec fn advice_half(c: JsonView) -> JsonView {
    JsonView::object().with("category"@, JsonView::or_null(c.get("category"@))).with(
        "goal_kind"@,
        JsonView::or_null(c.get("goal_kind"@)),
    ).with(
        "why_problem"@,
        JsonView::Str(
            why_problem(
                text_or(c.text("category"@), ""@),
                text_or(c.text("goal_kind"@), ""@),
            ),
        ),
    ).with("suggested_fix"@, classified_fix(c)).with(
        "runtime_check_suggestion"@,
        JsonView::or_null(c.get("runtime_check_suggestion"@)),
    ).with("semantic_verdict"@, JsonView::or_null(c.get("semantic_verdict"@)))
}

/// The classification's per-goal half, the key naming the half it shares with every other goal of
/// its kind, and that half.
pub fn split_goal_classification(classification: &Json) -> (r: (Json, String, Json))
    ensures
        r.0@ == goal_half(classification@),
        r.1@ == advice_key(classification@),
        r.2@ == advice_half(classification@),
{
    let c = classification;
    let category = str_or(c.text("category"), "");
    let goal_kind = str_or(c.text("goal_kind"), "");
    let key = cat3(category, ":", goal_kind);
    let next_action = Json::or_null(c.get("next_action")).without("runtime_check_suggestion");
    let per_goal = Json::object().with("category", Json::or_null(c.get("category"))).with(
        "failure_kind",
        Json::or_null(c.get("failure_kind")),
    ).with("confidence", Json::or_null(c.get("confidence"))).with(
        "status",
        Json::or_null(c.get("status")),
    ).with("normalized_status", Json::or_null(c.get("normalized_status"))).with(
        "goal_kind",
        Json::or_null(c.get("goal_kind")),
    ).with("evidence", Json::or_null(c.get("evidence"))).with("next_action", next_action).with(
        "wp_timeout_triage",
        Json::or_null(c.get("wp_timeout_triage")),
    ).with("advice_key", Json::str(key.as_str()));
    let fix = match c.at("proofread_report", "findings") {
        Some(v) => match v.as_list() {
            Some(findings) => if findings.len() > 0 {
                assert(models(findings@)[0] == findings@[0]@);
                Json::or_null(findings[0].get("suggested_fix"))
            } else {
                assert(models(findings@).len() == 0);
                Json::Null
            },
            None => Json::Null,
        },
        None => Json::Null,
    };
    let advice = Json::object().with("category", Json::or_null(c.get("category"))).with(
        "goal_kind",
        Json::or_null(c.get("goal_kind")),
    ).with("why_problem", Json::str(proofread_why_problem(category, goal_kind))).with(
        "suggested_fix",
        fix,
    ).with("runtime_check_suggestion", Json::or_null(c.get("runtime_check_suggestion"))).with(
        "semantic_verdict",
        Json::or_null(c.get("semantic_verdict")),
    );
    (per_goal, key, advice)
}

// ---------------------------------------------------------------------------
// What a report tells
// ---------------------------------------------------------------------------

/// Why an open obligation is a problem is told by its category; a runtime check without one by its
/// kind.
pub proof fn law_each_category_tells_why(kind: Seq<char>)
    ensures
        why_problem("rte"@, kind)
            == "The runtime-error obligation is still open. When the goal carries a predicate, that names which check it is; when it carries none, context {want: [\"rte_obligations\"]} is where to look."@,
        why_problem("timeout"@, kind)
            == "The prover timed out before proving this obligation."@,
        why_problem("internal_error"@, kind)
            == "Frama-C or WP reported an internal failure for this obligation."@,
        why_problem("unsupported_predicate"@, kind)
            == "The proof uses logic that WP could not handle."@,
        why_problem("callee_requires_too_strict"@, kind)
            == "The caller has not established the callee precondition."@,
        why_problem("callee_contract_too_weak"@, kind)
            == "The callee contract does not expose enough postcondition information."@,
        why_problem("incomplete_behavior_partition"@, kind)
            == "WP reported an open behavior partition obligation."@,
        why_problem("weak_loop_assigns"@, kind)
            == "The loop frame does not cover the writes WP must reason about."@,
        why_problem("weak_loop_variant"@, kind)
            == "The loop termination variant is still unproved."@,
        why_problem("weak_loop_invariant"@, kind)
            == "The loop invariant does not establish or preserve the needed property."@,
        why_problem("bad_assigns"@, kind)
            == "The assigns frame does not match the writes WP observes."@,
        why_problem("weak_ensures"@, kind)
            == "The postcondition is still unproved for this function."@,
        why_problem("missing_requires"@, kind)
            == "The precondition is too weak for this proof obligation."@,
        begins(kind, "rte_"@) ==> why_problem("prover_unknown"@, kind)
            == "The runtime-error obligation is still open."@,
        !begins(kind, "rte_"@) ==> why_problem("prover_unknown"@, kind)
            == "WP did not prove this obligation."@,
{
    reveal_strlit("rte");
    reveal_strlit("timeout");
    reveal_strlit("internal_error");
    reveal_strlit("unsupported_predicate");
    reveal_strlit("callee_requires_too_strict");
    reveal_strlit("callee_contract_too_weak");
    reveal_strlit("incomplete_behavior_partition");
    reveal_strlit("weak_loop_assigns");
    reveal_strlit("weak_loop_variant");
    reveal_strlit("weak_loop_invariant");
    reveal_strlit("bad_assigns");
    reveal_strlit("weak_ensures");
    reveal_strlit("missing_requires");
    reveal_strlit("prover_unknown");
    assert("rte"@.len() == 3 && "timeout"@.len() == 7);
    assert("internal_error"@.len() == 14 && "unsupported_predicate"@.len() == 21);
    assert("callee_requires_too_strict"@.len() == 26 && "callee_contract_too_weak"@.len() == 24);
    assert("incomplete_behavior_partition"@.len() == 29 && "weak_loop_assigns"@.len() == 17);
    assert("weak_loop_variant"@.len() == 17 && "weak_loop_invariant"@.len() == 19);
    assert("bad_assigns"@.len() == 11 && "weak_ensures"@.len() == 12);
    assert("missing_requires"@.len() == 16 && "prover_unknown"@.len() == 14);
    assert("internal_error"@[0] != "prover_unknown"@[0]);
    assert("weak_loop_assigns"@[10] != "weak_loop_variant"@[10]);
}

/// Findings are ordered by how severe they are, then by file, line and column; critical before
/// high before medium before low before all others.
pub proof fn law_the_more_severe_comes_first(a: JsonView, b: JsonView, s: Seq<char>, t: Seq<char>)
    ensures
        a.text("severity"@) == Some("critical"@) && b.text("severity"@) == Some("high"@)
            ==> finding_before(a, b),
        a.text("severity"@) == Some("high"@) && b.text("severity"@) == Some("medium"@)
            ==> finding_before(a, b),
        a.text("severity"@) == Some("medium"@) && b.text("severity"@) == Some("low"@)
            ==> finding_before(a, b),
        a.text("severity"@) == Some("low"@) && b.text("severity"@) is None ==> finding_before(a, b),
        a.text("severity"@) == b.text("severity"@) && a.text("file"@) == Some(s) && b.text("file"@)
            == Some(t) && s != t ==> (finding_before(a, b) <==> text_lt(s, t)),
        a.text("severity"@) == b.text("severity"@) && a.text("file"@) == b.text("file"@) && a.nat_at(
            "line"@,
        ) is Some && b.nat_at("line"@) is Some && a.nat_at("line"@) != b.nat_at("line"@) ==> (
        finding_before(a, b) <==> a.nat_at("line"@)->0 < b.nat_at("line"@)->0),
        a.text("severity"@) == b.text("severity"@) && a.text("file"@) == b.text("file"@) && a.nat_at(
            "line"@,
        ) == b.nat_at("line"@) && a.nat_at("column"@) is Some && b.nat_at("column"@) is Some ==> (
        finding_before(a, b) <==> a.nat_at("column"@)->0 < b.nat_at("column"@)->0),
{
    reveal_strlit("critical");
    reveal_strlit("high");
    reveal_strlit("medium");
    reveal_strlit("low");
    reveal_strlit("info");
    assert("critical"@.len() == 8 && "high"@.len() == 4);
    assert("medium"@.len() == 6 && "low"@.len() == 3);
    assert("info"@.len() == 4);
    assert("high"@[0] != "info"@[0]);
}

proof fn lemma_first_stays(findings: Seq<JsonView>)
    requires
        findings.len() > 0,
    ensures
        first_by_id(findings).len() > 0,
        first_by_id(findings)[0] == findings[0],
        first_by_id(findings).len() <= findings.len(),
    decreases findings.len(),
{
    let before = findings.drop_last();
    let rest = first_by_id(before);
    if before.len() > 0 {
        lemma_first_stays(before);
        assert(before[0] == findings[0]);
        assert(rest.push(findings.last())[0] == rest[0]);
    } else {
        assert(rest.len() == 0);
        assert forall|id: Seq<char>| !has_id(before, id) by {}
        assert(findings.last() == findings[0]);
        assert(first_by_id(findings) == rest.push(findings.last()));
    }
}

/// The report tells as many findings as it lists, and at its head one that none of the findings
/// exceeds in severity; no finding gets lost but for another with the same identity.
pub proof fn law_a_report_leads_with_the_most_severe(
    findings: Seq<JsonView>,
    basis: Seq<char>,
    i: int,
)
    requires
        0 <= i < findings.len(),
    ensures
        ({
            let r = report(findings, basis);
            let kept = reported(findings);
            &&& r.get("findings"@) == Some(JsonView::Array(kept))
            &&& r.at("summary"@, "finding_count"@) == Some(JsonView::num(kept.len() as int))
            &&& r.text("basis"@) == Some(basis)
            &&& 0 < kept.len() <= findings.len()
            &&& kept[0].get("severity"@) is Some ==> r.at("summary"@, "max_severity"@) == kept[0].get(
                "severity"@,
            )
            &&& kept[0].get("id"@) is Some ==> r.at("summary"@, "most_severe_finding_id"@)
                == kept[0].get("id"@)
            &&& !finding_before(findings[i], kept[0])
            &&& findings[i].text("id"@) is None ==> kept.contains(findings[i])
            &&& findings[i].text("id"@) is Some ==> has_id(kept, findings[i].text("id"@)->0)
        }),
        report(Seq::empty(), basis).at("summary"@, "finding_count"@) == Some(JsonView::num(0)),
        report(Seq::empty(), basis).at("summary"@, "max_severity"@) == Some(JsonView::Str("info"@)),
{
    broadcast use crate::json::group_object_reads;

    reveal_strlit("summary");
    reveal_strlit("basis");
    reveal_strlit("findings");
    reveal_strlit("markdown");
    assert("summary"@.len() == 7 && "basis"@.len() == 5);
    assert("findings"@.len() == 8 && "markdown"@.len() == 8);
    assert("findings"@[0] != "markdown"@[0]);
    reveal_strlit("finding_count");
    reveal_strlit("max_severity");
    reveal_strlit("most_severe_finding_id");
    assert("finding_count"@.len() == 13 && "max_severity"@.len() == 12);
    assert("most_severe_finding_id"@.len() == 22);
    let all = sort_by(findings, finding_order());
    law_finding_order();
    law_sort_by(findings, finding_order());
    law_sort_by(Seq::<JsonView>::empty(), finding_order());
    law_one_finding_per_id(all);
    findings.to_multiset_ensures();
    all.to_multiset_ensures();
    assert(findings.contains(findings[i]));
    assert(all.to_multiset().count(findings[i]) > 0);
    assert(all.contains(findings[i]));
    let k = choose|k: int| 0 <= k < all.len() && all[k] == findings[i];
    lemma_first_stays(all);
    let o = finding_order();
    if k == 0 {
        assert(!o(all[0], all[0]));
    } else {
        assert(!o(all[k], all[0]));
    }
    if findings[i].text("id"@) is Some {
        assert(all[k].text("id"@) == Some(findings[i].text("id"@)->0));
        assert(has_id(all, findings[i].text("id"@)->0));
    }
    assert(sort_by(Seq::<JsonView>::empty(), finding_order()) =~= Seq::empty());
    assert(reported(Seq::empty()) =~= Seq::empty());
}

/// A finding tells which goal it is about, how severe it is, where it stands, what its status was,
/// why that is a problem, and what to do about it.
pub proof fn law_a_finding_tells_all_of_a_failure(
    goal: JsonView,
    f: FailureView,
    loc: JsonView,
    file: Seq<char>,
    line: int,
    id: Seq<char>,
    owner: Seq<char>,
)
    requires
        goal.get("source_location"@) == Some(loc),
        loc.text("file"@) == Some(file),
        loc.nat_at("line"@) == Some(line),
        goal.text("stable_goal_id"@) == Some(id),
        goal.text("fct"@) == Some(owner),
        owner.len() > 0,
        owner[0] != '#',
    ensures
        ({
            let g = failure_finding(goal, f);
            &&& g.text("id"@) == Some("wp_failure:"@ + id + ":"@ + f.category)
            &&& g.text("category"@) == Some(f.category)
            &&& g.text("confidence"@) == Some(f.confidence)
            &&& f.confidence == "high"@ || f.confidence == "medium"@ || f.confidence == "low"@
                ==> g.text("severity"@) == Some(f.confidence)
            &&& g.text("file"@) == Some(file)
            &&& g.get("line"@) == Some(JsonView::num(line))
            &&& g.text("function"@) == Some(owner)
            &&& g.text("clause_or_goal_kind"@) == Some(f.goal_kind)
            &&& g.text("current_behavior"@) == Some(
                "WP status is "@ + f.raw_status + " (normalized: "@ + f.normalized_status + ")."@,
            )
            &&& g.text("suggested_fix"@) == Some(f.reason)
            &&& g.text("why_problem"@) == Some(why_problem(f.category, f.goal_kind))
            &&& g.get("evidence"@) == Some(f.evidence)
        }),
{
    broadcast use crate::json::group_object_reads;

    reveal_strlit("id");
    reveal_strlit("severity");
    reveal_strlit("category");
    reveal_strlit("confidence");
    reveal_strlit("file");
    reveal_strlit("line");
    reveal_strlit("column");
    reveal_strlit("function");
    reveal_strlit("clause_or_goal_kind");
    reveal_strlit("trigger");
    reveal_strlit("current_behavior");
    reveal_strlit("why_problem");
    reveal_strlit("suggested_fix");
    reveal_strlit("evidence");
    assert("id"@.len() == 2 && "severity"@.len() == 8);
    assert("category"@.len() == 8 && "confidence"@.len() == 10);
    assert("file"@.len() == 4 && "line"@.len() == 4);
    assert("column"@.len() == 6 && "function"@.len() == 8);
    assert("clause_or_goal_kind"@.len() == 19 && "trigger"@.len() == 7);
    assert("current_behavior"@.len() == 16 && "why_problem"@.len() == 11);
    assert("suggested_fix"@.len() == 13 && "evidence"@.len() == 8);
    assert("severity"@[0] != "category"@[0]);
    assert("severity"@[0] != "function"@[0]);
    assert("severity"@[0] != "evidence"@[0]);
    assert("category"@[0] != "function"@[0]);
    assert("category"@[0] != "evidence"@[0]);
    assert("file"@[0] != "line"@[0]);
    assert("function"@[0] != "evidence"@[0]);
    reveal_strlit("#");
    if begins(owner, "#"@) {
        assert(owner.subrange(0, 1)[0] == "#"@[0]);
    }
}

/// A finding in words is its severity, its place, its function, its kind, why it is a problem and
/// what to do about it, in this order.
pub proof fn law_a_finding_in_words(
    f: JsonView,
    severity: Seq<char>,
    file: Seq<char>,
    line: int,
    function: Seq<char>,
    kind: Seq<char>,
    why: Seq<char>,
    fix: Seq<char>,
)
    requires
        f.text("severity"@) == Some(severity),
        f.text("file"@) == Some(file),
        f.nat_at("line"@) == Some(line),
        f.text("function"@) == Some(function),
        f.text("clause_or_goal_kind"@) == Some(kind),
        f.text("why_problem"@) == Some(why),
        f.text("suggested_fix"@) == Some(fix),
    ensures
        finding_markdown(f) == "- "@ + severity + " "@ + file + ":"@ + decimal(line as nat) + " "@
            + function + " "@ + kind + ": "@ + why + " Suggested fix: "@ + fix,
        action_reason(f, why) == file + ":"@ + decimal(line as nat) + ": "@ + fix,
{
}

/// After a retry in vain a timeout is no longer told to be retried, and what is told of any other
/// finding stays.
pub proof fn law_a_vain_retry_changes_the_advice_on_timeouts_alone(f: JsonView, key: Seq<char>)
    ensures
        f.text("category"@) != Some("timeout"@) ==> retried_finding(f) == f,
        f.text("category"@) == Some("timeout"@) ==> retried_finding(f).text("suggested_fix"@) == Some(
            "This run already retried the goal at double the prover timeout and it did not flip, so time is not what it is short of. Read the VC, or supply the contract the obligation needs."@,
        ),
        key != "suggested_fix"@ && key != "evidence"@ ==> retried_finding(f).get(key) == f.get(key),
{
    broadcast use crate::json::group_object_reads;

    reveal_strlit("suggested_fix");
    reveal_strlit("evidence");
    reveal_strlit("category");
    assert("suggested_fix"@.len() == 13 && "evidence"@.len() == 8);
    assert("category"@.len() == 8);
    assert("evidence"@[0] != "category"@[0]);
}

/// A retry was in vain where it was made and no goal flipped; the findings are then rewritten one by
/// one, and otherwise left.
pub proof fn law_a_vain_retry_is_one_without_a_flip(
    r: JsonView,
    retry: JsonView,
    findings: Seq<JsonView>,
    flipped: Seq<JsonView>,
    i: int,
)
    requires
        r.list("findings"@) == Some(findings),
        retry.list("flipped"@) == Some(flipped),
        0 <= i < findings.len(),
        findings[i].text("category"@) == Some("timeout"@),
    ensures
        retry.flag("attempted"@) == Some(true) && flipped.len() == 0 ==> without_stale_advice(
            r,
            retry,
        ).list("findings"@) == Some(findings.map_values(|f: JsonView| retried_finding(f))),
        flipped.len() > 0 ==> without_stale_advice(r, retry) == r,
        retry.flag("attempted"@) != Some(true) ==> without_stale_advice(r, retry) == r,
{
    broadcast use crate::json::group_object_reads;

    reveal_strlit("findings");
    reveal_strlit("markdown");
    assert("findings"@.len() == 8 && "markdown"@.len() == 8);
    assert("findings"@[0] != "markdown"@[0]);
    assert(any_timeout(findings));
}

/// A classification is split into what belongs to the goal and what all goals of its category and
/// kind share; the key of the shared half is the category and the kind.
pub proof fn law_a_classification_is_split(c: JsonView, category: Seq<char>, kind: Seq<char>, v: JsonView)
    requires
        c.text("category"@) == Some(category),
        c.text("goal_kind"@) == Some(kind),
    ensures
        advice_key(c) == category + ":"@ + kind,
        goal_half(c).text("category"@) == Some(category),
        goal_half(c).text("goal_kind"@) == Some(kind),
        goal_half(c).text("advice_key"@) == Some(category + ":"@ + kind),
        c.get("status"@) == Some(v) ==> goal_half(c).get("status"@) == Some(v),
        c.get("confidence"@) == Some(v) ==> goal_half(c).get("confidence"@) == Some(v),
        c.get("failure_kind"@) == Some(v) ==> goal_half(c).get("failure_kind"@) == Some(v),
        c.get("normalized_status"@) == Some(v) ==> goal_half(c).get("normalized_status"@) == Some(v),
        c.get("evidence"@) == Some(v) ==> goal_half(c).get("evidence"@) == Some(v),
        c.get("wp_timeout_triage"@) == Some(v) ==> goal_half(c).get("wp_timeout_triage"@) == Some(v),
        advice_half(c).text("category"@) == Some(category),
        advice_half(c).text("goal_kind"@) == Some(kind),
        advice_half(c).text("why_problem"@) == Some(why_problem(category, kind)),
        c.get("semantic_verdict"@) == Some(v) ==> advice_half(c).get("semantic_verdict"@) == Some(v),
        c.get("runtime_check_suggestion"@) == Some(v) ==> advice_half(c).get(
            "runtime_check_suggestion"@,
        ) == Some(v),
{
    broadcast use crate::json::group_object_reads;

    reveal_strlit("category");
    reveal_strlit("failure_kind");
    reveal_strlit("confidence");
    reveal_strlit("status");
    reveal_strlit("normalized_status");
    reveal_strlit("goal_kind");
    reveal_strlit("evidence");
    reveal_strlit("next_action");
    reveal_strlit("wp_timeout_triage");
    reveal_strlit("advice_key");
    assert("category"@.len() == 8 && "failure_kind"@.len() == 12);
    assert("confidence"@.len() == 10 && "status"@.len() == 6);
    assert("normalized_status"@.len() == 17 && "goal_kind"@.len() == 9);
    assert("evidence"@.len() == 8 && "next_action"@.len() == 11);
    assert("wp_timeout_triage"@.len() == 17 && "advice_key"@.len() == 10);
    assert("category"@[0] != "evidence"@[0]);
    assert("confidence"@[0] != "advice_key"@[0]);
    assert("normalized_status"@[0] != "wp_timeout_triage"@[0]);
    reveal_strlit("category");
    reveal_strlit("goal_kind");
    reveal_strlit("why_problem");
    reveal_strlit("suggested_fix");
    reveal_strlit("runtime_check_suggestion");
    reveal_strlit("semantic_verdict");
    assert("category"@.len() == 8 && "goal_kind"@.len() == 9);
    assert("why_problem"@.len() == 11 && "suggested_fix"@.len() == 13);
    assert("runtime_check_suggestion"@.len() == 24 && "semantic_verdict"@.len() == 16);
}

/// Each severity has its rank, and what is no severity ranks below all of them.
pub proof fn law_each_severity_has_its_rank(other: Seq<char>)
    ensures
        severity_rank("critical"@) > severity_rank("high"@),
        severity_rank("high"@) > severity_rank("medium"@),
        severity_rank("medium"@) > severity_rank("low"@),
        other != "critical"@ && other != "high"@ && other != "medium"@ && other != "low"@
            ==> severity_rank("low"@) > severity_rank(other),
{
    reveal_strlit("critical");
    reveal_strlit("high");
    reveal_strlit("medium");
    reveal_strlit("low");
    assert("critical"@.len() == 8 && "high"@.len() == 4);
    assert("medium"@.len() == 6 && "low"@.len() == 3);
}

/// A finding is pointed at by its identity, its severity, its category and its place.
pub proof fn law_a_finding_is_pointed_at(f: JsonView, n: int)
    ensures
        finding_ref(f).get("id"@) == Some(JsonView::or_null(f.get("id"@))),
        finding_ref(f).get("severity"@) == Some(JsonView::or_null(f.get("severity"@))),
        finding_ref(f).get("category"@) == Some(JsonView::or_null(f.get("category"@))),
        finding_ref(f).get("file"@) == Some(JsonView::or_null(f.get("file"@))),
        finding_ref(f).get("line"@) == Some(JsonView::or_null(f.get("line"@))),
        f.nat_at("line"@) == Some(n) ==> shown_line(f) == decimal(n as nat),
        f.get("line"@) is None ==> shown_line(f) == "?"@,
{
    broadcast use crate::json::group_object_reads;

    reveal_strlit("id");
    reveal_strlit("severity");
    reveal_strlit("category");
    reveal_strlit("file");
    reveal_strlit("line");
    assert("id"@.len() == 2 && "severity"@.len() == 8);
    assert("category"@.len() == 8 && "file"@.len() == 4);
    assert("line"@.len() == 4);
    assert("severity"@[0] != "category"@[0]);
    assert("file"@[0] != "line"@[0]);
}

/// A finding is as severe as it is sure, belongs to the function that is named by its name, and one
/// without a place comes behind those with one.
pub proof fn law_what_a_finding_is_put_down_to(
    goal: JsonView,
    owner: Seq<char>,
    function: Seq<char>,
    f: JsonView,
    key: Seq<char>,
    n: int,
    other: Seq<char>,
)
    ensures
        severity_of("high"@) == "high"@ && severity_of("medium"@) == "medium"@ && severity_of("low"@)
            == "low"@,
        other != "high"@ && other != "medium"@ && other != "low"@ ==> severity_of(other) == "info"@,
        goal.get("fct"@) == Some(JsonView::Str(owner)) && owner.len() > 0 && owner[0] != '#'
            ==> finding_owner(goal, Some(function)) == owner,
        goal.get("fct"@) == Some(JsonView::Str(owner)) && owner.len() > 0 && owner[0] == '#'
            ==> finding_owner(goal, Some(function)) == function,
        goal.get("fct"@) is None && goal.get("scope"@) is None && goal.get("function_marker"@) is None
            ==> finding_owner(goal, Some(function)) == function,
        f.nat_at(key) == Some(n) ==> finding_number(f, key) == n,
        f.nat_at(key) is None ==> finding_number(f, key) == u64::MAX,
{
    reveal_strlit("#");
    if owner.len() > 0 {
        assert(owner.subrange(0, 1)[0] == owner[0]);
        if owner[0] == '#' {
            assert(owner.subrange(0, 1) =~= "#"@);
        }
    }
}

} // verus!
