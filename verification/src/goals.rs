//! WP goals: their statuses, what they rest on, and the properties they are matched with.

use crate::json::{
    lemma_models_push, lemma_take_next, models, opt_value, str_or, text_in, text_or, texts_of, Json,
    JsonView,
};
use crate::order::{sort_unique, sorted_unique};
use crate::status::{
    add_status_fields, consolidated_status, consolidated_status_spec, counts_as_progress,
    insert_status_flags, is_vacuous, normalize, normalize_frama_c_status, normalized_or_derived,
    normalized_or_derived_spec, raw_status, raw_status_spec, requires_hypotheses,
    status_counts_as_progress, status_is_vacuous, status_requires_hypotheses, with_flags,
    with_status_fields,
};
use crate::text::{opt_text, owned, same, texts};
use crate::verdicts::{is_text, marker_of, value_marker};
use vstd::prelude::*;

verus! {

// ---------------------------------------------------------------------------
// Statuses
// ---------------------------------------------------------------------------

/// The consolidated status of a goal, "unknown" where it has none.
pub open spec fn goal_status(goal: JsonView) -> Seq<char> {
    text_or(consolidated_status_spec(goal), "unknown"@)
}

/// The consolidated status of a goal, "unknown" where it has none.
pub fn wp_goal_status(goal: &Json) -> (r: String)
    ensures
        r@ == goal_status(goal@),
{
    owned(str_or(consolidated_status(goal), "unknown"))
}

/// Whether a goal's status normalizes to the given one, so that callers can ask about a raw goal
/// straight off the wire.
pub fn wp_goal_status_is(goal: &Json, normalized: &str) -> (r: bool)
    ensures
        r == (normalize(goal_status(goal@)) == normalized@),
{
    let status = wp_goal_status(goal);
    same(normalize_frama_c_status(status.as_str()).as_str(), normalized)
}

/// Whether a goal moves a proof forward.
pub open spec fn wp_progress(goal: JsonView) -> bool {
    match goal.flag("counts_as_progress"@) {
        Some(b) => b,
        None => counts_as_progress(normalize(goal_status(goal))),
    }
}

/// Whether a goal moves a proof forward: by its flag or, without one, by its consolidated status.
pub fn wp_goal_counts_as_progress(goal: &Json) -> (r: bool)
    ensures
        r == wp_progress(goal@),
{
    match goal.flag("counts_as_progress") {
        Some(b) => b,
        None => status_counts_as_progress(
            normalize_frama_c_status(wp_goal_status(goal).as_str()).as_str(),
        ),
    }
}

/// WP's own name for a goal.
pub open spec fn goal_identity(goal: JsonView) -> Option<Seq<char>> {
    texts_of(goal.or_get(goal.get("wpo_id"@), "wpo"@))
}

/// WP's own name for a goal, which survives being proved again in the same session.
pub fn wp_goal_identity(goal: &Json) -> (r: Option<&str>)
    ensures
        opt_text(r) == goal_identity(goal@),
{
    text_in(goal.or_get(goal.get("wpo_id"), "wpo"))
}

/// Whether a goal that timed out is valid after being proved again.
pub open spec fn flipped(goal: JsonView, timed_out: Seq<Seq<char>>) -> bool {
    normalize(goal_status(goal)) == "valid"@ && match goal_identity(goal) {
        Some(id) => timed_out.contains(id),
        None => false,
    }
}

/// How a flipped goal is reported.
pub open spec fn flipped_row(goal: JsonView) -> JsonView {
    JsonView::object().with("wpo_id"@, JsonView::opt_text(goal_identity(goal))).with(
        "name"@,
        JsonView::or_null(goal.get("name"@)),
    ).with("property"@, JsonView::or_null(goal.get("property"@)))
}

/// The flipped goals, as they are reported.
pub open spec fn flipped_rows(retried: Seq<JsonView>, timed_out: Seq<Seq<char>>) -> Seq<JsonView>
    decreases retried.len(),
{
    if retried.len() == 0 {
        Seq::empty()
    } else {
        let rest = flipped_rows(retried.drop_last(), timed_out);
        if flipped(retried.last(), timed_out) {
            rest.push(flipped_row(retried.last()))
        } else {
            rest
        }
    }
}

/// The difference of two numbers, or zero where it would be negative.
pub open spec fn less(a: int, b: int) -> int {
    if a >= b {
        a - b
    } else {
        0
    }
}

/// What proving again with more time changed.
pub open spec fn retry_report(
    timed_out: Seq<Seq<char>>,
    retried: Seq<JsonView>,
    first: int,
    retry: int,
) -> JsonView {
    let rows = flipped_rows(retried, timed_out);
    JsonView::object().with("attempted"@, JsonView::Bool(true)).with(
        "timeout_seconds"@,
        JsonView::object().with("first_pass"@, JsonView::num(first)).with(
            "retry"@,
            JsonView::num(retry),
        ),
    ).with("timed_out_first_pass"@, JsonView::num(timed_out.len() as int)).with(
        "still_unproved"@,
        JsonView::num(less(timed_out.len() as int, rows.len() as int)),
    ).with("flipped"@, JsonView::Array(rows))
}

/// Whether a text is among some texts.
pub fn contains_text(v: &Vec<String>, s: &str) -> (r: bool)
    ensures
        r == texts(v@).contains(s@),
{
    let ghost all = texts(v@);
    let mut i: usize = 0;
    while i < v.len()
        invariant
            i <= v@.len(),
            all == texts(v@),
            forall|k: int| 0 <= k < i ==> #[trigger] all[k] != s@,
        decreases v@.len() - i,
    {
        assert(all[i as int] == v@[i as int]@);
        if same(v[i].as_str(), s) {
            return true;
        }
        i = i + 1;
    }
    false
}

/// Which of the goals that timed out are valid after being proved again. A goal that is named
/// twice among those that timed out counts once.
pub fn timeout_retry_report(
    timed_out: &Vec<String>,
    retried: &Vec<Json>,
    first_pass_timeout: u32,
    retry_timeout: u32,
) -> (r: Json)
    ensures
        r@ == retry_report(
            sorted_unique(texts(timed_out@)),
            models(retried@),
            first_pass_timeout as int,
            retry_timeout as int,
        ),
{
    let ids = sort_unique(timed_out);
    let ghost all = models(retried@);
    let ghost out_ids = texts(ids@);
    let mut rows: Vec<Json> = Vec::new();
    let mut i: usize = 0;
    assert(models(rows@) =~= flipped_rows(all.subrange(0, 0), out_ids));
    while i < retried.len()
        invariant
            i <= retried@.len(),
            all == models(retried@),
            out_ids == texts(ids@),
            models(rows@) == flipped_rows(all.subrange(0, i as int), out_ids),
        decreases retried@.len() - i,
    {
        proof {
            lemma_take_next(all, i as int);
        }
        let goal = &retried[i];
        let known: bool = match wp_goal_identity(goal) {
            Some(id) => contains_text(&ids, id),
            None => false,
        };
        if wp_goal_status_is(goal, "valid") && known {
            let row = Json::object().with("wpo_id", Json::opt_str(wp_goal_identity(goal))).with(
                "name",
                Json::or_null(goal.get("name")),
            ).with("property", Json::or_null(goal.get("property")));
            proof {
                lemma_models_push(rows@, row);
            }
            rows.push(row);
        }
        i = i + 1;
    }
    assert(all.subrange(0, i as int) =~= all);
    let still: u64 = if ids.len() >= rows.len() {
        (ids.len() - rows.len()) as u64
    } else {
        0
    };
    Json::object().with("attempted", Json::Bool(true)).with(
        "timeout_seconds",
        Json::object().with("first_pass", Json::num(first_pass_timeout as u64)).with(
            "retry",
            Json::num(retry_timeout as u64),
        ),
    ).with("timed_out_first_pass", Json::num(ids.len() as u64)).with(
        "still_unproved",
        Json::num(still),
    ).with("flipped", Json::array(rows))
}

// ---------------------------------------------------------------------------
// Identities and locations
// ---------------------------------------------------------------------------

/// A value that is an object.
pub open spec fn object_in(o: Option<JsonView>) -> Option<JsonView> {
    match o {
        Some(v) => if v is Object {
            Some(v)
        } else {
            None
        },
        None => None,
    }
}

/// Where a row says it stands: under "source" or, where that is no object, under "loc".
pub open spec fn row_location(row: JsonView) -> Option<JsonView> {
    match object_in(row.get("source"@)) {
        Some(v) => Some(v),
        None => object_in(row.get("loc"@)),
    }
}

/// Where a row says it stands.
pub fn source_location(row: &Json) -> (r: Option<Json>)
    ensures
        opt_value(r) == row_location(row@),
{
    match row.get("source") {
        Some(v) => if v.is_object() {
            return Some(v.copy());
        },
        None => {},
    }
    match row.get("loc") {
        Some(v) => if v.is_object() {
            Some(v.copy())
        } else {
            None
        },
        None => None,
    }
}

/// A row with a text under `key` where there is one and it held nothing there.
pub open spec fn fill_text(row: JsonView, key: Seq<char>, o: Option<Seq<char>>) -> JsonView {
    match o {
        Some(s) => row.fill(key, JsonView::Str(s)),
        None => row,
    }
}

/// A row with a value under `key` where there is one and it held nothing there.
pub open spec fn fill_value(row: JsonView, key: Seq<char>, o: Option<JsonView>) -> JsonView {
    match o {
        Some(v) => row.fill(key, v),
        None => row,
    }
}

/// Fills in a text.
pub fn filled_text(row: Json, key: &str, o: Option<&str>) -> (r: Json)
    ensures
        r@ == fill_text(row@, key@, opt_text(o)),
{
    match o {
        Some(s) => row.fill(key, Json::str(s)),
        None => row,
    }
}

/// Fills in a value.
pub fn filled_value(row: Json, key: &str, o: Option<Json>) -> (r: Json)
    ensures
        r@ == fill_value(row@, key@, opt_value(o)),
{
    match o {
        Some(v) => row.fill(key, v),
        None => row,
    }
}

/// A row with its status fields, and with the names under which it is known filled in.
pub open spec fn with_identity(row: JsonView) -> JsonView {
    let v = with_status_fields(row);
    fill_value(
        fill_text(
            fill_text(
                fill_text(
                    fill_text(v, "property_marker"@, marker_of(v)),
                    "wpo_id"@,
                    goal_identity(v),
                ),
                "function_marker"@,
                v.text("scope"@),
            ),
            "kinstr_marker"@,
            v.text("kinstr"@),
        ),
        "source_location"@,
        row_location(v),
    )
}

/// Adds the status fields, and fills in the names under which a row is known.
pub fn add_identity_fields(row: &mut Json)
    ensures
        final(row)@ == with_identity(old(row)@),
{
    add_status_fields(row);
    let mut me = Json::Null;
    core::mem::swap(row, &mut me);
    let marker = crate::markers::own_opt(value_marker(&me));
    let wpo = crate::markers::own_opt(wp_goal_identity(&me));
    let scope = crate::markers::own_opt(me.text("scope"));
    let kinstr = crate::markers::own_opt(me.text("kinstr"));
    let at = source_location(&me);
    let me = filled_string(me, "property_marker", &marker);
    let me = filled_string(me, "wpo_id", &wpo);
    let me = filled_string(me, "function_marker", &scope);
    let me = filled_string(me, "kinstr_marker", &kinstr);
    let mut me = filled_value(me, "source_location", at);
    core::mem::swap(row, &mut me);
}

/// Fills in a text.
fn filled_string(row: Json, key: &str, o: &Option<String>) -> (r: Json)
    ensures
        r@ == fill_text(row@, key@, crate::text::opt_string(*o)),
{
    match o {
        Some(s) => row.fill(key, Json::str(s.as_str())),
        None => row,
    }
}

/// Properties by their markers: of those with the same marker the last.
pub open spec fn properties_by_marker(properties: Seq<JsonView>) -> JsonView
    decreases properties.len(),
{
    if properties.len() == 0 {
        JsonView::object()
    } else {
        let rest = properties_by_marker(properties.drop_last());
        match marker_of(properties.last()) {
            Some(m) => rest.with(m, properties.last()),
            None => rest,
        }
    }
}

/// Properties by their markers, as an object.
pub fn property_status_map(properties: &Vec<Json>) -> (r: Json)
    ensures
        r@ == properties_by_marker(models(properties@)),
{
    let ghost all = models(properties@);
    let mut out = Json::object();
    let mut i: usize = 0;
    while i < properties.len()
        invariant
            i <= properties@.len(),
            all == models(properties@),
            out@ == properties_by_marker(all.subrange(0, i as int)),
        decreases properties@.len() - i,
    {
        proof {
            lemma_take_next(all, i as int);
        }
        match value_marker(&properties[i]) {
            Some(m) => {
                out.insert(m, properties[i].copy());
            },
            None => {},
        }
        i = i + 1;
    }
    assert(all.subrange(0, i as int) =~= all);
    out
}

// ---------------------------------------------------------------------------
// Later instances of a property that failed earlier
// ---------------------------------------------------------------------------

/// The line at which a property stands.
pub open spec fn source_line(property: JsonView) -> Option<int> {
    match property.at("source"@, "line"@) {
        Some(v) => v.as_nat(),
        None => None,
    }
}

/// The line at which a property stands.
pub fn property_source_line(property: &Json) -> (r: Option<u64>)
    ensures
        crate::markers::line_view(r) == source_line(property@),
{
    match property.at("source", "line") {
        Some(v) => v.as_nat(),
        None => None,
    }
}

/// What instances of one property in one function have in common: the function and the predicate.
pub open spec fn vacuity_key(property: JsonView) -> Option<(Seq<char>, Seq<char>)> {
    if property.text("kind"@) != Some("instance"@) {
        None
    } else {
        match property.text("scope"@) {
            Some(scope) => Some((scope, text_or(property.text("predicate"@), ""@))),
            None => None,
        }
    }
}

/// What instances of one property in one function have in common.
pub fn instance_vacuity_key(property: &Json) -> (r: Option<(String, String)>)
    ensures
        crate::text::opt_pair(r) == vacuity_key(property@),
{
    if !is_text(property.text("kind"), "instance") {
        return None;
    }
    match property.text("scope") {
        Some(scope) => Some((owned(scope), owned(str_or(property.text("predicate"), "")))),
        None => None,
    }
}

/// The status by which an instance is judged.
pub open spec fn instance_status(property: JsonView) -> Seq<char> {
    text_or(property.text("normalized_status"@), "unknown"@)
}

/// Whether a property is an instance, with a line, of what `key` names.
pub open spec fn instance_of(property: JsonView, key: (Seq<char>, Seq<char>)) -> bool {
    source_line(property) is Some && vacuity_key(property) == Some(key)
}

/// Whether the property at `f` is an instance of what `key` names and did not prove.
pub open spec fn failed_instance(
    properties: Seq<JsonView>,
    key: (Seq<char>, Seq<char>),
    f: int,
) -> bool {
    0 <= f < properties.len() && instance_of(properties[f], key) && !counts_as_progress(
        instance_status(properties[f]),
    )
}

/// Whether the property at `f` is the failed instance that stands first: on the smallest line
/// and, of those on it, the first in the list.
pub open spec fn first_failed(
    properties: Seq<JsonView>,
    key: (Seq<char>, Seq<char>),
    f: int,
) -> bool {
    &&& failed_instance(properties, key, f)
    &&& forall|g: int| #[trigger]
        failed_instance(properties, key, g) ==> (source_line(properties[f])->0 < source_line(
            properties[g],
        )->0 || (source_line(properties[f])->0 == source_line(properties[g])->0 && f <= g))
}

/// A property that proved after an instance of it failed.
pub open spec fn suspect(property: JsonView, failed: JsonView) -> JsonView {
    property.with("vacuous"@, JsonView::Bool(true)).with(
        "counts_as_progress"@,
        JsonView::Bool(false),
    ).with("requires_hypotheses"@, JsonView::Bool(true)).with(
        "normalized_status"@,
        JsonView::Str("valid_under_false_hypothesis"@),
    ).with(
        "vacuity_reason"@,
        JsonView::Str(
            "An earlier instance of the same property in this function did not prove; this later valid status may be under a contradictory path hypothesis"@,
        ),
    ).with(
        "vacuity_dependency"@,
        JsonView::object().with("property"@, JsonView::Str(text_or(marker_of(failed), ""@))).with(
            "status"@,
            JsonView::Str(instance_status(failed)),
        ).with("line"@, JsonView::num(source_line(failed)->0)),
    )
}

/// Whether the failed instance at `f` makes the property at `k` suspect: it is the first failed
/// instance, on an earlier line, of a property that proved.
pub open spec fn casts_doubt(properties: Seq<JsonView>, k: int, f: int) -> bool {
    &&& source_line(properties[k]) is Some
    &&& vacuity_key(properties[k]) is Some
    &&& counts_as_progress(instance_status(properties[k]))
    &&& first_failed(properties, vacuity_key(properties[k])->0, f)
    &&& source_line(properties[f])->0 < source_line(properties[k])->0
}

/// The property at `k`, marked where an earlier instance of it failed.
pub open spec fn judged_instance(properties: Seq<JsonView>, k: int) -> JsonView {
    if exists|f: int| casts_doubt(properties, k, f) {
        suspect(properties[k], properties[choose|f: int| casts_doubt(properties, k, f)])
    } else {
        properties[k]
    }
}

/// The first failed instance of what `key` names, where there is one.
fn find_first_failed(properties: &Vec<Json>, scope: &str, predicate: &str) -> (r: Option<usize>)
    ensures
        match r {
            Some(f) => first_failed(models(properties@), (scope@, predicate@), f as int),
            None => forall|f: int| !failed_instance(models(properties@), (scope@, predicate@), f),
        },
{
    let ghost all = models(properties@);
    let ghost key = (scope@, predicate@);
    let mut best: Option<usize> = None;
    let mut best_line: u64 = 0;
    let mut i: usize = 0;
    while i < properties.len()
        invariant
            i <= properties@.len(),
            all == models(properties@),
            key == (scope@, predicate@),
            match best {
                Some(f) => {
                    &&& f < i
                    &&& failed_instance(all, key, f as int)
                    &&& source_line(all[f as int]) == Some(best_line as int)
                    &&& forall|g: int|
                        0 <= g < i && #[trigger] failed_instance(all, key, g) ==> (best_line
                            < source_line(all[g])->0 || (best_line == source_line(all[g])->0 && f
                            <= g))
                },
                None => forall|g: int| 0 <= g < i ==> !#[trigger] failed_instance(all, key, g),
            },
        decreases properties@.len() - i,
    {
        let p = &properties[i];
        assert(all[i as int] == p@);
        match (property_source_line(p), instance_vacuity_key(p)) {
            (Some(line), Some(k)) => {
                if same(k.0.as_str(), scope) && same(k.1.as_str(), predicate)
                    && !status_counts_as_progress(str_or(p.text("normalized_status"), "unknown")) {
                    assert(failed_instance(all, key, i as int));
                    let better: bool = match best {
                        Some(_) => line < best_line,
                        None => true,
                    };
                    if better {
                        best = Some(i);
                        best_line = line;
                    }
                } else {
                    assert(!failed_instance(all, key, i as int));
                }
            },
            _ => {
                assert(!failed_instance(all, key, i as int));
            },
        }
        i = i + 1;
    }
    best
}

/// Marks a property that proved after an instance of it failed.
fn mark_suspect(property: Json, failed: &Json, line: u64) -> (r: Json)
    requires
        source_line(failed@) == Some(line as int),
    ensures
        r@ == suspect(property@, failed@),
{
    property.with("vacuous", Json::Bool(true)).with("counts_as_progress", Json::Bool(false)).with(
        "requires_hypotheses",
        Json::Bool(true),
    ).with("normalized_status", Json::str("valid_under_false_hypothesis")).with(
        "vacuity_reason",
        Json::str(
            "An earlier instance of the same property in this function did not prove; this later valid status may be under a contradictory path hypothesis",
        ),
    ).with(
        "vacuity_dependency",
        Json::object().with("property", Json::str(str_or(value_marker(failed), ""))).with(
            "status",
            Json::str(str_or(failed.text("normalized_status"), "unknown")),
        ).with("line", Json::num(line)),
    )
}

/// The property at `k`, marked where an earlier instance of it failed.
fn judge_instance(properties: &Vec<Json>, k: usize) -> (r: Json)
    requires
        k < properties@.len(),
    ensures
        r@ == judged_instance(models(properties@), k as int),
{
    let ghost all = models(properties@);
    let p = &properties[k];
    assert(all[k as int] == p@);
    let (line, key) = match (property_source_line(p), instance_vacuity_key(p)) {
        (Some(line), Some(key)) => (line, key),
        _ => {
            return p.copy();
        },
    };
    if !status_counts_as_progress(str_or(p.text("normalized_status"), "unknown")) {
        return p.copy();
    }
    match find_first_failed(properties, key.0.as_str(), key.1.as_str()) {
        Some(f) => {
            assert(all[f as int] == properties@[f as int]@);
            match property_source_line(&properties[f]) {
                Some(failed_line) => {
                    proof {
                        lemma_first_failed_unique(all, (key.0@, key.1@), f as int);
                    }
                    if failed_line < line {
                        proof {
                            assert(casts_doubt(all, k as int, f as int));
                            let w = choose|w: int| casts_doubt(all, k as int, w);
                            assert(first_failed(all, (key.0@, key.1@), w));
                        }
                        mark_suspect(p.copy(), &properties[f], failed_line)
                    } else {
                        assert(forall|w: int| #![trigger casts_doubt(all, k as int, w)]
                            casts_doubt(all, k as int, w) ==> first_failed(
                                all,
                                (key.0@, key.1@),
                                w,
                            ));
                        p.copy()
                    }
                },
                None => p.copy(),
            }
        },
        None => {
            assert(forall|w: int| #![trigger casts_doubt(all, k as int, w)]
                casts_doubt(all, k as int, w) ==> failed_instance(all, (key.0@, key.1@), w));
            p.copy()
        },
    }
}

/// No two properties are both the first that failed.
proof fn lemma_first_failed_unique(
    properties: Seq<JsonView>,
    key: (Seq<char>, Seq<char>),
    f: int,
)
    requires
        first_failed(properties, key, f),
    ensures
        forall|w: int| #[trigger] first_failed(properties, key, w) ==> w == f,
{
    assert forall|w: int| #[trigger] first_failed(properties, key, w) implies w == f by {
        assert(failed_instance(properties, key, w));
        assert(failed_instance(properties, key, f));
    }
}

/// Marks each property that proved on a later line than one on which an instance of the same
/// property, in the same function, did not: the later valid status may be under a contradictory
/// path hypothesis.
pub fn add_ordered_instance_vacuity_warnings(properties: &mut Vec<Json>)
    ensures
        models(final(properties)@) == Seq::new(
            old(properties)@.len(),
            |k: int| judged_instance(models(old(properties)@), k),
        ),
{
    let ghost before = properties@;
    let mut out: Vec<Json> = Vec::new();
    let mut k: usize = 0;
    while k < properties.len()
        invariant
            properties@ == before,
            k <= properties@.len(),
            out@.len() == k,
            forall|j: int| 0 <= j < k ==> (#[trigger] out@[j])@ == judged_instance(models(before), j),
        decreases properties@.len() - k,
    {
        out.push(judge_instance(properties, k));
        k = k + 1;
    }
    *properties = out;
    assert(models(properties@) =~= Seq::new(
        before.len(),
        |j: int| judged_instance(models(before), j),
    ));
}

// ---------------------------------------------------------------------------
// Goals and the properties and goals they rest on
// ---------------------------------------------------------------------------

/// A goal with what its property says, under the property's marker.
pub open spec fn with_property(goal: JsonView, marker: Seq<char>, property: JsonView) -> JsonView {
    let g = with_flags(
        goal.with("property"@, JsonView::Str(marker)).fill(
            "property_marker"@,
            JsonView::Str(marker),
        ).with(
            "raw_property_status"@,
            JsonView::Str(text_or(raw_status_spec(property), "unknown"@)),
        ).with(
            "normalized_property_status"@,
            JsonView::Str(normalized_or_derived_spec(property)),
        ),
        normalized_or_derived_spec(property),
    );
    let located = fill_value(
        fill_text(
            g,
            "kinstr_marker"@,
            texts_of(property.or_get(property.get("kinstr_marker"@), "kinstr"@)),
        ),
        "source_location"@,
        match property.get("source_location"@) {
            Some(v) => Some(v),
            None => row_location(property),
        },
    );
    let predicated = fill_value(located, "predicate"@, property.get("predicate"@));
    match property.get("origin"@) {
        Some(o) => predicated.with("origin"@, o),
        None => predicated,
    }
}

/// Puts into a goal what its property says.
fn join_property(goal: Json, marker: &str, property: &Json) -> (r: Json)
    ensures
        r@ == with_property(goal@, marker@, property@),
{
    let raw = str_or(raw_status(property), "unknown");
    let normalized = normalized_or_derived(property);
    let mut g = goal.with("property", Json::str(marker)).fill("property_marker", Json::str(marker)).with(
        "raw_property_status",
        Json::str(raw),
    ).with("normalized_property_status", Json::str(normalized.as_str()));
    insert_status_flags(&mut g, normalized.as_str());
    let g = filled_text(
        g,
        "kinstr_marker",
        text_in(property.or_get(property.get("kinstr_marker"), "kinstr")),
    );
    let at = match property.get("source_location") {
        Some(v) => Some(v.copy()),
        None => source_location(property),
    };
    let g = filled_value(g, "source_location", at);
    let predicate = match property.get("predicate") {
        Some(v) => Some(v.copy()),
        None => None,
    };
    let g = filled_value(g, "predicate", predicate);
    match property.get("origin") {
        Some(o) => g.with("origin", o.copy()),
        None => g,
    }
}

/// What is said of a property that a goal rests on.
pub open spec fn hypothesis_row(marker: Seq<char>, property: JsonView) -> JsonView {
    let normalized = normalized_or_derived_spec(property);
    JsonView::object().with("property"@, JsonView::Str(marker)).with(
        "raw_status"@,
        JsonView::Str(text_or(raw_status_spec(property), "unknown"@)),
    ).with("normalized_status"@, JsonView::Str(normalized)).with(
        "counts_as_progress"@,
        JsonView::Bool(counts_as_progress(normalized)),
    ).with("vacuous"@, JsonView::Bool(is_vacuous(normalized))).with(
        "requires_hypotheses"@,
        JsonView::Bool(requires_hypotheses(normalized)),
    )
}

/// What is said of the properties that a goal rests on, as far as they are known.
pub open spec fn hypothesis_rows(deps: Seq<JsonView>, properties: JsonView) -> Seq<JsonView>
    decreases deps.len(),
{
    if deps.len() == 0 {
        Seq::empty()
    } else {
        let rest = hypothesis_rows(deps.drop_last(), properties);
        match dependency(deps.last(), properties) {
            Some(p) => rest.push(hypothesis_row(deps.last().as_text()->0, p)),
            None => rest,
        }
    }
}

/// The row under the marker that a dependency is.
pub open spec fn dependency(dep: JsonView, rows: JsonView) -> Option<JsonView> {
    match dep.as_text() {
        Some(marker) => rows.get(marker),
        None => None,
    }
}

/// Whether a dependency is a known row that does not move a proof forward.
pub open spec fn blocks(dep: JsonView, rows: JsonView) -> bool {
    match dependency(dep, rows) {
        Some(p) => !counts_as_progress(normalized_or_derived_spec(p)),
        None => false,
    }
}

/// Whether some dependency is a known row that does not move a proof forward.
pub open spec fn blocked(deps: Seq<JsonView>, rows: JsonView) -> bool {
    exists|i: int| 0 <= i < deps.len() && blocks(#[trigger] deps[i], rows)
}

/// A goal with the properties that it rests on.
pub open spec fn with_hypotheses(goal: JsonView, properties: JsonView) -> JsonView {
    match goal.list("deps"@) {
        Some(deps) => {
            let rows = hypothesis_rows(deps, properties);
            if rows.len() == 0 {
                goal
            } else if blocked(deps, properties) {
                goal.with("hypotheses"@, JsonView::Array(rows)).with(
                    "counts_as_progress"@,
                    JsonView::Bool(false),
                ).with("requires_hypotheses"@, JsonView::Bool(true)).with(
                    "vacuity_reason"@,
                    JsonView::Str(
                        "The WP goal is proved only under at least one non-progress hypothesis"@,
                    ),
                )
            } else {
                goal.with("hypotheses"@, JsonView::Array(rows))
            }
        },
        None => goal,
    }
}

/// A goal with what its property says, and with the properties that it rests on.
pub open spec fn with_property_status(goal: JsonView, properties: JsonView) -> JsonView {
    let joined = match marker_of(goal) {
        Some(marker) => match properties.get(marker) {
            Some(property) => with_property(goal, marker, property),
            None => goal,
        },
        None => goal,
    };
    with_hypotheses(joined, properties)
}

/// The rows for the properties that a goal rests on, and whether one of them blocks it.
fn hypotheses_of(deps: &Vec<Json>, properties: &Json) -> (r: (Vec<Json>, bool))
    ensures
        models(r.0@) == hypothesis_rows(models(deps@), properties@),
        r.1 == blocked(models(deps@), properties@),
{
    let ghost all = models(deps@);
    let mut rows: Vec<Json> = Vec::new();
    let mut stuck: bool = false;
    let mut i: usize = 0;
    assert(models(rows@) =~= hypothesis_rows(all.subrange(0, 0), properties@));
    while i < deps.len()
        invariant
            i <= deps@.len(),
            all == models(deps@),
            models(rows@) == hypothesis_rows(all.subrange(0, i as int), properties@),
            stuck == exists|k: int| 0 <= k < i && blocks(#[trigger] all[k], properties@),
        decreases deps@.len() - i,
    {
        proof {
            lemma_take_next(all, i as int);
        }
        assert(all[i as int] == deps@[i as int]@);
        let found = match deps[i].as_text() {
            Some(marker) => properties.get(marker),
            None => None,
        };
        match (deps[i].as_text(), found) {
            (Some(marker), Some(property)) => {
                let raw = str_or(raw_status(property), "unknown");
                let normalized = normalized_or_derived(property);
                let progress: bool = status_counts_as_progress(normalized.as_str());
                if !progress {
                    stuck = true;
                }
                let row = Json::object().with("property", Json::str(marker)).with(
                    "raw_status",
                    Json::str(raw),
                ).with("normalized_status", Json::str(normalized.as_str())).with(
                    "counts_as_progress",
                    Json::Bool(progress),
                ).with("vacuous", Json::Bool(status_is_vacuous(normalized.as_str()))).with(
                    "requires_hypotheses",
                    Json::Bool(status_requires_hypotheses(normalized.as_str())),
                );
                proof {
                    lemma_models_push(rows@, row);
                }
                rows.push(row);
            },
            _ => {},
        }
        i = i + 1;
    }
    assert(all.subrange(0, i as int) =~= all);
    (rows, stuck)
}

/// Puts into a goal what its property says, and the properties that it rests on.
pub fn enrich_goal_with_property_status(goal: &mut Json, properties: &Json)
    ensures
        final(goal)@ == with_property_status(old(goal)@, properties@),
{
    let mut me = Json::Null;
    core::mem::swap(goal, &mut me);
    let marker = crate::markers::own_opt(value_marker(&me));
    let joined = match &marker {
        Some(m) => match properties.get(m.as_str()) {
            Some(property) => join_property(me, m.as_str(), property),
            None => me,
        },
        None => me,
    };
    let found = match joined.list("deps") {
        Some(deps) => Some(hypotheses_of(deps, properties)),
        None => None,
    };
    let mut next = match found {
        Some((rows, stuck)) => {
            assert(models(rows@).len() == rows@.len());
            if rows.len() == 0 {
                joined
            } else {
                let g = joined.with("hypotheses", Json::array(rows));
                if stuck {
                    g.with("counts_as_progress", Json::Bool(false)).with(
                        "requires_hypotheses",
                        Json::Bool(true),
                    ).with(
                        "vacuity_reason",
                        Json::str(
                            "The WP goal is proved only under at least one non-progress hypothesis",
                        ),
                    )
                } else {
                    g
                }
            }
        },
        None => joined,
    };
    core::mem::swap(goal, &mut next);
}

/// Whether a goal belongs to the property under a marker.
pub open spec fn covers(goal: JsonView, marker: Seq<char>) -> bool {
    marker_of(goal) == Some(marker) || goal.text("property"@) == Some(marker) || match goal.list(
        "deps"@,
    ) {
        Some(deps) => some_text(deps, marker),
        None => false,
    }
}

/// Whether some value is the given text.
pub open spec fn some_text(values: Seq<JsonView>, t: Seq<char>) -> bool {
    exists|i: int| 0 <= i < values.len() && (#[trigger] values[i]).as_text() == Some(t)
}

/// Whether some value is the given text.
fn any_text(values: &Vec<Json>, t: &str) -> (r: bool)
    ensures
        r == some_text(models(values@), t@),
{
    let ghost all = models(values@);
    let mut i: usize = 0;
    while i < values.len()
        invariant
            i <= values@.len(),
            all == models(values@),
            forall|k: int| 0 <= k < i ==> (#[trigger] all[k]).as_text() != Some(t@),
        decreases values@.len() - i,
    {
        assert(all[i as int] == values@[i as int]@);
        if is_text(values[i].as_text(), t) {
            assert(some_text(all, t@));
            return true;
        }
        i = i + 1;
    }
    false
}

/// Whether a goal belongs to the named property. A goal names its property directly, or reaches
/// it through "deps" when WP split one obligation into several.
pub fn goal_covers_property(goal: &Json, property_marker: &str) -> (r: bool)
    ensures
        r == covers(goal@, property_marker@),
{
    if is_text(value_marker(goal), property_marker) || is_text(
        goal.text("property"),
        property_marker,
    ) {
        return true;
    }
    match goal.list("deps") {
        Some(deps) => any_text(deps, property_marker),
        None => false,
    }
}

/// Whether a goal already lists the property under a marker among its hypotheses.
pub open spec fn already_listed(goal: JsonView, marker: Seq<char>) -> bool {
    match goal.list("hypotheses"@) {
        Some(items) => some_property(items, marker),
        None => false,
    }
}

/// Whether some row names the property under a marker.
pub open spec fn some_property(rows: Seq<JsonView>, marker: Seq<char>) -> bool {
    exists|i: int| 0 <= i < rows.len() && (#[trigger] rows[i]).text("property"@) == Some(marker)
}

/// What is said of a goal that another goal rests on.
pub open spec fn goal_hypothesis_row(marker: Seq<char>, dependency: JsonView) -> JsonView {
    let normalized = normalized_or_derived_spec(dependency);
    JsonView::object().with("source"@, JsonView::Str("wp_goal"@)).with(
        "property"@,
        JsonView::Str(marker),
    ).with("raw_status"@, JsonView::Str(text_or(raw_status_spec(dependency), "unknown"@))).with(
        "normalized_status"@,
        JsonView::Str(normalized),
    ).with("counts_as_progress"@, JsonView::Bool(counts_as_progress(normalized))).with(
        "vacuous"@,
        JsonView::Bool(is_vacuous(normalized)),
    ).with("requires_hypotheses"@, JsonView::Bool(requires_hypotheses(normalized)))
}

/// The goal that a dependency names, where it is known and not listed yet.
pub open spec fn new_dependency(goal: JsonView, dep: JsonView, goals: JsonView) -> Option<JsonView> {
    match dep.as_text() {
        Some(marker) => if already_listed(goal, marker) {
            None
        } else {
            goals.get(marker)
        },
        None => None,
    }
}

/// What is said of the goals that a goal rests on, as far as they are known and not listed yet.
pub open spec fn goal_hypothesis_rows(
    goal: JsonView,
    deps: Seq<JsonView>,
    goals: JsonView,
) -> Seq<JsonView>
    decreases deps.len(),
{
    if deps.len() == 0 {
        Seq::empty()
    } else {
        let rest = goal_hypothesis_rows(goal, deps.drop_last(), goals);
        match new_dependency(goal, deps.last(), goals) {
            Some(d) => rest.push(goal_hypothesis_row(deps.last().as_text()->0, d)),
            None => rest,
        }
    }
}

/// Whether a dependency is a known goal, not listed yet, that does not move a proof forward.
pub open spec fn newly_blocks(goal: JsonView, dep: JsonView, goals: JsonView) -> bool {
    match new_dependency(goal, dep, goals) {
        Some(d) => !counts_as_progress(normalized_or_derived_spec(d)),
        None => false,
    }
}

/// Whether some dependency is a known goal, not listed yet, that does not move a proof forward.
pub open spec fn newly_blocked(goal: JsonView, deps: Seq<JsonView>, goals: JsonView) -> bool {
    exists|i: int| 0 <= i < deps.len() && newly_blocks(goal, #[trigger] deps[i], goals)
}

/// A goal with some hypotheses added behind those it lists.
pub open spec fn with_more_hypotheses(goal: JsonView, rows: Seq<JsonView>) -> JsonView {
    match goal.get("hypotheses"@) {
        Some(JsonView::Array(items)) => goal.with("hypotheses"@, JsonView::Array(items + rows)),
        Some(_) => goal,
        None => goal.with("hypotheses"@, JsonView::Array(rows)),
    }
}

/// A goal with the goals that it rests on.
pub open spec fn with_goal_dependencies(goal: JsonView, goals: JsonView) -> JsonView {
    match goal.list("deps"@) {
        Some(deps) => {
            let rows = goal_hypothesis_rows(goal, deps, goals);
            if rows.len() == 0 {
                goal
            } else {
                let g = with_more_hypotheses(goal, rows);
                if newly_blocked(goal, deps, goals) {
                    g.with("counts_as_progress"@, JsonView::Bool(false)).with(
                        "requires_hypotheses"@,
                        JsonView::Bool(true),
                    ).with("vacuous"@, JsonView::Bool(true)).with(
                        "vacuity_reason"@,
                        JsonView::Str(
                            "The WP goal is proved only under at least one non-progress WP goal dependency"@,
                        ),
                    )
                } else {
                    g
                }
            }
        },
        None => goal,
    }
}

/// Whether a goal already lists the property under a marker among its hypotheses.
fn lists_hypothesis(goal: &Json, marker: &str) -> (r: bool)
    ensures
        r == already_listed(goal@, marker@),
{
    let items = match goal.list("hypotheses") {
        Some(items) => items,
        None => {
            return false;
        },
    };
    let ghost all = models(items@);
    let mut i: usize = 0;
    while i < items.len()
        invariant
            i <= items@.len(),
            all == models(items@),
            goal@.list("hypotheses"@) == Some(all),
            forall|k: int|
                0 <= k < i ==> (#[trigger] all[k]).text("property"@) != Some(marker@),
        decreases items@.len() - i,
    {
        assert(all[i as int] == items@[i as int]@);
        if is_text(items[i].text("property"), marker) {
            assert(some_property(all, marker@));
            return true;
        }
        i = i + 1;
    }
    false
}

/// The rows for the goals that a goal rests on, and whether one of them blocks it.
fn goal_hypotheses_of(goal: &Json, deps: &Vec<Json>, goals: &Json) -> (r: (Vec<Json>, bool))
    ensures
        models(r.0@) == goal_hypothesis_rows(goal@, models(deps@), goals@),
        r.1 == newly_blocked(goal@, models(deps@), goals@),
{
    let ghost all = models(deps@);
    let mut rows: Vec<Json> = Vec::new();
    let mut stuck: bool = false;
    let mut i: usize = 0;
    assert(models(rows@) =~= goal_hypothesis_rows(goal@, all.subrange(0, 0), goals@));
    while i < deps.len()
        invariant
            i <= deps@.len(),
            all == models(deps@),
            models(rows@) == goal_hypothesis_rows(goal@, all.subrange(0, i as int), goals@),
            stuck == exists|k: int| 0 <= k < i && newly_blocks(goal@, #[trigger] all[k], goals@),
        decreases deps@.len() - i,
    {
        proof {
            lemma_take_next(all, i as int);
        }
        assert(all[i as int] == deps@[i as int]@);
        let found = match deps[i].as_text() {
            Some(marker) => if lists_hypothesis(goal, marker) {
                None
            } else {
                goals.get(marker)
            },
            None => None,
        };
        match (deps[i].as_text(), found) {
            (Some(marker), Some(dependency)) => {
                let raw = str_or(raw_status(dependency), "unknown");
                let normalized = normalized_or_derived(dependency);
                let progress: bool = status_counts_as_progress(normalized.as_str());
                if !progress {
                    stuck = true;
                }
                let row = Json::object().with("source", Json::str("wp_goal")).with(
                    "property",
                    Json::str(marker),
                ).with("raw_status", Json::str(raw)).with(
                    "normalized_status",
                    Json::str(normalized.as_str()),
                ).with("counts_as_progress", Json::Bool(progress)).with(
                    "vacuous",
                    Json::Bool(status_is_vacuous(normalized.as_str())),
                ).with(
                    "requires_hypotheses",
                    Json::Bool(status_requires_hypotheses(normalized.as_str())),
                );
                proof {
                    lemma_models_push(rows@, row);
                }
                rows.push(row);
            },
            _ => {},
        }
        i = i + 1;
    }
    assert(all.subrange(0, i as int) =~= all);
    (rows, stuck)
}

/// Copies of some values, with some more behind them.
pub fn copies_and(items: &Vec<Json>, more: Vec<Json>) -> (r: Vec<Json>)
    ensures
        models(r@) == models(items@) + models(more@),
{
    let mut out: Vec<Json> = Vec::new();
    let mut i: usize = 0;
    while i < items.len()
        invariant
            i <= items@.len(),
            models(out@) =~= models(items@).subrange(0, i as int),
        decreases items@.len() - i,
    {
        let c = items[i].copy();
        proof {
            lemma_models_push(out@, c);
        }
        out.push(c);
        i = i + 1;
    }
    let ghost first = out@;
    assert(models(first) =~= models(items@));
    let mut rest = more;
    out.append(&mut rest);
    assert(out@ =~= first + more@);
    assert(models(out@) =~= models(items@) + models(more@));
    out
}

/// Puts into a goal the goals that it rests on.
pub fn enrich_goal_with_goal_dependencies(goal: &mut Json, goals: &Json)
    ensures
        final(goal)@ == with_goal_dependencies(old(goal)@, goals@),
{
    let mut me = Json::Null;
    core::mem::swap(goal, &mut me);
    let found = match me.list("deps") {
        Some(deps) => Some(goal_hypotheses_of(&me, deps, goals)),
        None => None,
    };
    let mut next = match found {
        Some((rows, stuck)) => {
            assert(models(rows@).len() == rows@.len());
            if rows.len() == 0 {
                me
            } else {
                let combined = match me.get("hypotheses") {
                    Some(held) => match held.as_list() {
                        Some(items) => Some(copies_and(items, rows)),
                        None => None,
                    },
                    None => Some(rows),
                };
                let g = match combined {
                    Some(items) => me.with("hypotheses", Json::array(items)),
                    None => me,
                };
                if stuck {
                    g.with("counts_as_progress", Json::Bool(false)).with(
                        "requires_hypotheses",
                        Json::Bool(true),
                    ).with("vacuous", Json::Bool(true)).with(
                        "vacuity_reason",
                        Json::str(
                            "The WP goal is proved only under at least one non-progress WP goal dependency",
                        ),
                    )
                } else {
                    g
                }
            }
        },
        None => me,
    };
    core::mem::swap(goal, &mut next);
}

/// A goal that rests on a property which does not move a proof forward does not move one forward
/// either, whatever its own property says.
pub proof fn law_blocked_goal_is_no_progress(goal: JsonView, properties: JsonView)
    requires
        goal is Object,
        match goal.list("deps"@) {
            Some(deps) => blocked(deps, properties),
            None => false,
        },
    ensures
        with_hypotheses(goal, properties).flag("counts_as_progress"@) == Some(false),
{
    reveal_strlit("counts_as_progress");
    reveal_strlit("requires_hypotheses");
    reveal_strlit("vacuity_reason");
    let deps = goal.list("deps"@)->0;
    lemma_blocked_has_rows(deps, properties);
    let rows = hypothesis_rows(deps, properties);
    let a = goal.with("hypotheses"@, JsonView::Array(rows));
    let b = a.with("counts_as_progress"@, JsonView::Bool(false));
    let c = b.with("requires_hypotheses"@, JsonView::Bool(true));
    assert("counts_as_progress"@.len() == 18 && "requires_hypotheses"@.len() == 19
        && "vacuity_reason"@.len() == 14);
    crate::json::law_with_get(
        a,
        "counts_as_progress"@,
        JsonView::Bool(false),
        "counts_as_progress"@,
    );
    crate::json::law_with_get(
        b,
        "requires_hypotheses"@,
        JsonView::Bool(true),
        "counts_as_progress"@,
    );
    crate::json::law_with_get(
        c,
        "vacuity_reason"@,
        JsonView::Str("The WP goal is proved only under at least one non-progress hypothesis"@),
        "counts_as_progress"@,
    );
}

/// A dependency that blocks is listed.
proof fn lemma_blocked_has_rows(deps: Seq<JsonView>, rows: JsonView)
    requires
        blocked(deps, rows),
    ensures
        hypothesis_rows(deps, rows).len() > 0,
    decreases deps.len(),
{
    let i = choose|i: int| 0 <= i < deps.len() && blocks(#[trigger] deps[i], rows);
    if i < deps.len() - 1 {
        assert(deps.drop_last()[i] == deps[i]);
        lemma_blocked_has_rows(deps.drop_last(), rows);
    }
}

/// Properties, each with its identity and its status.
pub open spec fn identified(rows: Seq<JsonView>) -> Seq<JsonView> {
    rows.map_values(|row: JsonView| with_identity(row))
}

/// Properties, each with its identity and its status.
pub fn identify(rows: &Vec<Json>) -> (r: Vec<Json>)
    ensures
        models(r@) == identified(models(rows@)),
{
    let ghost all = models(rows@);
    let mut out: Vec<Json> = Vec::new();
    let mut i: usize = 0;
    while i < rows.len()
        invariant
            i <= rows@.len(),
            all == models(rows@),
            out@.len() == i,
            forall|k: int| 0 <= k < i ==> (#[trigger] out@[k])@ == with_identity(all[k]),
        decreases rows@.len() - i,
    {
        assert(all[i as int] == rows@[i as int]@);
        let mut row = rows[i].copy();
        add_identity_fields(&mut row);
        out.push(row);
        i = i + 1;
    }
    assert(models(out@) =~= identified(all));
    out
}

/// The properties of a program as they are used: each with its identity and its status, and the
/// instances that cannot be reached with a warning.
pub fn enrich_properties(rows: Vec<Json>) -> (r: Vec<Json>)
    ensures
        models(r@) == Seq::new(
            rows@.len(),
            |k: int| judged_instance(identified(models(rows@)), k),
        ),
{
    let mut out = identify(&rows);
    assert(models(out@).len() == rows@.len());
    add_ordered_instance_vacuity_warnings(&mut out);
    out
}

// ---------------------------------------------------------------------------
// What a goal keeps and what it is given
// ---------------------------------------------------------------------------

/// A row that is given its identity keeps its raw status and is given the normalized one; where it
/// has no status, it is given none.
pub proof fn law_identity_keeps_the_status(row: JsonView)
    ensures
        with_identity(row).get("status"@) == row.get("status"@),
        row.text("status"@) is Some ==> with_identity(row).text("normalized_status"@) == Some(
            normalize(row.text("status"@)->0),
        ),
        row.text("status"@) is Some ==> with_identity(row).text("raw_status"@) == row.text("status"@),
        row.text("status"@) is None ==> with_identity(row).get("normalized_status"@) == row.get(
            "normalized_status"@,
        ),
{
    broadcast use crate::json::group_object_reads;

    reveal_strlit("status");
    reveal_strlit("raw_status");
    reveal_strlit("normalized_status");
    reveal_strlit("counts_as_progress");
    reveal_strlit("vacuous");
    reveal_strlit("requires_hypotheses");
    reveal_strlit("property_marker");
    reveal_strlit("wpo_id");
    reveal_strlit("function_marker");
    reveal_strlit("kinstr_marker");
    reveal_strlit("source_location");
    assert("status"@.len() == 6 && "raw_status"@.len() == 10);
    assert("normalized_status"@.len() == 17 && "counts_as_progress"@.len() == 18);
    assert("vacuous"@.len() == 7 && "requires_hypotheses"@.len() == 19);
    assert("property_marker"@.len() == 15 && "wpo_id"@.len() == 6);
    assert("function_marker"@.len() == 15 && "kinstr_marker"@.len() == 13);
    assert("source_location"@.len() == 15);
    assert("status"@[0] != "wpo_id"@[0]);
    assert("property_marker"@[0] != "function_marker"@[0]);
    assert("property_marker"@[0] != "source_location"@[0]);
    assert("function_marker"@[0] != "source_location"@[0]);
}

/// What is known of the property of a goal does not change the status of the goal itself.
pub proof fn law_a_property_keeps_the_status_of_its_goal(goal: JsonView, properties: JsonView)
    ensures
        with_property_status(goal, properties).get("status"@) == goal.get("status"@),
        with_property_status(goal, properties).get("normalized_status"@) == goal.get(
            "normalized_status"@,
        ),
{
    broadcast use crate::json::group_object_reads;

    reveal_strlit("status");
    reveal_strlit("normalized_status");
    reveal_strlit("property");
    reveal_strlit("property_marker");
    reveal_strlit("raw_property_status");
    reveal_strlit("normalized_property_status");
    reveal_strlit("counts_as_progress");
    reveal_strlit("vacuous");
    reveal_strlit("requires_hypotheses");
    reveal_strlit("kinstr_marker");
    reveal_strlit("source_location");
    reveal_strlit("predicate");
    reveal_strlit("origin");
    reveal_strlit("hypotheses");
    reveal_strlit("vacuity_reason");
    assert("status"@.len() == 6 && "normalized_status"@.len() == 17);
    assert("property"@.len() == 8 && "property_marker"@.len() == 15);
    assert("raw_property_status"@.len() == 19 && "normalized_property_status"@.len() == 26);
    assert("counts_as_progress"@.len() == 18 && "vacuous"@.len() == 7);
    assert("requires_hypotheses"@.len() == 19 && "kinstr_marker"@.len() == 13);
    assert("source_location"@.len() == 15 && "predicate"@.len() == 9);
    assert("origin"@.len() == 6 && "hypotheses"@.len() == 10);
    assert("vacuity_reason"@.len() == 14);
    assert("status"@[0] != "origin"@[0]);
    assert("property_marker"@[0] != "source_location"@[0]);
    assert("raw_property_status"@[1] != "requires_hypotheses"@[1]);
}

/// The status of a goal is the one that was normalized; without it the one of its property; without
/// that the one it was given; and unknown where it has none.
pub proof fn law_the_status_of_a_goal(goal: JsonView, s: Seq<char>)
    ensures
        goal.text("normalized_status"@) == Some(s) ==> goal_status(goal) == s,
        goal.text("normalized_status"@) is None && goal.text("normalized_property_status"@) == Some(s)
            ==> goal_status(goal) == s,
        goal.text("normalized_status"@) is None && goal.text("normalized_property_status"@) is None
            && goal.text("status"@) == Some(s) ==> goal_status(goal) == s,
        goal.text("normalized_status"@) is None && goal.text("normalized_property_status"@) is None
            && goal.text("status"@) is None ==> goal_status(goal) == "unknown"@,
{
}

/// A goal moves a proof forward where its flag says so or, without one, where it is valid.
pub proof fn law_progress_is_flagged_or_valid(goal: JsonView, s: Seq<char>)
    ensures
        goal.flag("counts_as_progress"@) == Some(true) ==> wp_progress(goal),
        goal.flag("counts_as_progress"@) == Some(false) ==> !wp_progress(goal),
        goal.flag("counts_as_progress"@) is None && goal.text("normalized_status"@) == Some("valid"@)
            ==> wp_progress(goal),
        goal.flag("counts_as_progress"@) is None && goal.text("normalized_status"@) == Some(s)
            && normalize(s) != "valid"@ ==> !wp_progress(goal),
{
    crate::status::lemma_plain_verdicts();
}

/// A goal that timed out and then proved has flipped, and only such a one; the report counts them
/// out of those that are still open.
pub proof fn law_a_retry_tells_which_goals_flipped(
    timed_out: Seq<Seq<char>>,
    goals: Seq<JsonView>,
    goal: JsonView,
    id: Seq<char>,
    first: int,
    retry: int,
)
    requires
        goal.text("wpo_id"@) == Some(id),
    ensures
        ({
            let all = goals.push(goal);
            let valid = goal.text("normalized_status"@) == Some("valid"@);
            &&& valid && timed_out.contains(id) ==> flipped_rows(all, timed_out).len()
                == flipped_rows(goals, timed_out).len() + 1 && flipped_rows(
                all,
                timed_out,
            ).last().text("wpo_id"@) == Some(id)
            &&& !timed_out.contains(id) ==> flipped_rows(all, timed_out) == flipped_rows(
                goals,
                timed_out,
            )
            &&& goal.text("normalized_status"@) == Some("unknown"@) ==> flipped_rows(all, timed_out)
                == flipped_rows(goals, timed_out)
            &&& goal.text("normalized_status"@) == Some("timeout"@) ==> flipped_rows(all, timed_out)
                == flipped_rows(goals, timed_out)
        }),
        ({
            let r = retry_report(timed_out, goals, first, retry);
            let n = flipped_rows(goals, timed_out).len();
            &&& r.get("flipped"@) == Some(JsonView::Array(flipped_rows(goals, timed_out)))
            &&& r.get("timed_out_first_pass"@) == Some(JsonView::num(timed_out.len() as int))
            &&& n <= timed_out.len() ==> r.get("still_unproved"@) == Some(
                JsonView::num(timed_out.len() - n),
            )
            &&& r.at("timeout_seconds"@, "first_pass"@) == Some(JsonView::num(first))
            &&& r.at("timeout_seconds"@, "retry"@) == Some(JsonView::num(retry))
            &&& r.flag("attempted"@) == Some(true)
        }),
{
    broadcast use crate::json::group_object_reads;

    reveal_strlit("attempted");
    reveal_strlit("timeout_seconds");
    reveal_strlit("timed_out_first_pass");
    reveal_strlit("still_unproved");
    reveal_strlit("flipped");
    assert("attempted"@.len() == 9 && "timeout_seconds"@.len() == 15);
    assert("timed_out_first_pass"@.len() == 20 && "still_unproved"@.len() == 14);
    assert("flipped"@.len() == 7);
    reveal_strlit("first_pass");
    reveal_strlit("retry");
    assert("first_pass"@.len() == 10 && "retry"@.len() == 5);
    reveal_strlit("wpo_id");
    reveal_strlit("name");
    reveal_strlit("property");
    assert("wpo_id"@.len() == 6 && "name"@.len() == 4);
    assert("property"@.len() == 8);
    reveal_strlit("valid");
    reveal_strlit("unknown");
    reveal_strlit("timeout");
    assert("valid"@.len() == 5 && "unknown"@.len() == 7);
    assert("timeout"@.len() == 7);
    assert("unknown"@[0] != "timeout"@[0]);
    crate::status::lemma_plain_verdicts();
    assert(goals.push(goal).drop_last() =~= goals);
}

/// A row is given what identifies it under one name each, where it does not have it already: its
/// marker, its identity, its function, its statement and its place.
pub proof fn law_rows_are_given_their_identity(
    row: JsonView,
    marker: Seq<char>,
    wpo: Seq<char>,
    scope: Seq<char>,
    kinstr: Seq<char>,
    place: JsonView,
)
    requires
        row is Object,
        row.get("status"@) is None,
        row.text("key"@) == Some(marker),
        row.text("wpo"@) == Some(wpo),
        row.get("wpo_id"@) is None,
        row.text("scope"@) == Some(scope),
        row.text("kinstr"@) == Some(kinstr),
        row.get("source"@) == Some(place),
        place is Object,
        row.get("property_marker"@) is None,
        row.get("function_marker"@) is None,
        row.get("kinstr_marker"@) is None,
        row.get("source_location"@) is None,
    ensures
        with_identity(row).text("property_marker"@) == Some(marker),
        with_identity(row).text("wpo_id"@) == Some(wpo),
        with_identity(row).text("function_marker"@) == Some(scope),
        with_identity(row).text("kinstr_marker"@) == Some(kinstr),
        with_identity(row).get("source_location"@) == Some(place),
{
    broadcast use crate::json::group_object_reads;

    reveal_strlit("property_marker");
    reveal_strlit("wpo_id");
    reveal_strlit("function_marker");
    reveal_strlit("kinstr_marker");
    reveal_strlit("source_location");
    assert("property_marker"@.len() == 15 && "wpo_id"@.len() == 6);
    assert("function_marker"@.len() == 15 && "kinstr_marker"@.len() == 13);
    assert("source_location"@.len() == 15);
    assert("property_marker"@[0] != "function_marker"@[0]);
    assert("property_marker"@[0] != "source_location"@[0]);
    assert("function_marker"@[0] != "source_location"@[0]);
}

proof fn lemma_map_is_an_object(properties: Seq<JsonView>)
    ensures
        properties_by_marker(properties) is Object,
    decreases properties.len(),
{
    if properties.len() > 0 {
        lemma_map_is_an_object(properties.drop_last());
    }
}

/// A property is found under its marker, and the last of two under one marker counts.
pub proof fn law_properties_are_found_by_their_marker(
    properties: Seq<JsonView>,
    property: JsonView,
    marker: Seq<char>,
    other: Seq<char>,
)
    requires
        property.text("key"@) == Some(marker),
    ensures
        properties_by_marker(properties.push(property)).get(marker) == Some(property),
        other != marker ==> properties_by_marker(properties.push(property)).get(other)
            == properties_by_marker(properties).get(other),
{
    broadcast use crate::json::group_object_reads;

    lemma_map_is_an_object(properties);
    assert(properties.push(property).drop_last() =~= properties);
}

/// A goal is given the status of its property, raw and normalized, with the flags that follow; its
/// progress is then that of the property.
pub proof fn law_a_goal_is_given_the_status_of_its_property(
    goal: JsonView,
    marker: Seq<char>,
    property: JsonView,
    raw: Seq<char>,
    s: Seq<char>,
)
    requires
        goal is Object,
        property.text("raw_status"@) == Some(raw),
        property.text("normalized_status"@) == Some(s),
    ensures
        ({
            let g = with_property(goal, marker, property);
            &&& g.text("property"@) == Some(marker)
            &&& g.text("raw_property_status"@) == Some(raw)
            &&& g.text("normalized_property_status"@) == Some(s)
            &&& s == "valid"@ ==> g.flag("counts_as_progress"@) == Some(true)
            &&& s != "valid"@ ==> g.flag("counts_as_progress"@) == Some(false)
            &&& s == "valid_under_hyp"@ ==> g.flag("requires_hypotheses"@) == Some(true)
            &&& property.get("origin"@) is Some ==> g.get("origin"@) == property.get("origin"@)
            &&& goal.get("predicate"@) is None && property.get("predicate"@) is Some ==> g.get(
                "predicate"@,
            ) == property.get("predicate"@)
        }),
{
    broadcast use crate::json::group_object_reads;

    reveal_strlit("property");
    reveal_strlit("property_marker");
    reveal_strlit("raw_property_status");
    reveal_strlit("normalized_property_status");
    reveal_strlit("counts_as_progress");
    reveal_strlit("vacuous");
    reveal_strlit("requires_hypotheses");
    reveal_strlit("kinstr_marker");
    reveal_strlit("source_location");
    reveal_strlit("predicate");
    reveal_strlit("origin");
    assert("property"@.len() == 8 && "property_marker"@.len() == 15);
    assert("raw_property_status"@.len() == 19 && "normalized_property_status"@.len() == 26);
    assert("counts_as_progress"@.len() == 18 && "vacuous"@.len() == 7);
    assert("requires_hypotheses"@.len() == 19 && "kinstr_marker"@.len() == 13);
    assert("source_location"@.len() == 15 && "predicate"@.len() == 9);
    assert("origin"@.len() == 6);
    assert("property_marker"@[0] != "source_location"@[0]);
    assert("raw_property_status"@[1] != "requires_hypotheses"@[1]);
    reveal_strlit("valid");
    reveal_strlit("valid_under_hyp");
    assert("valid"@.len() == 5 && "valid_under_hyp"@.len() == 15);
}

/// A goal that rests on a property that did not prove is no progress, names its hypotheses, and
/// says why; one whose hypotheses all proved keeps its progress.
pub proof fn law_an_open_hypothesis_takes_the_progress_away(
    goal: JsonView,
    deps: Seq<JsonView>,
    properties: JsonView,
    i: int,
    marker: Seq<char>,
    property: JsonView,
    s: Seq<char>,
)
    requires
        goal is Object,
        goal.list("deps"@) == Some(deps),
        0 <= i < deps.len(),
        deps[i] == JsonView::Str(marker),
        properties.get(marker) == Some(property),
        property.text("normalized_status"@) == Some(s),
        s != "valid"@,
    ensures
        with_hypotheses(goal, properties).flag("counts_as_progress"@) == Some(false),
        with_hypotheses(goal, properties).flag("requires_hypotheses"@) == Some(true),
        with_hypotheses(goal, properties).get("hypotheses"@) is Some,
        with_hypotheses(goal, properties).get("vacuity_reason"@) is Some,
{
    broadcast use crate::json::group_object_reads;

    reveal_strlit("hypotheses");
    reveal_strlit("counts_as_progress");
    reveal_strlit("requires_hypotheses");
    reveal_strlit("vacuity_reason");
    assert("hypotheses"@.len() == 10 && "counts_as_progress"@.len() == 18);
    assert("requires_hypotheses"@.len() == 19 && "vacuity_reason"@.len() == 14);
    assert(blocks(deps[i], properties));
    lemma_rows_of_dependencies(deps, properties, i);
}

proof fn lemma_rows_of_dependencies(deps: Seq<JsonView>, properties: JsonView, i: int)
    requires
        0 <= i < deps.len(),
        dependency(deps[i], properties) is Some,
    ensures
        hypothesis_rows(deps, properties).len() > 0,
    decreases deps.len(),
{
    if i < deps.len() - 1 {
        assert(deps.drop_last()[i] == deps[i]);
        lemma_rows_of_dependencies(deps.drop_last(), properties, i);
    }
}

/// A goal whose dependencies are all valid keeps its flags.
pub proof fn law_proved_hypotheses_take_nothing_away(
    goal: JsonView,
    deps: Seq<JsonView>,
    properties: JsonView,
    key: Seq<char>,
)
    requires
        goal is Object,
        goal.list("deps"@) == Some(deps),
        forall|k: int|
            0 <= k < deps.len() ==> match dependency(#[trigger] deps[k], properties) {
                Some(p) => p.text("normalized_status"@) == Some("valid"@),
                None => true,
            },
        key != "hypotheses"@,
    ensures
        with_hypotheses(goal, properties).get(key) == goal.get(key),
{
    broadcast use crate::json::group_object_reads;

    assert(!blocked(deps, properties)) by {
        if blocked(deps, properties) {
            let k = choose|k: int| 0 <= k < deps.len() && blocks(#[trigger] deps[k], properties);
            assert(blocks(deps[k], properties));
        }
    }
}

/// A hypothesis is listed under its marker with its status and what that status counts for.
pub proof fn law_a_hypothesis_is_listed_with_its_status(
    marker: Seq<char>,
    property: JsonView,
    raw: Seq<char>,
    s: Seq<char>,
)
    requires
        property.text("raw_status"@) == Some(raw),
        property.text("normalized_status"@) == Some(s),
    ensures
        ({
            let h = hypothesis_row(marker, property);
            let g = goal_hypothesis_row(marker, property);
            &&& h.text("property"@) == Some(marker) && g.text("property"@) == Some(marker)
            &&& h.text("raw_status"@) == Some(raw) && g.text("raw_status"@) == Some(raw)
            &&& h.text("normalized_status"@) == Some(s) && g.text("normalized_status"@) == Some(s)
            &&& h.flag("counts_as_progress"@) == Some(s == "valid"@)
            &&& g.flag("counts_as_progress"@) == Some(s == "valid"@)
            &&& g.text("source"@) == Some("wp_goal"@)
        }),
{
    broadcast use crate::json::group_object_reads;

    reveal_strlit("property");
    reveal_strlit("raw_status");
    reveal_strlit("normalized_status");
    reveal_strlit("counts_as_progress");
    reveal_strlit("vacuous");
    reveal_strlit("requires_hypotheses");
    reveal_strlit("source");
    assert("property"@.len() == 8 && "raw_status"@.len() == 10);
    assert("normalized_status"@.len() == 17 && "counts_as_progress"@.len() == 18);
    assert("vacuous"@.len() == 7 && "requires_hypotheses"@.len() == 19);
    assert("source"@.len() == 6);
}

/// A goal that rests on another goal that did not prove is vacuous and no progress.
pub proof fn law_an_open_goal_takes_the_progress_away(
    goal: JsonView,
    deps: Seq<JsonView>,
    goals: JsonView,
    i: int,
    marker: Seq<char>,
    other: JsonView,
    s: Seq<char>,
)
    requires
        goal is Object,
        goal.list("deps"@) == Some(deps),
        goal.get("hypotheses"@) is None,
        0 <= i < deps.len(),
        deps[i] == JsonView::Str(marker),
        goals.get(marker) == Some(other),
        other.text("normalized_status"@) == Some(s),
        s != "valid"@,
    ensures
        with_goal_dependencies(goal, goals).flag("counts_as_progress"@) == Some(false),
        with_goal_dependencies(goal, goals).flag("vacuous"@) == Some(true),
        with_goal_dependencies(goal, goals).flag("requires_hypotheses"@) == Some(true),
        with_goal_dependencies(goal, goals).get("hypotheses"@) is Some,
{
    broadcast use crate::json::group_object_reads;

    reveal_strlit("hypotheses");
    reveal_strlit("counts_as_progress");
    reveal_strlit("requires_hypotheses");
    reveal_strlit("vacuous");
    reveal_strlit("vacuity_reason");
    assert("hypotheses"@.len() == 10 && "counts_as_progress"@.len() == 18);
    assert("requires_hypotheses"@.len() == 19 && "vacuous"@.len() == 7);
    assert("vacuity_reason"@.len() == 14);
    assert(newly_blocks(goal, deps[i], goals));
    lemma_rows_of_goals(goal, deps, goals, i);
}

proof fn lemma_rows_of_goals(goal: JsonView, deps: Seq<JsonView>, goals: JsonView, i: int)
    requires
        0 <= i < deps.len(),
        new_dependency(goal, deps[i], goals) is Some,
    ensures
        goal_hypothesis_rows(goal, deps, goals).len() > 0,
    decreases deps.len(),
{
    if i < deps.len() - 1 {
        assert(deps.drop_last()[i] == deps[i]);
        lemma_rows_of_goals(goal, deps.drop_last(), goals, i);
    }
}

/// A goal covers a property that it is about and one that it rests on.
pub proof fn law_a_goal_covers_what_it_is_about(
    goal: JsonView,
    marker: Seq<char>,
    deps: Seq<JsonView>,
    i: int,
)
    ensures
        goal.text("key"@) == Some(marker) ==> covers(goal, marker),
        goal.text("property"@) == Some(marker) ==> covers(goal, marker),
        goal.list("deps"@) == Some(deps) && 0 <= i < deps.len() && deps[i] == JsonView::Str(marker)
            ==> covers(goal, marker),
        goal.get("key"@) is None && goal.get("property"@) is None && goal.get("prop"@) is None
            && goal.get("marker"@) is None && goal.get("id"@) is None && goal.get("deps"@) is None
            ==> !covers(goal, marker),
{
    if goal.list("deps"@) == Some(deps) && 0 <= i < deps.len() && deps[i] == JsonView::Str(marker) {
        assert(deps[i].as_text() == Some(marker));
    }
}

/// A later valid instance of a property whose earlier instance in the same function did not prove is
/// doubted: it is vacuous, no progress, and names the instance that casts the doubt.
pub proof fn law_a_failed_instance_casts_doubt_on_later_ones(
    properties: Seq<JsonView>,
    f: int,
    k: int,
    scope: Seq<char>,
    predicate: Seq<char>,
    failed_line: int,
    line: int,
    status: Seq<char>,
)
    requires
        0 <= f < properties.len(),
        0 <= k < properties.len(),
        properties[k] is Object,
        properties[f].text("kind"@) == Some("instance"@),
        properties[k].text("kind"@) == Some("instance"@),
        properties[f].text("scope"@) == Some(scope),
        properties[k].text("scope"@) == Some(scope),
        properties[f].text("predicate"@) == Some(predicate),
        properties[k].text("predicate"@) == Some(predicate),
        source_line(properties[f]) == Some(failed_line),
        source_line(properties[k]) == Some(line),
        failed_line < line,
        properties[f].text("normalized_status"@) == Some(status),
        status != "valid"@,
        properties[k].text("normalized_status"@) == Some("valid"@),
        forall|g: int|
            0 <= g < properties.len() && g != f && (#[trigger] properties[g]).text("kind"@) == Some(
                "instance"@,
            ) ==> properties[g].text("normalized_status"@) == Some("valid"@),
    ensures
        ({
            let j = judged_instance(properties, k);
            &&& j.flag("vacuous"@) == Some(true)
            &&& j.flag("counts_as_progress"@) == Some(false)
            &&& j.flag("requires_hypotheses"@) == Some(true)
            &&& j.text("normalized_status"@) == Some("valid_under_false_hypothesis"@)
            &&& j.at("vacuity_dependency"@, "line"@) == Some(JsonView::num(failed_line))
            &&& j.at("vacuity_dependency"@, "status"@) == Some(JsonView::Str(status))
        }),
        judged_instance(properties, f) == properties[f],
{
    broadcast use crate::json::group_object_reads;

    reveal_strlit("vacuous");
    reveal_strlit("counts_as_progress");
    reveal_strlit("requires_hypotheses");
    reveal_strlit("normalized_status");
    reveal_strlit("vacuity_reason");
    reveal_strlit("vacuity_dependency");
    assert("vacuous"@.len() == 7 && "counts_as_progress"@.len() == 18);
    assert("requires_hypotheses"@.len() == 19 && "normalized_status"@.len() == 17);
    assert("vacuity_reason"@.len() == 14 && "vacuity_dependency"@.len() == 18);
    assert("counts_as_progress"@[0] != "vacuity_dependency"@[0]);
    reveal_strlit("property");
    reveal_strlit("status");
    reveal_strlit("line");
    assert("property"@.len() == 8 && "status"@.len() == 6);
    assert("line"@.len() == 4);
    let key = (scope, predicate);
    assert(failed_instance(properties, key, f));
    assert forall|g: int| #[trigger] failed_instance(properties, key, g) implies g == f by {
        if g != f {
            assert(properties[g].text("kind"@) == Some("instance"@));
        }
    }
    assert(first_failed(properties, key, f));
    assert(casts_doubt(properties, k, f));
    let c = choose|c: int| casts_doubt(properties, k, c);
    assert(failed_instance(properties, key, c));
    assert(c == f);
    if exists|g: int| casts_doubt(properties, f, g) {
        let g = choose|g: int| casts_doubt(properties, f, g);
        assert(counts_as_progress(instance_status(properties[f])));
    }
}

/// Without an instance that did not prove, nothing is doubted.
pub proof fn law_proved_instances_are_left(properties: Seq<JsonView>, k: int)
    requires
        0 <= k < properties.len(),
        forall|g: int|
            0 <= g < properties.len() ==> (#[trigger] properties[g]).text("kind"@) != Some(
                "instance"@,
            ) || properties[g].text("normalized_status"@) == Some("valid"@),
    ensures
        judged_instance(properties, k) == properties[k],
{
    if exists|f: int| casts_doubt(properties, k, f) {
        let f = choose|f: int| casts_doubt(properties, k, f);
        assert(failed_instance(properties, vacuity_key(properties[k])->0, f));
        assert(properties[f].text("kind"@) != Some("instance"@) || properties[f].text(
            "normalized_status"@,
        ) == Some("valid"@));
    }
}

/// The place of a row is its source where that is an object, else its short location.
pub proof fn law_the_place_of_a_row(row: JsonView, s: Seq<(Seq<char>, JsonView)>)
    ensures
        row.get("source"@) == Some(JsonView::Object(s)) ==> row_location(row) == Some(
            JsonView::Object(s),
        ),
        row.get("source"@) is None && row.get("loc"@) == Some(JsonView::Object(s)) ==> row_location(
            row,
        ) == Some(JsonView::Object(s)),
        row.get("source"@) is None && row.get("loc"@) is None ==> row_location(row) is None,
{
}

/// An instance of a requirement is told by the function it is called in and its predicate; other
/// properties are no instances.
pub proof fn law_an_instance_is_told_by_its_caller(
    property: JsonView,
    scope: Seq<char>,
    predicate: Seq<char>,
)
    ensures
        property.text("kind"@) == Some("instance"@) && property.text("scope"@) == Some(scope)
            && property.text("predicate"@) == Some(predicate) ==> vacuity_key(property) == Some(
            (scope, predicate),
        ),
        property.text("kind"@) != Some("instance"@) ==> vacuity_key(property) is None,
        property.text("scope"@) is None ==> vacuity_key(property) is None,
{
}

/// A goal that flipped is told by its identity, its name and its property.
pub proof fn law_a_flipped_goal_is_told(goal: JsonView)
    ensures
        flipped_row(goal).get("wpo_id"@) == Some(JsonView::opt_text(goal_identity(goal))),
        flipped_row(goal).get("name"@) == Some(JsonView::or_null(goal.get("name"@))),
        flipped_row(goal).get("property"@) == Some(JsonView::or_null(goal.get("property"@))),
{
    broadcast use crate::json::group_object_reads;

    reveal_strlit("wpo_id");
    reveal_strlit("name");
    reveal_strlit("property");
    assert("wpo_id"@.len() == 6 && "name"@.len() == 4);
    assert("property"@.len() == 8);
}

/// Hypotheses that are added stand behind those that are there, and one that is listed is not listed
/// again.
pub proof fn law_hypotheses_are_added_behind(
    goal: JsonView,
    items: Seq<JsonView>,
    rows: Seq<JsonView>,
    marker: Seq<char>,
    goals: JsonView,
    i: int,
)
    requires
        goal is Object,
    ensures
        goal.get("hypotheses"@) == Some(JsonView::Array(items)) ==> with_more_hypotheses(
            goal,
            rows,
        ).get("hypotheses"@) == Some(JsonView::Array(items + rows)),
        goal.get("hypotheses"@) is None ==> with_more_hypotheses(goal, rows).get("hypotheses"@)
            == Some(JsonView::Array(rows)),
        goal.get("hypotheses"@) == Some(JsonView::Array(items)) && 0 <= i < items.len()
            && items[i].text("property"@) == Some(marker) ==> new_dependency(
            goal,
            JsonView::Str(marker),
            goals,
        ) is None,
        goal.get("hypotheses"@) is None ==> new_dependency(goal, JsonView::Str(marker), goals)
            == goals.get(marker),
{
    broadcast use crate::json::group_object_reads;

}

} // verus!
