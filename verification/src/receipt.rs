//! Proof receipts: what a run proved, under which environment, in a form two runs can be compared
//! by.
//!
//! A receipt pins the hashes of the sources, the environment, the settings and the status of every
//! goal, and hashes all of it, so that two runs are comparable exactly when their hashes match.

use crate::alarms::{copy_or_false, or_false};
use crate::goals::{
    add_identity_fields, enrich_goal_with_property_status, with_identity, with_property_status,
};
use crate::json::{
    collected, drop_entry, entries, entry_at, keys_differ, law_with_get, law_without_get, lemma_array_view,
    lemma_entry_at, lemma_object_view, lemma_take_next, models, opt_json, put_entry, well_keyed,
    Json, JsonView,
};
use crate::labels::{all_hex, random_hex, strip_generated_label, unlabelled};
use crate::order::{
    insert_sorted, is_order, keys, law_sort_by, law_sorted_keyed, law_sorted_unique, law_text_order,
    lemma_map_alike, lemma_place_is, lemma_sorted_alike, lemma_strictly_sorted_alike, lt,
    place_behind, sort_by, sort_unique, sorted_by, sorted_keyed, sorted_unique, text_lt, text_order,
};
use crate::outside::{json_text, regex_replaced, replace_matches, sha256};
use crate::paths::{is_name, joined, law_the_last_steps_name_a_path, name_from_end, path_name};
use crate::stable::{
    classify_wp_goal, enrich_goal_stable_id, hex, law_hexadecimal_tells_bytes_apart, prefix,
    prefix_text, sha256_hex, sha256_hex_of, with_stable_id, wp_goal_class,
};
use crate::status::{normalize, own_status, own_status_spec};
use crate::text::{
    begins, cat2, join, join_spec, opt_string, opt_text, owned, same, starts_with, texts,
};
use vstd::prelude::*;
use vstd::string::*;
use vstd::utf8::*;

verus! {

// ---------------------------------------------------------------------------
// Sources
// ---------------------------------------------------------------------------

/// What a receipt calls a source file.
pub open spec fn source_path(file: Seq<char>, scratch_prefix: Seq<char>) -> Seq<char> {
    match (name_from_end(file, 1), name_from_end(file, 0)) {
        (Some(dir), Some(name)) => if begins(dir, scratch_prefix) {
            name
        } else {
            file
        },
        _ => file,
    }
}

/// What a receipt calls a source file: its own path, except for a scratch copy, whose directory is
/// chosen fresh on every call and is no part of what was proved. The second argument is what the
/// names of such directories start with.
pub fn receipt_source_path(file: &str, scratch_prefix: &str) -> (r: String)
    ensures
        r@ == source_path(file@, scratch_prefix@),
{
    match path_name(file, 1) {
        Some(dir) => match path_name(file, 0) {
            Some(name) => {
                if starts_with(dir.as_str(), scratch_prefix) {
                    name
                } else {
                    owned(file)
                }
            },
            None => owned(file),
        },
        None => owned(file),
    }
}

/// What came of reading a source file.
pub enum SourceRead {
    Bytes(Vec<u8>),
    Failed(String),
}

/// What a receipt says of a source file.
pub open spec fn source_row(path: Seq<char>, read: SourceRead) -> JsonView {
    let row = JsonView::object().with("path"@, JsonView::Str(path));
    match read {
        SourceRead::Bytes(bytes) => row.with("sha256"@, JsonView::Str(sha256_hex_of(bytes@))),
        SourceRead::Failed(error) => row.with("sha256"@, JsonView::Null).with(
            "error"@,
            JsonView::Str(error@),
        ),
    }
}

/// The source files of a receipt, each with its path.
pub open spec fn source_rows(files: Seq<(String, SourceRead)>, scratch_prefix: Seq<char>) -> Seq<
    (Seq<char>, JsonView),
> {
    files.map_values(
        |f: (String, SourceRead)|
            (
                source_path(f.0@, scratch_prefix),
                source_row(source_path(f.0@, scratch_prefix), f.1),
            ),
    )
}

/// What a receipt says of its source files, in the order of their paths.
pub open spec fn receipt_sources(files: Seq<(String, SourceRead)>, scratch_prefix: Seq<char>) -> Seq<
    JsonView,
> {
    sorted_keyed(source_rows(files, scratch_prefix)).map_values(|e: (Seq<char>, JsonView)| e.1)
}

/// Values by their keys, as views.
pub open spec fn keyed_views(v: Seq<(String, Json)>) -> Seq<(Seq<char>, JsonView)> {
    v.map_values(|e: (String, Json)| (e.0@, e.1@))
}

/// What a receipt says of its source files, in the order of their paths.
pub fn proof_receipt_source_files(files: &Vec<(String, SourceRead)>, scratch_prefix: &str) -> (r:
    Vec<Json>)
    ensures
        models(r@) == receipt_sources(files@, scratch_prefix@),
{
    let ghost all = source_rows(files@, scratch_prefix@);
    let mut rows: Vec<(String, Json)> = Vec::new();
    let mut i: usize = 0;
    assert(keyed_views(rows@) =~= Seq::empty());
    assert(all.subrange(0, 0) =~= Seq::empty());
    while i < files.len()
        invariant
            i <= files@.len(),
            all == source_rows(files@, scratch_prefix@),
            keyed_views(rows@) == sorted_keyed(all.subrange(0, i as int)),
        decreases files@.len() - i,
    {
        proof {
            lemma_take_next(all, i as int);
        }
        let (file, read) = &files[i];
        let path = receipt_source_path(file.as_str(), scratch_prefix);
        let row = Json::object().with("path", Json::str(path.as_str()));
        let row = match read {
            SourceRead::Bytes(bytes) => row.with(
                "sha256",
                Json::Str(sha256_hex(bytes.as_slice())),
            ),
            SourceRead::Failed(error) => row.with("sha256", Json::Null).with(
                "error",
                Json::str(error.as_str()),
            ),
        };
        assert(all[i as int] == (path@, row@));
        let ghost before = keyed_views(rows@);
        let at = place_behind(&rows, path.as_str());
        assert(keys(rows@) =~= before.map_values(|e: (Seq<char>, JsonView)| e.0));
        let ghost added = (path@, row@);
        rows.insert(at, (path, row));
        assert(keyed_views(rows@) =~= before.insert(at as int, added));
        i = i + 1;
    }
    assert(all.subrange(0, i as int) =~= all);
    let ghost done = keyed_views(rows@);
    let mut out: Vec<Json> = Vec::new();
    let mut k: usize = 0;
    while k < rows.len()
        invariant
            k <= rows@.len(),
            done == keyed_views(rows@),
            out@.len() == k,
            forall|j: int| 0 <= j < k ==> (#[trigger] out@[j])@ == done[j].1,
        decreases rows@.len() - k,
    {
        out.push(rows[k].1.copy());
        k = k + 1;
    }
    assert(models(out@) =~= done.map_values(|e: (Seq<char>, JsonView)| e.1));
    out
}

// ---------------------------------------------------------------------------
// Goals
// ---------------------------------------------------------------------------

/// A goal as a receipt identifies it. A label comes before the name because a labelled goal is
/// named by its label.
pub open spec fn identified(
    goal: JsonView,
    stable_scope: Option<Seq<char>>,
    properties: JsonView,
) -> JsonView {
    let g = with_property_status(with_identity(goal), properties);
    let (kind, label) = wp_goal_class(g);
    let labelled = match label {
        Some(l) => g.fill("hash_label"@, JsonView::Str(l)),
        None => g,
    };
    with_stable_id(labelled, kind, stable_scope)
}

/// What a receipt says of a goal. A replayed proof was not made by the run that claims it, so
/// whether it was replayed is part of what identifies a run.
pub open spec fn goal_row(
    goal: JsonView,
    stable_scope: Option<Seq<char>>,
    properties: JsonView,
) -> JsonView {
    let g = identified(goal, stable_scope, properties);
    JsonView::object().with("stable_goal_id"@, JsonView::or_null(g.get("stable_goal_id"@))).with(
        "status"@,
        JsonView::opt_text(own_status_spec(g)),
    ).with("from_cache"@, or_false(g.get("from_cache"@)))
}

/// Whether one optional text comes before another: nothing comes first.
pub open spec fn opt_lt(a: Option<Seq<char>>, b: Option<Seq<char>>) -> bool {
    match (a, b) {
        (None, Some(_)) => true,
        (Some(x), Some(y)) => text_lt(x, y),
        _ => false,
    }
}

/// Whether one goal of a receipt comes before another: by its name, and then by its status.
pub open spec fn goal_before(a: JsonView, b: JsonView) -> bool {
    let (i, j) = (a.text("stable_goal_id"@), b.text("stable_goal_id"@));
    opt_lt(i, j) || (i == j && opt_lt(a.text("status"@), b.text("status"@)))
}

/// The order of the goals of a receipt, as a relation.
pub open spec fn goal_order() -> spec_fn(JsonView, JsonView) -> bool {
    |a: JsonView, b: JsonView| goal_before(a, b)
}

/// The goals of a receipt, in order.
pub open spec fn receipt_goals(
    goals: Seq<JsonView>,
    stable_scope: Option<Seq<char>>,
    properties: JsonView,
) -> Seq<JsonView> {
    sort_by(goals.map_values(|g: JsonView| goal_row(g, stable_scope, properties)), goal_order())
}

fn optional_before(a: Option<&str>, b: Option<&str>) -> (r: bool)
    ensures
        r == opt_lt(opt_text(a), opt_text(b)),
{
    match (a, b) {
        (None, Some(_)) => true,
        (Some(x), Some(y)) => lt(x, y),
        _ => false,
    }
}

fn same_optional(a: Option<&str>, b: Option<&str>) -> (r: bool)
    ensures
        r == (opt_text(a) == opt_text(b)),
{
    match (a, b) {
        (None, None) => true,
        (Some(x), Some(y)) => same(x, y),
        _ => false,
    }
}

fn goal_comes_before(a: &Json, b: &Json) -> (r: bool)
    ensures
        r == goal_before(a@, b@),
{
    let (i, j) = (a.text("stable_goal_id"), b.text("stable_goal_id"));
    optional_before(i, j) || (same_optional(i, j) && optional_before(
        a.text("status"),
        b.text("status"),
    ))
}

/// What a receipt says of one goal. `properties` holds the properties by their markers: the name
/// of a goal digests a predicate that only they carry.
pub fn receipt_goal(goal: &Json, stable_scope: Option<&str>, properties: &Json) -> (r: Json)
    ensures
        r@ == goal_row(goal@, opt_text(stable_scope), properties@),
{
    let mut g = goal.copy();
    add_identity_fields(&mut g);
    enrich_goal_with_property_status(&mut g, properties);
    let (kind, label) = classify_wp_goal(&g);
    let mut g = match label {
        Some(l) => g.fill("hash_label", Json::Str(l)),
        None => g,
    };
    enrich_goal_stable_id(&mut g, kind.as_str(), stable_scope);
    Json::object().with("stable_goal_id", Json::or_null(g.get("stable_goal_id"))).with(
        "status",
        Json::opt_str(own_status(&g)),
    ).with("from_cache", copy_or_false(g.get("from_cache")))
}

/// What a receipt says of its goals, in order.
pub fn proof_receipt_goals(goals: &Vec<Json>, stable_scope: Option<&str>, properties: &Json) -> (r:
    Vec<Json>)
    ensures
        models(r@) == receipt_goals(models(goals@), opt_text(stable_scope), properties@),
{
    let ghost all = models(goals@).map_values(
        |g: JsonView| goal_row(g, opt_text(stable_scope), properties@),
    );
    let mut out: Vec<Json> = Vec::new();
    let mut i: usize = 0;
    assert(models(out@) =~= Seq::empty());
    assert(all.subrange(0, 0) =~= Seq::empty());
    while i < goals.len()
        invariant
            i <= goals@.len(),
            all == models(goals@).map_values(
                |g: JsonView| goal_row(g, opt_text(stable_scope), properties@),
            ),
            models(out@) == sort_by(all.subrange(0, i as int), goal_order()),
        decreases goals@.len() - i,
    {
        proof {
            lemma_take_next(all, i as int);
        }
        let row = receipt_goal(&goals[i], stable_scope, properties);
        assert(row@ == all[i as int]);
        let ghost s = models(out@);
        let mut k: usize = 0;
        while k < out.len() && !goal_comes_before(&row, &out[k])
            invariant
                k <= out@.len(),
                s == models(out@),
                forall|j: int| 0 <= j < k ==> !(goal_order())(row@, #[trigger] s[j]),
            decreases out@.len() - k,
        {
            assert(s[k as int] == out@[k as int]@);
            k = k + 1;
        }
        proof {
            if k < s.len() {
                assert(s[k as int] == out@[k as int]@);
            }
            lemma_place_is(s, row@, goal_order(), k as int);
        }
        let ghost added = row@;
        out.insert(k, row);
        assert(models(out@) =~= s.insert(k as int, added));
        i = i + 1;
    }
    assert(all.subrange(0, i as int) =~= all);
    out
}

proof fn lemma_opt_lt(a: Option<Seq<char>>, b: Option<Seq<char>>, c: Option<Seq<char>>)
    ensures
        !opt_lt(a, a),
        opt_lt(a, b) && opt_lt(b, c) ==> opt_lt(a, c),
        !opt_lt(a, b) && !opt_lt(b, c) ==> !opt_lt(a, c),
        !opt_lt(a, b) && !opt_lt(b, a) ==> a == b,
{
    match a {
        Some(x) => {
            crate::order::law_text_lt_irreflexive(x);
            match b {
                Some(y) => {
                    crate::order::law_text_lt_total(x, y);
                    match c {
                        Some(z) => {
                            crate::order::law_text_lt_total(y, z);
                            if text_lt(x, y) && text_lt(y, z) {
                                crate::order::law_text_lt_transitive(x, y, z);
                            }
                            if text_lt(y, x) && text_lt(z, y) {
                                crate::order::law_text_lt_transitive(z, y, x);
                            }
                            if text_lt(x, z) && text_lt(z, x) {
                                crate::order::law_text_lt_transitive(x, z, x);
                            }
                        },
                        None => {},
                    }
                },
                None => {},
            }
        },
        None => {},
    }
}

proof fn lemma_goal_order_is_order()
    ensures
        is_order(goal_order()),
{
    let o = goal_order();
    assert forall|a: JsonView| !#[trigger] o(a, a) by {
        let (i, s) = (a.text("stable_goal_id"@), a.text("status"@));
        lemma_opt_lt(i, i, i);
        lemma_opt_lt(s, s, s);
    }
    assert forall|a: JsonView, b: JsonView, c: JsonView| #[trigger] o(a, b) && #[trigger] o(
        b,
        c,
    ) implies o(a, c) by {
        lemma_opt_lt(
            a.text("stable_goal_id"@),
            b.text("stable_goal_id"@),
            c.text("stable_goal_id"@),
        );
        lemma_opt_lt(a.text("status"@), b.text("status"@), c.text("status"@));
    }
    assert forall|a: JsonView, b: JsonView, c: JsonView| !#[trigger] o(a, b) && !#[trigger] o(
        b,
        c,
    ) implies !o(a, c) by {
        let (i, j, k) = (
            a.text("stable_goal_id"@),
            b.text("stable_goal_id"@),
            c.text("stable_goal_id"@),
        );
        lemma_opt_lt(i, j, k);
        lemma_opt_lt(j, k, i);
        lemma_opt_lt(k, j, i);
        lemma_opt_lt(j, i, k);
        lemma_opt_lt(k, i, j);
        lemma_opt_lt(i, k, j);
        lemma_opt_lt(a.text("status"@), b.text("status"@), c.text("status"@));
    }
}

/// The goals of a receipt are sorted, and none is lost or added by sorting.
pub proof fn law_receipt_goals_are_sorted(
    goals: Seq<JsonView>,
    stable_scope: Option<Seq<char>>,
    properties: JsonView,
)
    ensures
        sorted_by(receipt_goals(goals, stable_scope, properties), goal_order()),
        receipt_goals(goals, stable_scope, properties).len() == goals.len(),
{
    lemma_goal_order_is_order();
    law_sort_by(
        goals.map_values(|g: JsonView| goal_row(g, stable_scope, properties)),
        goal_order(),
    );
}

// ---------------------------------------------------------------------------
// Hashes
// ---------------------------------------------------------------------------

/// The one key that is added to a receipt after its body is built.
pub const POST_BODY_KEY: &'static str = "sha256";

/// The hash of a value's text.
pub open spec fn hash_of(v: JsonView) -> Seq<char> {
    sha256_hex_of(encode_utf8(json_text(collected(v))))
}

/// The hash of a value's text.
pub fn hash_value(v: &Json) -> (r: String)
    ensures
        r@ == hash_of(v@),
{
    let text = v.to_text();
    sha256_hex(text.as_str().as_bytes())
}

/// A receipt with its hash.
pub open spec fn with_hash(body: JsonView) -> JsonView {
    body.with(POST_BODY_KEY@, JsonView::Str(hash_of(body)))
}

/// A receipt with its hash.
pub fn proof_receipt_with_hash(body: Json) -> (r: Json)
    ensures
        r@ == with_hash(body@),
{
    let digest = hash_value(&body);
    body.with(POST_BODY_KEY, Json::Str(digest))
}

/// The pattern of a generated label, up to the colon that ends it.
pub const LABEL_AND_COLON: &'static str =
    "\\b(?:re|en|as|li|la|lv|at|an)_[0-9a-f]{8}\\w*(\\s*:)";

/// What stands in for a generated label.
pub const CANONICAL_LABEL: &'static str = "an_00000000$1";

/// The printed program with generated labels made the same, so that printing an identical contract
/// twice gives the same text. Only what a colon ends is a label.
pub open spec fn canonical_ast(source: Seq<char>) -> Seq<char> {
    match regex_replaced(LABEL_AND_COLON@, source, CANONICAL_LABEL@) {
        Some(s) => s,
        None => source,
    }
}

/// The printed program with generated labels made the same.
pub fn canonical_ast_for_digest(source: &str) -> (r: String)
    ensures
        r@ == canonical_ast(source@),
{
    match replace_matches(LABEL_AND_COLON, source, CANONICAL_LABEL) {
        Some(s) => s,
        None => owned(source),
    }
}

// ---------------------------------------------------------------------------
// What names something within one session
// ---------------------------------------------------------------------------

/// Entries without those that name something within one session.
pub open spec fn drop_scoped(s: Seq<(Seq<char>, JsonView)>) -> Seq<(Seq<char>, JsonView)> {
    drop_entry(drop_entry(drop_entry(s, "property"@), "property_marker"@), "kinstr_marker"@)
}

/// A value without the fields that name something within one session, at any depth.
pub open spec fn stripped(v: JsonView) -> JsonView
    decreases v,
{
    match v {
        JsonView::Array(s) => JsonView::Array(stripped_list(s)),
        JsonView::Object(s) => JsonView::Object(drop_scoped(stripped_entries(s))),
        _ => v,
    }
}

/// Values without the fields that name something within one session.
pub open spec fn stripped_list(s: Seq<JsonView>) -> Seq<JsonView>
    decreases s,
{
    Seq::new(
        s.len(),
        |i: int|
            if 0 <= i < s.len() {
                stripped(s[i])
            } else {
                JsonView::Null
            },
    )
}

/// Entries whose values are without the fields that name something within one session.
pub open spec fn stripped_entries(s: Seq<(Seq<char>, JsonView)>) -> Seq<(Seq<char>, JsonView)>
    decreases s,
{
    Seq::new(
        s.len(),
        |i: int|
            (
                s[i].0,
                if 0 <= i < s.len() {
                    stripped(s[i].1)
                } else {
                    JsonView::Null
                },
            ),
    )
}

/// A value without the fields that name something within one session, at any depth.
pub fn strip_session_scoped(value: &Json) -> (r: Json)
    ensures
        r@ == stripped(value@),
    decreases value,
{
    reveal_with_fuel(stripped, 2);
    match value {
        Json::Array(v) => {
            let ghost all = models(v@);
            proof {
                lemma_array_view(*v);
            }
            let mut out: Vec<Json> = Vec::new();
            let mut i: usize = 0;
            while i < v.len()
                invariant
                    *value == Json::Array(*v),
                    i <= v@.len(),
                    all == models(v@),
                    out@.len() == i,
                    forall|k: int| 0 <= k < i ==> (#[trigger] out@[k])@ == stripped(all[k]),
                decreases v@.len() - i,
            {
                assert(decreases_to!(*value => value->Array_0));
                assert(decreases_to!(value->Array_0 => v@));
                assert(decreases_to!(v@ => v@[i as int]));
                assert(all[i as int] == v@[i as int]@);
                out.push(strip_session_scoped(&v[i]));
                i = i + 1;
            }
            assert(models(out@) =~= stripped_list(all));
            Json::array(out)
        },
        Json::Object(v) => {
            let ghost all = entries(v@);
            proof {
                lemma_object_view(*v);
            }
            let mut out: Vec<(String, Json)> = Vec::new();
            let mut i: usize = 0;
            while i < v.len()
                invariant
                    *value == Json::Object(*v),
                    i <= v@.len(),
                    all == entries(v@),
                    out@.len() == i,
                    forall|k: int|
                        0 <= k < i ==> (#[trigger] out@[k]).0@ == all[k].0 && out@[k].1@
                            == stripped(all[k].1),
                decreases v@.len() - i,
            {
                assert(decreases_to!(*value => value->Object_0));
                assert(decreases_to!(value->Object_0 => v@));
                assert(decreases_to!(v@ => v@[i as int]));
                assert(decreases_to!(v@[i as int] => v@[i as int].1));
                assert(all[i as int] == (v@[i as int].0@, v@[i as int].1@));
                let inner = strip_session_scoped(&v[i].1);
                out.push((owned(v[i].0.as_str()), inner));
                i = i + 1;
            }
            assert(entries(out@) =~= stripped_entries(all));
            proof {
                lemma_object_view(out);
            }
            Json::Object(out).without("property").without("property_marker").without(
                "kinstr_marker",
            )
        },
        _ => value.copy(),
    }
}

/// Whether a key names something within one session.
pub open spec fn is_scoped(key: Seq<char>) -> bool {
    key == "property"@ || key == "property_marker"@ || key == "kinstr_marker"@
}

/// Whether no object in a value names anything within one session.
pub open spec fn session_free(v: JsonView) -> bool
    decreases v,
{
    match v {
        JsonView::Array(s) => forall|i: int|
            #![trigger s[i]]
            0 <= i < s.len() ==> session_free(s[i]),
        JsonView::Object(s) => forall|i: int|
            #![trigger s[i]]
            0 <= i < s.len() ==> !is_scoped(s[i].0) && session_free(s[i].1),
        _ => true,
    }
}

proof fn lemma_drop_entry_keeps(s: Seq<(Seq<char>, JsonView)>, key: Seq<char>)
    requires
        keys_differ(s),
    ensures
        keys_differ(drop_entry(s, key)),
        forall|i: int|
            #![trigger drop_entry(s, key)[i]]
            0 <= i < drop_entry(s, key).len() ==> drop_entry(s, key)[i].0 != key && s.contains(
                drop_entry(s, key)[i],
            ),
{
    lemma_entry_at(s, key);
    let k = entry_at(s, key);
    let r = drop_entry(s, key);
    assert forall|i: int| #![trigger r[i]] 0 <= i < r.len() implies r[i].0 != key && s.contains(
        r[i],
    ) by {
        if k < s.len() {
            if i == k {
                assert(r[i] == s[s.len() - 1]);
                if s[s.len() - 1].0 == key {
                    assert(s[k].0 == key);
                    assert(k == s.len() - 1);
                }
            } else {
                assert(r[i] == s[i]);
                if s[i].0 == key {
                    assert(s[k].0 == key);
                }
            }
        } else {
            assert(r[i] == s[i]);
        }
    }
    assert(keys_differ(r)) by {
        if k < s.len() {
            assert forall|i: int, j: int| 0 <= i < j < r.len() implies (#[trigger] r[i]).0 != (
            #[trigger] r[j]).0 by {
                let a = if i == k {
                    s.len() - 1
                } else {
                    i
                };
                let b = if j == k {
                    s.len() - 1
                } else {
                    j
                };
                assert(r[i] == s[a] && r[j] == s[b]);
                if a < b {
                    assert(s[a].0 != s[b].0);
                } else {
                    assert(s[b].0 != s[a].0);
                }
            }
        }
    }
}

/// What is hashed of a gap names nothing within one session, at any depth.
pub proof fn law_stripped_is_session_free(v: JsonView)
    requires
        well_keyed(v),
    ensures
        session_free(stripped(v)),
    decreases v,
{
    reveal_with_fuel(stripped, 2);
    match v {
        JsonView::Array(s) => {
            let l = stripped_list(s);
            assert forall|i: int| #![trigger l[i]] 0 <= i < l.len() implies session_free(l[i]) by {
                assert(l[i] == stripped(s[i]));
                law_stripped_is_session_free(s[i]);
            }
            let r = JsonView::Array(l);
            assert(stripped(v) == r);
            assert(r->Array_0 == l);
        },
        JsonView::Object(s) => {
            let m = stripped_entries(s);
            assert(keys_differ(m)) by {
                assert forall|i: int, j: int| 0 <= i < j < m.len() implies (#[trigger] m[i]).0 != (
                #[trigger] m[j]).0 by {
                    assert(s[i].0 != s[j].0);
                }
            }
            let a = drop_entry(m, "property"@);
            let b = drop_entry(a, "property_marker"@);
            let c = drop_entry(b, "kinstr_marker"@);
            lemma_drop_entry_keeps(m, "property"@);
            lemma_drop_entry_keeps(a, "property_marker"@);
            lemma_drop_entry_keeps(b, "kinstr_marker"@);
            assert forall|i: int| #![trigger c[i]] 0 <= i < c.len() implies !is_scoped(c[i].0)
                && session_free(c[i].1) by {
                assert(b.contains(c[i]));
                let j = choose|j: int| 0 <= j < b.len() && b[j] == c[i];
                assert(a.contains(b[j]));
                let k = choose|k: int| 0 <= k < a.len() && a[k] == b[j];
                assert(m.contains(a[k]));
                let n = choose|n: int| 0 <= n < m.len() && m[n] == a[k];
                assert(m[n].1 == stripped(s[n].1));
                law_stripped_is_session_free(s[n].1);
            }
        },
        _ => {},
    }
}

// ---------------------------------------------------------------------------
// What is incomplete
// ---------------------------------------------------------------------------

/// The code of a gap.
pub open spec fn gap_code(entry: JsonView) -> Seq<char> {
    match entry.text("code"@) {
        Some(c) => c,
        None => "UNKNOWN"@,
    }
}

/// The codes of some gaps.
pub open spec fn gap_codes(gaps: Seq<JsonView>) -> Seq<Seq<char>> {
    gaps.map_values(|e: JsonView| gap_code(e))
}

/// How often a text occurs.
pub open spec fn count_of(s: Seq<Seq<char>>, x: Seq<char>) -> int
    decreases s.len(),
{
    if s.len() == 0 {
        0
    } else {
        count_of(s.drop_last(), x) + (if s.last() == x {
            1int
        } else {
            0
        })
    }
}

/// How often each of some names occurs.
pub open spec fn counts_by_name(names: Seq<Seq<char>>, all: Seq<Seq<char>>) -> JsonView
    decreases names.len(),
{
    if names.len() == 0 {
        JsonView::object()
    } else {
        counts_by_name(names.drop_last(), all).with(
            names.last(),
            JsonView::num(count_of(all, names.last())),
        )
    }
}

/// What identifies a gap: its text, without what names something within one session.
pub open spec fn gap_identity(entry: JsonView) -> Seq<char> {
    json_text(collected(stripped(entry)))
}

/// What identifies some gaps, in order.
pub open spec fn gap_identities(gaps: Seq<JsonView>) -> Seq<Seq<char>> {
    sort_by(gaps.map_values(|e: JsonView| gap_identity(e)), text_order())
}

/// What a receipt says of gaps: how many, how many of each code, and a hash.
pub open spec fn gap_summary(gaps: Seq<JsonView>, digest: Seq<char>) -> JsonView {
    JsonView::object().with("count"@, JsonView::num(gaps.len() as int)).with(
        "codes"@,
        counts_by_name(sorted_unique(gap_codes(gaps)), gap_codes(gaps)),
    ).with("sha256"@, JsonView::Str(digest))
}

/// The gaps of a list, and none where it is no list.
pub open spec fn gaps_of(incomplete: JsonView) -> Seq<JsonView> {
    match incomplete.as_list() {
        Some(s) => s,
        None => Seq::empty(),
    }
}

/// What a receipt says of what is incomplete.
pub open spec fn gap_digest(gaps: Seq<JsonView>) -> JsonView {
    gap_summary(gaps, hash_of(JsonView::strings(gap_identities(gaps))))
}

fn count_text(v: &Vec<String>, x: &str) -> (r: u64)
    ensures
        r == count_of(texts(v@), x@),
{
    let ghost all = texts(v@);
    let mut n: u64 = 0;
    let mut i: usize = 0;
    assert(all.subrange(0, 0) =~= Seq::empty());
    while i < v.len()
        invariant
            i <= v@.len(),
            all == texts(v@),
            n <= i,
            n == count_of(all.subrange(0, i as int), x@),
        decreases v@.len() - i,
    {
        proof {
            lemma_take_next(all, i as int);
        }
        if same(v[i].as_str(), x) {
            n = n + 1;
        }
        i = i + 1;
    }
    assert(all.subrange(0, i as int) =~= all);
    n
}

/// What a receipt says of gaps whose identities were hashed.
pub fn incomplete_summary(gaps: &Vec<Json>, digest: &str) -> (r: Json)
    ensures
        r@ == gap_summary(models(gaps@), digest@),
{
    let mut codes: Vec<String> = Vec::new();
    let mut i: usize = 0;
    while i < gaps.len()
        invariant
            i <= gaps@.len(),
            codes@.len() == i,
            forall|k: int| 0 <= k < i ==> (#[trigger] codes@[k])@ == gap_code(gaps@[k]@),
        decreases gaps@.len() - i,
    {
        let code = match gaps[i].text("code") {
            Some(c) => owned(c),
            None => owned("UNKNOWN"),
        };
        codes.push(code);
        i = i + 1;
    }
    assert(texts(codes@) =~= gap_codes(models(gaps@)));
    let names = sort_unique(&codes);
    let ghost all = texts(names@);
    let mut counts = Json::object();
    let mut k: usize = 0;
    assert(all.subrange(0, 0) =~= Seq::empty());
    while k < names.len()
        invariant
            k <= names@.len(),
            all == texts(names@),
            counts@ == counts_by_name(all.subrange(0, k as int), texts(codes@)),
        decreases names@.len() - k,
    {
        proof {
            lemma_take_next(all, k as int);
        }
        let n = count_text(&codes, names[k].as_str());
        counts.insert(names[k].as_str(), Json::num(n));
        k = k + 1;
    }
    assert(all.subrange(0, k as int) =~= all);
    assert(models(gaps@).len() == gaps@.len());
    Json::object().with("count", Json::num(gaps.len() as u64)).with("codes", counts).with(
        "sha256",
        Json::str(digest),
    )
}

/// What identifies some gaps, in order.
pub fn incomplete_identities(gaps: &Vec<Json>) -> (r: Vec<String>)
    ensures
        texts(r@) == gap_identities(models(gaps@)),
{
    let ghost all = models(gaps@).map_values(|e: JsonView| gap_identity(e));
    let mut out: Vec<String> = Vec::new();
    let mut i: usize = 0;
    assert(texts(out@) =~= Seq::empty());
    assert(all.subrange(0, 0) =~= Seq::empty());
    while i < gaps.len()
        invariant
            i <= gaps@.len(),
            all == models(gaps@).map_values(|e: JsonView| gap_identity(e)),
            texts(out@) == sort_by(all.subrange(0, i as int), text_order()),
        decreases gaps@.len() - i,
    {
        proof {
            lemma_take_next(all, i as int);
        }
        let identity = strip_session_scoped(&gaps[i]).to_text();
        insert_sorted(&mut out, identity);
        i = i + 1;
    }
    assert(all.subrange(0, i as int) =~= all);
    out
}

/// What is incomplete, as a receipt carries it: counted, by code, and hashed over what identifies
/// each gap rather than over all that is said of it.
pub fn incomplete_digest(incomplete: &Json) -> (r: Json)
    ensures
        r@ == gap_digest(gaps_of(incomplete@)),
{
    let none: Vec<Json> = Vec::new();
    assert(models(none@) =~= Seq::empty());
    let gaps = match incomplete.as_list() {
        Some(v) => v,
        None => &none,
    };
    let identities = incomplete_identities(gaps);
    let digest = hash_value(&Json::strings(&identities));
    incomplete_summary(gaps, digest.as_str())
}

proof fn lemma_count_is_multiset(s: Seq<Seq<char>>, x: Seq<char>)
    ensures
        count_of(s, x) == s.to_multiset().count(x),
    decreases s.len(),
{
    if s.len() == 0 {
        assert(s =~= Seq::empty());
        s.to_multiset_ensures();
        assert(!s.contains(x));
    } else {
        let t = s.drop_last();
        lemma_count_is_multiset(t, x);
        t.to_multiset_ensures();
        assert(t.push(s.last()) =~= s);
    }
}

proof fn lemma_counts_alike(names: Seq<Seq<char>>, a: Seq<Seq<char>>, b: Seq<Seq<char>>)
    requires
        a.to_multiset() == b.to_multiset(),
    ensures
        counts_by_name(names, a) == counts_by_name(names, b),
    decreases names.len(),
{
    if names.len() > 0 {
        lemma_counts_alike(names.drop_last(), a, b);
        lemma_count_is_multiset(a, names.last());
        lemma_count_is_multiset(b, names.last());
    }
}

proof fn lemma_digest_alike(a: Seq<JsonView>, b: Seq<JsonView>)
    requires
        a.len() == b.len(),
        gap_codes(a).to_multiset() == gap_codes(b).to_multiset(),
        a.map_values(|e: JsonView| gap_identity(e)).to_multiset() == b.map_values(
            |e: JsonView| gap_identity(e),
        ).to_multiset(),
    ensures
        gap_digest(a) == gap_digest(b),
{
    let identity = |e: JsonView| gap_identity(e);
    let (ca, cb) = (gap_codes(a), gap_codes(b));
    law_sorted_unique(ca);
    law_sorted_unique(cb);
    ca.to_multiset_ensures();
    cb.to_multiset_ensures();
    assert forall|t: Seq<char>| sorted_unique(ca).contains(t) <==> sorted_unique(cb).contains(
        t,
    ) by {
        assert(ca.contains(t) <==> ca.to_multiset().count(t) > 0);
        assert(cb.contains(t) <==> cb.to_multiset().count(t) > 0);
    }
    lemma_strictly_sorted_alike(sorted_unique(ca), sorted_unique(cb));
    lemma_counts_alike(sorted_unique(ca), ca, cb);
    law_text_order();
    law_sort_by(a.map_values(identity), text_order());
    law_sort_by(b.map_values(identity), text_order());
    lemma_sorted_alike(gap_identities(a), gap_identities(b));
}

/// The same gaps in another order are reported alike: nothing about their order has a meaning.
pub proof fn law_order_of_gaps_does_not_matter(a: Seq<JsonView>, b: Seq<JsonView>)
    requires
        a.to_multiset() == b.to_multiset(),
    ensures
        gap_digest(a) == gap_digest(b),
{
    a.to_multiset_ensures();
    b.to_multiset_ensures();
    let code = |e: JsonView| gap_code(e);
    let identity = |e: JsonView| gap_identity(e);
    lemma_map_alike(a, b, code);
    lemma_map_alike(a, b, identity);
    assert(gap_codes(a) =~= a.map_values(code) && gap_codes(b) =~= b.map_values(code));
    lemma_digest_alike(a, b);
}

/// Whether the keys of every object in every value differ.
pub open spec fn all_well_keyed(s: Seq<JsonView>) -> bool {
    forall|i: int| 0 <= i < s.len() ==> well_keyed(#[trigger] s[i])
}

proof fn lemma_code_outlives_stripping(v: JsonView)
    requires
        well_keyed(v),
    ensures
        gap_code(stripped(v)) == gap_code(v),
{
    reveal_with_fuel(stripped, 3);
    reveal_strlit("code");
    reveal_strlit("property");
    reveal_strlit("property_marker");
    reveal_strlit("kinstr_marker");
    assert("code"@.len() == 4 && "property"@.len() == 8);
    assert("property_marker"@.len() == 15 && "kinstr_marker"@.len() == 13);
    match v {
        JsonView::Object(s) => {
            let m = stripped_entries(s);
            assert(keys_differ(m)) by {
                assert forall|i: int, j: int| 0 <= i < j < m.len() implies (#[trigger] m[i]).0 != (
                #[trigger] m[j]).0 by {
                    assert(s[i].0 != s[j].0);
                }
            }
            let o = JsonView::Object(m);
            law_without_get(o, "property"@, "code"@);
            let a = o.without("property"@);
            law_without_get(a, "property_marker"@, "code"@);
            let b = a.without("property_marker"@);
            law_without_get(b, "kinstr_marker"@, "code"@);
            assert(stripped(v) == b.without("kinstr_marker"@));
            lemma_entry_at(s, "code"@);
            lemma_entry_at(m, "code"@);
            lemma_same_places(s, m, "code"@);
            let i = entry_at(s, "code"@);
            if i < s.len() {
                let x = s[i].1;
                assert(m[i].1 == stripped(x));
                assert(stripped(x).as_text() == x.as_text());
            }
        },
        _ => {},
    }
}

proof fn lemma_same_places(
    s: Seq<(Seq<char>, JsonView)>,
    t: Seq<(Seq<char>, JsonView)>,
    key: Seq<char>,
)
    requires
        s.len() == t.len(),
        forall|i: int| 0 <= i < s.len() ==> (#[trigger] s[i]).0 == t[i].0,
    ensures
        entry_at(s, key) == entry_at(t, key),
    decreases s.len(),
{
    if s.len() > 0 {
        let (p, q) = (s.drop_last(), t.drop_last());
        assert forall|i: int| 0 <= i < p.len() implies (#[trigger] p[i]).0 == q[i].0 by {
            assert(p[i] == s[i] && q[i] == t[i]);
        }
        lemma_same_places(p, q, key);
        assert(s[s.len() - 1].0 == t[t.len() - 1].0);
    }
}

/// Gaps that are the same once what names something within one session is left out, in whatever
/// order, are reported alike, down to the hash.
pub proof fn law_gaps_alike_without_markers_are_reported_alike(a: Seq<JsonView>, b: Seq<JsonView>)
    requires
        all_well_keyed(a),
        all_well_keyed(b),
        stripped_list(a).to_multiset() == stripped_list(b).to_multiset(),
    ensures
        gap_digest(a) == gap_digest(b),
{
    let (sa, sb) = (stripped_list(a), stripped_list(b));
    let code = |e: JsonView| gap_code(e);
    let text = |e: JsonView| json_text(collected(e));
    let identity = |e: JsonView| gap_identity(e);
    lemma_map_alike(sa, sb, code);
    lemma_map_alike(sa, sb, text);
    sa.to_multiset_ensures();
    sb.to_multiset_ensures();
    assert(gap_codes(a) =~= sa.map_values(code)) by {
        assert forall|i: int| 0 <= i < a.len() implies #[trigger] gap_codes(a)[i]
            == sa.map_values(code)[i] by {
            lemma_code_outlives_stripping(a[i]);
        }
    }
    assert(gap_codes(b) =~= sb.map_values(code)) by {
        assert forall|i: int| 0 <= i < b.len() implies #[trigger] gap_codes(b)[i]
            == sb.map_values(code)[i] by {
            lemma_code_outlives_stripping(b[i]);
        }
    }
    assert(a.map_values(identity) =~= sa.map_values(text));
    assert(b.map_values(identity) =~= sb.map_values(text));
    lemma_digest_alike(a, b);
}

/// Whether two values differ at most in what stands, at any depth, under the keys that name
/// something within one session.
pub open spec fn alike_but_for_markers(a: JsonView, b: JsonView) -> bool
    decreases a,
{
    match (a, b) {
        (JsonView::Array(x), JsonView::Array(y)) => x.len() == y.len() && forall|i: int|
            #![trigger x[i]]
            0 <= i < x.len() ==> alike_but_for_markers(x[i], y[i]),
        (JsonView::Object(x), JsonView::Object(y)) => x.len() == y.len() && forall|i: int|
            #![trigger x[i]]
            0 <= i < x.len() ==> x[i].0 == y[i].0 && (is_scoped(x[i].0) || alike_but_for_markers(
                x[i].1,
                y[i].1,
            )),
        _ => a == b,
    }
}

spec fn entries_agree(s: Seq<(Seq<char>, JsonView)>, t: Seq<(Seq<char>, JsonView)>) -> bool {
    s.len() == t.len() && forall|i: int|
        #![trigger s[i]]
        #![trigger t[i]]
        0 <= i < s.len() ==> s[i].0 == t[i].0 && (is_scoped(s[i].0) || s[i].1 == t[i].1)
}

proof fn lemma_drop_agrees(
    s: Seq<(Seq<char>, JsonView)>,
    t: Seq<(Seq<char>, JsonView)>,
    key: Seq<char>,
)
    requires
        entries_agree(s, t),
    ensures
        entries_agree(drop_entry(s, key), drop_entry(t, key)),
{
    lemma_same_places(s, t, key);
    lemma_entry_at(s, key);
    let k = entry_at(s, key);
    let (p, q) = (drop_entry(s, key), drop_entry(t, key));
    assert forall|i: int|
        #![trigger p[i]]
        #![trigger q[i]]
        0 <= i < p.len() implies p[i].0 == q[i].0 && (is_scoped(p[i].0) || p[i].1 == q[i].1) by {
        if k < s.len() {
            let j = if i == k {
                s.len() - 1
            } else {
                i
            };
            assert(p[i] == s[j] && q[i] == t[j]);
        } else {
            assert(p[i] == s[i] && q[i] == t[i]);
        }
    }
}

/// Values that differ at most in what names something within one session are the same without it.
pub proof fn law_stripping_leaves_no_marker_behind(a: JsonView, b: JsonView)
    requires
        well_keyed(a),
        alike_but_for_markers(a, b),
    ensures
        stripped(a) == stripped(b),
    decreases a,
{
    reveal_with_fuel(stripped, 2);
    match (a, b) {
        (JsonView::Array(x), JsonView::Array(y)) => {
            let (p, q) = (stripped_list(x), stripped_list(y));
            assert forall|i: int| 0 <= i < p.len() implies #[trigger] p[i] == q[i] by {
                assert(alike_but_for_markers(x[i], y[i]));
                assert(p[i] == stripped(x[i]) && q[i] == stripped(y[i]));
                law_stripping_leaves_no_marker_behind(x[i], y[i]);
            }
            assert(p =~= q);
        },
        (JsonView::Object(x), JsonView::Object(y)) => {
            let (p, q) = (stripped_entries(x), stripped_entries(y));
            assert(entries_agree(p, q)) by {
                assert forall|i: int|
                    #![trigger p[i]]
                    #![trigger q[i]]
                    0 <= i < p.len() implies p[i].0 == q[i].0 && (is_scoped(p[i].0) || p[i].1
                    == q[i].1) by {
                    assert(x[i].0 == y[i].0);
                    assert(p[i] == (x[i].0, stripped(x[i].1)));
                    assert(q[i] == (y[i].0, stripped(y[i].1)));
                    if !is_scoped(x[i].0) {
                        law_stripping_leaves_no_marker_behind(x[i].1, y[i].1);
                    }
                }
            }
            assert(keys_differ(p)) by {
                assert forall|i: int, j: int| 0 <= i < j < p.len() implies (#[trigger] p[i]).0 != (
                #[trigger] p[j]).0 by {
                    assert(x[i].0 != x[j].0);
                }
            }
            let (p1, q1) = (drop_entry(p, "property"@), drop_entry(q, "property"@));
            let (p2, q2) = (
                drop_entry(p1, "property_marker"@),
                drop_entry(q1, "property_marker"@),
            );
            let (p3, q3) = (drop_entry(p2, "kinstr_marker"@), drop_entry(q2, "kinstr_marker"@));
            lemma_drop_agrees(p, q, "property"@);
            lemma_drop_agrees(p1, q1, "property_marker"@);
            lemma_drop_agrees(p2, q2, "kinstr_marker"@);
            lemma_drop_entry_keeps(p, "property"@);
            lemma_drop_entry_keeps(p1, "property_marker"@);
            lemma_drop_entry_keeps(p2, "kinstr_marker"@);
            assert forall|i: int| 0 <= i < p3.len() implies #[trigger] p3[i] == q3[i] by {
                assert(p2.contains(p3[i]));
                let j = choose|j: int| 0 <= j < p2.len() && p2[j] == p3[i];
                assert(p1.contains(p2[j]));
                let k = choose|k: int| 0 <= k < p1.len() && p1[k] == p2[j];
                assert(p1[k].0 != "property"@);
                assert(!is_scoped(p3[i].0));
            }
            assert(p3 =~= q3);
        },
        _ => {},
    }
}

/// What is said of gaps stays the same when they are put in another order and when what stands
/// under the keys that name something within one session is replaced, at any depth.
pub proof fn law_markers_do_not_enter_the_digest(
    a: Seq<JsonView>,
    moved: Seq<JsonView>,
    b: Seq<JsonView>,
)
    requires
        all_well_keyed(a),
        all_well_keyed(b),
        moved.to_multiset() == a.to_multiset(),
        moved.len() == b.len(),
        forall|i: int| 0 <= i < b.len() ==> alike_but_for_markers(#[trigger] moved[i], b[i]),
    ensures
        gap_digest(a) == gap_digest(b),
{
    a.to_multiset_ensures();
    moved.to_multiset_ensures();
    assert forall|i: int| 0 <= i < moved.len() implies well_keyed(#[trigger] moved[i]) by {
        assert(moved.contains(moved[i]));
        assert(a.to_multiset().count(moved[i]) > 0);
        assert(a.contains(moved[i]));
    }
    assert forall|i: int| 0 <= i < b.len() implies #[trigger] stripped_list(moved)[i]
        == stripped_list(b)[i] by {
        law_stripping_leaves_no_marker_behind(moved[i], b[i]);
    }
    assert(stripped_list(moved) =~= stripped_list(b));
    law_order_of_gaps_does_not_matter(a, moved);
    law_gaps_alike_without_markers_are_reported_alike(moved, b);
}

/// The sum of the integers that entries hold.
pub open spec fn entries_total(s: Seq<(Seq<char>, JsonView)>) -> int
    decreases s.len(),
{
    if s.len() == 0 {
        0
    } else {
        entries_total(s.drop_last()) + (match s.last().1 {
            JsonView::Number(crate::json::NumberView::Int(n)) => n,
            _ => 0,
        })
    }
}

spec fn counted(names: Seq<Seq<char>>, all: Seq<Seq<char>>) -> int
    decreases names.len(),
{
    if names.len() == 0 {
        0
    } else {
        counted(names.drop_last(), all) + count_of(all, names.last())
    }
}

proof fn lemma_counts_object(names: Seq<Seq<char>>, all: Seq<Seq<char>>)
    requires
        names.no_duplicates(),
    ensures
        counts_by_name(names, all) is Object,
        counts_by_name(names, all)->Object_0.len() == names.len(),
        forall|i: int|
            0 <= i < names.len() ==> #[trigger] counts_by_name(names, all)->Object_0[i] == (
                names[i],
                JsonView::num(count_of(all, names[i])),
            ),
        entries_total(counts_by_name(names, all)->Object_0) == counted(names, all),
    decreases names.len(),
{
    if names.len() > 0 {
        let t = names.drop_last();
        lemma_counts_object(t, all);
        let s = counts_by_name(t, all)->Object_0;
        let x = names.last();
        lemma_entry_at(s, x);
        let i = entry_at(s, x);
        if i < s.len() {
            assert(s[i].0 == t[i]);
            assert(names[i] == x && names[names.len() - 1] == x);
        }
        let r = counts_by_name(names, all)->Object_0;
        assert(r =~= s.push((x, JsonView::num(count_of(all, x)))));
        assert(r.drop_last() =~= s);
        assert forall|k: int| 0 <= k < names.len() implies #[trigger] r[k] == (
            names[k],
            JsonView::num(count_of(all, names[k])),
        ) by {
            if k < t.len() {
                assert(r[k] == s[k]);
                assert(t[k] == names[k]);
            }
        }
    }
}

proof fn lemma_counted_next(names: Seq<Seq<char>>, all: Seq<Seq<char>>)
    requires
        names.no_duplicates(),
        all.len() > 0,
    ensures
        counted(names, all) == counted(names, all.drop_last()) + (if names.contains(all.last()) {
            1int
        } else {
            0
        }),
    decreases names.len(),
{
    if names.len() > 0 {
        let t = names.drop_last();
        let x = all.last();
        lemma_counted_next(t, all);
        if t.contains(x) {
            let k = choose|k: int| 0 <= k < t.len() && t[k] == x;
            assert(names[k] == x);
            assert(names[names.len() - 1] != names[k]);
        }
        if names.contains(x) && names.last() != x {
            let k = choose|k: int| 0 <= k < names.len() && names[k] == x;
            assert(t[k] == x);
        }
        if names.last() == x {
            assert(names[names.len() - 1] == x);
        }
    }
}

proof fn lemma_counted_none(names: Seq<Seq<char>>)
    ensures
        counted(names, Seq::empty()) == 0,
    decreases names.len(),
{
    if names.len() > 0 {
        lemma_counted_none(names.drop_last());
    }
}

proof fn lemma_counted_all(names: Seq<Seq<char>>, all: Seq<Seq<char>>)
    requires
        names.no_duplicates(),
        forall|i: int| 0 <= i < all.len() ==> names.contains(#[trigger] all[i]),
    ensures
        counted(names, all) == all.len(),
    decreases all.len(),
{
    if all.len() > 0 {
        let t = all.drop_last();
        assert forall|i: int| 0 <= i < t.len() implies names.contains(#[trigger] t[i]) by {
            assert(t[i] == all[i]);
        }
        lemma_counted_all(names, t);
        lemma_counted_next(names, all);
        assert(names.contains(all[all.len() - 1]));
    } else {
        assert(all =~= Seq::empty());
        lemma_counted_none(names);
    }
}

/// Every gap is counted, and under one code: the counts by code add up to the number of gaps, and
/// a gap without a code counts as "UNKNOWN".
pub proof fn law_the_codes_add_up(gaps: Seq<JsonView>, i: int)
    ensures
        gap_digest(gaps).get("count"@) == Some(JsonView::num(gaps.len() as int)),
        gap_digest(gaps).get("codes"@) matches Some(JsonView::Object(s)) && entries_total(s)
            == gaps.len(),
        0 <= i < gaps.len() ==> gap_digest(gaps).at("codes"@, gap_code(gaps[i])) == Some(
            JsonView::num(count_of(gap_codes(gaps), gap_code(gaps[i]))),
        ),
        0 <= i < gaps.len() && gaps[i].text("code"@) is None ==> gap_code(gaps[i]) == "UNKNOWN"@,
{
    reveal_strlit("count");
    reveal_strlit("codes");
    reveal_strlit("sha256");
    assert("count"@.len() == 5 && "codes"@.len() == 5 && "sha256"@.len() == 6);
    assert("count"@[2] == 'u' && "codes"@[2] == 'd');
    let all = gap_codes(gaps);
    let names = sorted_unique(all);
    law_sorted_unique(all);
    assert(names.no_duplicates()) by {
        assert forall|j: int, k: int|
            0 <= j < names.len() && 0 <= k < names.len() && j != k implies names[j] != names[k] by {
            if j < k {
                assert(text_lt(names[j], names[k]));
                crate::order::law_text_lt_irreflexive(names[j]);
            } else {
                assert(text_lt(names[k], names[j]));
                crate::order::law_text_lt_irreflexive(names[j]);
            }
        }
    }
    assert forall|k: int| 0 <= k < all.len() implies names.contains(#[trigger] all[k]) by {
        assert(all.contains(all[k]));
    }
    lemma_counts_object(names, all);
    lemma_counted_all(names, all);
    let codes = counts_by_name(names, all);
    let digest = hash_of(JsonView::strings(gap_identities(gaps)));
    let one = JsonView::object().with("count"@, JsonView::num(gaps.len() as int));
    let two = one.with("codes"@, codes);
    law_with_get(
        JsonView::object(),
        "count"@,
        JsonView::num(gaps.len() as int),
        "codes"@,
    );
    law_with_get(one, "codes"@, codes, "count"@);
    law_with_get(two, "sha256"@, JsonView::Str(digest), "count"@);
    law_with_get(two, "sha256"@, JsonView::Str(digest), "codes"@);
    if 0 <= i < gaps.len() {
        let c = gap_code(gaps[i]);
        assert(all[i] == c);
        let k = choose|k: int| 0 <= k < names.len() && names[k] == c;
        let s = codes->Object_0;
        lemma_entry_at(s, c);
        let e = entry_at(s, c);
        assert(s[k].0 == c);
        assert(e <= k) by {
            if e > k {
                assert(s[k].0 != c);
            }
        }
        assert(s[e].0 == names[e]);
    }
}

/// Why a receipt carries no EVA settings. A receipt travels, so the reason goes with it.
pub fn eva_config_absent(reason: &str) -> (r: Json)
    ensures
        r@ == JsonView::object().with("ran"@, JsonView::Bool(false)).with(
            "reason"@,
            JsonView::Str(reason@),
        ),
{
    Json::object().with("ran", Json::Bool(false)).with("reason", Json::str(reason))
}

// ---------------------------------------------------------------------------
// The body of a receipt
// ---------------------------------------------------------------------------

/// What a proof receipt calls itself: a name, not a version.
pub const RECEIPT_SCHEMA: &'static str = "frama-c-mcp.proof-receipt";

/// What a receipt is a receipt of.
pub struct ProofReceiptBody {
    pub tool: String,
    pub source_files: Vec<Json>,
    pub ast_digest: Json,
    pub ast_digest_unavailable_reason: Json,
    pub contracts: Json,
    pub environment: Json,
    pub wp_config: Json,
    pub eva_config: Json,
    pub goals: Vec<Json>,
    pub goals_status_source: String,
    pub reported: Json,
}

/// What a receipt is a receipt of, as a mathematical object.
pub struct BodyView {
    pub tool: Seq<char>,
    pub source_files: Seq<JsonView>,
    pub ast_digest: JsonView,
    pub ast_digest_unavailable_reason: JsonView,
    pub contracts: JsonView,
    pub environment: JsonView,
    pub wp_config: JsonView,
    pub eva_config: JsonView,
    pub goals: Seq<JsonView>,
    pub goals_status_source: Seq<char>,
    pub reported: JsonView,
}

impl View for ProofReceiptBody {
    type V = BodyView;

    open spec fn view(&self) -> BodyView {
        BodyView {
            tool: self.tool@,
            source_files: models(self.source_files@),
            ast_digest: self.ast_digest@,
            ast_digest_unavailable_reason: self.ast_digest_unavailable_reason@,
            contracts: self.contracts@,
            environment: self.environment@,
            wp_config: self.wp_config@,
            eva_config: self.eva_config@,
            goals: models(self.goals@),
            goals_status_source: self.goals_status_source@,
            reported: self.reported@,
        }
    }
}

/// What a receipt says it is about. A digest that could not be made must not compare equal to
/// itself, which is what the nonce is for.
pub open spec fn subject_of(body: BodyView, nonce: Option<Seq<char>>) -> JsonView {
    JsonView::object().with("tool"@, JsonView::Str(body.tool)).with(
        "source_hash"@,
        JsonView::Str(hash_of(JsonView::Array(body.source_files))),
    ).with("files"@, JsonView::Array(body.source_files)).with("ast_digest"@, body.ast_digest).with(
        "ast_digest_unavailable_nonce"@,
        JsonView::opt_text(nonce),
    ).with("ast_digest_unavailable_reason"@, body.ast_digest_unavailable_reason).with(
        "contracts"@,
        body.contracts,
    )
}

/// A receipt without its hash.
pub open spec fn receipt_of(body: BodyView, nonce: Option<Seq<char>>) -> JsonView {
    JsonView::object().with("schema"@, JsonView::Str(RECEIPT_SCHEMA@)).with(
        "subject"@,
        subject_of(body, nonce),
    ).with("environment"@, body.environment).with("wp"@, body.wp_config).with(
        "eva"@,
        body.eva_config,
    ).with("goals_status_source"@, JsonView::Str(body.goals_status_source)).with(
        "goals"@,
        JsonView::Array(body.goals),
    ).with("reported"@, body.reported)
}

/// A receipt without its hash, with a nonce where there is to be one.
pub fn receipt_with_nonce(body: ProofReceiptBody, nonce: Option<String>) -> (r: Json)
    ensures
        r@ == receipt_of(body@, opt_string(nonce)),
{
    let files = Json::array(body.source_files);
    let source_hash = hash_value(&files);
    let nonce = match nonce {
        Some(n) => Json::Str(n),
        None => Json::Null,
    };
    let subject = Json::object().with("tool", Json::str(body.tool.as_str())).with(
        "source_hash",
        Json::Str(source_hash),
    ).with("files", files).with("ast_digest", body.ast_digest).with(
        "ast_digest_unavailable_nonce",
        nonce,
    ).with("ast_digest_unavailable_reason", body.ast_digest_unavailable_reason).with(
        "contracts",
        body.contracts,
    );
    Json::object().with("schema", Json::str(RECEIPT_SCHEMA)).with("subject", subject).with(
        "environment",
        body.environment,
    ).with("wp", body.wp_config).with("eva", body.eva_config).with(
        "goals_status_source",
        Json::str(body.goals_status_source.as_str()),
    ).with("goals", Json::array(body.goals)).with("reported", body.reported)
}

/// Whether a receipt could be that of a body: a body with a digest has one receipt, and one
/// without has a new one each time.
pub open spec fn is_receipt(receipt: JsonView, body: BodyView) -> bool {
    if body.ast_digest == JsonView::Null {
        exists|nonce: Seq<char>|
            nonce.len() == 16 && #[trigger] all_hex(nonce) && receipt == receipt_of(
                body,
                Some(nonce),
            )
    } else {
        receipt == receipt_of(body, None)
    }
}

/// A receipt without its hash.
pub fn proof_receipt_body(body: ProofReceiptBody) -> (r: Json)
    ensures
        is_receipt(r@, body@),
{
    if body.ast_digest.is_null() {
        let nonce = random_hex(16);
        let ghost drawn = nonce@;
        let r = receipt_with_nonce(body, Some(nonce));
        assert(drawn.len() == 16 && all_hex(drawn));
        r
    } else {
        receipt_with_nonce(body, None)
    }
}

// ---------------------------------------------------------------------------
// The shape of a receipt
// ---------------------------------------------------------------------------

/// The keys of some entries.
pub open spec fn entry_keys(s: Seq<(Seq<char>, JsonView)>) -> Seq<Seq<char>> {
    s.map_values(|e: (Seq<char>, JsonView)| e.0)
}

/// The keys of an object, and none for any other value.
pub open spec fn object_keys(v: JsonView) -> Seq<Seq<char>> {
    match v {
        JsonView::Object(s) => entry_keys(s),
        _ => Seq::empty(),
    }
}

/// Keys with a prefix before each. At the top, the one that is added after the body is built is
/// left out: it says something of the body, and is no part of its shape.
pub open spec fn prefixed(ks: Seq<Seq<char>>, before: Seq<char>) -> Seq<Seq<char>>
    decreases ks.len(),
{
    if ks.len() == 0 {
        Seq::empty()
    } else if before.len() == 0 && ks.last() == POST_BODY_KEY@ {
        prefixed(ks.drop_last(), before)
    } else {
        prefixed(ks.drop_last(), before).push(before + ks.last())
    }
}

/// The names of the fields of a value, in order.
pub open spec fn field_names(v: JsonView, before: Seq<char>) -> Seq<Seq<char>> {
    sort_by(prefixed(object_keys(v), before), text_order())
}

/// The names of the fields that a receipt has at the top and in its subject. What stands deeper
/// differs between tools and installs.
pub open spec fn skeleton(receipt: JsonView) -> Seq<Seq<char>> {
    field_names(receipt, ""@) + field_names(
        JsonView::or_null(receipt.get("subject"@)),
        "subject."@,
    )
}

/// The shape of a receipt.
pub open spec fn shape(receipt: JsonView) -> Seq<char> {
    prefix(sha256_hex_of(encode_utf8(join_spec(skeleton(receipt), "\n"@))), 12)
}

fn names_of_fields(v: Option<&Json>, before: &str) -> (r: Vec<String>)
    ensures
        texts(r@) == field_names(JsonView::or_null(opt_json(v)), before@),
{
    let mut out: Vec<String> = Vec::new();
    assert(texts(out@) =~= Seq::empty());
    match v {
        Some(Json::Object(o)) => {
            let ghost all = entry_keys(entries(o@));
            proof {
                lemma_object_view(*o);
                assert(all.subrange(0, 0) =~= Seq::empty());
            }
            let mut i: usize = 0;
            while i < o.len()
                invariant
                    i <= o@.len(),
                    all == entry_keys(entries(o@)),
                    texts(out@) == sort_by(
                        prefixed(all.subrange(0, i as int), before@),
                        text_order(),
                    ),
                decreases o@.len() - i,
            {
                proof {
                    lemma_take_next(all, i as int);
                }
                let key = o[i].0.as_str();
                assert(all[i as int] == key@);
                let ghost held = prefixed(all.subrange(0, i as int), before@);
                if !(before.is_empty() && same(key, POST_BODY_KEY)) {
                    assert(held.push(before@ + key@).drop_last() =~= held);
                    insert_sorted(&mut out, cat2(before, key));
                }
                i = i + 1;
            }
            assert(all.subrange(0, i as int) =~= all);
        },
        _ => {},
    }
    out
}

/// The names of the fields that a receipt has at the top and in its subject.
pub fn receipt_skeleton(receipt: &Json) -> (r: Vec<String>)
    ensures
        texts(r@) == skeleton(receipt@),
{
    let mut out = names_of_fields(Some(receipt), "");
    let ghost first = out@;
    let mut more = names_of_fields(receipt.get("subject"), "subject.");
    let ghost second = more@;
    out.append(&mut more);
    assert(texts(out@) =~= texts(first) + texts(second));
    out
}

/// The shape of a receipt: a digest of the names of the fields it carries.
pub fn schema_of(receipt: &Json) -> (r: String)
    ensures
        r@ == shape(receipt@),
        r@.len() == 12,
{
    let text = join(&receipt_skeleton(receipt), "\n");
    let digest = sha256_hex(text.as_str().as_bytes());
    prefix_text(digest.as_str(), 12)
}

/// What the shape is derived from.
pub open spec fn empty_body() -> BodyView {
    BodyView {
        tool: Seq::empty(),
        source_files: Seq::empty(),
        ast_digest: JsonView::Str(Seq::empty()),
        ast_digest_unavailable_reason: JsonView::Null,
        contracts: JsonView::object(),
        environment: JsonView::object(),
        wp_config: JsonView::object(),
        eva_config: JsonView::object(),
        goals: Seq::empty(),
        goals_status_source: Seq::empty(),
        reported: JsonView::object(),
    }
}

/// The shape that receipts have, derived by building one, so that it cannot drift from what is
/// written.
pub fn receipt_shape() -> (r: String)
    ensures
        r@ == shape(receipt_of(empty_body(), None)),
        r@.len() == 12,
{
    let body = ProofReceiptBody {
        tool: String::new(),
        source_files: Vec::new(),
        ast_digest: Json::Str(String::new()),
        ast_digest_unavailable_reason: Json::Null,
        contracts: Json::object(),
        environment: Json::object(),
        wp_config: Json::object(),
        eva_config: Json::object(),
        goals: Vec::new(),
        goals_status_source: String::new(),
        reported: Json::object(),
    };
    proof {
        assert(models(body.source_files@) =~= Seq::empty());
        assert(models(body.goals@) =~= Seq::empty());
        assert(body.tool@ =~= Seq::empty());
        assert(body.goals_status_source@ =~= Seq::empty());
        assert(body.ast_digest@ == JsonView::Str(Seq::empty()));
        assert(body@ == empty_body());
    }
    schema_of(&receipt_with_nonce(body, None))
}

/// Keys with one more, where it is new.
pub open spec fn with_key(ks: Seq<Seq<char>>, key: Seq<char>) -> Seq<Seq<char>> {
    if ks.contains(key) {
        ks
    } else {
        ks.push(key)
    }
}

proof fn lemma_keys_with(v: JsonView, key: Seq<char>, x: JsonView)
    requires
        v is Object,
    ensures
        object_keys(v.with(key, x)) == with_key(object_keys(v), key),
{
    let s = v->Object_0;
    lemma_entry_at(s, key);
    let i = entry_at(s, key);
    let ks = entry_keys(s);
    if i < s.len() {
        assert(ks[i] == key);
        assert(ks.contains(key));
        assert(entry_keys(put_entry(s, key, x)) =~= ks);
    } else {
        assert(!ks.contains(key)) by {
            if ks.contains(key) {
                let k = choose|k: int| 0 <= k < ks.len() && ks[k] == key;
                assert(s[k].0 == key);
            }
        }
        assert(entry_keys(put_entry(s, key, x)) =~= ks.push(key));
    }
}

proof fn lemma_prefixed_skips_hash(ks: Seq<Seq<char>>)
    ensures
        prefixed(with_key(ks, POST_BODY_KEY@), ""@) == prefixed(ks, ""@),
{
    reveal_strlit("");
    if !ks.contains(POST_BODY_KEY@) {
        let more = ks.push(POST_BODY_KEY@);
        assert(more.drop_last() =~= ks);
    }
}

/// Adding its hash to a receipt does not change its shape.
pub proof fn law_hash_keeps_the_shape(body: JsonView)
    requires
        body is Object,
    ensures
        skeleton(with_hash(body)) == skeleton(body),
        shape(with_hash(body)) == shape(body),
{
    reveal_strlit("sha256");
    reveal_strlit("subject");
    assert("subject"@.len() == 7 && POST_BODY_KEY@.len() == 6);
    lemma_keys_with(body, POST_BODY_KEY@, JsonView::Str(hash_of(body)));
    lemma_prefixed_skips_hash(object_keys(body));
    law_with_get(body, POST_BODY_KEY@, JsonView::Str(hash_of(body)), "subject"@);
}

/// The keys that a receipt has at the top.
pub open spec fn top_keys() -> Seq<Seq<char>> {
    let none = Seq::<Seq<char>>::empty();
    let a = with_key(with_key(with_key(none, "schema"@), "subject"@), "environment"@);
    let b = with_key(with_key(with_key(a, "wp"@), "eva"@), "goals_status_source"@);
    with_key(with_key(b, "goals"@), "reported"@)
}

/// The keys that the subject of a receipt has.
pub open spec fn subject_keys() -> Seq<Seq<char>> {
    let none = Seq::<Seq<char>>::empty();
    let a = with_key(with_key(with_key(none, "tool"@), "source_hash"@), "files"@);
    let b = with_key(with_key(a, "ast_digest"@), "ast_digest_unavailable_nonce"@);
    with_key(with_key(b, "ast_digest_unavailable_reason"@), "contracts"@)
}

proof fn lemma_receipt_keys(body: BodyView, nonce: Option<Seq<char>>)
    ensures
        object_keys(receipt_of(body, nonce)) == top_keys(),
        object_keys(subject_of(body, nonce)) == subject_keys(),
        receipt_of(body, nonce).get("subject"@) == Some(subject_of(body, nonce)),
{
    reveal_strlit("subject");
    reveal_strlit("environment");
    reveal_strlit("wp");
    reveal_strlit("eva");
    reveal_strlit("goals_status_source");
    reveal_strlit("goals");
    reveal_strlit("reported");
    assert("subject"@.len() == 7);
    assert("environment"@.len() == 11 && "wp"@.len() == 2 && "eva"@.len() == 3);
    assert("goals_status_source"@.len() == 19 && "goals"@.len() == 5 && "reported"@.len() == 8);
    let files = JsonView::Array(body.source_files);
    let s0 = JsonView::object();
    assert(object_keys(s0) =~= Seq::empty());
    let v1 = JsonView::Str(body.tool);
    let s1 = s0.with("tool"@, v1);
    lemma_keys_with(s0, "tool"@, v1);
    let v2 = JsonView::Str(hash_of(files));
    let s2 = s1.with("source_hash"@, v2);
    lemma_keys_with(s1, "source_hash"@, v2);
    let s3 = s2.with("files"@, files);
    lemma_keys_with(s2, "files"@, files);
    let s4 = s3.with("ast_digest"@, body.ast_digest);
    lemma_keys_with(s3, "ast_digest"@, body.ast_digest);
    let v5 = JsonView::opt_text(nonce);
    let s5 = s4.with("ast_digest_unavailable_nonce"@, v5);
    lemma_keys_with(s4, "ast_digest_unavailable_nonce"@, v5);
    let v6 = body.ast_digest_unavailable_reason;
    let s6 = s5.with("ast_digest_unavailable_reason"@, v6);
    lemma_keys_with(s5, "ast_digest_unavailable_reason"@, v6);
    lemma_keys_with(s6, "contracts"@, body.contracts);
    let subject = subject_of(body, nonce);
    let w1 = JsonView::Str(RECEIPT_SCHEMA@);
    let r1 = s0.with("schema"@, w1);
    lemma_keys_with(s0, "schema"@, w1);
    let r2 = r1.with("subject"@, subject);
    lemma_keys_with(r1, "subject"@, subject);
    law_with_get(r1, "subject"@, subject, "subject"@);
    let r3 = r2.with("environment"@, body.environment);
    lemma_keys_with(r2, "environment"@, body.environment);
    law_with_get(r2, "environment"@, body.environment, "subject"@);
    let r4 = r3.with("wp"@, body.wp_config);
    lemma_keys_with(r3, "wp"@, body.wp_config);
    law_with_get(r3, "wp"@, body.wp_config, "subject"@);
    let r5 = r4.with("eva"@, body.eva_config);
    lemma_keys_with(r4, "eva"@, body.eva_config);
    law_with_get(r4, "eva"@, body.eva_config, "subject"@);
    let w6 = JsonView::Str(body.goals_status_source);
    let r6 = r5.with("goals_status_source"@, w6);
    lemma_keys_with(r5, "goals_status_source"@, w6);
    law_with_get(r5, "goals_status_source"@, w6, "subject"@);
    let w7 = JsonView::Array(body.goals);
    let r7 = r6.with("goals"@, w7);
    lemma_keys_with(r6, "goals"@, w7);
    law_with_get(r6, "goals"@, w7, "subject"@);
    lemma_keys_with(r7, "reported"@, body.reported);
    law_with_get(r7, "reported"@, body.reported, "subject"@);
}

/// Every receipt has the shape that receipts have, with its hash or without it.
pub proof fn law_receipts_have_one_shape(body: BodyView, nonce: Option<Seq<char>>)
    ensures
        shape(receipt_of(body, nonce)) == shape(receipt_of(empty_body(), None)),
        shape(with_hash(receipt_of(body, nonce))) == shape(receipt_of(empty_body(), None)),
{
    lemma_receipt_keys(body, nonce);
    lemma_receipt_keys(empty_body(), None);
    law_hash_keeps_the_shape(receipt_of(body, nonce));
}

proof fn lemma_subject_nonce(body: BodyView, nonce: Option<Seq<char>>)
    ensures
        subject_of(body, nonce).get("ast_digest_unavailable_nonce"@) == Some(
            JsonView::opt_text(nonce),
        ),
        subject_of(body, nonce).get("ast_digest"@) == Some(body.ast_digest),
{
    let digest = "ast_digest"@;
    let key = "ast_digest_unavailable_nonce"@;
    let reason = "ast_digest_unavailable_reason"@;
    reveal_strlit("ast_digest");
    reveal_strlit("ast_digest_unavailable_nonce");
    reveal_strlit("ast_digest_unavailable_reason");
    reveal_strlit("contracts");
    assert(digest.len() == 10 && key.len() == 28 && reason.len() == 29 && "contracts"@.len() == 9);
    let files = JsonView::Array(body.source_files);
    let s3 = JsonView::object().with("tool"@, JsonView::Str(body.tool)).with(
        "source_hash"@,
        JsonView::Str(hash_of(files)),
    ).with("files"@, files);
    let s4 = s3.with(digest, body.ast_digest);
    let s5 = s4.with(key, JsonView::opt_text(nonce));
    let s6 = s5.with(reason, body.ast_digest_unavailable_reason);
    law_with_get(s3, digest, body.ast_digest, digest);
    law_with_get(s4, key, JsonView::opt_text(nonce), digest);
    law_with_get(s5, reason, body.ast_digest_unavailable_reason, digest);
    law_with_get(s5, reason, body.ast_digest_unavailable_reason, key);
    law_with_get(s6, "contracts"@, body.contracts, digest);
    law_with_get(s6, "contracts"@, body.contracts, key);
}

/// Two runs whose programs were not established do not agree: receipts with different nonces
/// differ, whatever else they hold, and so do a receipt with a nonce and one without. A receipt
/// says which program it is about as its body does.
pub proof fn law_unestablished_programs_do_not_agree(
    a: BodyView,
    b: BodyView,
    m: Option<Seq<char>>,
    n: Option<Seq<char>>,
)
    requires
        m != n,
    ensures
        receipt_of(a, m) != receipt_of(b, n),
        receipt_of(a, m).at("subject"@, "ast_digest"@) == Some(a.ast_digest),
{
    lemma_receipt_keys(a, m);
    lemma_receipt_keys(b, n);
    lemma_subject_nonce(a, m);
    lemma_subject_nonce(b, n);
}

// ---------------------------------------------------------------------------
// Contracts
// ---------------------------------------------------------------------------

/// What a run without the loaded program reports in place of what it does not know.
pub const ISOLATED_RETRY: &'static str = "unavailable_isolated_cli_retry";

/// The clauses of some entries: the kind of each, which is that of the list where it names none,
/// and its text without a generated label.
pub open spec fn clauses_in(items: Seq<JsonView>, list: Seq<char>) -> Seq<(Seq<char>, Seq<char>)>
    decreases items.len(),
{
    if items.len() == 0 {
        Seq::empty()
    } else {
        let rest = clauses_in(items.drop_last(), list);
        match clause_text(items.last()) {
            Some(t) => rest.push((crate::json::text_or(items.last().text("kind"@), list), unlabelled(t))),
            None => rest,
        }
    }
}

/// The text of a clause.
pub open spec fn clause_text(item: JsonView) -> Option<Seq<char>> {
    match item.get("predicate"@) {
        Some(p) => p.text("text"@),
        None => None,
    }
}

/// The elements of a list under a key, and none where there is no list.
pub open spec fn items_under(v: JsonView, key: Seq<char>) -> Seq<JsonView> {
    match v.list(key) {
        Some(s) => s,
        None => Seq::empty(),
    }
}

/// The clauses of a contract.
pub open spec fn contract_clauses(contract: JsonView) -> Seq<(Seq<char>, Seq<char>)> {
    clauses_in(items_under(contract, "requires"@), "requires"@) + clauses_in(
        items_under(contract, "ensures"@),
        "ensures"@,
    )
}

/// The groups of behaviors under a key, each as it is written.
pub open spec fn groups_in(items: Seq<JsonView>) -> Seq<Seq<char>>
    decreases items.len(),
{
    if items.len() == 0 {
        Seq::empty()
    } else {
        let rest = groups_in(items.drop_last());
        match items.last().as_list() {
            Some(names) => if crate::reload::text_items(names).len() > 0 {
                rest.push(join_spec(crate::reload::text_items(names), ", "@))
            } else {
                rest
            },
            None => rest,
        }
    }
}

/// The texts of the clauses of a kind.
pub open spec fn texts_of_kind(clauses: Seq<(Seq<char>, Seq<char>)>, kind: Seq<char>) -> Seq<
    Seq<char>,
>
    decreases clauses.len(),
{
    if clauses.len() == 0 {
        Seq::empty()
    } else if clauses.last().0 == kind {
        texts_of_kind(clauses.drop_last(), kind).push(clauses.last().1)
    } else {
        texts_of_kind(clauses.drop_last(), kind)
    }
}

/// The kinds of some clauses.
pub open spec fn kinds_of(clauses: Seq<(Seq<char>, Seq<char>)>) -> Seq<Seq<char>> {
    clauses.map_values(|c: (Seq<char>, Seq<char>)| c.0)
}

/// A name, where there is something under it.
pub open spec fn group_name(name: Seq<char>, groups: Seq<Seq<char>>) -> Seq<Seq<char>> {
    if groups.len() > 0 {
        seq![name]
    } else {
        Seq::empty()
    }
}

/// What a contract says under a name: its groups of behaviors, or the clauses of a kind.
pub open spec fn said_under(contract: JsonView, name: Seq<char>) -> Seq<Seq<char>> {
    let groups = groups_in(items_under(contract, name));
    if (name == "complete"@ || name == "disjoint"@) && groups.len() > 0 {
        groups
    } else {
        texts_of_kind(contract_clauses(contract), name)
    }
}

/// The names under which a contract says something, in order.
pub open spec fn said_names(contract: JsonView) -> Seq<Seq<char>> {
    sorted_unique(
        kinds_of(contract_clauses(contract)) + group_name(
            "complete"@,
            groups_in(items_under(contract, "complete"@)),
        ) + group_name("disjoint"@, groups_in(items_under(contract, "disjoint"@))),
    )
}

/// What a contract says under some names.
pub open spec fn said_object(contract: JsonView, names: Seq<Seq<char>>) -> JsonView
    decreases names.len(),
{
    if names.len() == 0 {
        JsonView::object()
    } else {
        said_object(contract, names.drop_last()).with(
            names.last(),
            JsonView::strings(sorted_unique(said_under(contract, names.last()))),
        )
    }
}

/// What a receipt says of a contract, where it says anything: by kind, in order and each once. The
/// kind is the clause's own rather than that of the list it stands in, because an exit clause
/// stands among postconditions.
pub open spec fn contract_said(contract: JsonView) -> Option<JsonView> {
    if said_names(contract).len() == 0 {
        None
    } else {
        Some(said_object(contract, said_names(contract)))
    }
}

/// Clauses, as views.
pub open spec fn clause_views(v: Seq<(String, String)>) -> Seq<(Seq<char>, Seq<char>)> {
    v.map_values(|e: (String, String)| (e.0@, e.1@))
}

fn push_clauses(out: &mut Vec<(String, String)>, contract: &Json, list: &str)
    ensures
        clause_views(final(out)@) == clause_views(old(out)@) + clauses_in(
            items_under(contract@, list@),
            list@,
        ),
{
    let ghost start = clause_views(out@);
    match contract.list(list) {
        Some(items) => {
            let ghost all = models(items@);
            let mut i: usize = 0;
            assert(all.subrange(0, 0) =~= Seq::empty());
            assert(start + clauses_in(all.subrange(0, 0), list@) =~= start);
            while i < items.len()
                invariant
                    i <= items@.len(),
                    all == models(items@),
                    clause_views(out@) == start + clauses_in(all.subrange(0, i as int), list@),
                decreases items@.len() - i,
            {
                proof {
                    lemma_take_next(all, i as int);
                    assert(all[i as int] == items@[i as int]@);
                }
                let item = &items[i];
                let text = match item.get("predicate") {
                    Some(p) => p.text("text"),
                    None => None,
                };
                match text {
                    Some(t) => {
                        let kind = crate::json::str_or(item.text("kind"), list);
                        let ghost before = out@;
                        let c = (owned(kind), strip_generated_label(t));
                        out.push(c);
                        assert(clause_views(out@) =~= clause_views(before).push((c.0@, c.1@)));
                        assert(clause_views(out@) =~= start + clauses_in(
                            all.subrange(0, i as int + 1),
                            list@,
                        ));
                    },
                    None => {},
                }
                i = i + 1;
            }
            assert(all.subrange(0, i as int) =~= all);
        },
        None => {
            assert(start + clauses_in(Seq::empty(), list@) =~= start);
        },
    }
}

fn behavior_groups(contract: &Json, group: &str) -> (r: Vec<String>)
    ensures
        texts(r@) == groups_in(items_under(contract@, group@)),
{
    let mut out: Vec<String> = Vec::new();
    assert(texts(out@) =~= Seq::empty());
    match contract.list(group) {
        Some(items) => {
            let ghost all = models(items@);
            let mut i: usize = 0;
            assert(all.subrange(0, 0) =~= Seq::empty());
            while i < items.len()
                invariant
                    i <= items@.len(),
                    all == models(items@),
                    texts(out@) == groups_in(all.subrange(0, i as int)),
                decreases items@.len() - i,
            {
                proof {
                    lemma_take_next(all, i as int);
                    assert(all[i as int] == items@[i as int]@);
                }
                if items[i].as_list().is_some() {
                    let names = crate::reload::loaded_files(&items[i]);
                    assert(texts(names@).len() == names@.len());
                    if names.len() > 0 {
                        let ghost before = out@;
                        let n = join(&names, ", ");
                        out.push(n);
                        assert(texts(out@) =~= texts(before).push(n@));
                    }
                }
                i = i + 1;
            }
            assert(all.subrange(0, i as int) =~= all);
        },
        None => {},
    }
    out
}

fn clauses_of_kind(clauses: &Vec<(String, String)>, kind: &str) -> (r: Vec<String>)
    ensures
        texts(r@) == texts_of_kind(clause_views(clauses@), kind@),
{
    let ghost all = clause_views(clauses@);
    let mut out: Vec<String> = Vec::new();
    let mut i: usize = 0;
    assert(texts(out@) =~= Seq::empty());
    assert(all.subrange(0, 0) =~= Seq::empty());
    while i < clauses.len()
        invariant
            i <= clauses@.len(),
            all == clause_views(clauses@),
            texts(out@) == texts_of_kind(all.subrange(0, i as int), kind@),
        decreases clauses@.len() - i,
    {
        proof {
            lemma_take_next(all, i as int);
        }
        if same(clauses[i].0.as_str(), kind) {
            let ghost before = out@;
            let t = owned(clauses[i].1.as_str());
            out.push(t);
            assert(texts(out@) =~= texts(before).push(t@));
        }
        i = i + 1;
    }
    assert(all.subrange(0, i as int) =~= all);
    out
}

/// What a receipt says of a contract, where it says anything.
pub fn contract_snapshot(contract: &Json) -> (r: Option<Json>)
    ensures
        crate::json::opt_value(r) == contract_said(contract@),
{
    let mut clauses: Vec<(String, String)> = Vec::new();
    assert(clause_views(clauses@) =~= Seq::empty());
    push_clauses(&mut clauses, contract, "requires");
    push_clauses(&mut clauses, contract, "ensures");
    assert(clause_views(clauses@) =~= contract_clauses(contract@));
    let complete = behavior_groups(contract, "complete");
    let disjoint = behavior_groups(contract, "disjoint");
    let ghost kinds = kinds_of(contract_clauses(contract@));
    let mut names: Vec<String> = Vec::new();
    let mut i: usize = 0;
    while i < clauses.len()
        invariant
            i <= clauses@.len(),
            clause_views(clauses@) == contract_clauses(contract@),
            kinds == kinds_of(contract_clauses(contract@)),
            names@.len() == i,
            forall|k: int| 0 <= k < i ==> (#[trigger] names@[k])@ == clauses@[k].0@,
        decreases clauses@.len() - i,
    {
        names.push(owned(clauses[i].0.as_str()));
        i = i + 1;
    }
    assert(clause_views(clauses@).len() == clauses@.len());
    assert(texts(names@) =~= kinds);
    assert(texts(complete@).len() == complete@.len());
    assert(texts(disjoint@).len() == disjoint@.len());
    let ghost held = texts(names@);
    if complete.len() > 0 {
        names.push(owned("complete"));
    }
    assert(texts(names@) =~= held + group_name("complete"@, texts(complete@)));
    let ghost held = texts(names@);
    if disjoint.len() > 0 {
        names.push(owned("disjoint"));
    }
    assert(texts(names@) =~= held + group_name("disjoint"@, texts(disjoint@)));
    let names = sort_unique(&names);
    let ghost all = texts(names@);
    assert(all == said_names(contract@));
    assert(all.len() == names@.len());
    if names.len() == 0 {
        return None;
    }
    let mut out = Json::object();
    let mut k: usize = 0;
    assert(all.subrange(0, 0) =~= Seq::empty());
    while k < names.len()
        invariant
            k <= names@.len(),
            all == texts(names@),
            clause_views(clauses@) == contract_clauses(contract@),
            texts(complete@) == groups_in(items_under(contract@, "complete"@)),
            texts(disjoint@) == groups_in(items_under(contract@, "disjoint"@)),
            out@ == said_object(contract@, all.subrange(0, k as int)),
        decreases names@.len() - k,
    {
        proof {
            lemma_take_next(all, k as int);
            assert(texts(complete@).len() == complete@.len());
            assert(texts(disjoint@).len() == disjoint@.len());
        }
        let name = names[k].as_str();
        let said = if same(name, "complete") && complete.len() > 0 {
            sort_unique(&complete)
        } else if same(name, "disjoint") && disjoint.len() > 0 {
            sort_unique(&disjoint)
        } else {
            sort_unique(&clauses_of_kind(&clauses, name))
        };
        assert(texts(said@) == sorted_unique(said_under(contract@, name@)));
        out.insert(name, Json::strings(&said));
        k = k + 1;
    }
    assert(all.subrange(0, k as int) =~= all);
    Some(out)
}

/// The contract of a context, where it has one.
pub open spec fn contract_in(context: Option<JsonView>) -> Option<JsonView> {
    match context {
        Some(c) => c.at("function"@, "contract"@),
        None => None,
    }
}

/// The contracts of a receipt with one more function.
pub open spec fn with_contract(
    contracts: JsonView,
    function: Seq<char>,
    context: Option<JsonView>,
) -> JsonView {
    match contract_in(context) {
        Some(contract) => match contract_said(contract) {
            Some(said) => contracts.with(function, said),
            None => contracts,
        },
        None => contracts,
    }
}

/// The contexts of functions, as views.
pub open spec fn context_views(v: Seq<(String, Option<Json>)>) -> Seq<
    (Seq<char>, Option<JsonView>),
> {
    v.map_values(|e: (String, Option<Json>)| (e.0@, crate::json::opt_value(e.1)))
}

/// The contracts that a run proved under, by function.
pub open spec fn contracts_of(functions: Seq<(Seq<char>, Option<JsonView>)>) -> JsonView
    decreases functions.len(),
{
    if functions.len() == 0 {
        JsonView::object()
    } else {
        with_contract(
            contracts_of(functions.drop_last()),
            functions.last().0,
            functions.last().1,
        )
    }
}

/// The contracts that a run proved under, for the functions in its scope and what is known of
/// each. A run in a process of its own proves the files, and not what was injected into the loaded
/// program, so nothing is claimed for it.
pub fn proof_receipt_contracts(
    goals_status_source: &str,
    functions: &Vec<(String, Option<Json>)>,
) -> (r: Json)
    ensures
        r@ == (if goals_status_source@ == ISOLATED_RETRY@ {
            JsonView::Str(ISOLATED_RETRY@)
        } else {
            contracts_of(context_views(functions@))
        }),
{
    if same(goals_status_source, ISOLATED_RETRY) {
        return Json::str(ISOLATED_RETRY);
    }
    let ghost all = context_views(functions@);
    let mut out = Json::object();
    let mut i: usize = 0;
    assert(all.subrange(0, 0) =~= Seq::empty());
    while i < functions.len()
        invariant
            i <= functions@.len(),
            all == context_views(functions@),
            out@ == contracts_of(all.subrange(0, i as int)),
        decreases functions@.len() - i,
    {
        proof {
            lemma_take_next(all, i as int);
        }
        let (function, context) = &functions[i];
        let contract = match context {
            Some(c) => c.at("function", "contract"),
            None => None,
        };
        match contract {
            Some(c) => match contract_snapshot(c) {
                Some(said) => {
                    out.insert(function.as_str(), said);
                },
                None => {},
            },
            None => {},
        }
        i = i + 1;
    }
    assert(all.subrange(0, i as int) =~= all);
    out
}

/// The functions in the scope of a run, by its settings.
pub fn receipt_functions(wp_config: &Json) -> (r: Vec<String>)
    ensures
        texts(r@) == crate::reload::text_items(items_under(wp_config@, "functions"@)),
{
    match wp_config.get("functions") {
        Some(v) => crate::reload::loaded_files(v),
        None => {
            let none: Vec<String> = Vec::new();
            assert(texts(none@) =~= Seq::empty());
            none
        },
    }
}

// ---------------------------------------------------------------------------
// The digest of the program
// ---------------------------------------------------------------------------

/// What came of printing the program.
pub enum AstPrint {
    /// There is no process to ask.
    NoClient,
    /// It was printed, perhaps to nothing.
    Printed(String),
    /// The request failed.
    Failed(String),
}

/// What is said of the program without printing it: a run in a process of its own does not prove
/// it, and a load that failed has left an older one behind.
pub open spec fn unprinted_digest(goals_status_source: Seq<char>) -> Option<(JsonView, JsonView)> {
    if goals_status_source == ISOLATED_RETRY@ {
        Some((JsonView::Str(ISOLATED_RETRY@), JsonView::Null))
    } else if goals_status_source == "not_run_reload_failed"@ {
        Some((JsonView::Null, JsonView::Str("reload_failed"@)))
    } else {
        None
    }
}

/// The digest of the program, and the reason where there is none.
pub open spec fn printed_digest(print: AstPrint) -> (JsonView, JsonView) {
    match print {
        AstPrint::NoClient => (JsonView::Null, JsonView::Str("no_client"@)),
        AstPrint::Printed(text) => if text@.len() == 0 {
            (JsonView::Null, JsonView::Str("request_answered_empty"@))
        } else {
            (
                JsonView::Str(sha256_hex_of(encode_utf8(canonical_ast(text@)))),
                JsonView::Null,
            )
        },
        AstPrint::Failed(error) => (
            JsonView::Null,
            JsonView::Str("request_failed: "@ + error@),
        ),
    }
}

/// What is said of the program without printing it, if that is enough.
pub fn ast_digest_unprinted(goals_status_source: &str) -> (r: Option<(Json, Json)>)
    ensures
        match r {
            Some((digest, reason)) => unprinted_digest(goals_status_source@) == Some(
                (digest@, reason@),
            ),
            None => unprinted_digest(goals_status_source@) is None,
        },
{
    if same(goals_status_source, ISOLATED_RETRY) {
        Some((Json::str(ISOLATED_RETRY), Json::Null))
    } else if same(goals_status_source, "not_run_reload_failed") {
        Some((Json::Null, Json::str("reload_failed")))
    } else {
        None
    }
}

/// The digest of the program, and the reason where there is none.
pub fn proof_receipt_ast_digest(print: &AstPrint) -> (r: (Json, Json))
    ensures
        (r.0@, r.1@) == printed_digest(*print),
{
    match print {
        AstPrint::NoClient => (Json::Null, Json::str("no_client")),
        AstPrint::Printed(text) => {
            if text.as_str().is_empty() {
                (Json::Null, Json::str("request_answered_empty"))
            } else {
                let canonical = canonical_ast_for_digest(text.as_str());
                (Json::Str(sha256_hex(canonical.as_str().as_bytes())), Json::Null)
            }
        },
        AstPrint::Failed(error) => (
            Json::Null,
            Json::Str(cat2("request_failed: ", error.as_str())),
        ),
    }
}

/// A digest comes without a reason, and a reason without a digest.
pub proof fn law_digest_or_reason(print: AstPrint)
    ensures
        (printed_digest(print).0 == JsonView::Null) != (printed_digest(print).1 == JsonView::Null),
{
}

/// A receipt carries the hash of everything else in it, and nothing else of it is changed.
pub proof fn law_a_receipt_carries_its_hash(body: JsonView, key: Seq<char>)
    requires
        body is Object,
        key != POST_BODY_KEY@,
    ensures
        with_hash(body).get(POST_BODY_KEY@) == Some(JsonView::Str(hash_of(body))),
        with_hash(body).get(key) == body.get(key),
{
    let h = JsonView::Str(hash_of(body));
    crate::json::law_with_get(body, POST_BODY_KEY@, h, POST_BODY_KEY@);
    crate::json::law_with_get(body, POST_BODY_KEY@, h, key);
}

// ---------------------------------------------------------------------------
// A receipt from what a tool states
// ---------------------------------------------------------------------------

/// What a receipt is a receipt of, as a tool states it.
pub struct ProofReceiptRequest<'a> {
    pub tool: &'a str,
    pub source_files: Vec<(String, SourceRead)>,
    pub wp_config: Json,
    pub eva_config: Json,
    pub goals: &'a Vec<Json>,
    pub stable_scope: Option<&'a str>,
    pub goals_status_source: &'a str,
    pub reported: Json,
    pub properties: &'a Json,
}

/// What only the server knows of a run: the tools that are installed, the contracts as they are
/// loaded, and what the program that was analysed is.
pub struct ReceiptFacts {
    pub frama_c_version: Json,
    pub why3_provers: Json,
    pub opam_switch: Json,
    pub contracts: Json,
    pub ast_digest: Json,
    pub ast_digest_unavailable_reason: Json,
}

/// The body of the receipt that a tool asks for.
pub open spec fn requested_body(
    request: ProofReceiptRequest,
    facts: ReceiptFacts,
    scratch_prefix: Seq<char>,
) -> BodyView {
    BodyView {
        tool: request.tool@,
        source_files: receipt_sources(request.source_files@, scratch_prefix),
        ast_digest: facts.ast_digest@,
        ast_digest_unavailable_reason: facts.ast_digest_unavailable_reason@,
        contracts: facts.contracts@,
        environment: JsonView::object().with("frama_c_version"@, facts.frama_c_version@).with(
            "why3_provers"@,
            facts.why3_provers@,
        ).with("opam_switch"@, facts.opam_switch@),
        wp_config: request.wp_config@,
        eva_config: request.eva_config@,
        goals: receipt_goals(
            models(request.goals@),
            opt_text(request.stable_scope),
            request.properties@,
        ),
        goals_status_source: request.goals_status_source@,
        reported: request.reported@,
    }
}

/// The receipt that a tool asks for, with its hash.
pub fn proof_receipt(request: ProofReceiptRequest, facts: ReceiptFacts, scratch_prefix: &str) -> (r:
    Json)
    ensures
        exists|body: JsonView| #[trigger]
            is_receipt(body, requested_body(request, facts, scratch_prefix@)) && r@ == with_hash(
                body,
            ),
{
    let environment = Json::object().with("frama_c_version", facts.frama_c_version).with(
        "why3_provers",
        facts.why3_provers,
    ).with("opam_switch", facts.opam_switch);
    let body = ProofReceiptBody {
        tool: owned(request.tool),
        source_files: proof_receipt_source_files(&request.source_files, scratch_prefix),
        ast_digest: facts.ast_digest,
        ast_digest_unavailable_reason: facts.ast_digest_unavailable_reason,
        contracts: facts.contracts,
        environment,
        wp_config: request.wp_config,
        eva_config: request.eva_config,
        goals: proof_receipt_goals(request.goals, request.stable_scope, request.properties),
        goals_status_source: owned(request.goals_status_source),
        reported: request.reported,
    };
    assert(body@ == requested_body(request, facts, scratch_prefix@));
    let receipt = proof_receipt_body(body);
    assert(is_receipt(receipt@, requested_body(request, facts, scratch_prefix@)));
    proof_receipt_with_hash(receipt)
}

// ---------------------------------------------------------------------------
// What a receipt pins
// ---------------------------------------------------------------------------

proof fn lemma_row_of_a_source(path: Seq<char>, read: SourceRead)
    ensures
        source_row(path, read).text("path"@) == Some(path),
        match read {
            SourceRead::Bytes(b) => source_row(path, read).text("sha256"@) == Some(hex(sha256(b@)))
                && source_row(path, read).get("error"@) is None,
            SourceRead::Failed(e) => source_row(path, read).get("sha256"@) == Some(JsonView::Null)
                && source_row(path, read).text("error"@) == Some(e@),
        },
{
    broadcast use crate::json::group_object_reads;

    reveal_strlit("path");
    reveal_strlit("sha256");
    reveal_strlit("error");
    assert("path"@.len() == 4 && "sha256"@.len() == 6);
    assert("error"@.len() == 5);
}

/// Every file that was read has a row with the path it is reported under and the SHA-256 of its
/// bytes; one that could not be read has a row with the error and no digest; and there are no
/// other rows.
pub proof fn law_a_source_is_pinned_by_its_bytes(
    files: Seq<(String, SourceRead)>,
    scratch_prefix: Seq<char>,
    i: int,
)
    requires
        0 <= i < files.len(),
    ensures
        receipt_sources(files, scratch_prefix).len() == files.len(),
        exists|k: int|
            0 <= k < files.len() && (#[trigger] receipt_sources(files, scratch_prefix)[k]).text(
                "path"@,
            ) == Some(source_path(files[i].0@, scratch_prefix)) && match files[i].1 {
                SourceRead::Bytes(b) => receipt_sources(files, scratch_prefix)[k].text("sha256"@)
                    == Some(hex(sha256(b@))),
                SourceRead::Failed(e) => receipt_sources(files, scratch_prefix)[k].get("sha256"@)
                    == Some(JsonView::Null) && receipt_sources(files, scratch_prefix)[k].text(
                    "error"@,
                ) == Some(e@),
            },
{
    let rows = source_rows(files, scratch_prefix);
    let sorted_rows = sorted_keyed(rows);
    law_sorted_keyed(rows);
    rows.to_multiset_ensures();
    sorted_rows.to_multiset_ensures();
    assert(rows.contains(rows[i]));
    assert(sorted_rows.to_multiset().count(rows[i]) > 0);
    assert(sorted_rows.contains(rows[i]));
    let k = choose|k: int| 0 <= k < sorted_rows.len() && sorted_rows[k] == rows[i];
    let path = source_path(files[i].0@, scratch_prefix);
    lemma_row_of_a_source(path, files[i].1);
    assert(receipt_sources(files, scratch_prefix)[k] == source_row(path, files[i].1));
}

proof fn lemma_one_row_differs(a: Seq<JsonView>, b: Seq<JsonView>, i: int)
    requires
        a.len() == b.len(),
        0 <= i < a.len(),
        forall|k: int| 0 <= k < a.len() && k != i ==> #[trigger] a[k] == b[k],
        a[i] != b[i],
    ensures
        a.to_multiset() != b.to_multiset(),
{
    let rest = a.remove(i);
    assert(rest =~= b.remove(i));
    a.to_multiset_ensures();
    b.to_multiset_ensures();
    assert(a.contains(a[i]) && b.contains(b[i]));
    assert(rest.to_multiset() == a.to_multiset().remove(a[i]));
    assert(rest.to_multiset() == b.to_multiset().remove(b[i]));
    assert(a.to_multiset().count(a[i]) == rest.to_multiset().count(a[i]) + 1);
    assert(b.to_multiset().count(a[i]) == rest.to_multiset().count(a[i]));
}

/// A source that was edited is told apart: lists of files that differ only in the bytes of one of
/// them, with different SHA-256, are reported differently.
pub proof fn law_an_edited_source_is_told_apart(
    a: Seq<(String, SourceRead)>,
    b: Seq<(String, SourceRead)>,
    scratch_prefix: Seq<char>,
    i: int,
)
    requires
        a.len() == b.len(),
        0 <= i < a.len(),
        forall|k: int| 0 <= k < a.len() && k != i ==> #[trigger] a[k] == b[k],
        a[i].0 == b[i].0,
        a[i].1 is Bytes,
        b[i].1 is Bytes,
        sha256(a[i].1->Bytes_0@) != sha256(b[i].1->Bytes_0@),
    ensures
        receipt_sources(a, scratch_prefix) != receipt_sources(b, scratch_prefix),
{
    let snd = |e: (Seq<char>, JsonView)| e.1;
    let ra = source_rows(a, scratch_prefix);
    let rb = source_rows(b, scratch_prefix);
    law_sorted_keyed(ra);
    law_sorted_keyed(rb);
    let path = source_path(a[i].0@, scratch_prefix);
    lemma_row_of_a_source(path, a[i].1);
    lemma_row_of_a_source(path, b[i].1);
    if hex(sha256(a[i].1->Bytes_0@)) == hex(sha256(b[i].1->Bytes_0@)) {
        law_hexadecimal_tells_bytes_apart(
            sha256(a[i].1->Bytes_0@),
            sha256(b[i].1->Bytes_0@),
        );
    }
    let va = ra.map_values(snd);
    let vb = rb.map_values(snd);
    assert(va[i] != vb[i]);
    assert forall|k: int| 0 <= k < va.len() && k != i implies #[trigger] va[k] == vb[k] by {
        assert(a[k] == b[k]);
    }
    lemma_one_row_differs(va, vb, i);
    lemma_map_alike(sorted_keyed(ra), ra, snd);
    lemma_map_alike(sorted_keyed(rb), rb, snd);
}

/// A file is reported under its own path, but a scratch copy under its bare name: the directory of
/// one is chosen fresh on every call.
pub proof fn law_only_scratch_copies_lose_their_directory(
    base: Seq<char>,
    dir: Seq<char>,
    name: Seq<char>,
    scratch_prefix: Seq<char>,
)
    requires
        is_name(dir),
        is_name(name),
        dir != ".."@,
        name != ".."@,
    ensures
        begins(dir, scratch_prefix) ==> source_path(joined(joined(base, dir), name), scratch_prefix)
            == name,
        !begins(dir, scratch_prefix) ==> source_path(
            joined(joined(base, dir), name),
            scratch_prefix,
        ) == joined(joined(base, dir), name),
{
    law_the_last_steps_name_a_path(base, dir, name);
}

/// A receipt carries what it is about, each under its own name: the tool, the files and a hash of
/// them, the program, the contracts, the environment, the settings, the goals and what was
/// reported.
pub proof fn law_a_receipt_carries_what_it_is_about(body: BodyView, nonce: Option<Seq<char>>)
    ensures
        ({
            let r = receipt_of(body, nonce);
            &&& r.text("schema"@) == Some("frama-c-mcp.proof-receipt"@)
            &&& r.at("subject"@, "tool"@) == Some(JsonView::Str(body.tool))
            &&& r.at("subject"@, "files"@) == Some(JsonView::Array(body.source_files))
            &&& r.at("subject"@, "source_hash"@) == Some(
                JsonView::Str(
                    hex(
                        sha256(
                            encode_utf8(json_text(collected(JsonView::Array(body.source_files)))),
                        ),
                    ),
                ),
            )
            &&& r.at("subject"@, "ast_digest"@) == Some(body.ast_digest)
            &&& r.at("subject"@, "ast_digest_unavailable_reason"@) == Some(
                body.ast_digest_unavailable_reason,
            )
            &&& r.at("subject"@, "ast_digest_unavailable_nonce"@) == Some(JsonView::opt_text(nonce))
            &&& r.at("subject"@, "contracts"@) == Some(body.contracts)
            &&& r.get("environment"@) == Some(body.environment)
            &&& r.get("wp"@) == Some(body.wp_config)
            &&& r.get("eva"@) == Some(body.eva_config)
            &&& r.text("goals_status_source"@) == Some(body.goals_status_source)
            &&& r.get("goals"@) == Some(JsonView::Array(body.goals))
            &&& r.get("reported"@) == Some(body.reported)
        }),
{
    broadcast use crate::json::group_object_reads;

    reveal_strlit("schema");
    reveal_strlit("subject");
    reveal_strlit("environment");
    reveal_strlit("wp");
    reveal_strlit("eva");
    reveal_strlit("goals_status_source");
    reveal_strlit("goals");
    reveal_strlit("reported");
    assert("schema"@.len() == 6 && "subject"@.len() == 7);
    assert("environment"@.len() == 11 && "wp"@.len() == 2);
    assert("eva"@.len() == 3 && "goals_status_source"@.len() == 19);
    assert("goals"@.len() == 5 && "reported"@.len() == 8);
    reveal_strlit("tool");
    reveal_strlit("source_hash");
    reveal_strlit("files");
    reveal_strlit("ast_digest");
    reveal_strlit("ast_digest_unavailable_nonce");
    reveal_strlit("ast_digest_unavailable_reason");
    reveal_strlit("contracts");
    assert("tool"@.len() == 4 && "source_hash"@.len() == 11);
    assert("files"@.len() == 5 && "ast_digest"@.len() == 10);
    assert("ast_digest_unavailable_nonce"@.len() == 28 && "ast_digest_unavailable_reason"@.len() == 29);
    assert("contracts"@.len() == 9);
}

/// Two runs have one receipt only where they agree in all that it is about.
pub proof fn law_equal_receipts_agree_in_everything(
    a: BodyView,
    b: BodyView,
    m: Option<Seq<char>>,
    n: Option<Seq<char>>,
)
    requires
        receipt_of(a, m) == receipt_of(b, n),
    ensures
        a == b,
        m == n,
{
    law_a_receipt_carries_what_it_is_about(a, m);
    law_a_receipt_carries_what_it_is_about(b, n);
}

/// The body of a receipt is what was asked for and what was found: the sources, the goals and the
/// settings of the request, and the environment, the contracts and the program that were found.
pub proof fn law_a_receipt_is_of_its_request(
    request: ProofReceiptRequest,
    facts: ReceiptFacts,
    scratch_prefix: Seq<char>,
)
    ensures
        ({
            let b = requested_body(request, facts, scratch_prefix);
            &&& b.tool == request.tool@
            &&& b.source_files == receipt_sources(request.source_files@, scratch_prefix)
            &&& b.wp_config == request.wp_config@
            &&& b.eva_config == request.eva_config@
            &&& b.reported == request.reported@
            &&& b.goals_status_source == request.goals_status_source@
            &&& b.contracts == facts.contracts@
            &&& b.ast_digest == facts.ast_digest@
            &&& b.ast_digest_unavailable_reason == facts.ast_digest_unavailable_reason@
            &&& b.environment.get("frama_c_version"@) == Some(facts.frama_c_version@)
            &&& b.environment.get("why3_provers"@) == Some(facts.why3_provers@)
            &&& b.environment.get("opam_switch"@) == Some(facts.opam_switch@)
            &&& b.goals.len() == request.goals@.len()
        }),
{
    broadcast use crate::json::group_object_reads;

    reveal_strlit("frama_c_version");
    reveal_strlit("why3_provers");
    reveal_strlit("opam_switch");
    assert("frama_c_version"@.len() == 15 && "why3_provers"@.len() == 12);
    assert("opam_switch"@.len() == 11);
    law_receipt_goals_are_sorted(
        models(request.goals@),
        opt_text(request.stable_scope),
        request.properties@,
    );
}

/// The hash of a receipt is the SHA-256 of its text, and is put to it under `sha256`.
pub proof fn law_the_hash_is_of_the_text(body: JsonView)
    requires
        body is Object,
    ensures
        with_hash(body).text("sha256"@) == Some(hex(sha256(encode_utf8(json_text(collected(body)))))),
{
    broadcast use crate::json::group_object_reads;

}

proof fn lemma_keeps_status(goal: JsonView, stable_scope: Option<Seq<char>>, properties: JsonView)
    ensures
        identified(goal, stable_scope, properties).get("status"@) == goal.get("status"@),
        goal.text("status"@) is Some ==> identified(goal, stable_scope, properties).text(
            "normalized_status"@,
        ) == Some(normalize(goal.text("status"@)->0)),
{
    crate::goals::law_identity_keeps_the_status(goal);
    let v = with_identity(goal);
    crate::goals::law_a_property_keeps_the_status_of_its_goal(v, properties);
    let g = with_property_status(v, properties);
    let (kind, label) = wp_goal_class(g);
    let labelled = match label {
        Some(l) => g.fill("hash_label"@, JsonView::Str(l)),
        None => g,
    };
    lemma_fill_keeps(g, "hash_label"@, "status"@, label);
    lemma_fill_keeps(g, "hash_label"@, "normalized_status"@, label);
    lemma_stable_id_keeps(labelled, kind, stable_scope);
}

proof fn lemma_fill_keeps(g: JsonView, key: Seq<char>, other: Seq<char>, label: Option<Seq<char>>)
    requires
        key == "hash_label"@,
        other == "status"@ || other == "normalized_status"@,
    ensures
        label is Some ==> g.fill(key, JsonView::Str(label->0)).get(other) == g.get(other),
{
    broadcast use crate::json::group_object_reads;

    reveal_strlit("hash_label");
    reveal_strlit("status");
    reveal_strlit("normalized_status");
    assert("hash_label"@.len() == 10 && "status"@.len() == 6);
    assert("normalized_status"@.len() == 17);
}

proof fn lemma_stable_id_keeps(g: JsonView, kind: Seq<char>, scope: Option<Seq<char>>)
    ensures
        with_stable_id(g, kind, scope).get("status"@) == g.get("status"@),
        with_stable_id(g, kind, scope).get("normalized_status"@) == g.get("normalized_status"@),
{
    broadcast use crate::json::group_object_reads;

    reveal_strlit("stable_goal_id");
    reveal_strlit("from_cache");
    reveal_strlit("frama_c_goal_name");
    reveal_strlit("status");
    reveal_strlit("normalized_status");
    assert("stable_goal_id"@.len() == 14 && "from_cache"@.len() == 10);
    assert("frama_c_goal_name"@.len() == 17 && "status"@.len() == 6);
    assert("normalized_status"@.len() == 17);
    assert("frama_c_goal_name"@[0] != "normalized_status"@[0]);
}

/// The verdict that a receipt gives for a goal is the goal's own, normalized; whatever its property
/// was consolidated to.
pub proof fn law_a_receipt_gives_the_verdict_of_the_goal(
    goal: JsonView,
    stable_scope: Option<Seq<char>>,
    properties: JsonView,
    raw: Seq<char>,
)
    requires
        goal.text("status"@) == Some(raw),
    ensures
        goal_row(goal, stable_scope, properties).text("status"@) == Some(normalize(raw)),
{
    broadcast use crate::json::group_object_reads;

    reveal_strlit("stable_goal_id");
    reveal_strlit("status");
    reveal_strlit("from_cache");
    assert("stable_goal_id"@.len() == 14 && "status"@.len() == 6);
    assert("from_cache"@.len() == 10);
    lemma_keeps_status(goal, stable_scope, properties);
}

/// The digest of a program is that of its printed form, with the labels that a session draws made
/// one; where there is none, the reason is given and no digest.
pub proof fn law_a_program_is_pinned_by_its_print(text: String, error: String)
    ensures
        text@.len() > 0 ==> printed_digest(AstPrint::Printed(text)) == (
            JsonView::Str(hex(sha256(encode_utf8(canonical_ast(text@))))),
            JsonView::Null,
        ),
        text@.len() == 0 ==> printed_digest(AstPrint::Printed(text)) == (
            JsonView::Null,
            JsonView::Str("request_answered_empty"@),
        ),
        printed_digest(AstPrint::NoClient) == (JsonView::Null, JsonView::Str("no_client"@)),
        printed_digest(AstPrint::Failed(error)) == (
            JsonView::Null,
            JsonView::Str("request_failed: "@ + error@),
        ),
        unprinted_digest("not_run_reload_failed"@) == Some(
            (JsonView::Null, JsonView::Str("reload_failed"@)),
        ),
        unprinted_digest("unavailable_isolated_cli_retry"@) == Some(
            (JsonView::Str("unavailable_isolated_cli_retry"@), JsonView::Null),
        ),
{
    reveal_strlit("not_run_reload_failed");
    reveal_strlit("unavailable_isolated_cli_retry");
    assert("not_run_reload_failed"@.len() == 21 && "unavailable_isolated_cli_retry"@.len() == 30);
}

proof fn lemma_clause_is_listed(items: Seq<JsonView>, list: Seq<char>, i: int, t: Seq<char>)
    requires
        0 <= i < items.len(),
        clause_text(items[i]) == Some(t),
    ensures
        clauses_in(items, list).contains(
            (crate::json::text_or(items[i].text("kind"@), list), unlabelled(t)),
        ),
    decreases items.len(),
{
    let all = clauses_in(items, list);
    let before = clauses_in(items.drop_last(), list);
    let one = (crate::json::text_or(items[i].text("kind"@), list), unlabelled(t));
    if i == items.len() - 1 {
        assert(all[all.len() - 1] == one);
    } else {
        assert(items.drop_last()[i] == items[i]);
        lemma_clause_is_listed(items.drop_last(), list, i, t);
        let k = choose|k: int| 0 <= k < before.len() && before[k] == one;
        assert(all[k] == one);
    }
}

proof fn lemma_text_of_a_kind(clauses: Seq<(Seq<char>, Seq<char>)>, kind: Seq<char>, i: int)
    requires
        0 <= i < clauses.len(),
        clauses[i].0 == kind,
    ensures
        texts_of_kind(clauses, kind).contains(clauses[i].1),
    decreases clauses.len(),
{
    let all = texts_of_kind(clauses, kind);
    let before = texts_of_kind(clauses.drop_last(), kind);
    if i == clauses.len() - 1 {
        assert(all[all.len() - 1] == clauses[i].1);
    } else {
        assert(clauses.drop_last()[i] == clauses[i]);
        lemma_text_of_a_kind(clauses.drop_last(), kind, i);
        let k = choose|k: int| 0 <= k < before.len() && before[k] == clauses[i].1;
        assert(all[k] == clauses[i].1);
    }
}

proof fn lemma_said_object(contract: JsonView, names: Seq<Seq<char>>, i: int)
    requires
        0 <= i < names.len(),
    ensures
        said_object(contract, names) is Object,
        said_object(contract, names).get(names[i]) == Some(
            JsonView::strings(sorted_unique(said_under(contract, names[i]))),
        ),
    decreases names.len(),
{
    lemma_said_is_object(contract, names.drop_last());
    broadcast use crate::json::group_object_reads;

    if i < names.len() - 1 {
        assert(names.drop_last()[i] == names[i]);
        lemma_said_object(contract, names.drop_last(), i);
    }
}

proof fn lemma_said_is_object(contract: JsonView, names: Seq<Seq<char>>)
    ensures
        said_object(contract, names) is Object,
    decreases names.len(),
{
    if names.len() > 0 {
        lemma_said_is_object(contract, names.drop_last());
    }
}

/// Every clause that a function requires or ensures stands in the snapshot of its contract, without
/// its generated label, under the kind it has or, where it tells none, under the list it is in.
pub proof fn law_every_clause_is_in_the_snapshot(
    contract: JsonView,
    items: Seq<JsonView>,
    in_requires: bool,
    i: int,
    text: Seq<char>,
    kind: Seq<char>,
)
    requires
        0 <= i < items.len(),
        items[i].get("predicate"@) is Some,
        items[i].get("predicate"@)->0.text("text"@) == Some(text),
        in_requires ==> contract.list("requires"@) == Some(items) && kind == crate::json::text_or(
            items[i].text("kind"@),
            "requires"@,
        ),
        !in_requires ==> contract.list("ensures"@) == Some(items) && kind == crate::json::text_or(
            items[i].text("kind"@),
            "ensures"@,
        ),
        kind != "complete"@,
        kind != "disjoint"@,
    ensures
        contract_said(contract) is Some,
        contract_said(contract)->0.get(kind) is Some,
        exists|said: Seq<Seq<char>>|
            said.contains(unlabelled(text)) && contract_said(contract)->0.get(kind) == Some(
                #[trigger] JsonView::strings(said),
            ),
{
    let list = if in_requires {
        "requires"@
    } else {
        "ensures"@
    };
    lemma_clause_is_listed(items, list, i, text);
    let clauses = contract_clauses(contract);
    let first = clauses_in(items_under(contract, "requires"@), "requires"@);
    let second = clauses_in(items_under(contract, "ensures"@), "ensures"@);
    let one = (kind, unlabelled(text));
    let j = if in_requires {
        choose|j: int| 0 <= j < first.len() && first[j] == one
    } else {
        first.len() + choose|j: int| 0 <= j < second.len() && second[j] == one
    };
    assert(clauses[j] == one);
    lemma_text_of_a_kind(clauses, kind, j);
    let raw = kinds_of(clauses) + group_name(
        "complete"@,
        groups_in(items_under(contract, "complete"@)),
    ) + group_name("disjoint"@, groups_in(items_under(contract, "disjoint"@)));
    assert(raw[j] == kind);
    law_sorted_unique(raw);
    assert(raw.contains(kind));
    let names = said_names(contract);
    assert(names.contains(kind));
    let k = choose|k: int| 0 <= k < names.len() && names[k] == kind;
    lemma_said_object(contract, names, k);
    law_sorted_unique(said_under(contract, kind));
    let said = sorted_unique(said_under(contract, kind));
    assert(said.contains(unlabelled(text)));
    assert(contract_said(contract)->0.get(kind) == Some(JsonView::strings(said)));
}

/// The contract of every function that has one stands under the name of the function; a function
/// without one is not named.
pub proof fn law_contracts_stand_under_their_function(
    functions: Seq<(Seq<char>, Option<JsonView>)>,
    function: Seq<char>,
    context: JsonView,
    contract: JsonView,
)
    requires
        context.at("function"@, "contract"@) == Some(contract),
    ensures
        contract_said(contract) is Some ==> contracts_of(
            functions.push((function, Some(context))),
        ).get(function) == contract_said(contract),
        contract_said(contract) is None ==> contracts_of(functions.push((function, Some(context))))
            == contracts_of(functions),
        contracts_of(functions.push((function, None))) == contracts_of(functions),
{
    broadcast use crate::json::group_object_reads;

    lemma_contracts_are_an_object(functions);
    assert(functions.push((function, Some(context))).drop_last() =~= functions);
    assert(functions.push((function, None)).drop_last() =~= functions);
}

proof fn lemma_contracts_are_an_object(functions: Seq<(Seq<char>, Option<JsonView>)>)
    ensures
        contracts_of(functions) is Object,
    decreases functions.len(),
{
    if functions.len() > 0 {
        lemma_contracts_are_an_object(functions.drop_last());
    }
}

proof fn lemma_counts_by_name(names: Seq<Seq<char>>, all: Seq<Seq<char>>, x: Seq<char>)
    ensures
        counts_by_name(names, all) is Object,
        names.contains(x) ==> counts_by_name(names, all).get(x) == Some(
            JsonView::num(count_of(all, x)),
        ),
        !names.contains(x) ==> counts_by_name(names, all).get(x) is None,
    decreases names.len(),
{
    broadcast use crate::json::group_object_reads;

    if names.len() > 0 {
        let before = names.drop_last();
        lemma_counts_by_name(before, all, x);
        if names.contains(x) && names.last() != x {
            let k = choose|k: int| 0 <= k < names.len() && names[k] == x;
            assert(before[k] == x);
        }
        if before.contains(x) {
            let k = choose|k: int| 0 <= k < before.len() && before[k] == x;
            assert(names[k] == x);
        }
        if names.last() == x {
            assert(names[names.len() - 1] == x);
        }
    }
}

/// The gaps are summed up by their number, by how often each code comes, and by a digest; one more
/// gap counts once under its code.
pub proof fn law_gaps_are_counted_by_their_code(
    gaps: Seq<JsonView>,
    gap: JsonView,
    digest: Seq<char>,
    code: Seq<char>,
)
    ensures
        gap_summary(gaps, digest).get("count"@) == Some(JsonView::num(gaps.len() as int)),
        gap_summary(gaps, digest).text("sha256"@) == Some(digest),
        gap_codes(gaps).contains(code) ==> gap_summary(gaps, digest).at("codes"@, code) == Some(
            JsonView::num(count_of(gap_codes(gaps), code)),
        ),
        !gap_codes(gaps).contains(code) ==> gap_summary(gaps, digest).at("codes"@, code) is None,
        count_of(gap_codes(gaps.push(gap)), gap_code(gap)) == count_of(
            gap_codes(gaps),
            gap_code(gap),
        ) + 1,
        code != gap_code(gap) ==> count_of(gap_codes(gaps.push(gap)), code) == count_of(
            gap_codes(gaps),
            code,
        ),
{
    broadcast use crate::json::group_object_reads;

    reveal_strlit("count");
    reveal_strlit("codes");
    reveal_strlit("sha256");
    assert("count"@.len() == 5 && "codes"@.len() == 5);
    assert("sha256"@.len() == 6);
    assert("count"@[2] != "codes"@[2]);
    let codes = gap_codes(gaps);
    law_sorted_unique(codes);
    lemma_counts_by_name(sorted_unique(codes), codes, code);
    assert(gap_codes(gaps.push(gap)).drop_last() =~= codes);
    assert(gap_codes(gaps.push(gap)).last() == gap_code(gap));
}

} // verus!
