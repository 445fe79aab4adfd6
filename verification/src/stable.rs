//! Names for goals that survive a reload.

use crate::goals::{goal_identity, wp_goal_identity};
use crate::json::{collected, opt_json, str_or, text_in, text_or, texts_of, Json, JsonView};
use crate::outside::{capture_group, json_text, regex_group, sha256, sha256_digest};
use crate::text::{
    all_digits, ascii_lower, cat2, cat5, chars_of, contains, decimal, decimal_text, digit,
    lemma_last_at, occurs, opt_string, opt_text, owned, rfind_spec, rsplit_once, rsplit_once_spec,
    stands_at, text_between, to_ascii_lowercase,
};
use crate::verdicts::{on_one_line, one_line};
use vstd::prelude::*;
use vstd::string::*;
use vstd::utf8::encode_utf8;

verus! {

// ---------------------------------------------------------------------------
// Digests
// ---------------------------------------------------------------------------

/// The hexadecimal digit for a number below sixteen.
pub open spec fn hex_digit(n: int) -> char {
    if n < 10 {
        (n + '0' as int) as char
    } else {
        (n - 10 + 'a' as int) as char
    }
}

/// Bytes in hexadecimal, two small digits each.
pub open spec fn hex(bytes: Seq<u8>) -> Seq<char> {
    Seq::new(
        2 * bytes.len(),
        |i: int|
            if i % 2 == 0 {
                hex_digit(bytes[i / 2] as int / 16)
            } else {
                hex_digit(bytes[i / 2] as int % 16)
            },
    )
}

fn hex_char(n: u8) -> (r: char)
    requires
        n < 16,
    ensures
        r == hex_digit(n as int),
{
    if n < 10 {
        (n + 48) as char
    } else {
        (n - 10 + 97) as char
    }
}

/// Bytes in hexadecimal, two small digits each.
pub fn hex_text(bytes: &Vec<u8>) -> (r: String)
    ensures
        r@ == hex(bytes@),
{
    let mut out = String::new();
    let mut i: usize = 0;
    while i < bytes.len()
        invariant
            i <= bytes@.len(),
            out@ =~= hex(bytes@).subrange(0, 2 * i),
        decreases bytes@.len() - i,
    {
        let b = bytes[i];
        let ghost before = out@;
        out.push(hex_char(b / 16));
        out.push(hex_char(b % 16));
        proof {
            let h = hex(bytes@);
            assert((2 * i) / 2 == i && (2 * i) % 2 == 0);
            assert((2 * i + 1) / 2 == i && (2 * i + 1) % 2 == 1);
            assert(h[2 * i] == hex_digit(b as int / 16));
            assert(h[2 * i + 1] == hex_digit(b as int % 16));
            assert(h.subrange(0, 2 * (i + 1)) =~= h.subrange(0, 2 * i).push(h[2 * i]).push(
                h[2 * i + 1],
            ));
        }
        i = i + 1;
    }
    assert(hex(bytes@).subrange(0, 2 * i) =~= hex(bytes@));
    out
}

/// The SHA-256 digest of some bytes, in hexadecimal.
pub open spec fn sha256_hex_of(bytes: Seq<u8>) -> Seq<char> {
    hex(sha256(bytes))
}

/// The SHA-256 digest of some bytes, in hexadecimal.
pub fn sha256_hex(bytes: &[u8]) -> (r: String)
    ensures
        r@ == sha256_hex_of(bytes@),
        r@.len() == 64,
{
    let digest = sha256_digest(bytes);
    hex_text(&digest)
}

/// The first `n` characters of a text, or all of them.
pub open spec fn prefix(s: Seq<char>, n: int) -> Seq<char> {
    if s.len() <= n {
        s
    } else {
        s.subrange(0, n)
    }
}

/// The first `n` characters of a text, or all of them.
pub fn prefix_text(s: &str, n: usize) -> (r: String)
    ensures
        r@ == prefix(s@, n as int),
{
    let cs = chars_of(s);
    if cs.len() <= n {
        owned(s)
    } else {
        text_between(&cs, 0, n)
    }
}

// ---------------------------------------------------------------------------
// Goal kinds
// ---------------------------------------------------------------------------

/// The pattern of a generated label: a clause tag and eight hexadecimal digits.
pub const LABEL_PATTERN: &'static str =
    "\\b((?:re|en|as|li|la|lv|at|an)_[0-9a-f]{8})(?:\\b|_)";

/// Whether any of the words of a list occurs in a text.
pub open spec fn mentions(t: Seq<char>, words: Seq<Seq<char>>) -> bool
    decreases words.len(),
{
    if words.len() == 0 {
        false
    } else {
        mentions(t, words.drop_last()) || occurs(t, words.last())
    }
}

/// The kind of the runtime-error check that a goal's name shows it to be.
pub open spec fn rte_kind_of(n: Seq<char>) -> Option<Seq<char>> {
    if occurs(n, "signed_overflow"@) || occurs(n, "unsigned_overflow"@) || occurs(
        n,
        "integer_overflow"@,
    ) || occurs(n, "downcast"@) {
        Some("rte_overflow"@)
    } else if occurs(n, "index_in_bound"@) || occurs(n, "index_bound"@) || occurs(
        n,
        "array_bound"@,
    ) {
        Some("rte_bound"@)
    } else if occurs(n, "division_by_zero"@) || occurs(n, "div_by_zero"@) || occurs(n, "modulo"@) {
        Some("rte_division"@)
    } else if occurs(n, "mem_access"@) || occurs(n, "initialization"@) || occurs(n, "dangling"@)
        || occurs(n, "pointer_validity"@) {
        Some("rte_pointer"@)
    } else if occurs(n, "shift"@) {
        Some("rte_shift"@)
    } else {
        None
    }
}

/// The kind of a goal, and the label that its name carries.
pub open spec fn goal_class(name: Seq<char>, label: Option<Seq<char>>) -> (
    Seq<char>,
    Option<Seq<char>>,
) {
    let n = ascii_lower(name);
    match rte_kind_of(n) {
        Some(kind) => (kind, None),
        None => match label {
            Some(l) => ("spec"@, Some(l)),
            None => if occurs(n, "assertion"@) || occurs(n, "user assert"@) {
                ("user_assert"@, None)
            } else {
                ("spec"@, None)
            },
        },
    }
}

/// The kind of a goal by its name, given the label found in it: a runtime-error check by what WP
/// calls it, a clause that carries a generated label, an assertion, or another clause.
pub fn classify_goal_name(name: &str, label: Option<String>) -> (r: (String, Option<String>))
    ensures
        (r.0@, opt_string(r.1)) == goal_class(name@, opt_string(label)),
{
    let lower = to_ascii_lowercase(name);
    let n = lower.as_str();
    if contains(n, "signed_overflow") || contains(n, "unsigned_overflow") || contains(
        n,
        "integer_overflow",
    ) || contains(n, "downcast") {
        return (owned("rte_overflow"), None);
    }
    if contains(n, "index_in_bound") || contains(n, "index_bound") || contains(n, "array_bound") {
        return (owned("rte_bound"), None);
    }
    if contains(n, "division_by_zero") || contains(n, "div_by_zero") || contains(n, "modulo") {
        return (owned("rte_division"), None);
    }
    if contains(n, "mem_access") || contains(n, "initialization") || contains(n, "dangling")
        || contains(n, "pointer_validity") {
        return (owned("rte_pointer"), None);
    }
    if contains(n, "shift") {
        return (owned("rte_shift"), None);
    }
    match label {
        Some(l) => (owned("spec"), Some(l)),
        None => if contains(n, "assertion") || contains(n, "user assert") {
            (owned("user_assert"), None)
        } else {
            (owned("spec"), None)
        },
    }
}

/// The name of a goal.
pub open spec fn goal_name(goal: JsonView) -> Seq<char> {
    text_or(goal.text("name"@), ""@)
}

/// The kind of a goal, and the label that its name carries, as the label pattern finds it.
pub open spec fn wp_goal_class(goal: JsonView) -> (Seq<char>, Option<Seq<char>>) {
    goal_class(goal_name(goal), regex_group(LABEL_PATTERN@, goal_name(goal), 1))
}

/// The kind of a goal, and the label that its name carries.
pub fn classify_wp_goal(goal: &Json) -> (r: (String, Option<String>))
    ensures
        (r.0@, opt_string(r.1)) == wp_goal_class(goal@),
{
    let name = str_or(goal.text("name"), "");
    let label = capture_group(LABEL_PATTERN, name, 1);
    classify_goal_name(name, label)
}

// ---------------------------------------------------------------------------
// Stable identifiers
// ---------------------------------------------------------------------------

/// A field as it enters a stable identifier: a text on one line, anything else as JSON.
pub open spec fn stable_text(value: Option<JsonView>) -> Seq<char> {
    match value {
        Some(JsonView::Str(s)) => one_line(s),
        Some(v) => json_text(collected(v)),
        None => ""@,
    }
}

/// A field as it enters a stable identifier.
pub fn normalize_stable_goal_text(value: Option<&Json>) -> (r: String)
    ensures
        r@ == stable_text(opt_json(value)),
{
    match value {
        Some(v) => match v.as_text() {
            Some(s) => on_one_line(s),
            None => v.to_text(),
        },
        None => owned(""),
    }
}

/// Where a goal stands, under the first of three fields that it has.
pub open spec fn goal_location(goal: JsonView) -> Option<JsonView> {
    goal.or_get(goal.or_get(goal.get("source_location"@), "source"@), "loc"@)
}

/// Where a goal stands, under the first of three fields that it has.
pub fn location_of_goal(goal: &Json) -> (r: Option<&Json>)
    ensures
        opt_json(r) == goal_location(goal@),
{
    goal.or_get(goal.or_get(goal.get("source_location"), "source"), "loc")
}

/// The file of a location.
pub open spec fn location_file(loc: Option<JsonView>) -> Option<Seq<char>> {
    match loc {
        Some(l) => texts_of(l.or_get(l.get("file"@), "base"@)),
        None => None,
    }
}

/// The file of a location.
pub fn file_of_location(loc: Option<&Json>) -> (r: Option<&str>)
    ensures
        opt_text(r) == location_file(opt_json(loc)),
{
    match loc {
        Some(l) => text_in(l.or_get(l.get("file"), "base")),
        None => None,
    }
}

/// A number of a location.
pub open spec fn location_number(loc: Option<JsonView>, key: Seq<char>) -> Option<int> {
    match loc {
        Some(l) => l.nat_at(key),
        None => None,
    }
}

/// A number of a location.
pub fn number_of_location(loc: Option<&Json>, key: &str) -> (r: Option<u64>)
    ensures
        crate::markers::line_view(r) == location_number(opt_json(loc), key@),
{
    match loc {
        Some(l) => l.nat_at(key),
        None => None,
    }
}

/// A number in decimal, or nothing.
pub open spec fn opt_decimal(o: Option<int>) -> Seq<char> {
    match o {
        Some(n) => decimal(n as nat),
        None => ""@,
    }
}

/// A number in decimal, or nothing.
pub fn opt_decimal_text(o: Option<u64>) -> (r: String)
    ensures
        r@ == opt_decimal(crate::markers::line_view(o)),
{
    match o {
        Some(n) => decimal_text(n),
        None => owned(""),
    }
}

/// Where a goal stands, as file, line and column.
pub open spec fn source_key(goal: JsonView) -> Seq<char> {
    let loc = goal_location(goal);
    text_or(location_file(loc), ""@) + ":"@ + opt_decimal(location_number(loc, "line"@)) + ":"@
        + opt_decimal(location_number(loc, "col"@))
}

/// Where a goal stands, as file, line and column.
pub fn stable_goal_source_key(goal: &Json) -> (r: String)
    ensures
        r@ == source_key(goal@),
{
    let loc = location_of_goal(goal);
    let file = str_or(file_of_location(loc), "");
    let line = opt_decimal_text(number_of_location(loc, "line"));
    let col = opt_decimal_text(number_of_location(loc, "col"));
    cat5(file, ":", line.as_str(), ":", col.as_str())
}

/// The `_partN` tail of a goal's identity, which tells the halves of a split obligation apart.
pub open spec fn part_key(goal: JsonView) -> Seq<char> {
    match rsplit_once_spec(text_or(goal_identity(goal), ""@), "_part"@) {
        Some((head, digits)) => if digits.len() > 0 && all_digits(digits) {
            "_part"@ + digits
        } else {
            ""@
        },
        None => ""@,
    }
}

/// Whether a text is made of digits and not empty.
pub fn is_number(s: &str) -> (r: bool)
    ensures
        r == (s@.len() > 0 && all_digits(s@)),
{
    let cs = chars_of(s);
    let mut i: usize = 0;
    while i < cs.len()
        invariant
            cs@ == s@,
            i <= cs@.len(),
            forall|k: int| 0 <= k < i ==> crate::text::is_digit(#[trigger] s@[k]),
        decreases cs@.len() - i,
    {
        if !digit(cs[i]) {
            assert(!crate::text::is_digit(s@[i as int]));
            return false;
        }
        i = i + 1;
    }
    cs.len() > 0
}

/// The `_partN` tail of a goal's identity. The rest of the identity stays out: WP appends a
/// per-session counter to it on every reload.
pub fn stable_goal_part_key(goal: &Json) -> (r: String)
    ensures
        r@ == part_key(goal@),
{
    match rsplit_once(str_or(wp_goal_identity(goal), ""), "_part") {
        Some((_, digits)) => if is_number(digits.as_str()) {
            cat2("_part", digits.as_str())
        } else {
            owned("")
        },
        None => owned(""),
    }
}

/// The name of a goal, which carries the sub-kind that WP proves separately for one clause.
pub fn stable_goal_name_key(goal: &Json) -> (r: String)
    ensures
        r@ == stable_text(goal@.get("name"@)),
{
    normalize_stable_goal_text(goal.get("name"))
}

/// What a goal proves, under the first of four fields that it has.
pub open spec fn predicate_key(goal: JsonView) -> Seq<char> {
    stable_text(
        goal.or_get(
            goal.or_get(goal.or_get(goal.get("predicate"@), "descr"@), "goal"@),
            "name"@,
        ),
    )
}

/// What a goal proves, under the first of four fields that it has.
pub fn stable_goal_predicate_key(goal: &Json) -> (r: String)
    ensures
        r@ == predicate_key(goal@),
{
    normalize_stable_goal_text(
        goal.or_get(goal.or_get(goal.or_get(goal.get("predicate"), "descr"), "goal"), "name"),
    )
}

/// The function a goal belongs to: its name before the markers, which a reload reallocates.
pub open spec fn goal_owner(goal: JsonView) -> Option<Seq<char>> {
    texts_of(goal.or_get(goal.or_get(goal.get("fct"@), "scope"@), "function_marker"@))
}

/// The function a goal belongs to.
pub fn owner_of_goal(goal: &Json) -> (r: Option<&str>)
    ensures
        opt_text(r) == goal_owner(goal@),
{
    text_in(goal.or_get(goal.or_get(goal.get("fct"), "scope"), "function_marker"))
}

/// Everything that enters the identifier of an unlabelled goal.
pub open spec fn identity_payload(
    goal: JsonView,
    goal_kind: Seq<char>,
    stable_scope: Option<Seq<char>>,
) -> JsonView {
    JsonView::object().with(
        "scope"@,
        JsonView::Str(
            match stable_scope {
                Some(s) => s,
                None => text_or(goal_owner(goal), ""@),
            },
        ),
    ).with("goal_kind"@, JsonView::Str(goal_kind)).with(
        "source_location"@,
        JsonView::Str(source_key(goal)),
    ).with("predicate"@, JsonView::Str(predicate_key(goal))).with(
        "name"@,
        JsonView::Str(stable_text(goal.get("name"@))),
    ).with("part"@, JsonView::Str(part_key(goal)))
}

/// The identifier that a digest gives.
pub open spec fn id_of_digest(digest: Seq<char>) -> Seq<char> {
    "sg_"@ + prefix(digest, 16)
}

/// The identifier that a digest gives.
pub fn stable_id_of_digest(digest: &str) -> (r: String)
    ensures
        r@ == id_of_digest(digest@),
{
    cat2("sg_", prefix_text(digest, 16).as_str())
}

/// The name of a goal that survives a reload: its label or, without one, a digest of what it is.
pub open spec fn stable_id(
    goal: JsonView,
    goal_kind: Seq<char>,
    stable_scope: Option<Seq<char>>,
) -> Seq<char> {
    match goal.text("hash_label"@) {
        Some(label) => label,
        None => id_of_digest(
            sha256_hex_of(
                encode_utf8(
                    json_text(collected(identity_payload(goal, goal_kind, stable_scope))),
                ),
            ),
        ),
    }
}

/// The name of a goal that survives a reload.
pub fn stable_goal_id_for(goal: &Json, goal_kind: &str, stable_scope: Option<&str>) -> (r: String)
    ensures
        r@ == stable_id(goal@, goal_kind@, opt_text(stable_scope)),
{
    match goal.text("hash_label") {
        Some(label) => {
            return owned(label);
        },
        None => {},
    }
    let scope = match stable_scope {
        Some(s) => owned(s),
        None => owned(str_or(owner_of_goal(goal), "")),
    };
    let payload = Json::object().with("scope", Json::Str(scope)).with(
        "goal_kind",
        Json::str(goal_kind),
    ).with("source_location", Json::Str(stable_goal_source_key(goal))).with(
        "predicate",
        Json::Str(stable_goal_predicate_key(goal)),
    ).with("name", Json::Str(stable_goal_name_key(goal))).with(
        "part",
        Json::Str(stable_goal_part_key(goal)),
    );
    let text = payload.to_text();
    let digest = sha256_hex(text.as_str().as_bytes());
    stable_id_of_digest(digest.as_str())
}

/// Whether WP replayed a goal's verdict from its cache.
pub open spec fn from_cache(goal: JsonView) -> bool {
    match goal.at("stats"@, "summary"@) {
        Some(v) => match v.as_text() {
            Some(s) => occurs(s, "(Cached)"@),
            None => false,
        },
        None => false,
    }
}

/// Whether WP replayed this goal's verdict from its cache instead of proving it in this run. The
/// only signal is a word in the summary of its statistics.
pub fn goal_is_from_cache(goal: &Json) -> (r: bool)
    ensures
        r == from_cache(goal@),
{
    match text_in(goal.at("stats", "summary")) {
        Some(s) => contains(s, "(Cached)"),
        None => false,
    }
}

/// A goal with its stable name, where its verdict came from, and Frama-C's name for it.
pub open spec fn with_stable_id(
    goal: JsonView,
    goal_kind: Seq<char>,
    stable_scope: Option<Seq<char>>,
) -> JsonView {
    let g = goal.fill("stable_goal_id"@, JsonView::Str(stable_id(goal, goal_kind, stable_scope))).fill(
        "from_cache"@,
        JsonView::Bool(from_cache(goal)),
    );
    match g.get("name"@) {
        Some(name) => g.fill("frama_c_goal_name"@, name),
        None => g,
    }
}

/// Fills in a goal's stable name, where its verdict came from, and Frama-C's name for it.
pub fn enrich_goal_stable_id(goal: &mut Json, goal_kind: &str, stable_scope: Option<&str>)
    ensures
        final(goal)@ == with_stable_id(old(goal)@, goal_kind@, opt_text(stable_scope)),
{
    let id = stable_goal_id_for(goal, goal_kind, stable_scope);
    let cached: bool = goal_is_from_cache(goal);
    let mut me = Json::Null;
    core::mem::swap(goal, &mut me);
    let me = me.fill("stable_goal_id", Json::Str(id)).fill("from_cache", Json::Bool(cached));
    let name = match me.get("name") {
        Some(name) => Some(name.copy()),
        None => None,
    };
    let mut next = match name {
        Some(name) => me.fill("frama_c_goal_name", name),
        None => me,
    };
    core::mem::swap(goal, &mut next);
}

/// A goal with what it rests on, its kind, its label and its stable name.
pub open spec fn finished(goal: JsonView, goals: JsonView, stable_scope: Option<Seq<char>>) -> JsonView {
    let g = crate::goals::with_goal_dependencies(goal, goals);
    let class = wp_goal_class(g);
    let kinded = g.with("goal_kind"@, JsonView::Str(class.0));
    let labelled = match class.1 {
        Some(label) => kinded.with("hash_label"@, JsonView::Str(label)),
        None => kinded,
    };
    with_stable_id(labelled, class.0, stable_scope)
}

/// Finishes one fetched goal: dependencies, kind, label, stable name, in that order. The label
/// comes before the name because a labelled goal is named by its label.
pub fn finish_goal(goal: &mut Json, goals_by_marker: &Json, stable_scope: Option<&str>)
    ensures
        final(goal)@ == finished(old(goal)@, goals_by_marker@, opt_text(stable_scope)),
{
    crate::goals::enrich_goal_with_goal_dependencies(goal, goals_by_marker);
    let (kind, label) = classify_wp_goal(goal);
    goal.insert("goal_kind", Json::str(kind.as_str()));
    match &label {
        Some(l) => {
            goal.insert("hash_label", Json::str(l.as_str()));
        },
        None => {},
    }
    enrich_goal_stable_id(goal, kind.as_str(), stable_scope);
}

/// A labelled goal is named by its label, whatever scope a caller passes.
pub proof fn law_label_is_the_stable_id(
    goal: JsonView,
    goal_kind: Seq<char>,
    scope: Option<Seq<char>>,
    label: Seq<char>,
)
    requires
        goal.text("hash_label"@) == Some(label),
    ensures
        stable_id(goal, goal_kind, scope) == label,
{
}

/// Whether two goals are taken to belong to one function: a scope is given, or both have one text
/// under `fct`, which is read before the markers that a reload reallocates.
pub open spec fn one_owner(a: JsonView, b: JsonView, scope: Option<Seq<char>>) -> bool {
    scope is Some || (a.get("fct"@) is Some && b.get("fct"@) is Some && texts_of(a.get("fct"@))
        == texts_of(b.get("fct"@)))
}

/// The name of an unlabelled goal depends neither on its markers nor on the counter in its
/// identity: goals that agree in function, place, predicate, name and part share it.
pub proof fn law_stable_id_ignores_markers(
    a: JsonView,
    b: JsonView,
    goal_kind: Seq<char>,
    scope: Option<Seq<char>>,
)
    requires
        a.text("hash_label"@) is None,
        b.text("hash_label"@) is None,
        one_owner(a, b, scope),
        source_key(a) == source_key(b),
        predicate_key(a) == predicate_key(b),
        stable_text(a.get("name"@)) == stable_text(b.get("name"@)),
        part_key(a) == part_key(b),
    ensures
        stable_id(a, goal_kind, scope) == stable_id(b, goal_kind, scope),
{
    assert(scope is None ==> goal_owner(a) == goal_owner(b));
}

/// Of an identity with a part at its end, only that part counts: whatever stands before it, such
/// as a counter, does not. Of one that names no part, nothing counts.
pub proof fn law_what_precedes_the_part_does_not_count(
    goal: JsonView,
    stem: Seq<char>,
    number: Seq<char>,
)
    ensures
        number.len() > 0 && all_digits(number) && goal_identity(goal) == Some(
            stem + "_part"@ + number,
        ) ==> part_key(goal) == "_part"@ + number,
        goal_identity(goal) == Some(stem) && !occurs(stem, "_part"@) ==> part_key(goal) == ""@,
        goal_identity(goal) is None ==> part_key(goal) == ""@,
{
    reveal_strlit("_part");
    reveal_strlit("");
    let sep = "_part"@;
    assert(sep.len() == 5);
    if number.len() > 0 && all_digits(number) && goal_identity(goal) == Some(stem + sep + number) {
        let all = stem + sep + number;
        let at = stem.len() as int;
        assert(all.subrange(at, at + 5) =~= sep);
        assert forall|j: int| at < j implies !stands_at(all, sep, j) by {
            if stands_at(all, sep, j) {
                assert(all.subrange(j, j + 5)[0] == all[j]);
                if j < at + 5 {
                    assert(all[j] == sep[j - at]);
                } else {
                    assert(all[j] == number[j - at - 5]);
                    assert(crate::text::is_digit(number[j - at - 5]));
                }
            }
        }
        lemma_last_at(all, sep, at);
        assert(all.subrange(at + 5, all.len() as int) =~= number);
    }
    if goal_identity(goal) == Some(stem) && !occurs(stem, sep) {
        assert(rfind_spec(stem, sep) is None);
    }
    if goal_identity(goal) is None {
        assert forall|i: int| !stands_at(""@, sep, i) by {}
        assert(rfind_spec(""@, sep) is None);
    }
}

/// The name of an unlabelled goal survives that its identity is numbered anew before the part.
pub proof fn law_stable_id_survives_renumbering(
    a: JsonView,
    b: JsonView,
    goal_kind: Seq<char>,
    scope: Option<Seq<char>>,
    stem: Seq<char>,
    renumbered: Seq<char>,
    number: Seq<char>,
)
    requires
        a.text("hash_label"@) is None,
        b.text("hash_label"@) is None,
        one_owner(a, b, scope),
        source_key(a) == source_key(b),
        predicate_key(a) == predicate_key(b),
        stable_text(a.get("name"@)) == stable_text(b.get("name"@)),
        number.len() > 0,
        all_digits(number),
        goal_identity(a) == Some(stem + "_part"@ + number),
        goal_identity(b) == Some(renumbered + "_part"@ + number),
    ensures
        stable_id(a, goal_kind, scope) == stable_id(b, goal_kind, scope),
{
    law_what_precedes_the_part_does_not_count(a, stem, number);
    law_what_precedes_the_part_does_not_count(b, renumbered, number);
    law_stable_id_ignores_markers(a, b, goal_kind, scope);
}

/// Different bytes are written differently in hexadecimal.
pub proof fn law_hexadecimal_tells_bytes_apart(a: Seq<u8>, b: Seq<u8>)
    requires
        hex(a) == hex(b),
    ensures
        a == b,
{
    assert(hex(a).len() == 2 * a.len() && hex(b).len() == 2 * b.len());
    assert forall|i: int| 0 <= i < a.len() implies a[i] == b[i] by {
        assert(hex(a)[2 * i] == hex_digit(a[i] as int / 16)) by {
            assert((2 * i) / 2 == i && (2 * i) % 2 == 0);
        }
        assert(hex(b)[2 * i] == hex_digit(b[i] as int / 16)) by {
            assert((2 * i) / 2 == i && (2 * i) % 2 == 0);
        }
        assert(hex(a)[2 * i + 1] == hex_digit(a[i] as int % 16)) by {
            assert((2 * i + 1) / 2 == i && (2 * i + 1) % 2 == 1);
        }
        assert(hex(b)[2 * i + 1] == hex_digit(b[i] as int % 16)) by {
            assert((2 * i + 1) / 2 == i && (2 * i + 1) % 2 == 1);
        }
    }
    assert(a =~= b);
}

/// The kind of a goal is told by its name, in any case: which runtime error it guards against, else
/// whether it is an assertion of the user, else that it belongs to the specification; only what is
/// no runtime check keeps a label.
pub proof fn law_the_name_tells_the_kind(name: Seq<char>, label: Option<Seq<char>>)
    ensures
        ({
            let n = ascii_lower(name);
            let (kind, kept) = goal_class(name, label);
            let rte = occurs(n, "signed_overflow"@) || occurs(n, "unsigned_overflow"@) || occurs(n, "integer_overflow"@) || occurs(n, "downcast"@) || occurs(n, "index_in_bound"@) || occurs(n, "index_bound"@) || occurs(n, "array_bound"@) || occurs(n, "division_by_zero"@) || occurs(n, "div_by_zero"@) || occurs(n, "modulo"@) || occurs(n, "mem_access"@) || occurs(n, "initialization"@) || occurs(n, "dangling"@) || occurs(n, "pointer_validity"@) || occurs(n, "shift"@);
            &&& occurs(n, "signed_overflow"@) || occurs(n, "unsigned_overflow"@) || occurs(n, "integer_overflow"@) || occurs(n, "downcast"@) ==> kind == "rte_overflow"@
            &&& !occurs(n, "signed_overflow"@) && !occurs(n, "unsigned_overflow"@) && !occurs(n, "integer_overflow"@) && !occurs(n, "downcast"@) && (occurs(n, "index_in_bound"@) || occurs(n, "index_bound"@) || occurs(n, "array_bound"@)) ==> kind == "rte_bound"@
            &&& !occurs(n, "signed_overflow"@) && !occurs(n, "unsigned_overflow"@) && !occurs(n, "integer_overflow"@) && !occurs(n, "downcast"@) && !occurs(n, "index_in_bound"@) && !occurs(n, "index_bound"@) && !occurs(n, "array_bound"@) && (occurs(n, "division_by_zero"@) || occurs(n, "div_by_zero"@) || occurs(n, "modulo"@)) ==> kind == "rte_division"@
            &&& !occurs(n, "signed_overflow"@) && !occurs(n, "unsigned_overflow"@) && !occurs(n, "integer_overflow"@) && !occurs(n, "downcast"@) && !occurs(n, "index_in_bound"@) && !occurs(n, "index_bound"@) && !occurs(n, "array_bound"@) && !occurs(n, "division_by_zero"@) && !occurs(n, "div_by_zero"@) && !occurs(n, "modulo"@) && (occurs(n, "mem_access"@) || occurs(n, "initialization"@) || occurs(n, "dangling"@) || occurs(n, "pointer_validity"@)) ==> kind == "rte_pointer"@
            &&& !occurs(n, "signed_overflow"@) && !occurs(n, "unsigned_overflow"@) && !occurs(n, "integer_overflow"@) && !occurs(n, "downcast"@) && !occurs(n, "index_in_bound"@) && !occurs(n, "index_bound"@) && !occurs(n, "array_bound"@) && !occurs(n, "division_by_zero"@) && !occurs(n, "div_by_zero"@) && !occurs(n, "modulo"@) && !occurs(n, "mem_access"@) && !occurs(n, "initialization"@) && !occurs(n, "dangling"@) && !occurs(n, "pointer_validity"@) && occurs(n, "shift"@) ==> kind == "rte_shift"@
            &&& rte ==> kept is None
            &&& !rte && label is Some ==> kind == "spec"@ && kept == label
            &&& !rte && label is None && (occurs(n, "assertion"@) || occurs(n, "user assert"@))
                ==> kind == "user_assert"@
            &&& !rte && label is None && !occurs(n, "assertion"@) && !occurs(n, "user assert"@)
                ==> kind == "spec"@
        }),
{
}

/// A goal comes from the cache exactly where the summary of its statistics says so.
pub proof fn law_the_cache_is_told_by_the_summary(goal: JsonView, stats: JsonView, s: Seq<char>)
    ensures
        goal.get("stats"@) == Some(stats) && stats.text("summary"@) == Some(s) ==> (from_cache(goal)
            <==> occurs(s, "(Cached)"@)),
        goal.get("stats"@) is None ==> !from_cache(goal),
{
}

/// Where a goal stands is its file, its line and its column, with a colon between.
pub proof fn law_a_place_is_file_line_and_column(
    goal: JsonView,
    loc: JsonView,
    file: Seq<char>,
    line: int,
    col: int,
)
    requires
        goal.get("source_location"@) == Some(loc) || (goal.get("source_location"@) is None && goal.get(
            "source"@,
        ) == Some(loc)),
        loc.text("file"@) == Some(file),
        loc.nat_at("line"@) == Some(line),
        loc.nat_at("col"@) == Some(col),
    ensures
        source_key(goal) == file + ":"@ + decimal(line as nat) + ":"@ + decimal(col as nat),
{
}

/// What a goal proves is its predicate; without one its description, then its goal, then its name.
pub proof fn law_the_predicate_says_what_is_proved(goal: JsonView, s: Seq<char>)
    ensures
        goal.text("predicate"@) == Some(s) ==> predicate_key(goal) == one_line(s),
        goal.get("predicate"@) is None && goal.text("descr"@) == Some(s) ==> predicate_key(goal)
            == one_line(s),
        goal.get("predicate"@) is None && goal.get("descr"@) is None && goal.text("goal"@) == Some(s)
            ==> predicate_key(goal) == one_line(s),
        goal.get("predicate"@) is None && goal.get("descr"@) is None && goal.get("goal"@) is None
            && goal.text("name"@) == Some(s) ==> predicate_key(goal) == one_line(s),
{
}

/// The name of an unlabelled goal is a digest of where it belongs, what kind it is, where it stands,
/// what it proves, what it is called and which part it is, each under its own key; and nothing else.
pub proof fn law_a_stable_id_is_a_digest_of_what_the_goal_is(
    goal: JsonView,
    kind: Seq<char>,
    scope: Seq<char>,
    name: Seq<char>,
)
    requires
        goal.text("hash_label"@) is None,
        goal.text("name"@) == Some(name),
    ensures
        ({
            let p = identity_payload(goal, kind, Some(scope));
            let digest = hex(sha256(encode_utf8(json_text(collected(p)))));
            &&& p.text("scope"@) == Some(scope)
            &&& p.text("goal_kind"@) == Some(kind)
            &&& p.text("source_location"@) == Some(source_key(goal))
            &&& p.text("predicate"@) == Some(predicate_key(goal))
            &&& p.text("name"@) == Some(one_line(name))
            &&& p.text("part"@) == Some(part_key(goal))
            &&& digest.len() > 16 ==> stable_id(goal, kind, Some(scope)) == "sg_"@ + digest.subrange(
                0,
                16,
            )
        }),
{
    broadcast use crate::json::group_object_reads;

    reveal_strlit("scope");
    reveal_strlit("goal_kind");
    reveal_strlit("source_location");
    reveal_strlit("predicate");
    reveal_strlit("name");
    reveal_strlit("part");
    assert("scope"@.len() == 5 && "goal_kind"@.len() == 9);
    assert("source_location"@.len() == 15 && "predicate"@.len() == 9);
    assert("name"@.len() == 4 && "part"@.len() == 4);
    assert("goal_kind"@[0] != "predicate"@[0]);
    assert("name"@[0] != "part"@[0]);
}

/// A finished goal carries its stable name, unless it already had one, its kind, its label and the
/// name that Frama-C gave it.
pub proof fn law_a_finished_goal_carries_its_names(
    goal: JsonView,
    kind: Seq<char>,
    scope: Option<Seq<char>>,
    name: JsonView,
)
    requires
        goal is Object,
        goal.get("stable_goal_id"@) is None,
        goal.get("frama_c_goal_name"@) is None,
        goal.get("from_cache"@) is None,
        goal.get("name"@) == Some(name),
    ensures
        with_stable_id(goal, kind, scope).text("stable_goal_id"@) == Some(
            stable_id(goal, kind, scope),
        ),
        with_stable_id(goal, kind, scope).flag("from_cache"@) == Some(from_cache(goal)),
        with_stable_id(goal, kind, scope).get("frama_c_goal_name"@) == Some(name),
        with_stable_id(goal, kind, scope).get("name"@) == Some(name),
{
    broadcast use crate::json::group_object_reads;

    reveal_strlit("stable_goal_id");
    reveal_strlit("from_cache");
    reveal_strlit("frama_c_goal_name");
    reveal_strlit("name");
    assert("stable_goal_id"@.len() == 14 && "from_cache"@.len() == 10);
    assert("frama_c_goal_name"@.len() == 17 && "name"@.len() == 4);
}

/// A goal stands where its location says, then its source, then its short location; a file is named
/// by itself, then by its base; a goal belongs to its function, then to its scope.
pub proof fn law_where_a_goal_stands(goal: JsonView, at: JsonView, a: Seq<char>, b: Seq<char>)
    ensures
        goal.get("source_location"@) == Some(at) ==> goal_location(goal) == Some(at),
        goal.get("source_location"@) is None && goal.get("source"@) == Some(at) ==> goal_location(
            goal,
        ) == Some(at),
        goal.get("source_location"@) is None && goal.get("source"@) is None ==> goal_location(goal)
            == goal.get("loc"@),
        at.get("file"@) == Some(JsonView::Str(a)) ==> location_file(Some(at)) == Some(a),
        at.get("file"@) is None && at.get("base"@) == Some(JsonView::Str(b)) ==> location_file(
            Some(at),
        ) == Some(b),
        location_file(None) is None,
        goal.get("fct"@) == Some(JsonView::Str(a)) ==> goal_owner(goal) == Some(a),
        goal.get("fct"@) is None && goal.get("scope"@) == Some(JsonView::Str(b)) ==> goal_owner(
            goal,
        ) == Some(b),
        goal.get("fct"@) is None && goal.get("scope"@) is None && goal.get("function_marker"@)
            == Some(JsonView::Str(a)) ==> goal_owner(goal) == Some(a),
{
}

/// An identity is sixteen characters of a digest behind a fixed mark: digests that differ there have
/// different identities, and those that do not have the same.
pub proof fn law_an_identity_is_the_start_of_a_digest(a: Seq<char>, b: Seq<char>)
    requires
        a.len() >= 16,
        b.len() >= 16,
    ensures
        id_of_digest(a).len() == 19,
        id_of_digest(a) == id_of_digest(b) <==> a.subrange(0, 16) == b.subrange(0, 16),
        crate::text::begins(id_of_digest(a), "sg_"@),
{
    reveal_strlit("sg_");
    let x = id_of_digest(a);
    let y = id_of_digest(b);
    assert(prefix(a, 16) =~= a.subrange(0, 16));
    assert(prefix(b, 16) =~= b.subrange(0, 16));
    assert(x.subrange(3, 19) =~= a.subrange(0, 16));
    assert(y.subrange(3, 19) =~= b.subrange(0, 16));
    assert(x.subrange(0, 3) =~= "sg_"@);
}

} // verus!
