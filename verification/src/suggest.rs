//! What the shape of an unproved obligation suggests.

use crate::json::{lemma_models_push, lemma_take_next, models, str_or, text_or, Json, JsonView};
use crate::reload::{listed_texts, loaded_files, text_items};
use crate::text::{
    ascii_alnum, ascii_lower, begins, char_from, char_from_chars, chars_of, contains, find_chars,
    find_from_spec, first_at, is_ascii_alnum, join, join_spec, lemma_char_from, occurs, owned,
    rfind_chars, rfind_spec, same, starts_with, texts, to_ascii_lowercase, trim, trim_spec,
};
use vstd::prelude::*;
use vstd::string::*;

verus! {

// ---------------------------------------------------------------------------
// Reading an obligation
// ---------------------------------------------------------------------------

/// Whether a character can stand in a word of ACSL.
pub open spec fn word_char(c: char) -> bool {
    c == '_' || is_ascii_alnum(c)
}

/// Whether a word that stands at `i` is not part of a longer one.
pub open spec fn stands_alone(text: Seq<char>, word: Seq<char>, i: int) -> bool {
    (i == 0 || !word_char(text[i - 1])) && (i + word.len() == text.len() || !word_char(
        text[i + word.len()],
    ))
}

/// Whether a word stands alone somewhere from `from` on, where occurrences do not overlap.
pub open spec fn word_from(text: Seq<char>, word: Seq<char>, from: int) -> bool
    decreases text.len() - from,
    when 0 <= from <= text.len() && word.len() > 0
    via word_from_ends
{
    match find_from_spec(text, word, from) {
        Some(i) => stands_alone(text, word, i) || word_from(text, word, i + word.len()),
        None => false,
    }
}

#[via_fn]
proof fn word_from_ends(text: Seq<char>, word: Seq<char>, from: int) {
    lemma_found_fits(text, word, from);
}

proof fn lemma_found_fits(text: Seq<char>, word: Seq<char>, from: int)
    ensures
        match find_from_spec(text, word, from) {
            Some(i) => from <= i && i + word.len() <= text.len(),
            None => true,
        },
{
    if exists|i: int| first_at(text, word, from, i) {
        let i = choose|i: int| first_at(text, word, from, i);
        assert(first_at(text, word, from, i));
    }
}

/// Whether a word stands alone in a text. The empty word stands between any two characters.
pub open spec fn holds_word(text: Seq<char>, word: Seq<char>) -> bool {
    if word.len() == 0 {
        exists|i: int| 0 <= i <= text.len() && #[trigger] stands_alone(text, word, i)
    } else {
        word_from(text, word, 0)
    }
}

/// Whether nothing of a word is on either side of a gap.
fn gap_is_free(t: &Vec<char>, start: usize, end: usize) -> (r: bool)
    requires
        start <= end <= t@.len(),
    ensures
        r == ((start == 0 || !word_char(t@[start - 1])) && (end == t@.len() || !word_char(
            t@[end as int],
        ))),
{
    let free_before = start == 0 || !(t[start - 1] == '_' || ascii_alnum(t[start - 1]));
    let free_after = end == t.len() || !(t[end] == '_' || ascii_alnum(t[end]));
    free_before && free_after
}

/// Whether the empty word stands alone somewhere.
fn contains_gap(t: &Vec<char>, Ghost(word): Ghost<Seq<char>>) -> (r: bool)
    requires
        word.len() == 0,
    ensures
        r == holds_word(t@, word),
{
    let total: usize = t.len();
    let mut i: usize = 0;
    loop
        invariant
            total == t@.len(),
            i <= total,
            word.len() == 0,
            forall|k: int| 0 <= k < i ==> !#[trigger] stands_alone(t@, word, k),
        decreases total - i,
    {
        if gap_is_free(t, i, i) {
            assert(stands_alone(t@, word, i as int));
            return true;
        }
        assert(!stands_alone(t@, word, i as int));
        if i == total {
            return false;
        }
        i = i + 1;
    }
}

/// Whether a word stands alone in a text.
pub fn contains_acsl_word(text: &str, word: &str) -> (r: bool)
    ensures
        r == holds_word(text@, word@),
{
    let t = chars_of(text);
    let w = chars_of(word);
    if w.len() == 0 {
        return contains_gap(&t, Ghost(word@));
    }
    let total: usize = t.len();
    let mut from: usize = 0;
    loop
        invariant
            total == t@.len(),
            t@ == text@,
            w@ == word@,
            word@.len() > 0,
            from <= t@.len(),
            word_from(text@, word@, 0) == word_from(text@, word@, from as int),
        decreases t@.len() - from,
    {
        proof {
            lemma_found_fits(text@, word@, from as int);
        }
        match find_chars(&t, &w, from) {
            Some(i) => {
                let end: usize = i + w.len();
                if gap_is_free(&t, i, end) {
                    return true;
                }
                from = end;
            },
            None => {
                return false;
            },
        }
    }
}

/// Whether a text multiplies inside the brackets before a remainder.
pub open spec fn modular_product(text: Seq<char>) -> bool {
    let percent = char_from(text, '%', 0);
    let before = text.subrange(0, percent);
    percent < text.len() && (match rfind_spec(before, "("@) {
        Some(open) => {
            let close = char_from(before, ')', open);
            close < before.len() && char_from(before, '*', open) < close
        },
        None => false,
    })
}

/// Whether a text multiplies inside the brackets before a remainder.
pub fn looks_like_modular_multiplication(text: &str) -> (r: bool)
    ensures
        r == modular_product(text@),
{
    let t = chars_of(text);
    proof {
        lemma_char_from(text@, '%', 0);
    }
    let percent = char_from_chars(&t, '%', 0);
    if percent >= t.len() {
        return false;
    }
    let before_text = crate::text::text_between(&t, 0, percent);
    let before = chars_of(before_text.as_str());
    match rfind_chars(&before, &chars_of("(")) {
        Some(open) => {
            let close = char_from_chars(&before, ')', open);
            close < before.len() && char_from_chars(&before, '*', open) < close
        },
        None => false,
    }
}

/// What has been read of the precondition: whether it is being read, and its lines.
pub struct PreconditionView {
    pub inside: bool,
    pub lines: Seq<Seq<char>>,
}

/// Whether a line opens another section.
pub open spec fn opens_section(t: Seq<char>) -> bool {
    begins(t, "(* "@) || t == "Then {"@ || t == "Else {"@ || t == "Residual {"@ || t
        == "Invariant {"@
}

/// What one more line says of the precondition.
pub open spec fn precondition_step(s: PreconditionView, line: Seq<char>) -> PreconditionView {
    let t = trim_spec(line);
    if occurs(t, "Pre-condition"@) {
        PreconditionView { inside: true, lines: s.lines.push(line) }
    } else if s.inside && !opens_section(t) {
        PreconditionView { inside: true, lines: s.lines.push(line) }
    } else {
        PreconditionView { inside: false, lines: s.lines }
    }
}

/// What some lines say of the precondition.
pub open spec fn precondition(ls: Seq<Seq<char>>) -> PreconditionView
    decreases ls.len(),
{
    if ls.len() == 0 {
        PreconditionView { inside: false, lines: Seq::empty() }
    } else {
        precondition_step(precondition(ls.drop_last()), ls.last())
    }
}

/// The hypotheses of a printed obligation.
pub open spec fn hypotheses(wp_print: JsonView) -> Seq<Seq<char>> {
    listed_texts(JsonView::or_null(wp_print.get("hypotheses"@)))
}

fn hypotheses_of(wp_print: &Json) -> (r: Vec<String>)
    ensures
        texts(r@) == hypotheses(wp_print@),
{
    match wp_print.get("hypotheses") {
        Some(v) => loaded_files(v),
        None => {
            let none: Vec<String> = Vec::new();
            assert(texts(none@) =~= Seq::empty());
            none
        },
    }
}

/// The precondition of a printed obligation, as one text.
pub fn wp_print_precondition_text(wp_print: &Json) -> (r: String)
    ensures
        r@ == join_spec(precondition(hypotheses(wp_print@)).lines, " "@),
{
    let ls = hypotheses_of(wp_print);
    let ghost all = texts(ls@);
    let mut inside: bool = false;
    let mut out: Vec<String> = Vec::new();
    let mut i: usize = 0;
    assert(texts(out@) =~= Seq::empty());
    assert(all.subrange(0, 0) =~= Seq::empty());
    while i < ls.len()
        invariant
            i <= ls@.len(),
            all == texts(ls@),
            precondition(all.subrange(0, i as int)) == (PreconditionView {
                inside,
                lines: texts(out@),
            }),
        decreases ls@.len() - i,
    {
        proof {
            lemma_take_next(all, i as int);
        }
        let t = trim(ls[i].as_str());
        let t = t.as_str();
        if contains(t, "Pre-condition") {
            inside = true;
        } else if inside && (starts_with(t, "(* ") || same(t, "Then {") || same(t, "Else {")
            || same(t, "Residual {") || same(t, "Invariant {")) {
            inside = false;
        }
        if inside {
            let ghost before = out@;
            let l = owned(ls[i].as_str());
            out.push(l);
            assert(texts(out@) =~= texts(before).push(l@));
        }
        i = i + 1;
    }
    assert(all.subrange(0, i as int) =~= all);
    join(&out, " ")
}

/// What a prover said of an obligation, in small letters, under a field.
pub open spec fn prover_field(vc: JsonView, field: Seq<char>) -> Seq<Seq<char>> {
    match vc.get("prover_result"@) {
        Some(p) => match p.text(field) {
            Some(t) => seq![ascii_lower(t)],
            None => Seq::empty(),
        },
        None => Seq::empty(),
    }
}

/// What a prover said of an obligation, in small letters.
pub open spec fn prover_said(vc: JsonView) -> Seq<Seq<char>> {
    prover_field(vc, "status"@) + prover_field(vc, "raw_status"@) + prover_field(
        vc,
        "normalized_status"@,
    )
}

fn push_prover_field(out: &mut Vec<String>, vc: &Json, field: &str)
    ensures
        texts(final(out)@) == texts(old(out)@) + prover_field(vc@, field@),
{
    let ghost before = texts(out@);
    match vc.get("prover_result") {
        Some(p) => match p.text(field) {
            Some(t) => {
                out.push(to_ascii_lowercase(t));
            },
            None => {},
        },
        None => {},
    }
    assert(texts(out@) =~= before + prover_field(vc@, field@));
}

/// What a prover said of an obligation, in small letters.
pub fn vc_prover_statuses(vc: &Json) -> (r: Vec<String>)
    ensures
        texts(r@) == prover_said(vc@),
{
    let mut out: Vec<String> = Vec::new();
    assert(texts(out@) =~= Seq::empty());
    push_prover_field(&mut out, vc, "status");
    push_prover_field(&mut out, vc, "raw_status");
    push_prover_field(&mut out, vc, "normalized_status");
    assert(texts(out@) =~= prover_said(vc@));
    out
}

// ---------------------------------------------------------------------------
// Suggestions
// ---------------------------------------------------------------------------

/// What is said where WP's model of allocation ends.
pub const FRESH_MESSAGE: &'static str =
    "WP's allocation model is incomplete for this obligation: \\fresh-derived hypotheses may be dropped. Try a non-allocating implementation or treat this as a structural proof ceiling.";

/// What is said where a prover gave up rather than ran out of time.
pub const VACUITY_MESSAGE: &'static str =
    "A prover returned Unknown/Stepout rather than timeout; check for vacuity or contradiction in the hypotheses before only increasing timeout.";

/// What is said of a product under a remainder.
pub const PRODUCT_MESSAGE: &'static str =
    "The conclusion involves modular multiplication; decompose the multiplication or split the cofactor before asking SMT to prove it directly.";

/// What is said where nothing keeps two pointers apart.
pub const SEPARATED_MESSAGE: &'static str =
    "The goal involves a pointer access with no visible \\separated() precondition. Add `requires \\separated(p, q);` when valid, or try the `Typed+ref` WP model.";

/// A suggestion.
pub open spec fn suggestion(kind: Seq<char>, message: Seq<char>, next_tool: Seq<char>) -> JsonView {
    JsonView::object().with("kind"@, JsonView::Str(kind)).with(
        "message"@,
        JsonView::Str(message),
    ).with("next_tool"@, JsonView::Str(next_tool))
}

fn suggestion_value(kind: &str, message: &str, next_tool: &str) -> (r: Json)
    ensures
        r@ == suggestion(kind@, message@, next_tool@),
{
    Json::object().with("kind", Json::str(kind)).with("message", Json::str(message)).with(
        "next_tool",
        Json::str(next_tool),
    )
}

/// The printed obligation of a condition.
pub open spec fn printed(vc: JsonView) -> JsonView {
    JsonView::or_null(vc.get("wp_print"@))
}

/// The conclusion of a condition.
pub open spec fn conclusion(vc: JsonView) -> Seq<char> {
    text_or(printed(vc).text("conclusion"@), ""@)
}

/// Whether hypotheses on allocation were dropped.
pub open spec fn drops_fresh(vc: JsonView, warnings: Seq<JsonView>) -> bool {
    let hyp_text = join_spec(hypotheses(printed(vc)), " "@);
    let warned = ascii_lower(join_spec(text_items(warnings), "\n"@));
    &&& holds_word(conclusion(vc), "\\fresh"@) || holds_word(hyp_text, "\\fresh"@)
    &&& occurs(warned, "allocation"@)
    &&& occurs(warned, "not yet implemented"@)
}

/// Whether a prover gave up rather than ran out of time.
pub open spec fn gave_up(vc: JsonView) -> bool {
    prover_said(vc).contains("unknown"@) || prover_said(vc).contains("stepout"@)
}

/// Whether nothing keeps the pointers of a condition apart.
pub open spec fn not_separated(vc: JsonView) -> bool {
    &&& occurs(conclusion(vc), "shift_"@)
    &&& occurs(conclusion(vc), "Mint_"@)
    &&& !occurs(
        ascii_lower(join_spec(precondition(hypotheses(printed(vc))).lines, " "@)),
        "separated"@,
    )
}

/// One value, where something holds.
pub open spec fn if_so(holds: bool, v: JsonView) -> Seq<JsonView> {
    if holds {
        seq![v]
    } else {
        Seq::empty()
    }
}

/// What is said where a prover gave up, with the run that tells.
pub open spec fn vacuity_suggestion() -> JsonView {
    suggestion("check_vacuity_or_contradiction"@, VACUITY_MESSAGE@, "run_wp"@).with(
        "next_args"@,
        JsonView::object().with("smoke"@, JsonView::Bool(true)).with(
            "provers"@,
            JsonView::Array(seq![JsonView::Str("Alt-Ergo"@)]),
        ),
    )
}

/// What the shape of an unproved condition suggests.
pub open spec fn suggestions(vc: JsonView, warnings: Seq<JsonView>) -> Seq<JsonView> {
    if_so(
        drops_fresh(vc, warnings),
        suggestion("fresh_allocation_model_limit"@, FRESH_MESSAGE@, "get_wp_goals"@),
    ) + if_so(gave_up(vc), vacuity_suggestion()) + if_so(
        modular_product(conclusion(vc)),
        suggestion("decompose_modular_multiplication"@, PRODUCT_MESSAGE@, "get_wp_goals"@),
    ) + if_so(
        not_separated(vc),
        suggestion("add_separated_or_typed_ref"@, SEPARATED_MESSAGE@, "get_wp_goals"@),
    )
}

fn push_if(out: &mut Vec<Json>, holds: bool, v: Json)
    ensures
        models(final(out)@) == models(old(out)@) + if_so(holds, v@),
{
    let ghost before = models(out@);
    if holds {
        proof {
            lemma_models_push(out@, v);
        }
        out.push(v);
    }
    assert(models(out@) =~= before + if_so(holds, v@));
}

fn texts_in(values: &Vec<Json>) -> (r: Vec<String>)
    ensures
        texts(r@) == text_items(models(values@)),
{
    let ghost all = models(values@);
    let mut out: Vec<String> = Vec::new();
    let mut i: usize = 0;
    assert(texts(out@) =~= Seq::empty());
    assert(all.subrange(0, 0) =~= Seq::empty());
    while i < values.len()
        invariant
            i <= values@.len(),
            all == models(values@),
            texts(out@) == text_items(all.subrange(0, i as int)),
        decreases values@.len() - i,
    {
        proof {
            lemma_take_next(all, i as int);
            assert(all[i as int] == values@[i as int]@);
        }
        match values[i].as_text() {
            Some(t) => {
                let ghost before = out@;
                let o = owned(t);
                out.push(o);
                assert(texts(out@) =~= texts(before).push(o@));
            },
            None => {},
        }
        i = i + 1;
    }
    assert(all.subrange(0, i as int) =~= all);
    out
}

/// What the shape of an unproved condition suggests.
pub fn semantic_suggestions_for_vc(vc: &Json, warnings: &Vec<Json>) -> (r: Vec<Json>)
    ensures
        models(r@) == suggestions(vc@, models(warnings@)),
{
    let null = Json::Null;
    let wp_print = match vc.get("wp_print") {
        Some(v) => v,
        None => &null,
    };
    let goal = str_or(wp_print.text("conclusion"), "");
    let hyp_text = join(&hypotheses_of(wp_print), " ");
    let warned = to_ascii_lowercase(join(&texts_in(warnings), "\n").as_str());
    let warned = warned.as_str();
    let fresh = (contains_acsl_word(goal, "\\fresh") || contains_acsl_word(
        hyp_text.as_str(),
        "\\fresh",
    )) && contains(warned, "allocation") && contains(warned, "not yet implemented");
    let said = vc_prover_statuses(vc);
    let up = crate::goals::contains_text(&said, "unknown") || crate::goals::contains_text(
        &said,
        "stepout",
    );
    let precondition_text = to_ascii_lowercase(wp_print_precondition_text(wp_print).as_str());
    let apart = contains(goal, "shift_") && contains(goal, "Mint_") && !contains(
        precondition_text.as_str(),
        "separated",
    );
    let mut out: Vec<Json> = Vec::new();
    assert(models(out@) =~= Seq::empty());
    push_if(
        &mut out,
        fresh,
        suggestion_value("fresh_allocation_model_limit", FRESH_MESSAGE, "get_wp_goals"),
    );
    let retry = Json::object().with("smoke", Json::Bool(true)).with(
        "provers",
        Json::list1(Json::str("Alt-Ergo")),
    );
    push_if(
        &mut out,
        up,
        suggestion_value("check_vacuity_or_contradiction", VACUITY_MESSAGE, "run_wp").with(
            "next_args",
            retry,
        ),
    );
    push_if(
        &mut out,
        looks_like_modular_multiplication(goal),
        suggestion_value("decompose_modular_multiplication", PRODUCT_MESSAGE, "get_wp_goals"),
    );
    push_if(
        &mut out,
        apart,
        suggestion_value("add_separated_or_typed_ref", SEPARATED_MESSAGE, "get_wp_goals"),
    );
    assert(models(out@) =~= suggestions(vc@, models(warnings@)));
    out
}

/// A condition whose failure is classified, with what its shape suggests.
pub open spec fn with_suggestions(vc: JsonView, warnings: Seq<JsonView>) -> JsonView {
    match vc.get("failure_classification"@) {
        Some(c) => if c is Object && suggestions(vc, warnings).len() > 0 {
            vc.with(
                "failure_classification"@,
                c.with("semantic_suggestions"@, JsonView::Array(suggestions(vc, warnings))),
            )
        } else {
            vc
        },
        None => vc,
    }
}

fn suggest(vc: Json, warnings: &Vec<Json>) -> (r: Json)
    ensures
        r@ == with_suggestions(vc@, models(warnings@)),
{
    let classified = match vc.get("failure_classification") {
        Some(c) => {
            if c.is_object() {
                c.copy()
            } else {
                return vc;
            }
        },
        None => {
            return vc;
        },
    };
    let found = semantic_suggestions_for_vc(&vc, warnings);
    assert(models(found@).len() == found@.len());
    if found.len() == 0 {
        return vc;
    }
    vc.with(
        "failure_classification",
        classified.with("semantic_suggestions", Json::array(found)),
    )
}

/// Adds to each condition whose failure is classified what its shape suggests.
pub fn enrich_semantic_suggestions(vcs: &mut Vec<Json>, warnings: &Vec<Json>)
    ensures
        models(final(vcs)@) == models(old(vcs)@).map_values(
            |vc: JsonView| with_suggestions(vc, models(warnings@)),
        ),
{
    let ghost before = vcs@;
    let mut i: usize = 0;
    while i < vcs.len()
        invariant
            i <= vcs@.len(),
            vcs@.len() == before.len(),
            forall|k: int|
                0 <= k < i ==> (#[trigger] vcs@[k])@ == with_suggestions(
                    before[k]@,
                    models(warnings@),
                ),
            forall|k: int| i <= k < vcs@.len() ==> #[trigger] vcs@[k] == before[k],
        decreases vcs@.len() - i,
    {
        let next = suggest(vcs[i].copy(), warnings);
        vcs.set(i, next);
        i = i + 1;
    }
    assert(models(vcs@) =~= models(before).map_values(
        |vc: JsonView| with_suggestions(vc, models(warnings@)),
    ));
}

/// A condition whose failure is not classified is left as it is.
pub proof fn law_unclassified_conditions_are_left(vc: JsonView, warnings: Seq<JsonView>)
    requires
        vc.get("failure_classification"@) is None,
    ensures
        with_suggestions(vc, warnings) == vc,
{
}

// ---------------------------------------------------------------------------
// What is suggested when
// ---------------------------------------------------------------------------

/// What is suggested for a condition: a look at contradictions where a prover gave up, a split of
/// a product where the conclusion takes one modulo, and separation where it reads memory that no
/// precondition separates.
pub proof fn law_what_is_suggested_for_a_condition(
    vc: JsonView,
    warnings: Seq<JsonView>,
    prover: JsonView,
    status: Seq<char>,
    i: int,
)
    ensures
        vc.get("prover_result"@) == Some(prover) && prover.text("status"@) == Some(status) && (
        ascii_lower(status) == "unknown"@ || ascii_lower(status) == "stepout"@) ==> gave_up(vc),
        vc.get("prover_result"@) is None ==> !gave_up(vc),
        gave_up(vc) ==> suggestions(vc, warnings).contains(vacuity_suggestion()),
        vacuity_suggestion().text("kind"@) == Some("check_vacuity_or_contradiction"@),
        vacuity_suggestion().text("next_tool"@) == Some("run_wp"@),
        vacuity_suggestion().at("next_args"@, "smoke"@) == Some(JsonView::Bool(true)),
        0 <= i < suggestions(vc, warnings).len() && suggestions(vc, warnings)[i].text("kind"@)
            == Some("check_vacuity_or_contradiction"@) ==> gave_up(vc),
        0 <= i < suggestions(vc, warnings).len() && suggestions(vc, warnings)[i].text("kind"@)
            == Some("decompose_modular_multiplication"@) ==> modular_product(conclusion(vc)),
        0 <= i < suggestions(vc, warnings).len() && suggestions(vc, warnings)[i].text("kind"@)
            == Some("add_separated_or_typed_ref"@) ==> occurs(conclusion(vc), "shift_"@) && occurs(
            conclusion(vc),
            "Mint_"@,
        ),
        !drops_fresh(vc, warnings) && !gave_up(vc) && !modular_product(conclusion(vc))
            && !not_separated(vc) ==> suggestions(vc, warnings).len() == 0,
{
    broadcast use crate::json::group_object_reads;

    reveal_strlit("kind");
    reveal_strlit("message");
    reveal_strlit("next_tool");
    reveal_strlit("next_args");
    assert("kind"@.len() == 4 && "message"@.len() == 7);
    assert("next_tool"@.len() == 9 && "next_args"@.len() == 9);
    assert("next_tool"@[5] != "next_args"@[5]);
    reveal_strlit("smoke");
    reveal_strlit("provers");
    assert("smoke"@.len() == 5 && "provers"@.len() == 7);
    reveal_strlit("fresh_allocation_model_limit");
    reveal_strlit("check_vacuity_or_contradiction");
    reveal_strlit("decompose_modular_multiplication");
    reveal_strlit("add_separated_or_typed_ref");
    assert("fresh_allocation_model_limit"@.len() == 28 && "check_vacuity_or_contradiction"@.len() == 30);
    assert("decompose_modular_multiplication"@.len() == 32 && "add_separated_or_typed_ref"@.len() == 26);
    reveal_strlit("status");
    reveal_strlit("raw_status");
    reveal_strlit("normalized_status");
    assert("status"@.len() == 6 && "raw_status"@.len() == 10);
    assert("normalized_status"@.len() == 17);
    let all = suggestions(vc, warnings);
    let a = if_so(
        drops_fresh(vc, warnings),
        suggestion("fresh_allocation_model_limit"@, FRESH_MESSAGE@, "get_wp_goals"@),
    );
    let b = if_so(gave_up(vc), vacuity_suggestion());
    if gave_up(vc) {
        assert(all[a.len() as int] == vacuity_suggestion());
    }
    if vc.get("prover_result"@) == Some(prover) && prover.text("status"@) == Some(status) {
        assert(prover_said(vc)[0] == ascii_lower(status));
    }
    if vc.get("prover_result"@) is None {
        assert(prover_said(vc) =~= Seq::empty());
    }
}

/// What the prover said is read whatever its case, as its status, its raw status and its normalized
/// status.
pub proof fn law_what_the_prover_said(vc: JsonView, p: JsonView, a: Seq<char>, b: Seq<char>, c: Seq<char>)
    ensures
        vc.get("prover_result"@) == Some(p) && p.text("status"@) == Some(a) && p.text("raw_status"@)
            == Some(b) && p.text("normalized_status"@) == Some(c) ==> prover_said(vc) == seq![
            ascii_lower(a),
            ascii_lower(b),
            ascii_lower(c),
        ],
        vc.get("prover_result"@) == Some(p) && p.text("status"@) == Some(a) && p.text("raw_status"@)
            is None && p.text("normalized_status"@) is None ==> prover_said(vc) == seq![
            ascii_lower(a),
        ],
        vc.get("prover_result"@) is None ==> prover_said(vc).len() == 0,
{
}

/// The precondition is what stands from its mark on, up to the next section.
pub proof fn law_the_precondition_ends_with_its_section(ls: Seq<Seq<char>>, line: Seq<char>)
    ensures
        ({
            let s = precondition(ls);
            let n = precondition(ls.push(line));
            let t = trim_spec(line);
            let opens = begins(t, "(* "@) || t == "Then {"@ || t == "Else {"@ || t == "Residual {"@
                || t == "Invariant {"@;
            &&& occurs(t, "Pre-condition"@) ==> n.inside && n.lines == s.lines.push(line)
            &&& !occurs(t, "Pre-condition"@) && s.inside && !opens ==> n.inside && n.lines
                == s.lines.push(line)
            &&& !occurs(t, "Pre-condition"@) && s.inside && opens ==> !n.inside && n.lines == s.lines
            &&& !occurs(t, "Pre-condition"@) && !s.inside ==> !n.inside && n.lines == s.lines
        }),
        !precondition(Seq::empty()).inside,
{
    assert(ls.push(line).drop_last() =~= ls);
}

} // verus!
