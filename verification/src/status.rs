//! How a row spells its verdict, in one place.
//!
//! Three field names carry a status and they do not mean the same thing. Frama-C sends its own
//! spelling under "status". `add_status_fields` keeps that under "raw_status" and writes the
//! normalized spelling to "normalized_status", leaving "status" as it arrived. A goal that has
//! been matched with its property also carries "normalized_property_status", the verdict of the
//! property rather than of the goal.
//!
//! Two different questions get asked of a goal: `own_status`, what WP decided about this goal,
//! and `consolidated_status`, what the property it belongs to consolidated to. They come apart: a
//! goal WP proved can hang off a property that is dead or that rests on a hypothesis nothing
//! established.

use crate::json::{lemma_take_next, str_or, text_in, text_or, texts_of, Json, JsonView};
use crate::text::{
    ascii_alnum, ascii_lower, char_from, chars_of, ends, ends_with, is_ascii_alnum, join, join_spec,
    law_joined_pieces_come_apart, lemma_char_from, lemma_one_piece, lemma_pieces_are_plain, lower,
    lower_char, opt_text, owned, pieces, pieces_from, same, same_ignoring_case, split_char, texts,
};
use vstd::prelude::*;

verus! {

/// What WP decided about this goal.
pub open spec fn own_status_spec(row: JsonView) -> Option<Seq<char>> {
    texts_of(
        row.or_get(row.or_get(row.get("normalized_status"@), "raw_status"@), "status"@),
    )
}

/// What WP decided about this goal, ignoring any property consolidated over it.
///
/// "normalized_status" first because it is the spelling everything else compares against; the raw
/// spellings answer for a goal straight off the wire, which carries "status" alone.
pub fn own_status(row: &Json) -> (r: Option<&str>)
    ensures
        opt_text(r) == own_status_spec(row@),
{
    text_in(row.or_get(row.or_get(row.get("normalized_status"), "raw_status"), "status"))
}

/// What the property of this goal consolidated to, where the goal has no verdict of its own.
pub open spec fn consolidated_status_spec(row: JsonView) -> Option<Seq<char>> {
    row.or_text(
        row.or_text(row.text("normalized_status"@), "normalized_property_status"@),
        "status"@,
    )
}

/// The verdict including the property the goal belongs to. The property verdict is a fallback
/// rather than an override: a goal that carries its own normalized status is answered with it.
pub fn consolidated_status(row: &Json) -> (r: Option<&str>)
    ensures
        opt_text(r) == consolidated_status_spec(row@),
{
    row.or_text(
        row.or_text(row.text("normalized_status"), "normalized_property_status"),
        "status",
    )
}

/// The spelling Frama-C itself sent.
pub open spec fn raw_status_spec(row: JsonView) -> Option<Seq<char>> {
    texts_of(row.or_get(row.get("raw_status"@), "status"@))
}

/// The spelling Frama-C itself sent, for callers that report it verbatim.
pub fn raw_status(row: &Json) -> (r: Option<&str>)
    ensures
        opt_text(r) == raw_status_spec(row@),
{
    text_in(row.or_get(row.get("raw_status"), "status"))
}

/// The normalized verdict, derived from the raw spelling where the row does not carry one.
pub open spec fn normalized_or_derived_spec(row: JsonView) -> Seq<char> {
    match row.text("normalized_status"@) {
        Some(s) => s,
        None => normalize(text_or(raw_status_spec(row), "unknown"@)),
    }
}

/// The normalized verdict, derived from the raw spelling when the row does not already carry one.
/// A row with no status at all normalizes to "unknown".
pub fn normalized_or_derived(row: &Json) -> (r: String)
    ensures
        r@ == normalized_or_derived_spec(row@),
{
    match row.text("normalized_status") {
        Some(s) => owned(s),
        None => normalize_frama_c_status(str_or(raw_status(row), "unknown")),
    }
}

/// A letter or digit in small, anything else as `_`.
pub open spec fn status_char(c: char) -> char {
    if is_ascii_alnum(c) {
        lower_char(c)
    } else {
        '_'
    }
}

/// The words of a spelling, in small, with one `_` between neighbours.
pub open spec fn status_words(raw: Seq<char>) -> Seq<char> {
    join_spec(non_empty(pieces(raw.map_values(|c: char| status_char(c)), '_')), "_"@)
}

/// The parts that are not empty.
pub open spec fn non_empty(parts: Seq<Seq<char>>) -> Seq<Seq<char>> {
    parts.filter(|p: Seq<char>| p.len() > 0)
}

/// The name under which a spelling is known.
pub open spec fn status_name(words: Seq<char>) -> Seq<char> {
    if words == "valid_under_hypothesis"@ {
        "valid_under_hyp"@
    } else if words == "invalid_under_hypothesis"@ {
        "invalid_under_hyp"@
    } else if words == "no_result"@ || words == "never_tried"@ {
        "noresult"@
    } else if words.len() == 0 {
        "unknown"@
    } else {
        words
    }
}

/// Frama-C's spellings folded onto the names everything else compares against.
pub open spec fn normalize(raw: Seq<char>) -> Seq<char> {
    status_name(status_words(raw))
}

/// The parts that are not empty.
fn keep_non_empty(parts: &Vec<String>) -> (r: Vec<String>)
    ensures
        texts(r@) == non_empty(texts(parts@)),
{
    let mut out: Vec<String> = Vec::new();
    let mut i: usize = 0;
    let ghost all = texts(parts@);
    reveal(Seq::filter);
    while i < parts.len()
        invariant
            i <= parts@.len(),
            all == texts(parts@),
            texts(out@) == non_empty(all.subrange(0, i as int)),
        decreases parts@.len() - i,
    {
        proof {
            reveal(Seq::filter);
            lemma_take_next(all, i as int);
        }
        let ghost before = out@;
        if !parts[i].as_str().is_empty() {
            out.push(parts[i].clone());
            assert(texts(out@) =~= texts(before).push(all[i as int]));
        }
        i = i + 1;
    }
    assert(all.subrange(0, i as int) =~= all);
    out
}

/// Frama-C's spellings folded onto the names the rest of the library compares against. Anything
/// not named here passes through, so that a verdict Frama-C starts emitting arrives intact.
pub fn normalize_frama_c_status(raw: &str) -> (r: String)
    ensures
        r@ == normalize(raw@),
{
    let cs = chars_of(raw);
    let mut mapped = String::new();
    let mut i: usize = 0;
    let ghost want = raw@.map_values(|c: char| status_char(c));
    while i < cs.len()
        invariant
            cs@ == raw@,
            i <= cs@.len(),
            want == raw@.map_values(|c: char| status_char(c)),
            mapped@ =~= want.subrange(0, i as int),
        decreases cs@.len() - i,
    {
        let c = cs[i];
        if ascii_alnum(c) {
            mapped.push(lower(c));
        } else {
            mapped.push('_');
        }
        i = i + 1;
    }
    assert(want.subrange(0, i as int) =~= want);
    let parts = split_char(mapped.as_str(), '_');
    let kept = keep_non_empty(&parts);
    let words = join(&kept, "_");
    if same(words.as_str(), "valid_under_hypothesis") {
        owned("valid_under_hyp")
    } else if same(words.as_str(), "invalid_under_hypothesis") {
        owned("invalid_under_hyp")
    } else if same(words.as_str(), "no_result") || same(words.as_str(), "never_tried") {
        owned("noresult")
    } else if words.as_str().is_empty() {
        owned("unknown")
    } else {
        words
    }
}

/// Whether a status says that the prover run failed.
pub open spec fn is_failed(status: Seq<char>) -> bool {
    ascii_lower(status) == ascii_lower("failed"@)
}

/// Whether an already-read status says the prover run failed rather than answered.
/// Case-insensitive: a row straight off the wire carries Frama-C's own spelling.
pub fn status_is_failed(status: &str) -> (r: bool)
    ensures
        r == is_failed(status@),
{
    same_ignoring_case(status, "failed")
}

/// Whether a status says that the prover ran out of time.
pub open spec fn is_timeout(status: Seq<char>) -> bool {
    ascii_lower(status) == ascii_lower("timeout"@)
}

/// Whether a status says the prover ran out of its wall-clock budget.
pub fn status_is_timeout(status: &str) -> (r: bool)
    ensures
        r == is_timeout(status@),
{
    same_ignoring_case(status, "timeout")
}

/// Whether a normalized status moves a proof forward.
pub open spec fn counts_as_progress(normalized: Seq<char>) -> bool {
    normalized == "valid"@
}

/// Whether an already-normalized status moves a proof forward. Exact rather than
/// case-insensitive, unlike `is_proved`.
pub fn status_counts_as_progress(normalized: &str) -> (r: bool)
    ensures
        r == counts_as_progress(normalized@),
{
    same(normalized, "valid")
}

/// Whether a normalized status rests on hypotheses.
pub open spec fn requires_hypotheses(normalized: Seq<char>) -> bool {
    normalized == "valid_under_hyp"@ || normalized == "invalid_under_hyp"@ || normalized
        == "valid_under_false_hypothesis"@
}

/// Whether a normalized status rests on hypotheses.
pub fn status_requires_hypotheses(normalized: &str) -> (r: bool)
    ensures
        r == requires_hypotheses(normalized@),
{
    same(normalized, "valid_under_hyp") || same(normalized, "invalid_under_hyp") || same(
        normalized,
        "valid_under_false_hypothesis",
    )
}

/// Whether a normalized status says nothing about any run.
pub open spec fn is_vacuous(normalized: Seq<char>) -> bool {
    ends(normalized, "_but_dead"@) || normalized == "valid_under_false_hypothesis"@
}

/// Whether a normalized status is that of unreachable code or of a false hypothesis.
pub fn status_is_vacuous(normalized: &str) -> (r: bool)
    ensures
        r == is_vacuous(normalized@),
{
    ends_with(normalized, "_but_dead") || same(normalized, "valid_under_false_hypothesis")
}

/// Whether a status names a discharged goal.
pub open spec fn proved(status: Seq<char>) -> bool {
    ascii_lower(status) == ascii_lower("valid"@)
}

/// Whether a status names a discharged goal. Case-insensitive because it is also asked of raw
/// spellings. Every other verdict, including those that differ from valid only by resting on a
/// hypothesis, answers false.
pub fn is_proved(status: &str) -> (r: bool)
    ensures
        r == proved(status@),
{
    same_ignoring_case(status, "valid")
}

/// Whether a row's own verdict is that of a discharged goal.
pub open spec fn own_proved(row: JsonView) -> bool {
    match own_status_spec(row) {
        Some(s) => proved(s),
        None => false,
    }
}

/// Whether a row's own verdict is a discharged goal. Absent status is not proved.
pub fn own_status_is_proved(row: &Json) -> (r: bool)
    ensures
        r == own_proved(row@),
{
    match own_status(row) {
        Some(s) => is_proved(s),
        None => false,
    }
}

/// Whether a row's own verdict is that the prover ran out of time.
pub open spec fn own_timeout(row: JsonView) -> bool {
    match own_status_spec(row) {
        Some(s) => is_timeout(s),
        None => false,
    }
}

/// Whether WP's prover ran out of its budget on this goal.
pub fn own_status_is_timeout(row: &Json) -> (r: bool)
    ensures
        r == own_timeout(row@),
{
    match own_status(row) {
        Some(s) => status_is_timeout(s),
        None => false,
    }
}

/// A row with the three flags of a normalized status.
pub open spec fn with_flags(row: JsonView, normalized: Seq<char>) -> JsonView {
    row.with("counts_as_progress"@, JsonView::Bool(counts_as_progress(normalized))).with(
        "vacuous"@,
        JsonView::Bool(is_vacuous(normalized)),
    ).with("requires_hypotheses"@, JsonView::Bool(requires_hypotheses(normalized)))
}

/// Puts the derived flags that every status-bearing row carries next to its normalized status.
pub fn insert_status_flags(row: &mut Json, normalized: &str)
    ensures
        final(row)@ == with_flags(old(row)@, normalized@),
{
    row.insert("counts_as_progress", Json::Bool(status_counts_as_progress(normalized)));
    row.insert("vacuous", Json::Bool(status_is_vacuous(normalized)));
    row.insert("requires_hypotheses", Json::Bool(status_requires_hypotheses(normalized)));
}

/// A row with its raw status, its normalized status and the flags, where it has a status.
pub open spec fn with_status_fields(row: JsonView) -> JsonView {
    match row.text("status"@) {
        Some(raw) => with_flags(
            row.with("raw_status"@, JsonView::Str(raw)).with(
                "normalized_status"@,
                JsonView::Str(normalize(raw)),
            ),
            normalize(raw),
        ),
        None => row,
    }
}

/// Records the raw spelling under "raw_status", the folded one under "normalized_status", and the
/// derived flags, leaving "status" as it arrived.
pub fn add_status_fields(row: &mut Json)
    ensures
        final(row)@ == with_status_fields(old(row)@),
{
    let raw = match row.text("status") {
        Some(s) => owned(s),
        None => {
            return ;
        },
    };
    let normalized = normalize_frama_c_status(raw.as_str());
    row.insert("raw_status", Json::Str(raw));
    row.insert("normalized_status", Json::str(normalized.as_str()));
    insert_status_flags(row, normalized.as_str());
}

// ---------------------------------------------------------------------------
// Laws
// ---------------------------------------------------------------------------

/// Whether a text is a word of a normalized status: small letters and digits.
pub open spec fn is_status_word(s: Seq<char>) -> bool {
    s.len() > 0 && forall|i: int|
        0 <= i < s.len() ==> is_ascii_alnum(#[trigger] s[i]) && lower_char(s[i]) == s[i]
}

/// Whether texts are words of a normalized status.
pub open spec fn are_status_words(parts: Seq<Seq<char>>) -> bool {
    forall|i: int| 0 <= i < parts.len() ==> is_status_word(#[trigger] parts[i])
}

/// The way a status is mapped, character by character.
pub open spec fn mapped(raw: Seq<char>) -> Seq<char> {
    raw.map_values(|c: char| status_char(c))
}

proof fn lemma_join_stays(parts: Seq<Seq<char>>)
    requires
        are_status_words(parts),
    ensures
        mapped(join_spec(parts, "_"@)) == join_spec(parts, "_"@),
    decreases parts.len(),
{
    reveal_strlit("_");
    let j = join_spec(parts, "_"@);
    if parts.len() > 0 {
        let t = parts.drop_last();
        let n = parts.last();
        assert(is_status_word(parts[parts.len() - 1]));
        assert(are_status_words(t)) by {
            assert forall|i: int| 0 <= i < t.len() implies is_status_word(#[trigger] t[i]) by {
                assert(t[i] == parts[i]);
            }
        }
        lemma_join_stays(t);
        let a = join_spec(t, "_"@);
        assert forall|i: int| 0 <= i < j.len() implies #[trigger] mapped(j)[i] == j[i] by {
            if parts.len() == 1 {
                assert(is_ascii_alnum(n[i]));
            } else if i < a.len() {
                assert(mapped(a)[i] == a[i]);
                assert(j[i] == a[i]);
            } else if i == a.len() {
                assert(j[i] == "_"@[0]);
            } else {
                assert(j[i] == n[i - a.len() - 1]);
                assert(is_ascii_alnum(n[i - a.len() - 1]));
            }
        }
    }
    assert(mapped(j) =~= j);
}

proof fn lemma_words_stay(parts: Seq<Seq<char>>)
    requires
        are_status_words(parts),
    ensures
        status_words(join_spec(parts, "_"@)) == join_spec(parts, "_"@),
{
    reveal(Seq::filter);
    reveal_strlit("_");
    lemma_join_stays(parts);
    let j = join_spec(parts, "_"@);
    assert(j.map_values(|c: char| status_char(c)) == mapped(j));
    if parts.len() > 0 {
        assert("_"@ =~= seq!['_']);
        assert forall|i: int| 0 <= i < parts.len() implies !(#[trigger] parts[i]).contains('_') by {
            assert(is_status_word(parts[i]));
            if parts[i].contains('_') {
                let k = choose|k: int| 0 <= k < parts[i].len() && parts[i][k] == '_';
                assert(is_ascii_alnum(parts[i][k]));
            }
        }
        law_joined_pieces_come_apart(parts, "_"@, '_');
        lemma_non_empty_stays(parts);
    } else {
        let e = Seq::<char>::empty();
        assert(j =~= e);
        lemma_one_piece(e, '_');
        assert(non_empty(seq![e]) =~= Seq::empty()) by {
            reveal_with_fuel(Seq::filter, 2);
            assert(seq![e].drop_last() =~= Seq::empty());
        }
    }
}

proof fn lemma_non_empty_stays(parts: Seq<Seq<char>>)
    requires
        are_status_words(parts),
    ensures
        non_empty(parts) == parts,
    decreases parts.len(),
{
    reveal(Seq::filter);
    if parts.len() > 0 {
        let t = parts.drop_last();
        assert(is_status_word(parts[parts.len() - 1]));
        assert(are_status_words(t)) by {
            assert forall|i: int| 0 <= i < t.len() implies is_status_word(#[trigger] t[i]) by {
                assert(t[i] == parts[i]);
            }
        }
        lemma_non_empty_stays(t);
        assert(parts =~= t.push(parts.last()));
    } else {
        assert(non_empty(parts) =~= parts);
    }
}

/// The words that a spelling is made of.
pub open spec fn words_of(raw: Seq<char>) -> Seq<Seq<char>> {
    non_empty(pieces(mapped(raw), '_'))
}

proof fn lemma_filtered(parts: Seq<Seq<char>>, p: Seq<char>)
    requires
        non_empty(parts).contains(p),
    ensures
        parts.contains(p),
        p.len() > 0,
    decreases parts.len(),
{
    reveal(Seq::filter);
    if parts.len() > 0 {
        let t = parts.drop_last();
        if non_empty(t).contains(p) {
            lemma_filtered(t, p);
            let i = choose|i: int| 0 <= i < t.len() && t[i] == p;
            assert(parts[i] == p);
        } else {
            let r = non_empty(parts);
            let i = choose|i: int| 0 <= i < r.len() && r[i] == p;
            if i < non_empty(t).len() {
                assert(non_empty(t)[i] == p);
            }
            assert(p == parts.last());
            assert(parts[parts.len() - 1] == p);
        }
    } else {
        assert(non_empty(parts) =~= Seq::empty());
    }
}

proof fn lemma_piece_chars(s: Seq<char>, c: char, from: int, i: int, k: int)
    requires
        0 <= from <= s.len(),
        0 <= i < pieces_from(s, c, from).len(),
        0 <= k < pieces_from(s, c, from)[i].len(),
    ensures
        exists|j: int| 0 <= j < s.len() && #[trigger] s[j] == pieces_from(s, c, from)[i][k],
    decreases s.len() - from,
{
    let j = char_from(s, c, from);
    lemma_char_from(s, c, from);
    if i == 0 {
        if j < s.len() {
            assert(pieces_from(s, c, from)[0] == s.subrange(from, j));
        }
        assert(s[from + k] == pieces_from(s, c, from)[i][k]);
    } else {
        assert(pieces_from(s, c, from)[i] == pieces_from(s, c, j + 1)[i - 1]);
        lemma_piece_chars(s, c, j + 1, i - 1, k);
    }
}

proof fn lemma_words_are_words(raw: Seq<char>)
    ensures
        are_status_words(words_of(raw)),
{
    let m = mapped(raw);
    let ps = pieces(m, '_');
    let ws = words_of(raw);
    assert forall|i: int| 0 <= i < ws.len() implies is_status_word(#[trigger] ws[i]) by {
        let w = ws[i];
        assert(ws.contains(w));
        lemma_filtered(ps, w);
        let p = choose|p: int| 0 <= p < ps.len() && ps[p] == w;
        lemma_pieces_are_plain(m, '_', 0, p);
        assert forall|k: int| 0 <= k < w.len() implies is_ascii_alnum(#[trigger] w[k])
            && lower_char(w[k]) == w[k] by {
            lemma_piece_chars(m, '_', 0, p, k);
            let j = choose|j: int| 0 <= j < m.len() && #[trigger] m[j] == w[k];
            assert(m[j] == status_char(raw[j]));
            assert(w.contains(w[k]));
        }
    }
}

proof fn lemma_named_words()
    ensures
        status_words("valid_under_hyp"@) == "valid_under_hyp"@,
        status_words("invalid_under_hyp"@) == "invalid_under_hyp"@,
        status_words("noresult"@) == "noresult"@,
        status_words("unknown"@) == "unknown"@,
{
    reveal_strlit("_");
    reveal_strlit("valid");
    reveal_strlit("invalid");
    reveal_strlit("under");
    reveal_strlit("hyp");
    reveal_strlit("valid_under_hyp");
    reveal_strlit("invalid_under_hyp");
    reveal_strlit("noresult");
    reveal_strlit("unknown");
    let a = seq!["valid"@, "under"@, "hyp"@];
    let b = seq!["invalid"@, "under"@, "hyp"@];
    let c = seq!["noresult"@];
    let d = seq!["unknown"@];
    reveal_with_fuel(join_spec, 4);
    assert(a.drop_last() =~= seq!["valid"@, "under"@]);
    assert(a.drop_last().drop_last() =~= seq!["valid"@]);
    assert(b.drop_last() =~= seq!["invalid"@, "under"@]);
    assert(b.drop_last().drop_last() =~= seq!["invalid"@]);
    assert(join_spec(a, "_"@) =~= "valid_under_hyp"@);
    assert(join_spec(b, "_"@) =~= "invalid_under_hyp"@);
    assert(join_spec(c, "_"@) =~= "noresult"@);
    assert(join_spec(d, "_"@) =~= "unknown"@);
    assert(are_status_words(a));
    assert(are_status_words(b));
    assert(are_status_words(c));
    assert(are_status_words(d));
    lemma_words_stay(a);
    lemma_words_stay(b);
    lemma_words_stay(c);
    lemma_words_stay(d);
}

/// A status that is normalized stays as it is when it is normalized again.
pub proof fn law_normalizing_twice_changes_nothing(raw: Seq<char>)
    ensures
        normalize(normalize(raw)) == normalize(raw),
{
    lemma_words_are_words(raw);
    lemma_words_stay(words_of(raw));
    assert(status_words(raw) == join_spec(words_of(raw), "_"@));
    lemma_named_words();
    reveal_strlit("valid_under_hyp");
    reveal_strlit("invalid_under_hyp");
    reveal_strlit("valid_under_hypothesis");
    reveal_strlit("invalid_under_hypothesis");
    reveal_strlit("noresult");
    reveal_strlit("no_result");
    reveal_strlit("never_tried");
    reveal_strlit("unknown");
    assert("valid_under_hyp"@.len() == 15);
    assert("invalid_under_hyp"@.len() == 17);
    assert("valid_under_hypothesis"@.len() == 22);
    assert("invalid_under_hypothesis"@.len() == 24);
    assert("noresult"@.len() == 8);
    assert("no_result"@.len() == 9);
    assert("never_tried"@.len() == 11);
    assert("unknown"@.len() == 7);
}

/// The characters that a normalized status is made of.
pub open spec fn is_status_char(c: char) -> bool {
    'a' <= c <= 'z' || '0' <= c <= '9' || c == '_'
}

/// Whether a text has the form of a normalized status: words of small letters and digits, with one
/// `_` between neighbours and none at either end.
pub open spec fn status_shaped(s: Seq<char>) -> bool {
    &&& s.len() > 0
    &&& forall|i: int| 0 <= i < s.len() ==> is_status_char(#[trigger] s[i])
    &&& s[0] != '_'
    &&& s.last() != '_'
    &&& forall|i: int, j: int|
        0 <= i < s.len() && j == i + 1 && j < s.len() && #[trigger] s[i] == '_' ==> #[trigger] s[j]
            != '_'
}

proof fn lemma_join_is_shaped(parts: Seq<Seq<char>>)
    requires
        are_status_words(parts),
        parts.len() > 0,
    ensures
        status_shaped(join_spec(parts, "_"@)),
    decreases parts.len(),
{
    reveal_strlit("_");
    let j = join_spec(parts, "_"@);
    let t = parts.drop_last();
    let n = parts.last();
    assert(is_status_word(parts[parts.len() - 1]));
    assert forall|i: int| 0 <= i < n.len() implies is_status_char(#[trigger] n[i]) && n[i]
        != '_' by {
        assert(is_ascii_alnum(n[i]) && lower_char(n[i]) == n[i]);
    }
    if parts.len() > 1 {
        assert forall|i: int| 0 <= i < t.len() implies is_status_word(#[trigger] t[i]) by {
            assert(t[i] == parts[i]);
        }
        lemma_join_is_shaped(t);
        let a = join_spec(t, "_"@);
        assert(j =~= a + "_"@ + n);
        assert(j[0] == a[0]);
        assert(j.last() == n.last());
        assert forall|i: int| 0 <= i < j.len() implies is_status_char(#[trigger] j[i]) by {
            if i < a.len() {
                assert(j[i] == a[i]);
            } else if i > a.len() {
                assert(j[i] == n[i - a.len() - 1]);
            }
        }
        assert forall|i: int, k: int|
            0 <= i < j.len() && k == i + 1 && k < j.len() && #[trigger] j[i] == '_' implies (
        #[trigger] j[k]) != '_' by {
            if k < a.len() {
                assert(j[i] == a[i] && j[k] == a[k]);
            } else if k == a.len() {
                assert(j[i] == a[i] && a[i] == a.last());
            } else {
                assert(j[k] == n[k - a.len() - 1]);
            }
        }
    } else {
        assert(j == n);
        assert(n.last() == n[n.len() - 1]);
    }
}

proof fn lemma_words_are_shaped(raw: Seq<char>)
    requires
        status_words(raw).len() > 0,
    ensures
        status_shaped(status_words(raw)),
{
    lemma_words_are_words(raw);
    let ws = words_of(raw);
    assert(status_words(raw) == join_spec(ws, "_"@));
    if ws.len() == 0 {
        assert(join_spec(ws, "_"@) =~= Seq::empty());
    }
    lemma_join_is_shaped(ws);
}

/// A normalized status is never empty, and is made of words of small letters and digits with one
/// `_` between neighbours.
pub proof fn law_a_normalized_status_has_one_form(raw: Seq<char>)
    ensures
        status_shaped(normalize(raw)),
{
    lemma_named_words();
    reveal_strlit("valid_under_hyp");
    reveal_strlit("invalid_under_hyp");
    reveal_strlit("noresult");
    reveal_strlit("unknown");
    assert("valid_under_hyp"@.len() == 15 && "invalid_under_hyp"@.len() == 17);
    assert("noresult"@.len() == 8 && "unknown"@.len() == 7);
    lemma_words_are_shaped("valid_under_hyp"@);
    lemma_words_are_shaped("invalid_under_hyp"@);
    lemma_words_are_shaped("noresult"@);
    lemma_words_are_shaped("unknown"@);
    if status_words(raw).len() > 0 {
        lemma_words_are_shaped(raw);
    }
}

/// One character with a small ASCII letter made a capital.
pub open spec fn upper_char(c: char) -> char {
    if 'a' <= c <= 'z' {
        (c as u8 - 32) as char
    } else {
        c
    }
}

/// A text with its small ASCII letters made capitals.
pub open spec fn ascii_upper(s: Seq<char>) -> Seq<char> {
    s.map_values(|c: char| upper_char(c))
}

/// A status is read alike in small letters, in capitals, and in any mixture of both.
pub proof fn law_case_does_not_matter(a: Seq<char>, b: Seq<char>)
    ensures
        ascii_lower(a) == ascii_lower(b) ==> normalize(a) == normalize(b),
        normalize(ascii_upper(a)) == normalize(a),
        normalize(ascii_lower(a)) == normalize(a),
{
    if ascii_lower(a) == ascii_lower(b) {
        lemma_mapped_alike(a, b);
    }
    let up = ascii_upper(a);
    let low = ascii_lower(a);
    assert(ascii_lower(up) =~= low) by {
        assert forall|i: int| 0 <= i < a.len() implies #[trigger] ascii_lower(up)[i] == low[i] by {
            assert(ascii_lower(up)[i] == lower_char(upper_char(a[i])));
        }
    }
    assert(ascii_lower(low) =~= low) by {
        assert forall|i: int| 0 <= i < a.len() implies #[trigger] ascii_lower(low)[i] == low[i] by {
            assert(ascii_lower(low)[i] == lower_char(lower_char(a[i])));
        }
    }
    lemma_mapped_alike(up, a);
    lemma_mapped_alike(low, a);
}

proof fn lemma_mapped_alike(a: Seq<char>, b: Seq<char>)
    requires
        ascii_lower(a) == ascii_lower(b),
    ensures
        normalize(a) == normalize(b),
{
    assert(ascii_lower(a).len() == a.len());
    assert(ascii_lower(b).len() == b.len());
    assert(mapped(a) =~= mapped(b)) by {
        assert forall|i: int| 0 <= i < a.len() implies #[trigger] mapped(a)[i] == mapped(b)[i] by {
            assert(ascii_lower(a)[i] == lower_char(a[i]));
            assert(ascii_lower(b)[i] == lower_char(b[i]));
        }
    }
    assert(status_words(a) == join_spec(words_of(a), "_"@));
    assert(status_words(b) == join_spec(words_of(b), "_"@));
}

/// What counts as progress rests on no hypotheses and is not vacuous.
pub proof fn law_progress_is_unconditional(normalized: Seq<char>)
    ensures
        counts_as_progress(normalized) ==> !requires_hypotheses(normalized) && !is_vacuous(
            normalized,
        ) && proved(normalized) && !is_failed(normalized) && !is_timeout(normalized),
{
    reveal_strlit("valid");
    reveal_strlit("valid_under_hyp");
    reveal_strlit("invalid_under_hyp");
    reveal_strlit("valid_under_false_hypothesis");
    reveal_strlit("_but_dead");
    reveal_strlit("failed");
    reveal_strlit("timeout");
    assert("valid"@.len() == 5 && "valid_under_hyp"@.len() == 15);
    assert("invalid_under_hyp"@.len() == 17 && "valid_under_false_hypothesis"@.len() == 28);
    assert("_but_dead"@.len() == 9);
    assert(ascii_lower("valid"@).len() == 5);
    assert(ascii_lower("failed"@).len() == 6);
    assert(ascii_lower("timeout"@).len() == 7);
}

proof fn lemma_is_one_word(s: Seq<char>)
    requires
        is_status_word(s),
    ensures
        status_words(s) == s,
{
    assert(mapped(s) =~= s) by {
        assert forall|i: int| 0 <= i < s.len() implies #[trigger] mapped(s)[i] == s[i] by {
            assert(is_ascii_alnum(s[i]) && lower_char(s[i]) == s[i]);
        }
    }
    assert(!s.contains('_')) by {
        if s.contains('_') {
            let i = choose|i: int| 0 <= i < s.len() && s[i] == '_';
            assert(is_ascii_alnum(s[i]));
        }
    }
    crate::text::lemma_one_piece(s, '_');
    reveal(Seq::filter);
    let one = seq![s];
    assert(one.drop_last() =~= Seq::empty());
    assert(one.last() == s);
    let keep = |p: Seq<char>| p.len() > 0;
    assert(one.drop_last().filter(keep) =~= Seq::empty());
    assert(non_empty(one) =~= seq![s]);
    assert(status_words(s) == join_spec(non_empty(pieces(mapped(s), '_')), "_"@));
}

/// A plain verdict is its own normal form.
pub proof fn lemma_plain_verdicts()
    ensures
        normalize("valid"@) == "valid"@,
        normalize("Valid"@) == "valid"@,
        normalize("VALID"@) == "valid"@,
        normalize("invalid"@) == "invalid"@,
        normalize("unknown"@) == "unknown"@,
        normalize("timeout"@) == "timeout"@,
        normalize("failed"@) == "failed"@,
        normalize("noresult"@) == "noresult"@,
{
    reveal_strlit("valid");
    reveal_strlit("invalid");
    reveal_strlit("unknown");
    reveal_strlit("timeout");
    reveal_strlit("failed");
    reveal_strlit("noresult");
    assert("valid"@.len() == 5 && "invalid"@.len() == 7);
    assert("unknown"@.len() == 7 && "timeout"@.len() == 7);
    assert("failed"@.len() == 6 && "noresult"@.len() == 8);
    assert("invalid"@[0] != "unknown"@[0]);
    assert("invalid"@[0] != "timeout"@[0]);
    assert("unknown"@[0] != "timeout"@[0]);
    reveal_strlit("Valid");
    reveal_strlit("VALID");
    assert("Valid"@.len() == 5 && "VALID"@.len() == 5);
    reveal_strlit("valid_under_hypothesis");
    reveal_strlit("invalid_under_hypothesis");
    reveal_strlit("no_result");
    reveal_strlit("never_tried");
    assert("valid_under_hypothesis"@.len() == 22 && "invalid_under_hypothesis"@.len() == 24);
    assert("no_result"@.len() == 9 && "never_tried"@.len() == 11);
    lemma_named_words();
    lemma_is_one_word("valid"@);
    lemma_is_one_word("invalid"@);
    lemma_is_one_word("unknown"@);
    lemma_is_one_word("timeout"@);
    lemma_is_one_word("failed"@);
    lemma_is_one_word("noresult"@);
    assert(ascii_lower("Valid"@) =~= ascii_lower("valid"@));
    assert(ascii_lower("VALID"@) =~= ascii_lower("valid"@));
    law_case_does_not_matter("Valid"@, "valid"@);
    law_case_does_not_matter("VALID"@, "valid"@);
}

/// The flags of a row say whether its status is an unconditional proof, whether it is empty of
/// meaning, and whether it rests on hypotheses; nothing else of the row changes.
pub proof fn law_flags_follow_the_status(row: JsonView, status: Seq<char>, key: Seq<char>)
    requires
        row is Object,
    ensures
        with_flags(row, "valid"@).flag("counts_as_progress"@) == Some(true),
        status != "valid"@ ==> with_flags(row, status).flag("counts_as_progress"@) == Some(false),
        with_flags(row, status + "_but_dead"@).flag("vacuous"@) == Some(true),
        with_flags(row, "valid_under_false_hypothesis"@).flag("vacuous"@) == Some(true),
        with_flags(row, "valid_under_hyp"@).flag("requires_hypotheses"@) == Some(true),
        with_flags(row, "invalid_under_hyp"@).flag("requires_hypotheses"@) == Some(true),
        with_flags(row, "valid"@).flag("requires_hypotheses"@) == Some(false),
        with_flags(row, "valid"@).flag("vacuous"@) == Some(false),
        key != "counts_as_progress"@ && key != "vacuous"@ && key != "requires_hypotheses"@
            ==> with_flags(row, status).get(key) == row.get(key),
{
    broadcast use crate::json::group_object_reads;

    reveal_strlit("counts_as_progress");
    reveal_strlit("vacuous");
    reveal_strlit("requires_hypotheses");
    assert("counts_as_progress"@.len() != "vacuous"@.len());
    assert("counts_as_progress"@.len() != "requires_hypotheses"@.len());
    assert("vacuous"@.len() != "requires_hypotheses"@.len());
    reveal_strlit("valid");
    reveal_strlit("valid_under_hyp");
    reveal_strlit("invalid_under_hyp");
    reveal_strlit("valid_under_false_hypothesis");
    assert("valid"@.len() != "valid_under_hyp"@.len());
    assert("valid"@.len() != "invalid_under_hyp"@.len());
    assert("valid"@.len() != "valid_under_false_hypothesis"@.len());
    assert("valid_under_hyp"@.len() != "invalid_under_hyp"@.len());
    assert("valid_under_hyp"@.len() != "valid_under_false_hypothesis"@.len());
    assert("invalid_under_hyp"@.len() != "valid_under_false_hypothesis"@.len());

    let dead = status + "_but_dead"@;
    let n = dead.len() - "_but_dead"@.len();
    assert(dead.subrange(n, dead.len() as int) =~= "_but_dead"@);
    reveal_strlit("_but_dead");
    assert(ends(dead, "_but_dead"@));
}

/// What stands between the words of a status does not matter, as long as it is neither a letter nor
/// a digit.
pub proof fn law_separators_do_not_matter(a: Seq<char>, b: Seq<char>)
    requires
        a.len() == b.len(),
        forall|i: int|
            0 <= i < a.len() ==> #[trigger] a[i] == b[i] || (!is_ascii_alnum(a[i])
                && !is_ascii_alnum(b[i])),
    ensures
        normalize(a) == normalize(b),
{
    assert(mapped(a) =~= mapped(b)) by {
        assert forall|i: int| 0 <= i < a.len() implies #[trigger] mapped(a)[i] == mapped(b)[i] by {
            assert(a[i] == b[i] || !is_ascii_alnum(a[i]));
        }
    }
    assert(status_words(a) == join_spec(words_of(a), "_"@));
    assert(status_words(b) == join_spec(words_of(b), "_"@));
}

/// A status of one word that has no other name is that word in small letters, so that a verdict
/// that is new arrives intact.
pub proof fn law_a_new_verdict_arrives_intact(word: Seq<char>)
    requires
        word.len() > 0,
        forall|i: int| 0 <= i < word.len() ==> is_ascii_alnum(#[trigger] word[i]),
    ensures
        normalize(word) == ascii_lower(word),
{
    let low = ascii_lower(word);
    assert forall|i: int| 0 <= i < low.len() implies is_ascii_alnum(#[trigger] low[i]) && lower_char(
        low[i],
    ) == low[i] by {
        assert(is_ascii_alnum(word[i]));
        assert(low[i] == lower_char(word[i]));
    }
    lemma_is_one_word(low);
    law_case_does_not_matter(word, low);
    reveal_strlit("valid_under_hypothesis");
    reveal_strlit("invalid_under_hypothesis");
    reveal_strlit("no_result");
    reveal_strlit("never_tried");
    assert("valid_under_hypothesis"@.len() == 22 && "invalid_under_hypothesis"@.len() == 24);
    assert("no_result"@.len() == 9 && "never_tried"@.len() == 11);
    assert("valid_under_hypothesis"@[5] == '_' && "invalid_under_hypothesis"@[7] == '_');
    assert("no_result"@[2] == '_' && "never_tried"@[5] == '_');
    if low == "valid_under_hypothesis"@ {
        assert(is_ascii_alnum(low[5]));
    }
    if low == "invalid_under_hypothesis"@ {
        assert(is_ascii_alnum(low[7]));
    }
    if low == "no_result"@ {
        assert(is_ascii_alnum(low[2]));
    }
    if low == "never_tried"@ {
        assert(is_ascii_alnum(low[5]));
    }
}

proof fn lemma_three_words(a: Seq<char>, b: Seq<char>, c: Seq<char>)
    requires
        is_status_word(a),
        is_status_word(b),
        is_status_word(c),
    ensures
        status_words(a + "_"@ + b) == a + "_"@ + b,
        status_words(a + "_"@ + b + "_"@ + c) == a + "_"@ + b + "_"@ + c,
{
    reveal_strlit("_");
    let two = seq![a, b];
    let three = seq![a, b, c];
    reveal_with_fuel(join_spec, 4);
    assert(two.drop_last() =~= seq![a]);
    assert(three.drop_last() =~= two);
    assert(join_spec(two, "_"@) =~= a + "_"@ + b);
    assert(join_spec(three, "_"@) =~= a + "_"@ + b + "_"@ + c);
    assert(are_status_words(two));
    assert(are_status_words(three));
    lemma_words_stay(two);
    lemma_words_stay(three);
}

/// The spellings that Frama-C uses for one verdict are one: a verdict under a hypothesis, and a
/// goal that was never tried.
pub proof fn law_spellings_of_one_verdict_are_one()
    ensures
        normalize("valid_under_hypothesis"@) == "valid_under_hyp"@,
        normalize("invalid_under_hypothesis"@) == "invalid_under_hyp"@,
        normalize("no_result"@) == "noresult"@,
        normalize("never_tried"@) == "noresult"@,
        normalize(""@) == "unknown"@,
{
    reveal_strlit("valid");
    reveal_strlit("invalid");
    reveal_strlit("under");
    reveal_strlit("hypothesis");
    reveal_strlit("no");
    reveal_strlit("result");
    reveal_strlit("never");
    reveal_strlit("tried");
    assert("valid"@.len() == 5 && "invalid"@.len() == 7);
    assert("under"@.len() == 5 && "hypothesis"@.len() == 10);
    assert("no"@.len() == 2 && "result"@.len() == 6);
    assert("never"@.len() == 5 && "tried"@.len() == 5);
    assert("valid"@[0] != "under"@[0]);
    assert("valid"@[0] != "never"@[0]);
    assert("valid"@[0] != "tried"@[0]);
    assert("under"@[0] != "never"@[0]);
    assert("under"@[0] != "tried"@[0]);
    assert("never"@[0] != "tried"@[0]);
    reveal_strlit("valid_under_hypothesis");
    reveal_strlit("invalid_under_hypothesis");
    reveal_strlit("no_result");
    reveal_strlit("never_tried");
    assert("valid_under_hypothesis"@.len() == 22 && "invalid_under_hypothesis"@.len() == 24);
    assert("no_result"@.len() == 9 && "never_tried"@.len() == 11);
    reveal_strlit("_");
    reveal_strlit("");
    lemma_three_words("valid"@, "under"@, "hypothesis"@);
    lemma_three_words("invalid"@, "under"@, "hypothesis"@);
    lemma_three_words("no"@, "result"@, "no"@);
    lemma_three_words("never"@, "tried"@, "no"@);
    assert("valid"@ + "_"@ + "under"@ + "_"@ + "hypothesis"@ =~= "valid_under_hypothesis"@);
    assert("invalid"@ + "_"@ + "under"@ + "_"@ + "hypothesis"@ =~= "invalid_under_hypothesis"@);
    assert("no"@ + "_"@ + "result"@ =~= "no_result"@);
    assert("never"@ + "_"@ + "tried"@ =~= "never_tried"@);
    let e = Seq::<char>::empty();
    assert(""@ =~= e);
    assert(mapped(e) =~= e);
    crate::text::lemma_one_piece(e, '_');
    reveal(Seq::filter);
    let one = seq![e];
    assert(one.drop_last() =~= Seq::empty());
    let keep = |p: Seq<char>| p.len() > 0;
    assert(one.drop_last().filter(keep) =~= Seq::empty());
    assert(non_empty(one) =~= Seq::empty());
    assert(status_words(e) == join_spec(non_empty(pieces(mapped(e), '_')), "_"@));
}

/// The status of a row is the one it was given when it was normalized, then the raw one, then the
/// plain one; what has no status has none.
pub proof fn law_which_status_a_row_has(row: JsonView, a: Seq<char>, b: Seq<char>, c: Seq<char>)
    ensures
        row.get("normalized_status"@) == Some(JsonView::Str(a)) ==> own_status_spec(row) == Some(a),
        row.get("normalized_status"@) is None && row.get("raw_status"@) == Some(JsonView::Str(b))
            ==> own_status_spec(row) == Some(b),
        row.get("normalized_status"@) is None && row.get("raw_status"@) is None && row.get(
            "status"@,
        ) == Some(JsonView::Str(c)) ==> own_status_spec(row) == Some(c),
        row.get("raw_status"@) == Some(JsonView::Str(b)) ==> raw_status_spec(row) == Some(b),
        row.get("raw_status"@) is None && row.get("status"@) == Some(JsonView::Str(c))
            ==> raw_status_spec(row) == Some(c),
        row.text("normalized_status"@) == Some(a) ==> consolidated_status_spec(row) == Some(a),
        row.text("normalized_status"@) is None && row.text("normalized_property_status"@) == Some(b)
            ==> consolidated_status_spec(row) == Some(b),
        row.text("normalized_status"@) is None && row.text("normalized_property_status"@) is None
            ==> consolidated_status_spec(row) == row.text("status"@),
        row.text("normalized_status"@) == Some(a) ==> normalized_or_derived_spec(row) == a,
        row.text("normalized_status"@) is None && row.get("raw_status"@) == Some(JsonView::Str(b))
            ==> normalized_or_derived_spec(row) == normalize(b),
        row.get("normalized_status"@) is None && row.get("raw_status"@) is None && row.get(
            "status"@,
        ) is None ==> own_status_spec(row) is None && normalized_or_derived_spec(row) == normalize(
            "unknown"@,
        ),
{
}

/// A row is proved, or ran out of time, where its status says so, and not where it has none.
pub proof fn law_a_row_is_judged_by_its_status(row: JsonView, a: Seq<char>)
    ensures
        row.get("normalized_status"@) == Some(JsonView::Str(a)) ==> own_proved(row) == proved(a)
            && own_timeout(row) == is_timeout(a),
        row.get("normalized_status"@) is None && row.get("raw_status"@) is None && row.get(
            "status"@,
        ) is None ==> !own_proved(row) && !own_timeout(row),
{
}

/// A row keeps its status as it was, and is given the normalized one and what follows from it; a row
/// without one is left as it is.
pub proof fn law_status_fields_are_added(row: JsonView, raw: Seq<char>)
    requires
        row is Object,
    ensures
        row.text("status"@) == Some(raw) ==> {
            let r = with_status_fields(row);
            &&& r.text("status"@) == Some(raw)
            &&& r.text("raw_status"@) == Some(raw)
            &&& r.text("normalized_status"@) == Some(normalize(raw))
            &&& r == with_flags(
                row.with("raw_status"@, JsonView::Str(raw)).with(
                    "normalized_status"@,
                    JsonView::Str(normalize(raw)),
                ),
                normalize(raw),
            )
        },
        row.text("status"@) is None ==> with_status_fields(row) == row,
{
    broadcast use crate::json::group_object_reads;

    reveal_strlit("status");
    reveal_strlit("raw_status");
    reveal_strlit("normalized_status");
    reveal_strlit("counts_as_progress");
    reveal_strlit("vacuous");
    reveal_strlit("requires_hypotheses");
    assert("status"@.len() == 6 && "raw_status"@.len() == 10);
    assert("normalized_status"@.len() == 17 && "counts_as_progress"@.len() == 18);
    assert("vacuous"@.len() == 7 && "requires_hypotheses"@.len() == 19);
}

} // verus!
