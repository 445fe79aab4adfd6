//! The memory models that WP knows.

use crate::json::lemma_take_next;
use crate::order::{distinct, push_distinct};
use crate::text::{
    begins, cat2, cat5, char_from, char_from_chars, chars_of, join, join_spec, lemma_char_from,
    lines, lines_spec, own_all, owned, pieces, same, split_char, starts_with, text_between, texts,
    trim, trim_prefix, trim_prefix_spec, trim_spec, trim_start, trim_start_spec,
};
use vstd::prelude::*;
use vstd::string::*;

verus! {

/// The models that WP knows: what a model is based on, what can be added to it, and where that is
/// known from.
#[derive(Debug, Clone, PartialEq, Eq)]
pub struct WpModelSupport {
    pub bases: Vec<String>,
    pub modifiers: Vec<String>,
    pub source: &'static str,
}

/// The models that WP knows, as a mathematical object.
pub struct ModelsView {
    pub bases: Seq<Seq<char>>,
    pub modifiers: Seq<Seq<char>>,
    pub source: Seq<char>,
}

impl View for WpModelSupport {
    type V = ModelsView;

    open spec fn view(&self) -> ModelsView {
        ModelsView {
            bases: texts(self.bases@),
            modifiers: texts(self.modifiers@),
            source: self.source@,
        }
    }
}

/// The models that are taken for known where WP does not say.
pub open spec fn fallback_models() -> ModelsView {
    ModelsView {
        bases: seq!["Hoare"@, "Typed"@, "Bytes"@, "Region"@, "Eva"@],
        modifiers: seq![
            "nocast"@,
            "cast"@,
            "raw"@,
            "ref"@,
            "nat"@,
            "int"@,
            "real"@,
            "float"@,
        ],
        source: "fallback"@,
    }
}

// ---------------------------------------------------------------------------
// Which models are valid
// ---------------------------------------------------------------------------

/// Models with one more of those that are worth naming, where it can be made and is not there.
pub open spec fn with_common(
    models: Seq<Seq<char>>,
    s: ModelsView,
    base: Seq<char>,
    modifier: Seq<char>,
    model: Seq<char>,
) -> Seq<Seq<char>> {
    if s.bases.contains(base) && s.modifiers.contains(modifier) && !models.contains(model) {
        models.push(model)
    } else {
        models
    }
}

/// The models that are worth naming.
pub open spec fn common(s: ModelsView) -> Seq<Seq<char>> {
    with_common(
        with_common(s.bases, s, "Typed"@, "nocast"@, "Typed+nocast"@),
        s,
        "Typed"@,
        "cast"@,
        "Typed+cast"@,
    )
}

/// Whether a text is a model: a base, and modifiers behind it.
pub open spec fn valid_model(s: ModelsView, model: Seq<char>) -> bool {
    let parts = pieces(model, '+');
    &&& known_part(s.bases, parts[0])
    &&& forall|i: int| 1 <= i < parts.len() ==> known_part(s.modifiers, #[trigger] parts[i])
}

/// Whether a part of a model is one of those that are known.
pub open spec fn known_part(known: Seq<Seq<char>>, part: Seq<char>) -> bool {
    part.len() > 0 && known.contains(part)
}

/// What is said of a text that is no model.
pub open spec fn model_complaint(s: ModelsView, model: Seq<char>) -> Seq<char> {
    "invalid WP model '"@ + model + "'; bases: "@ + join_spec(s.bases, ", "@) + (
    "; modifiers: "@ + join_spec(s.modifiers, ", "@) + "; examples: "@ + join_spec(common(s), ", "@)
    )
}

/// What is said of the first of some models that is none, if there is one.
pub open spec fn models_complaint(s: ModelsView, models: Seq<Seq<char>>, i: int) -> Option<Seq<char>>
    decreases models.len() - i,
{
    if i < 0 || i >= models.len() {
        None
    } else if valid_model(s, trim_spec(models[i])) {
        models_complaint(s, models, i + 1)
    } else {
        Some(model_complaint(s, trim_spec(models[i])))
    }
}

fn is_known(known: &Vec<String>, part: &str) -> (r: bool)
    ensures
        r == texts(known@).contains(part@),
{
    let ghost s = texts(known@);
    let mut i: usize = 0;
    while i < known.len()
        invariant
            i <= known@.len(),
            s == texts(known@),
            forall|k: int| 0 <= k < i ==> #[trigger] s[k] != part@,
        decreases known@.len() - i,
    {
        assert(s[i as int] == known@[i as int]@);
        if same(known[i].as_str(), part) {
            return true;
        }
        i = i + 1;
    }
    false
}

impl WpModelSupport {
    /// The models that are taken for known where WP does not say.
    pub fn fallback() -> (r: WpModelSupport)
        ensures
            r@ == fallback_models(),
    {
        let bases: Vec<String> = vec![
            owned("Hoare"),
            owned("Typed"),
            owned("Bytes"),
            owned("Region"),
            owned("Eva"),
        ];
        let modifiers: Vec<String> = vec![
            owned("nocast"),
            owned("cast"),
            owned("raw"),
            owned("ref"),
            owned("nat"),
            owned("int"),
            owned("real"),
            owned("float"),
        ];
        assert(texts(bases@) =~= fallback_models().bases);
        assert(texts(modifiers@) =~= fallback_models().modifiers);
        WpModelSupport { bases, modifiers, source: "fallback" }
    }

    /// Whether every model of a list is valid, and what is said of the first that is not.
    pub fn validate(&self, model: &str) -> (r: Result<(), String>)
        ensures
            match r {
                Ok(_) => models_complaint(self@, pieces(model@, ','), 0) is None,
                Err(e) => models_complaint(self@, pieces(model@, ','), 0) == Some(e@),
            },
    {
        let models = split_char(model, ',');
        let ghost all = pieces(model@, ',');
        let mut i: usize = 0;
        while i < models.len()
            invariant
                i <= models@.len(),
                all == texts(models@),
                all == pieces(model@, ','),
                models_complaint(self@, all, 0) == models_complaint(self@, all, i as int),
            decreases models@.len() - i,
        {
            assert(all[i as int] == models@[i as int]@);
            let one = trim(models[i].as_str());
            match self.validate_one(one.as_str()) {
                Ok(_) => {},
                Err(e) => {
                    return Err(e);
                },
            }
            i = i + 1;
        }
        assert(texts(models@).len() == models@.len());
        Ok(())
    }

    /// Whether one model is valid, and what is said of it where it is not.
    pub fn validate_one(&self, model: &str) -> (r: Result<(), String>)
        ensures
            match r {
                Ok(_) => valid_model(self@, model@),
                Err(e) => !valid_model(self@, model@) && e@ == model_complaint(self@, model@),
            },
    {
        let parts = split_char(model, '+');
        let ghost all = pieces(model@, '+');
        assert(all == texts(parts@));
        let mut valid: bool = parts.len() > 0 && !parts[0].as_str().is_empty() && is_known(
            &self.bases,
            parts[0].as_str(),
        );
        proof {
            assert(all.len() > 0);
            assert(all.len() == parts@.len());
            assert(all[0] == parts@[0]@);
        }
        let mut i: usize = 1;
        while i < parts.len()
            invariant
                1 <= i,
                i <= parts@.len(),
                all == texts(parts@),
                valid == (known_part(self@.bases, all[0]) && forall|k: int|
                    1 <= k < i ==> known_part(self@.modifiers, #[trigger] all[k])),
            decreases parts@.len() - i,
        {
            assert(all[i as int] == parts@[i as int]@);
            if parts[i].as_str().is_empty() || !is_known(&self.modifiers, parts[i].as_str()) {
                assert(!known_part(self@.modifiers, all[i as int]));
                valid = false;
            }
            i = i + 1;
        }
        if valid {
            return Ok(());
        }
        let examples = self.common_models();
        let head = cat5(
            "invalid WP model '",
            model,
            "'; bases: ",
            join(&self.bases, ", ").as_str(),
            "",
        );
        let tail = crate::text::cat4(
            "; modifiers: ",
            join(&self.modifiers, ", ").as_str(),
            "; examples: ",
            join(&examples, ", ").as_str(),
        );
        let e = cat2(head.as_str(), tail.as_str());
        proof {
            reveal_strlit("");
            assert(e@ =~= model_complaint(self@, model@));
        }
        Err(e)
    }

    /// The models that are worth naming.
    pub fn common_models(&self) -> (r: Vec<String>)
        ensures
            texts(r@) == common(self@),
    {
        let mut models = own_all(&self.bases);
        self.add_common(&mut models, "Typed", "nocast", "Typed+nocast");
        self.add_common(&mut models, "Typed", "cast", "Typed+cast");
        models
    }

    fn add_common(&self, models: &mut Vec<String>, base: &str, modifier: &str, model: &str)
        ensures
            texts(final(models)@) == with_common(
                texts(old(models)@),
                self@,
                base@,
                modifier@,
                model@,
            ),
    {
        if is_known(&self.bases, base) && is_known(&self.modifiers, modifier) && !is_known(
            models,
            model,
        ) {
            let ghost before = models@;
            models.push(owned(model));
            assert(texts(models@) =~= texts(before).push(model@));
        }
    }
}

// ---------------------------------------------------------------------------
// What WP says it knows
// ---------------------------------------------------------------------------

/// The lines that WP's help has on models: from the option on to the next one.
pub open spec fn section_from(ls: Seq<Seq<char>>, i: int, inside: bool) -> Seq<Seq<char>>
    decreases ls.len() - i,
{
    if i < 0 || i >= ls.len() {
        Seq::empty()
    } else {
        let t = trim_start_spec(ls[i]);
        if begins(t, "-wp-model "@) {
            seq![ls[i]] + section_from(ls, i + 1, true)
        } else if !inside {
            section_from(ls, i + 1, false)
        } else if begins(t, "-wp-"@) {
            Seq::empty()
        } else {
            seq![ls[i]] + section_from(ls, i + 1, true)
        }
    }
}

/// What stands between single quotes, from `from` on.
pub open spec fn quoted_from(s: Seq<char>, from: int) -> Seq<Seq<char>>
    decreases s.len() - from,
    when 0 <= from <= s.len()
    via quoted_from_ends
{
    let a = char_from(s, '\'', from);
    if a >= s.len() {
        Seq::empty()
    } else {
        let b = char_from(s, '\'', a + 1);
        if b >= s.len() {
            Seq::empty()
        } else {
            seq![s.subrange(a + 1, b)] + quoted_from(s, b + 1)
        }
    }
}

#[via_fn]
proof fn quoted_from_ends(s: Seq<char>, from: int) {
    lemma_char_from(s, '\'', from);
    let a = char_from(s, '\'', from);
    if a < s.len() {
        lemma_char_from(s, '\'', a + 1);
    }
}

/// The selectors of some lines.
pub open spec fn selectors(ls: Seq<Seq<char>>) -> Seq<Seq<char>>
    decreases ls.len(),
{
    if ls.len() == 0 {
        Seq::empty()
    } else {
        selectors(ls.drop_last()) + quoted_from(ls.last(), 0)
    }
}

/// The selectors among some that name a base.
pub open spec fn base_selectors(s: Seq<Seq<char>>) -> Seq<Seq<char>>
    decreases s.len(),
{
    if s.len() == 0 {
        Seq::empty()
    } else if !begins(s.last(), "+"@) && s.last().len() > 0 {
        base_selectors(s.drop_last()).push(s.last())
    } else {
        base_selectors(s.drop_last())
    }
}

/// Parts without the signs they start with, those that are left empty aside.
pub open spec fn unsigned(parts: Seq<Seq<char>>) -> Seq<Seq<char>>
    decreases parts.len(),
{
    if parts.len() == 0 {
        Seq::empty()
    } else {
        let p = trim_prefix_spec(parts.last(), "+"@);
        if p.len() > 0 {
            unsigned(parts.drop_last()).push(p)
        } else {
            unsigned(parts.drop_last())
        }
    }
}

/// The modifiers that some selectors name.
pub open spec fn modifier_selectors(s: Seq<Seq<char>>) -> Seq<Seq<char>>
    decreases s.len(),
{
    if s.len() == 0 {
        Seq::empty()
    } else if begins(s.last(), "+"@) {
        modifier_selectors(s.drop_last()) + unsigned(pieces(s.last(), '/'))
    } else {
        modifier_selectors(s.drop_last())
    }
}

/// The models that WP's help names: each base and each modifier once, in the order in which they
/// are met. Where it names no bases or no modifiers, it is not believed.
pub open spec fn models_in_help(help: Seq<char>) -> ModelsView {
    let found = selectors(section_from(lines_spec(help), 0, false));
    let bases = distinct(base_selectors(found));
    let modifiers = distinct(modifier_selectors(found));
    if bases.len() == 0 || modifiers.len() == 0 {
        fallback_models()
    } else {
        ModelsView { bases, modifiers, source: "frama-c -wp-h"@ }
    }
}

fn model_section(help: &str) -> (r: Vec<String>)
    ensures
        texts(r@) == section_from(lines_spec(help@), 0, false),
{
    let ls = lines(help);
    let ghost all = texts(ls@);
    let mut out: Vec<String> = Vec::new();
    let mut inside: bool = false;
    let mut i: usize = 0;
    assert(texts(out@) =~= Seq::empty());
    while i < ls.len()
        invariant
            i <= ls@.len(),
            all == texts(ls@),
            all == lines_spec(help@),
            section_from(all, 0, false) =~= texts(out@) + section_from(all, i as int, inside),
        decreases ls@.len() - i,
    {
        assert(all[i as int] == ls@[i as int]@);
        let t = trim_start(ls[i].as_str());
        let ghost before = out@;
        let ghost was = inside;
        if starts_with(t.as_str(), "-wp-model ") {
            inside = true;
        } else if inside && starts_with(t.as_str(), "-wp-") {
            assert(section_from(all, i as int, was) =~= Seq::empty());
            return out;
        }
        if inside {
            let l = owned(ls[i].as_str());
            out.push(l);
            assert(texts(out@) =~= texts(before).push(l@));
            assert(section_from(all, i as int, was) =~= seq![l@] + section_from(
                all,
                i as int + 1,
                true,
            ));
        }
        i = i + 1;
    }
    assert(all.len() == ls@.len());
    assert(section_from(all, i as int, inside) =~= Seq::empty());
    out
}

fn push_quoted(out: &mut Vec<String>, line: &str)
    ensures
        texts(final(out)@) == texts(old(out)@) + quoted_from(line@, 0),
{
    let cs = chars_of(line);
    let ghost start = texts(out@);
    let mut from: usize = 0;
    let mut more: bool = true;
    while more
        invariant
            cs@ == line@,
            from <= cs@.len(),
            more ==> start + quoted_from(line@, 0) =~= texts(out@) + quoted_from(
                line@,
                from as int,
            ),
            !more ==> start + quoted_from(line@, 0) =~= texts(out@),
        decreases cs@.len() - from + (if more {
            1int
        } else {
            0
        }),
    {
        proof {
            lemma_char_from(line@, '\'', from as int);
        }
        let a = char_from_chars(&cs, '\'', from);
        if a >= cs.len() {
            more = false;
        } else {
            proof {
                lemma_char_from(line@, '\'', a as int + 1);
            }
            let b = char_from_chars(&cs, '\'', a + 1);
            if b >= cs.len() {
                more = false;
            } else {
                let s = text_between(&cs, a + 1, b);
                let ghost before = out@;
                out.push(s);
                assert(texts(out@) =~= texts(before).push(s@));
                from = b + 1;
            }
        }
    }
}

fn help_selectors(help: &str) -> (r: Vec<String>)
    ensures
        texts(r@) == selectors(section_from(lines_spec(help@), 0, false)),
{
    let section = model_section(help);
    let ghost all = texts(section@);
    let mut out: Vec<String> = Vec::new();
    let mut i: usize = 0;
    assert(texts(out@) =~= Seq::empty());
    assert(all.subrange(0, 0) =~= Seq::empty());
    while i < section.len()
        invariant
            i <= section@.len(),
            all == texts(section@),
            texts(out@) == selectors(all.subrange(0, i as int)),
        decreases section@.len() - i,
    {
        proof {
            lemma_take_next(all, i as int);
        }
        push_quoted(&mut out, section[i].as_str());
        i = i + 1;
    }
    assert(all.subrange(0, i as int) =~= all);
    out
}

fn add_unsigned(out: &mut Vec<String>, selector: &str, met: Ghost<Seq<Seq<char>>>)
    requires
        texts(old(out)@) == distinct(met@),
    ensures
        texts(final(out)@) == distinct(met@ + unsigned(pieces(selector@, '/'))),
{
    let parts = split_char(selector, '/');
    let ghost all = texts(parts@);
    let ghost was = met@;
    let mut i: usize = 0;
    assert(all.subrange(0, 0) =~= Seq::empty());
    assert(was + unsigned(all.subrange(0, 0)) =~= was);
    while i < parts.len()
        invariant
            i <= parts@.len(),
            all == texts(parts@),
            texts(out@) == distinct(was + unsigned(all.subrange(0, i as int))),
        decreases parts@.len() - i,
    {
        proof {
            lemma_take_next(all, i as int);
        }
        let p = trim_prefix(parts[i].as_str(), "+");
        let ghost now = was + unsigned(all.subrange(0, i as int));
        if !p.as_str().is_empty() {
            proof {
                let next = was + unsigned(all.subrange(0, i as int + 1));
                assert(next =~= now.push(p@));
                assert(next.drop_last() =~= now);
            }
            push_distinct(out, p);
        }
        i = i + 1;
    }
    assert(all.subrange(0, i as int) =~= all);
}

/// The models that WP's help names.
pub fn parse_wp_model_support(help: &str) -> (r: WpModelSupport)
    ensures
        r@ == models_in_help(help@),
{
    let found = help_selectors(help);
    let ghost all = texts(found@);
    let mut bases: Vec<String> = Vec::new();
    let mut modifiers: Vec<String> = Vec::new();
    let mut i: usize = 0;
    proof {
        assert(texts(bases@) =~= Seq::empty());
        assert(texts(modifiers@) =~= Seq::empty());
        assert(all.subrange(0, 0) =~= Seq::empty());
    }
    while i < found.len()
        invariant
            i <= found@.len(),
            all == texts(found@),
            texts(bases@) == distinct(base_selectors(all.subrange(0, i as int))),
            texts(modifiers@) == distinct(modifier_selectors(all.subrange(0, i as int))),
        decreases found@.len() - i,
    {
        proof {
            lemma_take_next(all, i as int);
        }
        let ghost before = all.subrange(0, i as int);
        let selector = found[i].as_str();
        if starts_with(selector, "+") {
            add_unsigned(&mut modifiers, selector, Ghost(modifier_selectors(before)));
        } else if !selector.is_empty() {
            assert(base_selectors(before).push(selector@).drop_last() =~= base_selectors(before));
            push_distinct(&mut bases, owned(selector));
        }
        i = i + 1;
    }
    assert(all.subrange(0, i as int) =~= all);
    assert(texts(bases@).len() == bases@.len());
    assert(texts(modifiers@).len() == modifiers@.len());
    if bases.len() == 0 || modifiers.len() == 0 {
        WpModelSupport::fallback()
    } else {
        WpModelSupport { bases, modifiers, source: "frama-c -wp-h" }
    }
}

/// The model that is used where none is asked for.
pub fn default_wp_model() -> (r: &'static str)
    ensures
        r@ == "Typed+nocast"@,
{
    "Typed+nocast"
}

/// Whatever the help says, some bases and some modifiers are known.
pub proof fn law_some_models_are_known(help: Seq<char>)
    ensures
        models_in_help(help).bases.len() > 0,
        models_in_help(help).modifiers.len() > 0,
{
}

/// The models that are worth naming are those that can be made: the bases, and models of a base
/// and a modifier that are both known.
pub proof fn law_common_models_can_be_made(s: ModelsView, m: Seq<char>)
    requires
        common(s).contains(m),
    ensures
        s.bases.contains(m) || (m == "Typed+nocast"@ && s.bases.contains("Typed"@)
            && s.modifiers.contains("nocast"@)) || (m == "Typed+cast"@ && s.bases.contains(
            "Typed"@,
        ) && s.modifiers.contains("cast"@)),
{
    let first = with_common(s.bases, s, "Typed"@, "nocast"@, "Typed+nocast"@);
    let k = choose|k: int| 0 <= k < common(s).len() && common(s)[k] == m;
    if k < s.bases.len() {
        assert(s.bases[k] == m);
    } else if k < first.len() {
        assert(first[k] == m);
    }
}

// ---------------------------------------------------------------------------
// What holds of memory models
// ---------------------------------------------------------------------------

/// A base can be used alone or with a modifier behind it; a base or a modifier that is not known
/// makes a model invalid.
pub proof fn law_a_model_is_a_base_and_modifiers(
    s: ModelsView,
    base: Seq<char>,
    modifier: Seq<char>,
)
    requires
        base.len() > 0,
        modifier.len() > 0,
        !base.contains('+'),
        !modifier.contains('+'),
    ensures
        valid_model(s, base) <==> s.bases.contains(base),
        valid_model(s, base + "+"@ + modifier) <==> s.bases.contains(base) && s.modifiers.contains(
            modifier,
        ),
        !valid_model(s, Seq::empty()),
{
    reveal_strlit("+");
    assert("+"@[0] == '+');
    crate::text::lemma_one_piece(base, '+');
    let none = Seq::<char>::empty();
    crate::text::lemma_one_piece(none, '+');
    let two = seq![base, modifier];
    assert("+"@ =~= seq!['+']);
    crate::text::law_joined_pieces_come_apart(two, "+"@, '+');
    assert(two.drop_last() =~= seq![base]);
    reveal_with_fuel(join_spec, 3);
    assert(join_spec(two, "+"@) =~= base + "+"@ + modifier);
    assert(pieces(base + "+"@ + modifier, '+') == two);
    assert(two[0] == base && two[1] == modifier);
    if valid_model(s, base + "+"@ + modifier) {
        assert(known_part(s.modifiers, two[1]));
    }
}

proof fn lemma_models_valid(s: ModelsView, models: Seq<Seq<char>>, i: int)
    requires
        0 <= i,
        forall|j: int| i <= j < models.len() ==> valid_model(s, trim_spec(#[trigger] models[j])),
    ensures
        models_complaint(s, models, i) is None,
    decreases models.len() - i,
{
    if i < models.len() {
        assert(valid_model(s, trim_spec(models[i])));
        lemma_models_valid(s, models, i + 1);
    }
}

proof fn lemma_models_invalid(s: ModelsView, models: Seq<Seq<char>>, i: int, k: int)
    requires
        0 <= i <= k < models.len(),
        !valid_model(s, trim_spec(models[k])),
        forall|j: int| i <= j < k ==> valid_model(s, trim_spec(#[trigger] models[j])),
    ensures
        models_complaint(s, models, i) == Some(model_complaint(s, trim_spec(models[k]))),
    decreases k - i,
{
    if i < k {
        assert(valid_model(s, trim_spec(models[i])));
        lemma_models_invalid(s, models, i + 1, k);
    }
}

/// Models are accepted where every one of them is valid; else the first that is not is told.
pub proof fn law_the_first_invalid_model_is_told(s: ModelsView, models: Seq<Seq<char>>, k: int)
    ensures
        (forall|j: int| 0 <= j < models.len() ==> valid_model(s, trim_spec(#[trigger] models[j])))
            ==> models_complaint(s, models, 0) is None,
        0 <= k < models.len() && !valid_model(s, trim_spec(models[k])) && (forall|j: int|
            0 <= j < k ==> valid_model(s, trim_spec(#[trigger] models[j]))) ==> models_complaint(
            s,
            models,
            0,
        ) == Some(
            "invalid WP model '"@ + trim_spec(models[k]) + "'; bases: "@ + join_spec(s.bases, ", "@)
                + ("; modifiers: "@ + join_spec(s.modifiers, ", "@) + "; examples: "@ + join_spec(
                common(s),
                ", "@,
            )),
        ),
{
    if forall|j: int| 0 <= j < models.len() ==> valid_model(s, trim_spec(#[trigger] models[j])) {
        lemma_models_valid(s, models, 0);
    }
    if 0 <= k < models.len() && !valid_model(s, trim_spec(models[k])) && (forall|j: int|
        0 <= j < k ==> valid_model(s, trim_spec(#[trigger] models[j]))) {
        lemma_models_invalid(s, models, 0, k);
    }
}

/// What is quoted with a plus in front names modifiers, which a slash tells apart; what is quoted
/// without one names a base.
pub proof fn law_a_plus_tells_modifiers_from_bases(
    found: Seq<Seq<char>>,
    base: Seq<char>,
    one: Seq<char>,
    other: Seq<char>,
)
    requires
        base.len() > 0,
        base[0] != '+',
        one.len() > 0,
        other.len() > 0,
        !one.contains('/'),
        !other.contains('/'),
        one[0] != '+',
        other[0] != '+',
    ensures
        base_selectors(found.push(base)) == base_selectors(found).push(base),
        modifier_selectors(found.push(base)) == modifier_selectors(found),
        base_selectors(found.push("+"@ + one)) == base_selectors(found),
        modifier_selectors(found.push("+"@ + one)) == modifier_selectors(found).push(one),
        modifier_selectors(found.push("+"@ + one + "/"@ + other)) == modifier_selectors(found) + seq![
            one,
            other,
        ],
{
    reveal_strlit("+");
    reveal_strlit("/");
    assert("+"@[0] == '+' && "/"@[0] == '/');
    assert(found.push(base).drop_last() =~= found);
    assert(base.subrange(0, 1)[0] == base[0]);
    assert(!begins(base, "+"@));
    let m = "+"@ + one;
    assert(found.push(m).drop_last() =~= found);
    assert(m.subrange(0, 1) =~= "+"@);
    assert(m.subrange(1, m.len() as int) =~= one);
    assert(begins(m, "+"@));
    assert(!m.contains('/')) by {
        if m.contains('/') {
            let i = choose|i: int| 0 <= i < m.len() && m[i] == '/';
            assert(m[i] == one[i - 1]);
            assert(one.contains(one[i - 1]));
        }
    }
    crate::text::lemma_one_piece(m, '/');
    lemma_unsigned(Seq::empty(), one);
    assert(Seq::<Seq<char>>::empty().push(m) =~= seq![m]);
    assert(unsigned(Seq::empty()) =~= Seq::empty());
    assert(unsigned(seq![m]) =~= seq![one]);
    assert(modifier_selectors(found.push(m)) =~= modifier_selectors(found).push(one));
    let both = m + "/"@ + other;
    assert(both.subrange(0, 1) =~= "+"@);
    assert(begins(both, "+"@));
    assert(found.push(both).drop_last() =~= found);
    let two = seq![m, other];
    assert forall|i: int| 0 <= i < two.len() implies !(#[trigger] two[i]).contains('/') by {}
    assert("/"@ =~= seq!['/']);
    crate::text::law_joined_pieces_come_apart(two, "/"@, '/');
    assert(two.drop_last() =~= seq![m]);
    reveal_with_fuel(join_spec, 3);
    assert(join_spec(two, "/"@) =~= both);
    assert(other.subrange(0, 1)[0] == other[0]);
    assert(!begins(other, "+"@));
    assert(trim_prefix_spec(other, "+"@) == other);
    assert(unsigned(two) == unsigned(two.drop_last()).push(other));
    assert(unsigned(two) =~= seq![one, other]);
}

proof fn lemma_unsigned(parts: Seq<Seq<char>>, one: Seq<char>)
    requires
        one.len() > 0,
        one[0] != '+',
    ensures
        unsigned(parts.push("+"@ + one)) == unsigned(parts).push(one),
{
    reveal_strlit("+");
    let m = "+"@ + one;
    assert(parts.push(m).drop_last() =~= parts);
    assert(m.subrange(0, 1) =~= "+"@);
    assert(m.subrange(1, m.len() as int) =~= one);
    assert(one.subrange(0, 1)[0] == one[0]);
    assert(!begins(one, "+"@));
    reveal_with_fuel(trim_prefix_spec, 3);
    assert(trim_prefix_spec(one, "+"@) == one);
    assert(trim_prefix_spec(m, "+"@) == one);
}

/// The models that are assumed where Frama-C tells none.
pub proof fn law_the_models_that_are_assumed()
    ensures
        fallback_models().bases == seq!["Hoare"@, "Typed"@, "Bytes"@, "Region"@, "Eva"@],
        valid_model(fallback_models(), "Typed+nocast"@),
        fallback_models().source == "fallback"@,
{
    reveal_strlit("Typed+nocast");
    reveal_strlit("Typed");
    reveal_strlit("nocast");
    reveal_strlit("+");
    assert("Typed+nocast"@ =~= "Typed"@ + "+"@ + "nocast"@);
    assert(!"Typed"@.contains('+'));
    assert(!"nocast"@.contains('+'));
    let f = fallback_models();
    assert(f.bases[1] == "Typed"@ && f.modifiers[0] == "nocast"@);
    law_a_model_is_a_base_and_modifiers(f, "Typed"@, "nocast"@);
}

} // verus!
