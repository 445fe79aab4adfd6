//! The labels that injected annotations carry.

use crate::outside::{clock_nanos, seeded_hash};
use crate::stable::hex_digit;
use crate::text::{
    cat2, cat3, char_from, chars_of, first_at, lemma_char_from, lemma_first_at, occurs, opt_text,
    owned, pieces, pieces_from, same, split_char, split_once, split_once_spec, stands_at,
    text_between, trim, trim_spec,
};
use vstd::prelude::*;
use vstd::string::*;

verus! {

// ---------------------------------------------------------------------------
// Random digits
// ---------------------------------------------------------------------------

/// Whether a character is a small hexadecimal digit.
pub open spec fn is_hex(c: char) -> bool {
    ('0' <= c && c <= '9') || ('a' <= c && c <= 'f')
}

/// Whether every character is a small hexadecimal digit.
pub open spec fn all_hex(s: Seq<char>) -> bool {
    forall|i: int| 0 <= i < s.len() ==> is_hex(#[trigger] s[i])
}

/// A number in hexadecimal, with as many digits as asked for.
pub open spec fn fixed_hex(n: nat, width: nat) -> Seq<char>
    decreases width,
{
    if width == 0 {
        Seq::empty()
    } else {
        fixed_hex(n / 16, (width - 1) as nat).push(hex_digit((n % 16) as int))
    }
}

/// Numbers in hexadecimal, one behind the other, with sixteen digits each.
pub open spec fn words_hex(words: Seq<u64>) -> Seq<char>
    decreases words.len(),
{
    if words.len() == 0 {
        Seq::empty()
    } else {
        words_hex(words.drop_last()) + fixed_hex(words.last() as nat, 16)
    }
}

proof fn lemma_fixed_hex(n: nat, width: nat)
    ensures
        fixed_hex(n, width).len() == width,
        all_hex(fixed_hex(n, width)),
    decreases width,
{
    if width > 0 {
        lemma_fixed_hex(n / 16, (width - 1) as nat);
    }
}

proof fn lemma_words_hex(words: Seq<u64>)
    ensures
        words_hex(words).len() == 16 * words.len(),
        all_hex(words_hex(words)),
    decreases words.len(),
{
    if words.len() > 0 {
        lemma_words_hex(words.drop_last());
        lemma_fixed_hex(words.last() as nat, 16);
    }
}

fn hex_word(n: u64, width: usize) -> (r: String)
    ensures
        r@ == fixed_hex(n as nat, width as nat),
    decreases width,
{
    if width == 0 {
        return String::new();
    }
    let mut r = hex_word(n / 16, width - 1);
    let d = (n % 16) as u8;
    let c = if d < 10 {
        (d + 48) as char
    } else {
        (d - 10 + 97) as char
    };
    r.push(c);
    r
}

/// The first digits of some numbers in hexadecimal.
pub fn hex_of_words(words: &Vec<u64>, digits: usize) -> (r: String)
    requires
        digits <= 16 * words@.len(),
    ensures
        r@ == words_hex(words@).subrange(0, digits as int),
        r@.len() == digits,
        all_hex(r@),
{
    let mut out = String::new();
    let mut i: usize = 0;
    assert(words@.subrange(0, 0) =~= Seq::empty());
    while i < words.len()
        invariant
            i <= words@.len(),
            out@ == words_hex(words@.subrange(0, i as int)),
        decreases words@.len() - i,
    {
        proof {
            crate::json::lemma_take_next(words@, i as int);
        }
        out = cat2(out.as_str(), hex_word(words[i], 16).as_str());
        i = i + 1;
    }
    assert(words@.subrange(0, i as int) =~= words@);
    proof {
        lemma_words_hex(words@);
    }
    let cs = chars_of(out.as_str());
    text_between(&cs, 0, digits)
}

/// As many hexadecimal digits as asked for, drawn at random. They serve identifiers that must not
/// collide, and nothing cryptographic.
pub fn random_hex(hex_digits: usize) -> (r: String)
    ensures
        r@.len() == hex_digits,
        all_hex(r@),
{
    let needed: usize = if hex_digits % 16 == 0 {
        hex_digits / 16
    } else {
        hex_digits / 16 + 1
    };
    let mut words: Vec<u64> = Vec::new();
    while words.len() < needed
        invariant
            words@.len() <= needed,
        decreases needed - words@.len(),
    {
        words.push(seeded_hash(clock_nanos()));
    }
    hex_of_words(&words, hex_digits)
}

// ---------------------------------------------------------------------------
// Labels
// ---------------------------------------------------------------------------

/// What the label of a clause of some kind starts with.
pub open spec fn label_prefix(kind: Seq<char>) -> Seq<char> {
    if kind == "requires"@ {
        "re"@
    } else if kind == "ensures"@ {
        "en"@
    } else if kind == "assigns"@ {
        "as"@
    } else if kind == "loop_invariant"@ {
        "li"@
    } else if kind == "loop_assigns"@ {
        "la"@
    } else if kind == "loop_variant"@ {
        "lv"@
    } else if kind == "assert"@ {
        "at"@
    } else {
        "an"@
    }
}

/// The label of a clause of some kind, with the digits that make it unique.
pub fn hash_label(kind: &str, digits: &str) -> (r: String)
    ensures
        r@ == label_prefix(kind@) + "_"@ + digits@,
{
    let prefix = if same(kind, "requires") {
        "re"
    } else if same(kind, "ensures") {
        "en"
    } else if same(kind, "assigns") {
        "as"
    } else if same(kind, "loop_invariant") {
        "li"
    } else if same(kind, "loop_assigns") {
        "la"
    } else if same(kind, "loop_variant") {
        "lv"
    } else if same(kind, "assert") {
        "at"
    } else {
        "an"
    };
    cat3(prefix, "_", digits)
}

/// Whether a text is a label for a clause of some kind: the prefix of the kind, and eight digits.
pub open spec fn labels(label: Seq<char>, kind: Seq<char>) -> bool {
    exists|digits: Seq<char>|
        digits.len() == 8 && #[trigger] all_hex(digits) && label == label_prefix(kind) + "_"@ + digits
}

/// A new label for a clause of some kind.
pub fn generate_hash_label(kind: &str) -> (r: String)
    ensures
        labels(r@, kind@),
{
    let digits = random_hex(8);
    let r = hash_label(kind, digits.as_str());
    assert(digits@.len() == 8 && all_hex(digits@));
    r
}

/// The label that is written into the program: the generated one, and that of the caller behind
/// it.
pub open spec fn whole_label(hash_label: Seq<char>, user_label: Option<Seq<char>>) -> Seq<char> {
    match user_label {
        Some(u) => hash_label + "_"@ + u,
        None => hash_label,
    }
}

/// The label that is written into the program.
pub fn full_label(hash_label: &str, user_label: Option<&str>) -> (r: String)
    ensures
        r@ == whole_label(hash_label@, opt_text(user_label)),
{
    match user_label {
        Some(u) => cat3(hash_label, "_", u),
        None => owned(hash_label),
    }
}

// ---------------------------------------------------------------------------
// Text without its label
// ---------------------------------------------------------------------------

/// Whether a text starts generated labels.
pub open spec fn is_label_prefix(s: Seq<char>) -> bool {
    s == "re"@ || s == "en"@ || s == "as"@ || s == "li"@ || s == "la"@ || s == "lv"@ || s == "at"@
        || s == "an"@
}

/// Whether a character is a hexadecimal digit of either case.
pub open spec fn any_hex(c: char) -> bool {
    ('0' <= c && c <= '9') || ('a' <= c && c <= 'f') || ('A' <= c && c <= 'F')
}

/// Whether a text is eight hexadecimal digits.
pub open spec fn eight_digits(s: Seq<char>) -> bool {
    s.len() == 8 && forall|i: int| 0 <= i < s.len() ==> any_hex(#[trigger] s[i])
}

/// Whether a label was generated: a prefix, eight digits, and whatever the caller added.
pub open spec fn is_generated(label: Seq<char>) -> bool {
    let parts = pieces(label, '_');
    parts.len() >= 2 && is_label_prefix(parts[0]) && eight_digits(parts[1])
}

/// The text of a clause without a generated label before it.
pub open spec fn unlabelled(text: Seq<char>) -> Seq<char> {
    match split_once_spec(text, ": "@) {
        Some((label, rest)) => if is_generated(label) {
            trim_spec(rest)
        } else {
            trim_spec(text)
        },
        None => trim_spec(text),
    }
}

fn has_eight_digits(s: &str) -> (r: bool)
    ensures
        r == eight_digits(s@),
{
    let cs = chars_of(s);
    if cs.len() != 8 {
        return false;
    }
    let mut i: usize = 0;
    while i < cs.len()
        invariant
            cs@ == s@,
            i <= cs@.len(),
            forall|k: int| 0 <= k < i ==> any_hex(#[trigger] s@[k]),
        decreases cs@.len() - i,
    {
        let c = cs[i];
        if !(('0' <= c && c <= '9') || ('a' <= c && c <= 'f') || ('A' <= c && c <= 'F')) {
            assert(!any_hex(s@[i as int]));
            return false;
        }
        i = i + 1;
    }
    true
}

/// Drops a generated label from the text of a clause. The label is fresh each time, so keeping it
/// would make two identical contracts compare unequal.
pub fn strip_generated_label(text: &str) -> (r: String)
    ensures
        r@ == unlabelled(text@),
{
    match split_once(text, ": ") {
        Some((label, rest)) => {
            let parts = split_char(label.as_str(), '_');
            let ghost all = pieces(label@, '_');
            assert(all.len() == parts@.len());
            if parts.len() >= 2 {
                assert(all[0] == parts@[0]@ && all[1] == parts@[1]@);
                let p = parts[0].as_str();
                let known = same(p, "re") || same(p, "en") || same(p, "as") || same(p, "li")
                    || same(p, "la") || same(p, "lv") || same(p, "at") || same(p, "an");
                if known && has_eight_digits(parts[1].as_str()) {
                    return trim(rest.as_str());
                }
            }
            trim(text)
        },
        None => trim(text),
    }
}

proof fn lemma_prefix_is_short(kind: Seq<char>)
    ensures
        label_prefix(kind).len() == 2,
        is_label_prefix(label_prefix(kind)),
        forall|i: int|
            0 <= i < 2 ==> (#[trigger] label_prefix(kind)[i]) != '_' && label_prefix(kind)[i] != ':',
{
    reveal_strlit("re");
    reveal_strlit("en");
    reveal_strlit("as");
    reveal_strlit("li");
    reveal_strlit("la");
    reveal_strlit("lv");
    reveal_strlit("at");
    reveal_strlit("an");
}

proof fn lemma_label_is_generated(label: Seq<char>, kind: Seq<char>, user: Option<Seq<char>>)
    requires
        labels(label, kind),
    ensures
        is_generated(whole_label(label, user)),
        label.len() == 11,
        forall|i: int| 0 <= i < 11 ==> #[trigger] label[i] != ':',
{
    reveal_strlit("_");
    lemma_prefix_is_short(kind);
    let digits = choose|digits: Seq<char>|
        digits.len() == 8 && #[trigger] all_hex(digits) && label == label_prefix(kind) + "_"@
            + digits;
    let p = label_prefix(kind);
    let w = whole_label(label, user);
    assert(w[0] == p[0] && w[1] == p[1] && w[2] == '_');
    assert forall|i: int| 3 <= i < 11 implies #[trigger] w[i] == digits[i - 3] by {}
    assert forall|i: int| 3 <= i < 11 implies is_hex(#[trigger] w[i]) by {
        assert(w[i] == digits[i - 3]);
    }
    lemma_char_from(w, '_', 0);
    assert(char_from(w, '_', 0) == 2);
    lemma_char_from(w, '_', 3);
    let end = char_from(w, '_', 3);
    match user {
        Some(u) => {
            assert(w[11] == '_');
            if end < 11 {
                assert(is_hex(w[end]));
            }
            assert(end == 11);
        },
        None => {
            assert(w.len() == 11);
            if end < 11 {
                assert(is_hex(w[end]));
            }
            assert(end == 11);
        },
    }
    let parts = pieces(w, '_');
    reveal_with_fuel(pieces_from, 2);
    assert(parts[0] =~= p);
    assert(parts[1] =~= digits);
    assert forall|i: int| 0 <= i < 11 implies #[trigger] label[i] != ':' by {
        if i < 2 {
            assert(label[i] == p[i]);
        } else if i > 2 {
            assert(label[i] == digits[i - 3]);
        }
    }
}

/// Whatever label a clause was given, its text without the label is the text it had. The label of
/// the caller must not itself hold what ends a label.
pub proof fn law_stripping_undoes_labelling(
    label: Seq<char>,
    kind: Seq<char>,
    user: Option<Seq<char>>,
    clause: Seq<char>,
)
    requires
        labels(label, kind),
        user is Some ==> !occurs(user->0, ": "@),
    ensures
        unlabelled(whole_label(label, user) + ": "@ + clause) == trim_spec(clause),
{
    reveal_strlit(": ");
    reveal_strlit("_");
    lemma_label_is_generated(label, kind, user);
    let w = whole_label(label, user);
    let n = w.len() as int;
    let text = w + ": "@ + clause;
    assert(text[n] == ':' && text[n + 1] == ' ');
    assert(text.subrange(n, n + 2) =~= ": "@);
    assert(stands_at(text, ": "@, n));
    assert forall|k: int| 0 <= k < n implies !stands_at(text, ": "@, k) by {
        if stands_at(text, ": "@, k) {
            assert(text.subrange(k, k + 2)[0] == ':' && text.subrange(k, k + 2)[1] == ' ');
            assert(text[k] == ':' && text[k + 1] == ' ');
            assert(w[k] == ':');
            if k < 11 {
                assert(label[k] == ':');
            } else {
                let u = user->0;
                assert(k > 11);
                assert(k + 1 < n);
                assert(w[k] == u[k - 12] && w[k + 1] == u[k - 11]);
                assert(u.subrange(k - 12, k - 10) =~= ": "@);
                assert(stands_at(u, ": "@, k - 12));
                assert(occurs(u, ": "@));
            }
        }
    }
    assert(first_at(text, ": "@, 0, n));
    lemma_first_at(text, ": "@, 0, n);
    assert(text.subrange(0, n) =~= w);
    assert(text.subrange(n + 2, text.len() as int) =~= clause);
}

/// Each kind of clause has a prefix of its own, and all others share one.
pub proof fn law_each_kind_has_its_prefix(kind: Seq<char>)
    ensures
        label_prefix("requires"@) == "re"@,
        label_prefix("ensures"@) == "en"@,
        label_prefix("assigns"@) == "as"@,
        label_prefix("loop_invariant"@) == "li"@,
        label_prefix("loop_assigns"@) == "la"@,
        label_prefix("loop_variant"@) == "lv"@,
        label_prefix("assert"@) == "at"@,
        kind != "requires"@ && kind != "ensures"@ && kind != "assigns"@ && kind != "loop_invariant"@
            && kind != "loop_assigns"@ && kind != "loop_variant"@ && kind != "assert"@
            ==> label_prefix(kind) == "an"@,
{
    reveal_strlit("requires");
    reveal_strlit("ensures");
    reveal_strlit("assigns");
    reveal_strlit("loop_invariant");
    reveal_strlit("loop_assigns");
    reveal_strlit("loop_variant");
    reveal_strlit("assert");
    assert("requires"@.len() == 8 && "ensures"@.len() == 7);
    assert("assigns"@.len() == 7 && "loop_invariant"@.len() == 14);
    assert("loop_assigns"@.len() == 12 && "loop_variant"@.len() == 12);
    assert("assert"@.len() == 6);
    assert("ensures"@[0] != "assigns"@[0]);
    assert("loop_assigns"@[5] != "loop_variant"@[5]);
}

/// A clause without a generated label keeps all that it says; only the white space around it goes.
pub proof fn law_a_label_of_the_user_stays(text: Seq<char>, label: Seq<char>, rest: Seq<char>)
    ensures
        !occurs(text, ": "@) ==> unlabelled(text) == trim_spec(text),
        split_once_spec(text, ": "@) == Some((label, rest)) && !label.contains('_') ==> unlabelled(
            text,
        ) == trim_spec(text),
        whole_label(label, None) == label,
        whole_label(label, Some(rest)) == label + "_"@ + rest,
{
    if !occurs(text, ": "@) && split_once_spec(text, ": "@) is Some {
        let i = choose|i: int| crate::text::first_at(text, ": "@, 0, i);
        assert(crate::text::stands_at(text, ": "@, i));
    }
    if !label.contains('_') {
        crate::text::lemma_one_piece(label, '_');
    }
}

} // verus!
