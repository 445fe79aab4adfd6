//! The order of texts, and what is kept sorted by it.

use crate::text::{chars_of, same, texts};
use vstd::prelude::*;

verus! {

/// Whether `a` comes before `b`: at the first difference it has the smaller character, or it
/// ends there.
pub open spec fn text_lt(a: Seq<char>, b: Seq<char>) -> bool
    decreases a.len(),
{
    if b.len() == 0 {
        false
    } else if a.len() == 0 {
        true
    } else if a[0] != b[0] {
        a[0] < b[0]
    } else {
        text_lt(a.subrange(1, a.len() as int), b.subrange(1, b.len() as int))
    }
}

/// No text comes before itself.
pub proof fn law_text_lt_irreflexive(a: Seq<char>)
    ensures
        !text_lt(a, a),
    decreases a.len(),
{
    if a.len() > 0 {
        law_text_lt_irreflexive(a.subrange(1, a.len() as int));
    }
}

/// The order of texts is transitive.
pub proof fn law_text_lt_transitive(a: Seq<char>, b: Seq<char>, c: Seq<char>)
    requires
        text_lt(a, b),
        text_lt(b, c),
    ensures
        text_lt(a, c),
    decreases a.len(),
{
    if a.len() > 0 && b.len() > 0 && c.len() > 0 && a[0] == b[0] && b[0] == c[0] {
        law_text_lt_transitive(
            a.subrange(1, a.len() as int),
            b.subrange(1, b.len() as int),
            c.subrange(1, c.len() as int),
        );
    }
}

/// Of two different texts one comes before the other.
pub proof fn law_text_lt_total(a: Seq<char>, b: Seq<char>)
    ensures
        a == b || text_lt(a, b) || text_lt(b, a),
    decreases a.len(),
{
    if a.len() > 0 && b.len() > 0 && a[0] == b[0] {
        let x = a.subrange(1, a.len() as int);
        let y = b.subrange(1, b.len() as int);
        law_text_lt_total(x, y);
        if x == y {
            assert(a =~= seq![a[0]] + x);
            assert(b =~= seq![b[0]] + y);
        }
    } else if a.len() == 0 && b.len() == 0 {
        assert(a =~= b);
    }
}

/// Whether `a` comes before `b`.
pub fn lt(a: &str, b: &str) -> (r: bool)
    ensures
        r == text_lt(a@, b@),
{
    let x = chars_of(a);
    let y = chars_of(b);
    let mut i: usize = 0;
    assert(x@.subrange(0, x@.len() as int) =~= x@);
    assert(y@.subrange(0, y@.len() as int) =~= y@);
    while i < x.len() && i < y.len()
        invariant
            x@ == a@,
            y@ == b@,
            i <= x@.len(),
            i <= y@.len(),
            text_lt(a@, b@) == text_lt(
                x@.subrange(i as int, x@.len() as int),
                y@.subrange(i as int, y@.len() as int),
            ),
        decreases x@.len() - i,
    {
        let ghost p = x@.subrange(i as int, x@.len() as int);
        let ghost q = y@.subrange(i as int, y@.len() as int);
        assert(p[0] == x@[i as int] && q[0] == y@[i as int]);
        if x[i] != y[i] {
            return x[i] < y[i];
        }
        assert(p.subrange(1, p.len() as int) =~= x@.subrange(i + 1, x@.len() as int));
        assert(q.subrange(1, q.len() as int) =~= y@.subrange(i + 1, y@.len() as int));
        i = i + 1;
    }
    i < y.len()
}

/// The number of leading texts that come before `x`.
pub open spec fn lower_place(s: Seq<Seq<char>>, x: Seq<char>) -> int
    decreases s.len(),
{
    if s.len() == 0 {
        0
    } else {
        let i = lower_place(s.drop_last(), x);
        if i == s.len() - 1 && text_lt(s.last(), x) {
            s.len() as int
        } else {
            i
        }
    }
}

/// The number of leading texts that do not come after `x`.
pub open spec fn upper_place(s: Seq<Seq<char>>, x: Seq<char>) -> int
    decreases s.len(),
{
    if s.len() == 0 {
        0
    } else {
        let i = upper_place(s.drop_last(), x);
        if i == s.len() - 1 && !text_lt(x, s.last()) {
            s.len() as int
        } else {
            i
        }
    }
}

/// What the two places are.
pub proof fn lemma_places(s: Seq<Seq<char>>, x: Seq<char>)
    ensures
        0 <= lower_place(s, x) <= s.len(),
        forall|i: int| 0 <= i < lower_place(s, x) ==> text_lt(#[trigger] s[i], x),
        lower_place(s, x) < s.len() ==> !text_lt(s[lower_place(s, x)], x),
        0 <= upper_place(s, x) <= s.len(),
        forall|i: int| 0 <= i < upper_place(s, x) ==> !text_lt(x, #[trigger] s[i]),
        upper_place(s, x) < s.len() ==> text_lt(x, s[upper_place(s, x)]),
    decreases s.len(),
{
    if s.len() > 0 {
        let t = s.drop_last();
        lemma_places(t, x);
        assert forall|i: int| 0 <= i < lower_place(s, x) implies text_lt(#[trigger] s[i], x) by {
            if i < t.len() {
                assert(t[i] == s[i]);
            }
        }
        assert forall|i: int| 0 <= i < upper_place(s, x) implies !text_lt(x, #[trigger] s[i]) by {
            if i < t.len() {
                assert(t[i] == s[i]);
            }
        }
    }
}

/// Sorted texts with `x` among them once.
pub open spec fn insert_unique(s: Seq<Seq<char>>, x: Seq<char>) -> Seq<Seq<char>> {
    let i = lower_place(s, x);
    if i < s.len() && s[i] == x {
        s
    } else {
        s.insert(i, x)
    }
}

/// The different texts of `s`, in order.
pub open spec fn sorted_unique(s: Seq<Seq<char>>) -> Seq<Seq<char>>
    decreases s.len(),
{
    if s.len() == 0 {
        Seq::empty()
    } else {
        insert_unique(sorted_unique(s.drop_last()), s.last())
    }
}

/// Whether each text comes before every later one.
pub open spec fn strictly_sorted(s: Seq<Seq<char>>) -> bool {
    forall|i: int, j: int| 0 <= i < j < s.len() ==> text_lt(#[trigger] s[i], #[trigger] s[j])
}

/// Inserting a text keeps texts sorted, and adds that text and no other.
pub proof fn lemma_insert_unique(s: Seq<Seq<char>>, x: Seq<char>)
    requires
        strictly_sorted(s),
    ensures
        strictly_sorted(insert_unique(s, x)),
        forall|t: Seq<char>|
            insert_unique(s, x).contains(t) <==> s.contains(t) || t == x,
{
    lemma_places(s, x);
    let i = lower_place(s, x);
    let r = insert_unique(s, x);
    if i < s.len() && s[i] == x {
    } else {
        if i < s.len() {
            law_text_lt_total(s[i], x);
        }
        assert forall|a: int, b: int| 0 <= a < b < r.len() implies text_lt(
            #[trigger] r[a],
            #[trigger] r[b],
        ) by {
            if b < i {
                assert(r[a] == s[a] && r[b] == s[b]);
            } else if b == i {
                assert(r[a] == s[a]);
            } else if a > i {
                assert(r[a] == s[a - 1] && r[b] == s[b - 1]);
            } else if a == i {
                assert(r[b] == s[b - 1]);
                if b - 1 > i {
                    law_text_lt_transitive(x, s[i], s[b - 1]);
                }
            } else {
                assert(r[a] == s[a] && r[b] == s[b - 1]);
            }
        }
        assert forall|t: Seq<char>| r.contains(t) <==> s.contains(t) || t == x by {
            if r.contains(t) {
                let k = choose|k: int| 0 <= k < r.len() && r[k] == t;
                if k < i {
                    assert(s[k] == t);
                } else if k > i {
                    assert(s[k - 1] == t);
                }
            }
            if s.contains(t) {
                let k = choose|k: int| 0 <= k < s.len() && s[k] == t;
                if k < i {
                    assert(r[k] == t);
                } else {
                    assert(r[k + 1] == t);
                }
            }
            if t == x {
                assert(r[i] == x);
            }
        }
    }
}

/// The different texts of a sequence, sorted: each comes before every later one, and they are
/// the texts of the sequence.
pub proof fn law_sorted_unique(s: Seq<Seq<char>>)
    ensures
        strictly_sorted(sorted_unique(s)),
        forall|t: Seq<char>| sorted_unique(s).contains(t) <==> s.contains(t),
    decreases s.len(),
{
    if s.len() > 0 {
        let p = s.drop_last();
        law_sorted_unique(p);
        lemma_insert_unique(sorted_unique(p), s.last());
        assert forall|t: Seq<char>| sorted_unique(s).contains(t) <==> s.contains(t) by {
            if s.contains(t) {
                let k = choose|k: int| 0 <= k < s.len() && s[k] == t;
                if k < p.len() {
                    assert(p[k] == t);
                }
            }
            if p.contains(t) {
                let k = choose|k: int| 0 <= k < p.len() && p[k] == t;
                assert(s[k] == t);
            }
        }
    }
}

/// The first `n` keys of some keyed items.
pub open spec fn keys<T>(v: Seq<(String, T)>) -> Seq<Seq<char>> {
    v.map_values(|e: (String, T)| e.0@)
}

/// Adds a text to sorted texts, where it is not among them yet.
pub fn insert_text(v: &mut Vec<String>, x: String)
    ensures
        texts(final(v)@) == insert_unique(texts(old(v)@), x@),
{
    let ghost s = texts(v@);
    let mut i: usize = 0;
    proof {
        lemma_places(s, x@);
    }
    while i < v.len() && lt(v[i].as_str(), x.as_str())
        invariant
            i <= v@.len(),
            s == texts(v@),
            v@ == old(v)@,
            0 <= lower_place(s, x@) <= s.len(),
            forall|k: int| 0 <= k < i ==> text_lt(#[trigger] s[k], x@),
            lower_place(s, x@) < s.len() ==> !text_lt(s[lower_place(s, x@)], x@),
        decreases v@.len() - i,
    {
        assert(s[i as int] == v@[i as int]@);
        i = i + 1;
    }
    proof {
        let k = lower_place(s, x@);
        if i < s.len() {
            assert(s[i as int] == v@[i as int]@);
        }
        if k < i {
            assert(text_lt(s[k], x@));
        }
    }
    if i < v.len() && crate::text::same(v[i].as_str(), x.as_str()) {
        return ;
    }
    v.insert(i, x);
    assert(texts(v@) =~= s.insert(i as int, x@));
}

/// The different texts of a list, in order.
pub fn sort_unique(v: &Vec<String>) -> (r: Vec<String>)
    ensures
        texts(r@) == sorted_unique(texts(v@)),
{
    let mut out: Vec<String> = Vec::new();
    let mut i: usize = 0;
    assert(texts(out@) =~= Seq::empty());
    assert(texts(v@).subrange(0, 0) =~= Seq::empty());
    while i < v.len()
        invariant
            i <= v@.len(),
            texts(out@) == sorted_unique(texts(v@).subrange(0, i as int)),
        decreases v@.len() - i,
    {
        insert_text(&mut out, v[i].clone());
        assert(texts(v@).subrange(0, i + 1).drop_last() =~= texts(v@).subrange(0, i as int));
        i = i + 1;
    }
    assert(texts(v@).subrange(0, i as int) =~= texts(v@));
    out
}

/// Keyed items with one more, behind those whose key does not come after its own.
pub open spec fn insert_keyed<T>(v: Seq<(Seq<char>, T)>, key: Seq<char>, item: T) -> Seq<
    (Seq<char>, T),
> {
    v.insert(upper_place(v.map_values(|e: (Seq<char>, T)| e.0), key), (key, item))
}

/// Keyed items in the order of their keys, those with the same key as they came.
pub open spec fn sorted_keyed<T>(v: Seq<(Seq<char>, T)>) -> Seq<(Seq<char>, T)>
    decreases v.len(),
{
    if v.len() == 0 {
        Seq::empty()
    } else {
        insert_keyed(sorted_keyed(v.drop_last()), v.last().0, v.last().1)
    }
}

/// The place behind those keys that do not come after `x`.
pub fn place_behind<T>(v: &Vec<(String, T)>, x: &str) -> (r: usize)
    ensures
        r == upper_place(keys(v@), x@),
        r <= v@.len(),
{
    let ghost s = keys(v@);
    let mut i: usize = 0;
    proof {
        lemma_places(s, x@);
    }
    while i < v.len() && !lt(x, v[i].0.as_str())
        invariant
            i <= v@.len(),
            s == keys(v@),
            0 <= upper_place(s, x@) <= s.len(),
            forall|k: int| 0 <= k < i ==> !text_lt(x@, #[trigger] s[k]),
            upper_place(s, x@) < s.len() ==> text_lt(x@, s[upper_place(s, x@)]),
        decreases v@.len() - i,
    {
        assert(s[i as int] == v@[i as int].0@);
        i = i + 1;
    }
    proof {
        lemma_places(s, x@);
        let k = upper_place(s, x@);
        if i < s.len() {
            assert(s[i as int] == v@[i as int].0@);
        }
        if k < i {
            assert(!text_lt(x@, s[k]));
        }
        if i < k {
            assert(!text_lt(x@, s[i as int]));
        }
    }
    i
}

/// Whether no text comes before an earlier one.
pub open spec fn sorted(s: Seq<Seq<char>>) -> bool {
    forall|i: int, j: int| 0 <= i < j < s.len() ==> !text_lt(#[trigger] s[j], #[trigger] s[i])
}

/// Inserting a keyed item keeps keyed items sorted.
pub proof fn lemma_insert_keyed<T>(v: Seq<(Seq<char>, T)>, key: Seq<char>, item: T)
    requires
        sorted(v.map_values(|e: (Seq<char>, T)| e.0)),
    ensures
        sorted(insert_keyed(v, key, item).map_values(|e: (Seq<char>, T)| e.0)),
        insert_keyed(v, key, item).to_multiset() == v.to_multiset().insert((key, item)),
{
    let s = v.map_values(|e: (Seq<char>, T)| e.0);
    lemma_places(s, key);
    let i = upper_place(s, key);
    let r = insert_keyed(v, key, item).map_values(|e: (Seq<char>, T)| e.0);
    assert(r =~= s.insert(i, key));
    assert forall|a: int, b: int| 0 <= a < b < r.len() implies !text_lt(
        #[trigger] r[b],
        #[trigger] r[a],
    ) by {
        if b < i {
            assert(r[a] == s[a] && r[b] == s[b]);
        } else if b == i {
            assert(r[a] == s[a]);
        } else if a > i {
            assert(r[a] == s[a - 1] && r[b] == s[b - 1]);
        } else if a == i {
            assert(r[b] == s[b - 1]);
            if text_lt(s[b - 1], key) {
                if b - 1 > i {
                    law_text_lt_transitive(s[b - 1], key, s[i]);
                } else {
                    law_text_lt_transitive(key, s[i], key);
                    law_text_lt_irreflexive(key);
                }
            }
        } else {
            assert(r[a] == s[a] && r[b] == s[b - 1]);
        }
    }
    v.insert_ensures(i, (key, item));
    vstd::seq_lib::to_multiset_insert(v, i, (key, item));
}

/// Sorting keyed items puts no item before one with a smaller key, and neither drops nor adds
/// any.
pub proof fn law_sorted_keyed<T>(v: Seq<(Seq<char>, T)>)
    ensures
        sorted(sorted_keyed(v).map_values(|e: (Seq<char>, T)| e.0)),
        sorted_keyed(v).to_multiset() == v.to_multiset(),
        sorted_keyed(v).len() == v.len(),
    decreases v.len(),
{
    if v.len() > 0 {
        let p = v.drop_last();
        law_sorted_keyed(p);
        lemma_places(
            sorted_keyed(p).map_values(|e: (Seq<char>, T)| e.0),
            v.last().0,
        );
        lemma_insert_keyed(sorted_keyed(p), v.last().0, v.last().1);
        assert(p.push(v.last()) =~= v);
        p.to_multiset_ensures();
        assert((v.last().0, v.last().1) == v.last());
    } else {
        assert(v =~= Seq::empty());
    }
}

// ---------------------------------------------------------------------------
// Sorting by a relation
// ---------------------------------------------------------------------------

/// Whether a relation orders values up to ties.
pub open spec fn is_order<T>(lt: spec_fn(T, T) -> bool) -> bool {
    &&& forall|a: T| !#[trigger] lt(a, a)
    &&& forall|a: T, b: T, c: T| #[trigger] lt(a, b) && #[trigger] lt(b, c) ==> lt(a, c)
    &&& forall|a: T, b: T, c: T| !#[trigger] lt(a, b) && !#[trigger] lt(b, c) ==> !lt(a, c)
}

/// The number of leading values that do not come after `x`.
pub open spec fn place_by<T>(s: Seq<T>, x: T, lt: spec_fn(T, T) -> bool) -> int
    decreases s.len(),
{
    if s.len() == 0 {
        0
    } else {
        let i = place_by(s.drop_last(), x, lt);
        if i == s.len() - 1 && !lt(x, s.last()) {
            s.len() as int
        } else {
            i
        }
    }
}

/// Values in order, those that are tied as they came.
pub open spec fn sort_by<T>(s: Seq<T>, lt: spec_fn(T, T) -> bool) -> Seq<T>
    decreases s.len(),
{
    if s.len() == 0 {
        Seq::empty()
    } else {
        let rest = sort_by(s.drop_last(), lt);
        rest.insert(place_by(rest, s.last(), lt), s.last())
    }
}

/// Whether no value comes before an earlier one.
pub open spec fn sorted_by<T>(s: Seq<T>, lt: spec_fn(T, T) -> bool) -> bool {
    forall|i: int, j: int| 0 <= i < j < s.len() ==> !lt(#[trigger] s[j], #[trigger] s[i])
}

/// What the place of a value is.
pub proof fn lemma_place_by<T>(s: Seq<T>, x: T, lt: spec_fn(T, T) -> bool)
    ensures
        0 <= place_by(s, x, lt) <= s.len(),
        forall|i: int| 0 <= i < place_by(s, x, lt) ==> !lt(x, #[trigger] s[i]),
        place_by(s, x, lt) < s.len() ==> lt(x, s[place_by(s, x, lt)]),
    decreases s.len(),
{
    if s.len() > 0 {
        let t = s.drop_last();
        lemma_place_by(t, x, lt);
        assert forall|i: int| 0 <= i < place_by(s, x, lt) implies !lt(x, #[trigger] s[i]) by {
            if i < t.len() {
                assert(t[i] == s[i]);
            }
        }
    }
}

/// A position before which nothing comes after `x`, and at which something does, is its place.
pub proof fn lemma_place_is<T>(s: Seq<T>, x: T, lt: spec_fn(T, T) -> bool, k: int)
    requires
        0 <= k <= s.len(),
        forall|i: int| 0 <= i < k ==> !lt(x, #[trigger] s[i]),
        k < s.len() ==> lt(x, s[k]),
    ensures
        place_by(s, x, lt) == k,
{
    lemma_place_by(s, x, lt);
    let p = place_by(s, x, lt);
    if p < k {
        assert(!lt(x, s[p]));
    } else if k < p {
        assert(!lt(x, s[k]));
    }
}

/// Putting a value in its place keeps values sorted, and adds that value and no other.
pub proof fn lemma_insert_by<T>(s: Seq<T>, x: T, lt: spec_fn(T, T) -> bool)
    requires
        is_order(lt),
        sorted_by(s, lt),
    ensures
        sorted_by(s.insert(place_by(s, x, lt), x), lt),
        s.insert(place_by(s, x, lt), x).to_multiset() == s.to_multiset().insert(x),
        s.insert(place_by(s, x, lt), x).len() == s.len() + 1,
{
    lemma_place_by(s, x, lt);
    let p = place_by(s, x, lt);
    let r = s.insert(p, x);
    assert forall|i: int, j: int| 0 <= i < j < r.len() implies !lt(
        #[trigger] r[j],
        #[trigger] r[i],
    ) by {
        if j < p {
            assert(r[i] == s[i] && r[j] == s[j]);
        } else if j == p {
            assert(r[i] == s[i]);
        } else if i > p {
            assert(r[i] == s[i - 1] && r[j] == s[j - 1]);
        } else if i == p {
            assert(r[j] == s[j - 1]);
            if lt(s[j - 1], x) {
                assert(lt(x, s[p]));
                assert(lt(s[j - 1], s[p]));
                if j - 1 > p {
                    assert(!lt(s[j - 1], s[p]));
                } else {
                    assert(!lt(s[p], s[p]));
                }
            }
        } else {
            assert(r[i] == s[i] && r[j] == s[j - 1]);
        }
    }
    vstd::seq_lib::to_multiset_insert(s, p, x);
}

/// Sorting puts nothing before a value that comes before it, and neither drops nor adds any.
pub proof fn law_sort_by<T>(s: Seq<T>, lt: spec_fn(T, T) -> bool)
    requires
        is_order(lt),
    ensures
        sorted_by(sort_by(s, lt), lt),
        sort_by(s, lt).to_multiset() == s.to_multiset(),
        sort_by(s, lt).len() == s.len(),
    decreases s.len(),
{
    if s.len() > 0 {
        let t = s.drop_last();
        law_sort_by(t, lt);
        lemma_insert_by(sort_by(t, lt), s.last(), lt);
        assert(t.push(s.last()) =~= s);
        t.to_multiset_ensures();
    } else {
        assert(s =~= Seq::empty());
    }
}

/// What is sorted stays as it is when it is sorted again.
pub proof fn lemma_sorted_stays<T>(s: Seq<T>, lt: spec_fn(T, T) -> bool)
    requires
        sorted_by(s, lt),
    ensures
        sort_by(s, lt) == s,
    decreases s.len(),
{
    if s.len() > 0 {
        let t = s.drop_last();
        assert forall|i: int, j: int| 0 <= i < j < t.len() implies !lt(
            #[trigger] t[j],
            #[trigger] t[i],
        ) by {
            assert(t[i] == s[i] && t[j] == s[j]);
        }
        lemma_sorted_stays(t, lt);
        lemma_place_by(t, s.last(), lt);
        let p = place_by(t, s.last(), lt);
        if p < t.len() {
            assert(t[p] == s[p]);
            assert(!lt(s[s.len() - 1], s[p]));
        }
        assert(t.insert(p, s.last()) =~= s);
    } else {
        assert(s =~= Seq::empty());
    }
}

// ---------------------------------------------------------------------------
// Each text once
// ---------------------------------------------------------------------------

/// The texts of a sequence, each where it is first met.
pub open spec fn distinct(s: Seq<Seq<char>>) -> Seq<Seq<char>>
    decreases s.len(),
{
    if s.len() == 0 {
        Seq::empty()
    } else {
        let rest = distinct(s.drop_last());
        if rest.contains(s.last()) {
            rest
        } else {
            rest.push(s.last())
        }
    }
}

/// Nothing is listed twice, and nothing is lost.
pub proof fn law_distinct(s: Seq<Seq<char>>)
    ensures
        distinct(s).no_duplicates(),
        forall|t: Seq<char>| distinct(s).contains(t) <==> s.contains(t),
    decreases s.len(),
{
    if s.len() > 0 {
        let p = s.drop_last();
        law_distinct(p);
        let d = distinct(p);
        let r = distinct(s);
        assert forall|t: Seq<char>| r.contains(t) <==> s.contains(t) by {
            if s.contains(t) {
                let k = choose|k: int| 0 <= k < s.len() && s[k] == t;
                if k < p.len() {
                    assert(p[k] == t);
                    assert(p.contains(t));
                    assert(d.contains(t));
                    let m = choose|m: int| 0 <= m < d.len() && d[m] == t;
                    assert(r[m] == t);
                } else if !d.contains(t) {
                    assert(r[d.len() as int] == t);
                }
            }
            if r.contains(t) {
                let k = choose|k: int| 0 <= k < r.len() && r[k] == t;
                if k < d.len() {
                    assert(d[k] == t);
                    assert(p.contains(t));
                    let m = choose|m: int| 0 <= m < p.len() && p[m] == t;
                    assert(s[m] == t);
                } else {
                    assert(s[s.len() - 1] == t);
                }
            }
        }
    }
}

/// Adds a text where it is new.
pub fn push_distinct(v: &mut Vec<String>, x: String)
    ensures
        texts(final(v)@) == (if texts(old(v)@).contains(x@) {
            texts(old(v)@)
        } else {
            texts(old(v)@).push(x@)
        }),
{
    let ghost s = texts(v@);
    let mut i: usize = 0;
    while i < v.len()
        invariant
            v@ == old(v)@,
            i <= v@.len(),
            s == texts(v@),
            forall|k: int| 0 <= k < i ==> #[trigger] s[k] != x@,
        decreases v@.len() - i,
    {
        assert(s[i as int] == v@[i as int]@);
        if same(v[i].as_str(), x.as_str()) {
            assert(s.contains(x@));
            return ;
        }
        i = i + 1;
    }
    assert(!s.contains(x@));
    v.push(x);
    assert(texts(v@) =~= s.push(x@));
}

// ---------------------------------------------------------------------------
// Sorting texts
// ---------------------------------------------------------------------------

/// The order of texts, as a relation.
pub open spec fn text_order() -> spec_fn(Seq<char>, Seq<char>) -> bool {
    |a: Seq<char>, b: Seq<char>| text_lt(a, b)
}

/// Puts a text behind those that do not come after it.
pub fn insert_sorted(v: &mut Vec<String>, x: String)
    ensures
        texts(final(v)@) == texts(old(v)@).insert(
            place_by(texts(old(v)@), x@, text_order()),
            x@,
        ),
{
    let ghost s = texts(v@);
    let mut k: usize = 0;
    while k < v.len() && !lt(x.as_str(), v[k].as_str())
        invariant
            v@ == old(v)@,
            k <= v@.len(),
            s == texts(v@),
            forall|j: int| 0 <= j < k ==> !text_lt(x@, #[trigger] s[j]),
        decreases v@.len() - k,
    {
        assert(s[k as int] == v@[k as int]@);
        k = k + 1;
    }
    proof {
        if k < s.len() {
            assert(s[k as int] == v@[k as int]@);
        }
        lemma_place_is(s, x@, text_order(), k as int);
    }
    v.insert(k, x);
    assert(texts(v@) =~= s.insert(k as int, x@));
}

/// The order of texts is one.
pub proof fn law_text_order()
    ensures
        is_order(text_order()),
{
    let o = text_order();
    assert forall|a: Seq<char>| !#[trigger] o(a, a) by {
        law_text_lt_irreflexive(a);
    }
    assert forall|a: Seq<char>, b: Seq<char>, c: Seq<char>| #[trigger]
        o(a, b) && #[trigger] o(b, c) implies o(a, c) by {
        law_text_lt_transitive(a, b, c);
    }
    assert forall|a: Seq<char>, b: Seq<char>, c: Seq<char>|
        !#[trigger] o(a, b) && !#[trigger] o(b, c) implies !o(a, c) by {
        law_text_lt_total(a, b);
        law_text_lt_total(b, c);
        if text_lt(a, c) {
            if text_lt(b, a) {
                law_text_lt_transitive(b, a, c);
            }
            if text_lt(c, b) && b == a {
                law_text_lt_transitive(a, c, a);
                law_text_lt_irreflexive(a);
            }
        }
    }
}

/// Two sorted arrangements of the same texts are the same.
pub proof fn lemma_sorted_alike(a: Seq<Seq<char>>, b: Seq<Seq<char>>)
    requires
        sorted_by(a, text_order()),
        sorted_by(b, text_order()),
        a.to_multiset() == b.to_multiset(),
    ensures
        a == b,
    decreases a.len(),
{
    a.to_multiset_ensures();
    b.to_multiset_ensures();
    if a.len() == 0 {
        assert(b =~= a);
    } else {
        let (x, y) = (a.last(), b.last());
        assert(a[a.len() - 1] == x);
        assert(a.contains(x));
        assert(a.to_multiset().count(x) > 0);
        assert(b.contains(x));
        assert(b[b.len() - 1] == y);
        assert(b.contains(y));
        assert(b.to_multiset().count(y) > 0);
        assert(a.contains(y));
        let j = choose|j: int| 0 <= j < b.len() && b[j] == x;
        let i = choose|i: int| 0 <= i < a.len() && a[i] == y;
        law_text_lt_irreflexive(x);
        law_text_lt_total(x, y);
        let o = text_order();
        assert(o(x, y) == text_lt(x, y) && o(y, x) == text_lt(y, x));
        if x != y {
            assert(j < b.len() - 1);
            assert(i < a.len() - 1);
            assert(!o(b[b.len() - 1], b[j]));
            assert(!o(a[a.len() - 1], a[i]));
        }
        let (s, t) = (a.drop_last(), b.drop_last());
        assert(s =~= a.remove(a.len() - 1));
        assert(t =~= b.remove(b.len() - 1));
        assert(sorted_by(s, o)) by {
            assert forall|m: int, n: int| 0 <= m < n < s.len() implies !o(
                #[trigger] s[n],
                #[trigger] s[m],
            ) by {
                assert(s[n] == a[n] && s[m] == a[m]);
            }
        }
        assert(sorted_by(t, o)) by {
            assert forall|m: int, n: int| 0 <= m < n < t.len() implies !o(
                #[trigger] t[n],
                #[trigger] t[m],
            ) by {
                assert(t[n] == b[n] && t[m] == b[m]);
            }
        }
        lemma_sorted_alike(s, t);
        assert(a =~= s.push(x));
        assert(b =~= t.push(y));
    }
}

/// Two strictly sorted arrangements of the same texts are the same.
pub proof fn lemma_strictly_sorted_alike(a: Seq<Seq<char>>, b: Seq<Seq<char>>)
    requires
        strictly_sorted(a),
        strictly_sorted(b),
        forall|t: Seq<char>| a.contains(t) <==> b.contains(t),
    ensures
        a == b,
    decreases a.len(),
{
    if a.len() == 0 {
        if b.len() > 0 {
            assert(b.contains(b[0]));
            assert(a.contains(b[0]));
        }
        assert(b =~= a);
    } else {
        let (x, y) = (a.last(), b.last());
        assert(a[a.len() - 1] == x);
        assert(a.contains(x));
        assert(b.contains(x));
        assert(b[b.len() - 1] == y);
        assert(b.contains(y));
        assert(a.contains(y));
        let j = choose|j: int| 0 <= j < b.len() && b[j] == x;
        let i = choose|i: int| 0 <= i < a.len() && a[i] == y;
        if x != y {
            assert(text_lt(b[j], b[b.len() - 1]));
            assert(text_lt(a[i], a[a.len() - 1]));
            law_text_lt_transitive(x, y, x);
            law_text_lt_irreflexive(x);
        }
        let (s, t) = (a.drop_last(), b.drop_last());
        assert forall|z: Seq<char>| s.contains(z) <==> t.contains(z) by {
            if s.contains(z) {
                let k = choose|k: int| 0 <= k < s.len() && s[k] == z;
                assert(a[k] == z);
                assert(a.contains(z));
                assert(text_lt(a[k], a[a.len() - 1]));
                law_text_lt_irreflexive(x);
                let m = choose|m: int| 0 <= m < b.len() && b[m] == z;
                assert(m < b.len() - 1);
                assert(t[m] == z);
            }
            if t.contains(z) {
                let k = choose|k: int| 0 <= k < t.len() && t[k] == z;
                assert(b[k] == z);
                assert(b.contains(z));
                assert(text_lt(b[k], b[b.len() - 1]));
                law_text_lt_irreflexive(y);
                let m = choose|m: int| 0 <= m < a.len() && a[m] == z;
                assert(m < a.len() - 1);
                assert(s[m] == z);
            }
        }
        lemma_strictly_sorted_alike(s, t);
        assert(a =~= s.push(x));
        assert(b =~= t.push(y));
    }
}

/// What a function makes of two arrangements of the same values are two arrangements again.
pub proof fn lemma_map_alike<A, B>(a: Seq<A>, b: Seq<A>, f: spec_fn(A) -> B)
    requires
        a.to_multiset() == b.to_multiset(),
    ensures
        a.map_values(f).to_multiset() == b.map_values(f).to_multiset(),
    decreases a.len(),
{
    a.to_multiset_ensures();
    b.to_multiset_ensures();
    if a.len() == 0 {
        assert(b =~= a);
    } else {
        let x = a.last();
        assert(a[a.len() - 1] == x);
        assert(a.contains(x));
        assert(a.to_multiset().count(x) > 0);
        assert(b.contains(x));
        let j = choose|j: int| 0 <= j < b.len() && b[j] == x;
        let (s, t) = (a.remove(a.len() - 1), b.remove(j));
        lemma_map_alike(s, t, f);
        let (fa, fb) = (a.map_values(f), b.map_values(f));
        fa.to_multiset_ensures();
        fb.to_multiset_ensures();
        assert(s.map_values(f) =~= fa.remove(a.len() - 1));
        assert(t.map_values(f) =~= fb.remove(j));
        assert(fa[a.len() - 1] == f(x) && fb[j] == f(x));
        assert(fa.contains(f(x)) && fb.contains(f(x)));
        assert(fa.to_multiset().count(f(x)) > 0 && fb.to_multiset().count(f(x)) > 0);
        assert(fa.to_multiset() =~= fa.to_multiset().remove(f(x)).insert(f(x)));
        assert(fb.to_multiset() =~= fb.to_multiset().remove(f(x)).insert(f(x)));
    }
}

/// What is kept of a list is what passes the test, each of it from the list.
pub proof fn lemma_kept<T>(s: Seq<T>, test: spec_fn(T) -> bool, i: int)
    ensures
        0 <= i < s.len() && test(s[i]) ==> s.filter(test).contains(s[i]) && s.filter(test).len() > 0,
        0 <= i < s.filter(test).len() ==> test(s.filter(test)[i]) && s.contains(s.filter(test)[i]),
    decreases s.len(),
{
    reveal(Seq::filter);
    let kept = s.filter(test);
    if s.len() > 0 {
        let t = s.drop_last();
        let before = t.filter(test);
        lemma_kept(t, test, i);
        if 0 <= i < s.len() && test(s[i]) {
            if i == s.len() - 1 {
                assert(kept[kept.len() - 1] == s[i]);
            } else {
                assert(t[i] == s[i]);
                let j = choose|j: int| 0 <= j < before.len() && before[j] == s[i];
                assert(kept[j] == s[i]);
            }
        }
        if 0 <= i < kept.len() {
            if i < before.len() {
                assert(kept[i] == before[i]);
                let j = choose|j: int| 0 <= j < t.len() && t[j] == before[i];
                assert(s[j] == kept[i]);
            } else {
                assert(kept[i] == s[s.len() - 1]);
            }
        }
    }
}

} // verus!
