//! JSON values: objects keep the order in which their keys came.

use crate::text::{opt_text, owned, same, slices, texts};
use crate::outside::{
    close_value, number_from_i64, number_from_u64, open_value, same_number, value_from_text,
    value_pretty, value_text, ValueNode, ValueShape,
};
use vstd::prelude::*;

verus! {

/// A JSON number: an integer as a plain value, anything else as it was read.
#[derive(Debug, PartialEq)]
pub enum JsonNumber {
    PosInt(u64),
    NegInt(i64),
    Float(serde_json::Number),
}

/// A JSON value.
#[derive(Debug, PartialEq)]
pub enum Json {
    Null,
    Bool(bool),
    Number(JsonNumber),
    Str(String),
    Array(Vec<Json>),
    Object(Vec<(String, Json)>),
}

/// What a JSON number is.
pub enum NumberView {
    Int(int),
    Float(serde_json::Number),
}

/// What a JSON value is.
pub enum JsonView {
    Null,
    Bool(bool),
    Number(NumberView),
    Str(Seq<char>),
    Array(Seq<JsonView>),
    Object(Seq<(Seq<char>, JsonView)>),
}

impl View for JsonNumber {
    type V = NumberView;

    open spec fn view(&self) -> NumberView {
        match self {
            JsonNumber::PosInt(n) => NumberView::Int(*n as int),
            JsonNumber::NegInt(n) => NumberView::Int(*n as int),
            JsonNumber::Float(n) => crate::outside::number_model(*n),
        }
    }
}

impl Json {
    /// What the value is, as a mathematical object.
    pub open spec fn model(&self) -> JsonView
        decreases self,
    {
        match self {
            Json::Null => JsonView::Null,
            Json::Bool(b) => JsonView::Bool(*b),
            Json::Number(n) => JsonView::Number(n@),
            Json::Str(s) => JsonView::Str(s@),
            Json::Array(v) => JsonView::Array(
                Seq::new(
                    v@.len(),
                    |i: int|
                        if 0 <= i < v@.len() {
                            v@[i].model()
                        } else {
                            JsonView::Null
                        },
                ),
            ),
            Json::Object(v) => JsonView::Object(
                Seq::new(
                    v@.len(),
                    |i: int|
                        (
                            v@[i].0@,
                            if 0 <= i < v@.len() {
                                v@[i].1.model()
                            } else {
                                JsonView::Null
                            },
                        ),
                ),
            ),
        }
    }
}

impl View for Json {
    type V = JsonView;

    open spec fn view(&self) -> JsonView {
        self.model()
    }
}

/// The values behind a sequence of JSON values.
pub open spec fn models(v: Seq<Json>) -> Seq<JsonView> {
    Seq::new(v.len(), |i: int| v[i]@)
}

/// The entries behind a sequence of object entries.
pub open spec fn entries(v: Seq<(String, Json)>) -> Seq<(Seq<char>, JsonView)> {
    Seq::new(v.len(), |i: int| (v[i].0@, v[i].1@))
}

/// The value behind an optional reference.
pub open spec fn opt_json(o: Option<&Json>) -> Option<JsonView> {
    match o {
        Some(j) => Some(j@),
        None => None,
    }
}

/// The value behind an optional value.
pub open spec fn opt_value(o: Option<Json>) -> Option<JsonView> {
    match o {
        Some(j) => Some(j@),
        None => None,
    }
}

/// The values behind an optional list.
pub open spec fn opt_list(o: Option<&Vec<Json>>) -> Option<Seq<JsonView>> {
    match o {
        Some(v) => Some(models(v@)),
        None => None,
    }
}

/// The view of an array is the array of the views.
pub broadcast proof fn lemma_array_view(v: Vec<Json>)
    ensures
        #[trigger] Json::Array(v)@ == JsonView::Array(models(v@)),
{
    assert(Json::Array(v).model()->Array_0 =~= models(v@));
}

/// The view of an object is the object of the views.
pub broadcast proof fn lemma_object_view(v: Vec<(String, Json)>)
    ensures
        #[trigger] Json::Object(v)@ == JsonView::Object(entries(v@)),
{
    assert(Json::Object(v).model()->Object_0 =~= entries(v@));
}

/// The texts of the values that are texts.
pub open spec fn texts_of(v: Option<JsonView>) -> Option<Seq<char>> {
    match v {
        Some(j) => j.as_text(),
        None => None,
    }
}

/// The text that an optional value is.
pub fn text_in<'a>(v: Option<&'a Json>) -> (r: Option<&'a str>)
    ensures
        opt_text(r) == texts_of(opt_json(v)),
{
    match v {
        Some(j) => j.as_text(),
        None => None,
    }
}

/// A text or, where there is none, `other`.
pub open spec fn text_or(o: Option<Seq<char>>, other: Seq<char>) -> Seq<char> {
    match o {
        Some(s) => s,
        None => other,
    }
}

/// A text or, where there is none, `other`.
pub fn str_or<'a>(o: Option<&'a str>, other: &'a str) -> (r: &'a str)
    ensures
        r@ == text_or(opt_text(o), other@),
{
    match o {
        Some(s) => s,
        None => other,
    }
}

/// The first `i + 1` elements are the first `i` and the one at `i`.
pub proof fn lemma_take_next<T>(s: Seq<T>, i: int)
    requires
        0 <= i < s.len(),
    ensures
        s.subrange(0, i + 1).drop_last() == s.subrange(0, i),
        s.subrange(0, i + 1).last() == s[i],
        s.subrange(0, i + 1).len() == i + 1,
        s.subrange(0, s.len() as int) == s,
{
    assert(s.subrange(0, i + 1).drop_last() =~= s.subrange(0, i));
    assert(s.subrange(0, s.len() as int) =~= s);
}

/// The values behind a list with one more.
pub proof fn lemma_models_push(v: Seq<Json>, x: Json)
    ensures
        models(v.push(x)) == models(v).push(x@),
{
    assert(models(v.push(x)) =~= models(v).push(x@));
}

// ---------------------------------------------------------------------------
// Reading and writing, as mathematics
// ---------------------------------------------------------------------------

/// The value of the first entry under `key`.
pub open spec fn entry(s: Seq<(Seq<char>, JsonView)>, key: Seq<char>) -> Option<JsonView>
    decreases s.len(),
{
    if s.len() == 0 {
        None
    } else {
        match entry(s.drop_last(), key) {
            Some(v) => Some(v),
            None => if s.last().0 == key {
                Some(s.last().1)
            } else {
                None
            },
        }
    }
}

/// The position of the first entry under `key`, or the length where there is none.
pub open spec fn entry_at(s: Seq<(Seq<char>, JsonView)>, key: Seq<char>) -> int
    decreases s.len(),
{
    if s.len() == 0 {
        0
    } else {
        let i = entry_at(s.drop_last(), key);
        if i < s.len() - 1 || s.last().0 == key {
            i
        } else {
            s.len() as int
        }
    }
}

/// The entries with the one under `key` replaced where it stands, or added at the end.
pub open spec fn put_entry(
    s: Seq<(Seq<char>, JsonView)>,
    key: Seq<char>,
    v: JsonView,
) -> Seq<(Seq<char>, JsonView)> {
    let i = entry_at(s, key);
    if i < s.len() {
        s.update(i, (key, v))
    } else {
        s.push((key, v))
    }
}

/// The entries without the one under `key`, whose place the last entry takes.
pub open spec fn drop_entry(s: Seq<(Seq<char>, JsonView)>, key: Seq<char>) -> Seq<
    (Seq<char>, JsonView),
> {
    let i = entry_at(s, key);
    if i < s.len() {
        s.update(i, s.last()).drop_last()
    } else {
        s
    }
}

/// Where the first entry under a key stands, and that it is the one that is read.
pub proof fn lemma_entry_at(s: Seq<(Seq<char>, JsonView)>, key: Seq<char>)
    ensures
        0 <= entry_at(s, key) <= s.len(),
        entry_at(s, key) < s.len() ==> s[entry_at(s, key)].0 == key && entry(s, key) == Some(
            s[entry_at(s, key)].1,
        ),
        entry_at(s, key) == s.len() ==> entry(s, key) is None,
        forall|i: int| 0 <= i < entry_at(s, key) ==> (#[trigger] s[i]).0 != key,
    decreases s.len(),
{
    if s.len() > 0 {
        let t = s.drop_last();
        lemma_entry_at(t, key);
        assert forall|i: int| 0 <= i < entry_at(s, key) implies (#[trigger] s[i]).0 != key by {
            if i < t.len() {
                assert(t[i].0 != key);
            }
        }
        if entry_at(t, key) < t.len() {
            assert(t[entry_at(t, key)] == s[entry_at(t, key)]);
        }
    }
}

/// A position that holds `key`, with none before it that does, is the first.
pub proof fn lemma_entry_first(s: Seq<(Seq<char>, JsonView)>, key: Seq<char>, i: int)
    requires
        0 <= i < s.len(),
        s[i].0 == key,
        forall|j: int| 0 <= j < i ==> (#[trigger] s[j]).0 != key,
    ensures
        entry_at(s, key) == i,
        entry(s, key) == Some(s[i].1),
{
    lemma_entry_at(s, key);
    let k = entry_at(s, key);
    if i < k {
        assert(s[i].0 != key);
    } else if k < i {
        assert(s[k].0 != key);
    }
}

/// Where no entry holds `key`, none is read.
pub proof fn lemma_entry_none(s: Seq<(Seq<char>, JsonView)>, key: Seq<char>)
    requires
        forall|j: int| 0 <= j < s.len() ==> (#[trigger] s[j]).0 != key,
    ensures
        entry_at(s, key) == s.len(),
        entry(s, key) is None,
{
    lemma_entry_at(s, key);
    let k = entry_at(s, key);
    if k < s.len() {
        assert(s[k].0 != key);
    }
}

impl JsonView {
    /// The empty object.
    pub open spec fn object() -> JsonView {
        JsonView::Object(Seq::empty())
    }

    /// An integer.
    pub open spec fn num(n: int) -> JsonView {
        JsonView::Number(NumberView::Int(n))
    }

    /// A text or, where there is none, null.
    pub open spec fn opt_text(o: Option<Seq<char>>) -> JsonView {
        match o {
            Some(s) => JsonView::Str(s),
            None => JsonView::Null,
        }
    }

    /// A value or, where there is none, null.
    pub open spec fn or_null(o: Option<JsonView>) -> JsonView {
        match o {
            Some(v) => v,
            None => JsonView::Null,
        }
    }

    /// A number or, where there is none, null.
    pub open spec fn opt_int(o: Option<int>) -> JsonView {
        match o {
            Some(n) => JsonView::num(n),
            None => JsonView::Null,
        }
    }

    /// An array of texts.
    pub open spec fn strings(s: Seq<Seq<char>>) -> JsonView {
        JsonView::Array(s.map_values(|t: Seq<char>| JsonView::Str(t)))
    }

    /// What an object holds under `key`. Nothing else holds anything.
    pub open spec fn get(self, key: Seq<char>) -> Option<JsonView> {
        match self {
            JsonView::Object(s) => entry(s, key),
            _ => None,
        }
    }

    /// An object with `v` under `key`. Nothing else changes.
    pub open spec fn with(self, key: Seq<char>, v: JsonView) -> JsonView {
        match self {
            JsonView::Object(s) => JsonView::Object(put_entry(s, key, v)),
            _ => self,
        }
    }

    /// An object with nothing under `key`. Nothing else changes.
    pub open spec fn without(self, key: Seq<char>) -> JsonView {
        match self {
            JsonView::Object(s) => JsonView::Object(drop_entry(s, key)),
            _ => self,
        }
    }

    /// The text that a string is.
    pub open spec fn as_text(self) -> Option<Seq<char>> {
        match self {
            JsonView::Str(s) => Some(s),
            _ => None,
        }
    }

    /// The truth value that a boolean is.
    pub open spec fn as_flag(self) -> Option<bool> {
        match self {
            JsonView::Bool(b) => Some(b),
            _ => None,
        }
    }

    /// The integer that a number is, where it fits `u64`.
    pub open spec fn as_nat(self) -> Option<int> {
        match self {
            JsonView::Number(NumberView::Int(n)) => if 0 <= n <= u64::MAX {
                Some(n)
            } else {
                None
            },
            _ => None,
        }
    }

    /// The integer that a number is, where it fits `i64`.
    pub open spec fn as_int(self) -> Option<int> {
        match self {
            JsonView::Number(NumberView::Int(n)) => if i64::MIN <= n <= i64::MAX {
                Some(n)
            } else {
                None
            },
            _ => None,
        }
    }

    /// The values of an array.
    pub open spec fn as_list(self) -> Option<Seq<JsonView>> {
        match self {
            JsonView::Array(s) => Some(s),
            _ => None,
        }
    }

    /// The text under `key`.
    pub open spec fn text(self, key: Seq<char>) -> Option<Seq<char>> {
        match self.get(key) {
            Some(v) => v.as_text(),
            None => None,
        }
    }

    /// The truth value under `key`.
    pub open spec fn flag(self, key: Seq<char>) -> Option<bool> {
        match self.get(key) {
            Some(v) => v.as_flag(),
            None => None,
        }
    }

    /// The integer under `key`, where it fits `u64`.
    pub open spec fn nat_at(self, key: Seq<char>) -> Option<int> {
        match self.get(key) {
            Some(v) => v.as_nat(),
            None => None,
        }
    }

    /// The integer under `key`, where it fits `i64`.
    pub open spec fn int_at(self, key: Seq<char>) -> Option<int> {
        match self.get(key) {
            Some(v) => v.as_int(),
            None => None,
        }
    }

    /// The values of the array under `key`.
    pub open spec fn list(self, key: Seq<char>) -> Option<Seq<JsonView>> {
        match self.get(key) {
            Some(v) => v.as_list(),
            None => None,
        }
    }

    /// `first` or, where there is nothing, what stands under `key`.
    pub open spec fn or_get(self, first: Option<JsonView>, key: Seq<char>) -> Option<JsonView> {
        match first {
            Some(v) => Some(v),
            None => self.get(key),
        }
    }

    /// `first` or, where there is nothing, the text under `key`.
    pub open spec fn or_text(self, first: Option<Seq<char>>, key: Seq<char>) -> Option<Seq<char>> {
        match first {
            Some(s) => Some(s),
            None => self.text(key),
        }
    }

    /// An object with `v` under `key` where it held nothing there. Nothing else changes.
    pub open spec fn fill(self, key: Seq<char>, v: JsonView) -> JsonView {
        match self.get(key) {
            Some(_) => self,
            None => self.with(key, v),
        }
    }

    /// What stands under `key`, and under `inner` in that.
    pub open spec fn at(self, key: Seq<char>, inner: Seq<char>) -> Option<JsonView> {
        match self.get(key) {
            Some(v) => v.get(inner),
            None => None,
        }
    }
}

/// An object gives back what was put under a key, and keeps what other keys hold.
pub proof fn law_with_get(j: JsonView, key: Seq<char>, v: JsonView, other: Seq<char>)
    requires
        j is Object,
    ensures
        j.with(key, v).get(key) == Some(v),
        other != key ==> j.with(key, v).get(other) == j.get(other),
{
    let s = j->Object_0;
    let t = put_entry(s, key, v);
    lemma_entry_at(s, key);
    let i = entry_at(s, key);
    assert forall|k: int| 0 <= k < i implies (#[trigger] t[k]).0 != key by {
        assert(s[k].0 != key);
    }
    lemma_entry_first(t, key, i);
    if other != key {
        lemma_entry_at(s, other);
        let o = entry_at(s, other);
        if o < s.len() {
            assert forall|k: int| 0 <= k < o implies (#[trigger] t[k]).0 != other by {
                assert(s[k].0 != other);
            }
            lemma_entry_first(t, other, o);
        } else {
            assert forall|k: int| 0 <= k < t.len() implies (#[trigger] t[k]).0 != other by {
                if k < s.len() {
                    assert(s[k].0 != other);
                }
            }
            lemma_entry_none(t, other);
        }
    }
}

/// Whether an object's keys all differ.
pub open spec fn keys_differ(s: Seq<(Seq<char>, JsonView)>) -> bool {
    forall|i: int, j: int| 0 <= i < j < s.len() ==> (#[trigger] s[i]).0 != (#[trigger] s[j]).0
}

/// Putting an entry keeps the keys of an object different.
pub proof fn law_with_keys_differ(j: JsonView, key: Seq<char>, v: JsonView)
    requires
        j is Object,
        keys_differ(j->Object_0),
    ensures
        keys_differ(j.with(key, v)->Object_0),
{
    lemma_entry_at(j->Object_0, key);
}

/// Taking a key out of an object whose keys differ leaves nothing under it, and keeps what
/// other keys hold.
pub proof fn law_without_get(j: JsonView, key: Seq<char>, other: Seq<char>)
    requires
        j is Object,
        keys_differ(j->Object_0),
    ensures
        j.without(key).get(key) is None,
        other != key ==> j.without(key).get(other) == j.get(other),
        keys_differ(j.without(key)->Object_0),
{
    let s = j->Object_0;
    let t = drop_entry(s, key);
    lemma_entry_at(s, key);
    let i = entry_at(s, key);
    assert(keys_differ(t)) by {
        assert forall|a: int, b: int| 0 <= a < b < t.len() implies (#[trigger] t[a]).0 != (
        #[trigger] t[b]).0 by {
            if i < s.len() {
                let x = if a == i {
                    s.len() - 1
                } else {
                    a
                };
                let y = if b == i {
                    s.len() - 1
                } else {
                    b
                };
                assert(t[a] == s[x] && t[b] == s[y]);
                if x < y {
                    assert(s[x].0 != s[y].0);
                } else {
                    assert(s[y].0 != s[x].0);
                }
            } else {
                assert(s[a].0 != s[b].0);
            }
        }
    }
    assert forall|k: int| 0 <= k < t.len() implies (#[trigger] t[k]).0 != key by {
        if i < s.len() {
            let x = if k == i {
                s.len() - 1
            } else {
                k
            };
            assert(t[k] == s[x]);
            if x < i {
                assert(s[x].0 != s[i].0);
            } else {
                assert(s[i].0 != s[x].0);
            }
        }
    }
    lemma_entry_none(t, key);
    if other != key {
        lemma_entry_at(s, other);
        let o = entry_at(s, other);
        if o < s.len() {
            let p = if i < s.len() && o == s.len() - 1 {
                i
            } else {
                o
            };
            assert(t[p] == s[o]);
            assert forall|k: int| 0 <= k < p implies (#[trigger] t[k]).0 != other by {
                assert(t[k].0 != t[p].0);
            }
            lemma_entry_first(t, other, p);
        } else {
            assert forall|k: int| 0 <= k < t.len() implies (#[trigger] t[k]).0 != other by {
                if i < s.len() && k == i {
                    assert(s[s.len() - 1].0 != other);
                } else {
                    assert(s[k].0 != other);
                }
            }
            lemma_entry_none(t, other);
        }
    }
}

// ---------------------------------------------------------------------------
// Reading and writing
// ---------------------------------------------------------------------------

/// The position of the first entry under `key`, or the length where there is none.
fn find_entry(v: &Vec<(String, Json)>, key: &str) -> (r: usize)
    ensures
        r == entry_at(entries(v@), key@),
        r <= v@.len(),
        r < v@.len() ==> entry(entries(v@), key@) == Some(v@[r as int].1@),
        r == v@.len() ==> entry(entries(v@), key@) is None,
{
    let ghost s = entries(v@);
    let mut i: usize = 0;
    while i < v.len()
        invariant
            i <= v@.len(),
            s == entries(v@),
            forall|j: int| 0 <= j < i ==> (#[trigger] s[j]).0 != key@,
        decreases v@.len() - i,
    {
        if same(v[i].0.as_str(), key) {
            proof {
                lemma_entry_first(s, key@, i as int);
            }
            return i;
        }
        i = i + 1;
    }
    proof {
        lemma_entry_none(s, key@);
    }
    i
}

impl Json {
    /// The empty object.
    pub fn object() -> (r: Json)
        ensures
            r@ == JsonView::object(),
    {
        let v: Vec<(String, Json)> = Vec::new();
        proof {
            lemma_object_view(v);
            assert(entries(v@) =~= Seq::empty());
        }
        Json::Object(v)
    }

    /// An array.
    pub fn array(v: Vec<Json>) -> (r: Json)
        ensures
            r@ == JsonView::Array(models(v@)),
    {
        proof {
            lemma_array_view(v);
        }
        Json::Array(v)
    }

    /// A text.
    pub fn str(s: &str) -> (r: Json)
        ensures
            r@ == JsonView::Str(s@),
    {
        Json::Str(owned(s))
    }

    /// A truth value.
    pub fn bool(b: bool) -> (r: Json)
        ensures
            r@ == JsonView::Bool(b),
    {
        Json::Bool(b)
    }

    /// A natural number.
    pub fn num(n: u64) -> (r: Json)
        ensures
            r@ == JsonView::num(n as int),
    {
        Json::Number(JsonNumber::PosInt(n))
    }

    /// An integer.
    pub fn signed(n: i64) -> (r: Json)
        ensures
            r@ == JsonView::num(n as int),
    {
        if n < 0 {
            Json::Number(JsonNumber::NegInt(n))
        } else {
            Json::Number(JsonNumber::PosInt(n as u64))
        }
    }

    /// A text or, where there is none, null.
    pub fn opt_str(o: Option<&str>) -> (r: Json)
        ensures
            r@ == JsonView::opt_text(opt_text(o)),
    {
        match o {
            Some(s) => Json::str(s),
            None => Json::Null,
        }
    }

    /// A copy of a value or, where there is none, null.
    pub fn or_null(o: Option<&Json>) -> (r: Json)
        ensures
            r@ == JsonView::or_null(opt_json(o)),
    {
        match o {
            Some(j) => j.copy(),
            None => Json::Null,
        }
    }

    /// An array of texts.
    pub fn strings(v: &Vec<String>) -> (r: Json)
        ensures
            r@ == JsonView::strings(texts(v@)),
    {
        let mut out: Vec<Json> = Vec::new();
        let mut i: usize = 0;
        while i < v.len()
            invariant
                i <= v@.len(),
                out@.len() == i,
                forall|k: int| 0 <= k < i ==> (#[trigger] out@[k])@ == JsonView::Str(v@[k]@),
            decreases v@.len() - i,
        {
            out.push(Json::str(v[i].as_str()));
            i = i + 1;
        }
        assert(models(out@) =~= texts(v@).map_values(|t: Seq<char>| JsonView::Str(t)));
        Json::array(out)
    }

    /// An array of texts.
    pub fn str_list(v: &[&str]) -> (r: Json)
        ensures
            r@ == JsonView::strings(slices(v@)),
    {
        let mut out: Vec<Json> = Vec::new();
        let mut i: usize = 0;
        while i < v.len()
            invariant
                i <= v@.len(),
                out@.len() == i,
                forall|k: int| 0 <= k < i ==> (#[trigger] out@[k])@ == JsonView::Str(v@[k]@),
            decreases v@.len() - i,
        {
            out.push(Json::str(v[i]));
            i = i + 1;
        }
        assert(models(out@) =~= slices(v@).map_values(|t: Seq<char>| JsonView::Str(t)));
        Json::array(out)
    }

    /// The empty array.
    pub fn list0() -> (r: Json)
        ensures
            r@ == JsonView::Array(Seq::empty()),
    {
        let items: Vec<Json> = Vec::new();
        assert(models(items@) =~= Seq::empty());
        Json::array(items)
    }

    /// An array of one value.
    pub fn list1(a: Json) -> (r: Json)
        ensures
            r@ == JsonView::Array(seq![a@]),
    {
        let mut items: Vec<Json> = Vec::new();
        items.push(a);
        assert(models(items@) =~= seq![a@]);
        Json::array(items)
    }

    /// An array of two values.
    pub fn list2(a: Json, b: Json) -> (r: Json)
        ensures
            r@ == JsonView::Array(seq![a@, b@]),
    {
        let mut items: Vec<Json> = Vec::new();
        items.push(a);
        items.push(b);
        assert(models(items@) =~= seq![a@, b@]);
        Json::array(items)
    }

    /// An array of three values.
    pub fn list3(a: Json, b: Json, c: Json) -> (r: Json)
        ensures
            r@ == JsonView::Array(seq![a@, b@, c@]),
    {
        let mut items: Vec<Json> = Vec::new();
        items.push(a);
        items.push(b);
        items.push(c);
        assert(models(items@) =~= seq![a@, b@, c@]);
        Json::array(items)
    }

    /// A number or, where there is none, null.
    pub fn opt_num(o: Option<u64>) -> (r: Json)
        ensures
            r@ == JsonView::opt_int(
                match o {
                    Some(n) => Some(n as int),
                    None => None,
                },
            ),
    {
        match o {
            Some(n) => Json::num(n),
            None => Json::Null,
        }
    }

    /// A copy of a value.
    pub fn copy(&self) -> (r: Json)
        ensures
            r@ == self@,
        decreases self,
    {
        match self {
            Json::Null => Json::Null,
            Json::Bool(b) => Json::Bool(*b),
            Json::Number(JsonNumber::PosInt(n)) => Json::Number(JsonNumber::PosInt(*n)),
            Json::Number(JsonNumber::NegInt(n)) => Json::Number(JsonNumber::NegInt(*n)),
            Json::Number(JsonNumber::Float(n)) => Json::Number(JsonNumber::Float(n.clone())),
            Json::Str(s) => Json::Str(owned(s.as_str())),
            Json::Array(v) => {
                let mut out: Vec<Json> = Vec::new();
                let mut i: usize = 0;
                while i < v.len()
                    invariant
                        *self == Json::Array(*v),
                        i <= v@.len(),
                        out@.len() == i,
                        forall|k: int| 0 <= k < i ==> (#[trigger] out@[k])@ == v@[k]@,
                    decreases v@.len() - i,
                {
                    assert(decreases_to!(*self => self->Array_0));
                    assert(decreases_to!(self->Array_0 => v@));
                    assert(decreases_to!(v@ => v@[i as int]));
                    out.push(v[i].copy());
                    i = i + 1;
                }
                proof {
                    lemma_array_view(*v);
                    assert(models(out@) =~= models(v@));
                }
                Json::array(out)
            },
            Json::Object(v) => {
                let mut out: Vec<(String, Json)> = Vec::new();
                let mut i: usize = 0;
                while i < v.len()
                    invariant
                        *self == Json::Object(*v),
                        i <= v@.len(),
                        out@.len() == i,
                        forall|k: int|
                            0 <= k < i ==> (#[trigger] out@[k]).0@ == v@[k].0@ && out@[k].1@
                                == v@[k].1@,
                    decreases v@.len() - i,
                {
                    assert(decreases_to!(*self => self->Object_0));
                    assert(decreases_to!(self->Object_0 => v@));
                    assert(decreases_to!(v@ => v@[i as int]));
                    assert(decreases_to!(v@[i as int] => v@[i as int].1));
                    out.push((owned(v[i].0.as_str()), v[i].1.copy()));
                    i = i + 1;
                }
                proof {
                    lemma_object_view(*v);
                    lemma_object_view(out);
                    assert(entries(out@) =~= entries(v@));
                }
                Json::Object(out)
            },
        }
    }

    /// What an object holds under `key`.
    pub fn get(&self, key: &str) -> (r: Option<&Json>)
        ensures
            opt_json(r) == self@.get(key@),
    {
        match self {
            Json::Object(v) => {
                proof {
                    lemma_object_view(*v);
                }
                let i = find_entry(v, key);
                if i < v.len() {
                    Some(&v[i].1)
                } else {
                    None
                }
            },
            _ => None,
        }
    }

    /// An object with `value` under `key`.
    pub fn with(self, key: &str, value: Json) -> (r: Json)
        ensures
            r@ == self@.with(key@, value@),
    {
        match self {
            Json::Object(v) => {
                proof {
                    lemma_object_view(v);
                }
                let i = find_entry(&v, key);
                let ghost s = entries(v@);
                let mut w = v;
                if i < w.len() {
                    w.set(i, (owned(key), value));
                    assert(entries(w@) =~= s.update(i as int, (key@, value@)));
                } else {
                    w.push((owned(key), value));
                    assert(entries(w@) =~= s.push((key@, value@)));
                }
                proof {
                    lemma_object_view(w);
                }
                Json::Object(w)
            },
            _ => self,
        }
    }

    /// An object without `key`.
    pub fn without(self, key: &str) -> (r: Json)
        ensures
            r@ == self@.without(key@),
    {
        match self {
            Json::Object(v) => {
                proof {
                    lemma_object_view(v);
                }
                let i = find_entry(&v, key);
                let ghost s = entries(v@);
                let mut w = v;
                if i < w.len() {
                    let _ = w.swap_remove(i);
                    assert(entries(w@) =~= s.update(i as int, s.last()).drop_last());
                }
                proof {
                    lemma_object_view(w);
                }
                Json::Object(w)
            },
            _ => self,
        }
    }

    /// Puts `value` under `key` of an object.
    pub fn insert(&mut self, key: &str, value: Json)
        ensures
            final(self)@ == old(self)@.with(key@, value@),
    {
        let mut me = Json::Null;
        core::mem::swap(self, &mut me);
        let mut next = me.with(key, value);
        core::mem::swap(self, &mut next);
    }

    /// The text that a string is.
    pub fn as_text(&self) -> (r: Option<&str>)
        ensures
            opt_text(r) == self@.as_text(),
    {
        match self {
            Json::Str(s) => Some(s.as_str()),
            _ => None,
        }
    }

    /// The truth value that a boolean is.
    pub fn as_flag(&self) -> (r: Option<bool>)
        ensures
            r == self@.as_flag(),
    {
        match self {
            Json::Bool(b) => Some(*b),
            _ => None,
        }
    }

    /// The integer that a number is, where it fits `u64`.
    pub fn as_nat(&self) -> (r: Option<u64>)
        ensures
            match r {
                Some(n) => self@.as_nat() == Some(n as int),
                None => self@.as_nat() is None,
            },
    {
        match self {
            Json::Number(JsonNumber::PosInt(n)) => Some(*n),
            Json::Number(JsonNumber::NegInt(n)) => if *n >= 0 {
                Some(*n as u64)
            } else {
                None
            },
            Json::Number(JsonNumber::Float(n)) => match n.as_u64() {
                Some(u) => Some(u),
                None => match n.as_i64() {
                    Some(i) => if i >= 0 {
                        Some(i as u64)
                    } else {
                        None
                    },
                    None => None,
                },
            },
            _ => None,
        }
    }

    /// The integer that a number is, where it fits `i64`.
    pub fn as_int(&self) -> (r: Option<i64>)
        ensures
            match r {
                Some(n) => self@.as_int() == Some(n as int),
                None => self@.as_int() is None,
            },
    {
        match self {
            Json::Number(JsonNumber::PosInt(n)) => if *n <= i64::MAX as u64 {
                Some(*n as i64)
            } else {
                None
            },
            Json::Number(JsonNumber::NegInt(n)) => Some(*n),
            Json::Number(JsonNumber::Float(n)) => match n.as_u64() {
                Some(u) => if u <= i64::MAX as u64 {
                    Some(u as i64)
                } else {
                    None
                },
                None => n.as_i64(),
            },
            _ => None,
        }
    }

    /// The values of an array.
    pub fn as_list(&self) -> (r: Option<&Vec<Json>>)
        ensures
            opt_list(r) == self@.as_list(),
    {
        match self {
            Json::Array(v) => {
                proof {
                    lemma_array_view(*v);
                }
                Some(v)
            },
            _ => None,
        }
    }

    /// The text under `key`.
    pub fn text(&self, key: &str) -> (r: Option<&str>)
        ensures
            opt_text(r) == self@.text(key@),
    {
        match self.get(key) {
            Some(v) => v.as_text(),
            None => None,
        }
    }

    /// The truth value under `key`.
    pub fn flag(&self, key: &str) -> (r: Option<bool>)
        ensures
            r == self@.flag(key@),
    {
        match self.get(key) {
            Some(v) => v.as_flag(),
            None => None,
        }
    }

    /// The integer under `key`, where it fits `u64`.
    pub fn nat_at(&self, key: &str) -> (r: Option<u64>)
        ensures
            match r {
                Some(n) => self@.nat_at(key@) == Some(n as int),
                None => self@.nat_at(key@) is None,
            },
    {
        match self.get(key) {
            Some(v) => v.as_nat(),
            None => None,
        }
    }

    /// The integer under `key`, where it fits `i64`.
    pub fn int_at(&self, key: &str) -> (r: Option<i64>)
        ensures
            match r {
                Some(n) => self@.int_at(key@) == Some(n as int),
                None => self@.int_at(key@) is None,
            },
    {
        match self.get(key) {
            Some(v) => v.as_int(),
            None => None,
        }
    }

    /// The values of the array under `key`.
    pub fn list(&self, key: &str) -> (r: Option<&Vec<Json>>)
        ensures
            opt_list(r) == self@.list(key@),
    {
        match self.get(key) {
            Some(v) => v.as_list(),
            None => None,
        }
    }

    /// `first` or, where there is nothing, what stands under `key`.
    pub fn or_get<'a>(&'a self, first: Option<&'a Json>, key: &str) -> (r: Option<&'a Json>)
        ensures
            opt_json(r) == self@.or_get(opt_json(first), key@),
    {
        match first {
            Some(v) => Some(v),
            None => self.get(key),
        }
    }

    /// `first` or, where there is nothing, the text under `key`.
    pub fn or_text<'a>(&'a self, first: Option<&'a str>, key: &str) -> (r: Option<&'a str>)
        ensures
            opt_text(r) == self@.or_text(opt_text(first), key@),
    {
        match first {
            Some(s) => Some(s),
            None => self.text(key),
        }
    }

    /// An object with `value` under `key` where it held nothing there.
    pub fn fill(self, key: &str, value: Json) -> (r: Json)
        ensures
            r@ == self@.fill(key@, value@),
    {
        let absent: bool = self.get(key).is_none();
        if absent {
            self.with(key, value)
        } else {
            self
        }
    }

    /// What stands under `key`, and under `inner` in that.
    pub fn at(&self, key: &str, inner: &str) -> (r: Option<&Json>)
        ensures
            opt_json(r) == self@.at(key@, inner@),
    {
        match self.get(key) {
            Some(v) => v.get(inner),
            None => None,
        }
    }

    /// Whether a value is null.
    pub fn is_null(&self) -> (r: bool)
        ensures
            r == (self@ is Null),
    {
        match self {
            Json::Null => true,
            _ => false,
        }
    }

    /// Whether a value is an object.
    pub fn is_object(&self) -> (r: bool)
        ensures
            r == (self@ is Object),
    {
        match self {
            Json::Object(_) => true,
            _ => false,
        }
    }
}

// ---------------------------------------------------------------------------
// Equality
// ---------------------------------------------------------------------------

/// Whether two numbers are equal: an integer only to an integer.
pub open spec fn number_eq(a: NumberView, b: NumberView) -> bool {
    match (a, b) {
        (NumberView::Int(x), NumberView::Int(y)) => x == y,
        (NumberView::Float(x), NumberView::Float(y)) => crate::outside::numbers_equal(x, y),
        _ => false,
    }
}

/// Whether two values are equal: the entries of an object in any order.
pub open spec fn json_eq(a: JsonView, b: JsonView) -> bool
    decreases a,
{
    match (a, b) {
        (JsonView::Null, JsonView::Null) => true,
        (JsonView::Bool(x), JsonView::Bool(y)) => x == y,
        (JsonView::Number(x), JsonView::Number(y)) => number_eq(x, y),
        (JsonView::Str(x), JsonView::Str(y)) => x == y,
        (JsonView::Array(x), JsonView::Array(y)) => x.len() == y.len() && forall|i: int|
            #![trigger x[i]]
            0 <= i < x.len() ==> json_eq(x[i], y[i]),
        (JsonView::Object(x), JsonView::Object(y)) => x.len() == y.len() && forall|i: int|
            #![trigger x[i]]
            0 <= i < x.len() ==> match entry(y, x[i].0) {
                Some(v) => json_eq(x[i].1, v),
                None => false,
            },
        _ => false,
    }
}

/// The number that a JSON number is, where it is an integer.
fn integer_of(n: &JsonNumber) -> (r: Option<i128>)
    ensures
        match r {
            Some(i) => n@ == NumberView::Int(i as int),
            None => n is Float && n@ == NumberView::Float(n->Float_0),
        },
{
    match n {
        JsonNumber::PosInt(u) => Some(*u as i128),
        JsonNumber::NegInt(i) => Some(*i as i128),
        JsonNumber::Float(f) => match f.as_u64() {
            Some(u) => Some(u as i128),
            None => match f.as_i64() {
                Some(i) => Some(i as i128),
                None => None,
            },
        },
    }
}

fn same_numbers(a: &JsonNumber, b: &JsonNumber) -> (r: bool)
    ensures
        r == number_eq(a@, b@),
{
    match (integer_of(a), integer_of(b)) {
        (Some(x), Some(y)) => x == y,
        (None, None) => match (a, b) {
            (JsonNumber::Float(x), JsonNumber::Float(y)) => same_number(x, y),
            _ => false,
        },
        _ => false,
    }
}

impl Json {
    /// Whether two values are equal: the entries of an object in any order.
    pub fn same(&self, other: &Json) -> (r: bool)
        ensures
            r == json_eq(self@, other@),
        decreases self,
    {
        match (self, other) {
            (Json::Null, Json::Null) => true,
            (Json::Bool(x), Json::Bool(y)) => *x == *y,
            (Json::Number(x), Json::Number(y)) => same_numbers(x, y),
            (Json::Str(x), Json::Str(y)) => same(x.as_str(), y.as_str()),
            (Json::Array(x), Json::Array(y)) => {
                proof {
                    lemma_array_view(*x);
                    lemma_array_view(*y);
                }
                if x.len() != y.len() {
                    return false;
                }
                let ghost a = models(x@);
                let ghost b = models(y@);
                let mut i: usize = 0;
                while i < x.len()
                    invariant
                        *self == Json::Array(*x),
                        self@ == JsonView::Array(a),
                        other@ == JsonView::Array(b),
                        a == models(x@),
                        b == models(y@),
                        x@.len() == y@.len(),
                        i <= x@.len(),
                        forall|k: int| #![trigger a[k]] 0 <= k < i ==> json_eq(a[k], b[k]),
                    decreases x@.len() - i,
                {
                    assert(decreases_to!(*self => self->Array_0));
                    assert(decreases_to!(self->Array_0 => x@));
                    assert(decreases_to!(x@ => x@[i as int]));
                    assert(a[i as int] == x@[i as int]@ && b[i as int] == y@[i as int]@);
                    if !x[i].same(&y[i]) {
                        return false;
                    }
                    i = i + 1;
                }
                true
            },
            (Json::Object(x), Json::Object(y)) => {
                proof {
                    lemma_object_view(*x);
                    lemma_object_view(*y);
                }
                if x.len() != y.len() {
                    return false;
                }
                let ghost a = entries(x@);
                let ghost b = entries(y@);
                let mut i: usize = 0;
                while i < x.len()
                    invariant
                        *self == Json::Object(*x),
                        self@ == JsonView::Object(a),
                        other@ == JsonView::Object(b),
                        a == entries(x@),
                        b == entries(y@),
                        x@.len() == y@.len(),
                        i <= x@.len(),
                        forall|k: int|
                            #![trigger a[k]]
                            0 <= k < i ==> match entry(b, a[k].0) {
                                Some(v) => json_eq(a[k].1, v),
                                None => false,
                            },
                    decreases x@.len() - i,
                {
                    assert(decreases_to!(*self => self->Object_0));
                    assert(decreases_to!(self->Object_0 => x@));
                    assert(decreases_to!(x@ => x@[i as int]));
                    assert(decreases_to!(x@[i as int] => x@[i as int].1));
                    assert(a[i as int] == (x@[i as int].0@, x@[i as int].1@));
                    match other.get(x[i].0.as_str()) {
                        Some(v) => if !x[i].1.same(v) {
                            return false;
                        },
                        None => {
                            return false;
                        },
                    }
                    i = i + 1;
                }
                true
            },
            _ => false,
        }
    }
}

/// Whether a value is equal to one of some values.
pub open spec fn has_equal(values: Seq<JsonView>, v: JsonView) -> bool {
    exists|i: int| 0 <= i < values.len() && json_eq(#[trigger] values[i], v)
}

// ---------------------------------------------------------------------------
// JSON text
// ---------------------------------------------------------------------------

/// Entries whose keys differ are put in place as they come.
proof fn lemma_object_of(s: Seq<(Seq<char>, JsonView)>)
    requires
        keys_differ(s),
    ensures
        crate::outside::object_of(s) == JsonView::Object(s),
    decreases s.len(),
{
    if s.len() == 0 {
        assert(s =~= Seq::empty());
    } else {
        let t = s.drop_last();
        assert(keys_differ(t));
        lemma_object_of(t);
        assert forall|j: int| 0 <= j < t.len() implies (#[trigger] t[j]).0 != s.last().0 by {
            assert(s[j].0 != s[s.len() - 1].0);
        }
        lemma_entry_none(t, s.last().0);
        assert(t.push((s.last().0, s.last().1)) =~= s);
    }
}

/// A value as `serde_json` represents it: the entries of an object are put one by one.
pub open spec fn collected(j: JsonView) -> JsonView
    decreases j,
{
    match j {
        JsonView::Array(s) => JsonView::Array(collected_list(s)),
        JsonView::Object(s) => crate::outside::object_of(collected_entries(s)),
        _ => j,
    }
}

/// The values of an array as `serde_json` represents them.
pub open spec fn collected_list(s: Seq<JsonView>) -> Seq<JsonView>
    decreases s,
{
    Seq::new(
        s.len(),
        |i: int|
            if 0 <= i < s.len() {
                collected(s[i])
            } else {
                JsonView::Null
            },
    )
}

/// The entries of an object as `serde_json` represents them.
pub open spec fn collected_entries(s: Seq<(Seq<char>, JsonView)>) -> Seq<(Seq<char>, JsonView)>
    decreases s,
{
    Seq::new(
        s.len(),
        |i: int|
            (
                s[i].0,
                if 0 <= i < s.len() {
                    collected(s[i].1)
                } else {
                    JsonView::Null
                },
            ),
    )
}

/// Whether the keys of every object in a value differ.
pub open spec fn well_keyed(j: JsonView) -> bool
    decreases j,
{
    match j {
        JsonView::Array(s) => forall|i: int| #![trigger s[i]] 0 <= i < s.len() ==> well_keyed(s[i]),
        JsonView::Object(s) => {
            &&& keys_differ(s)
            &&& forall|i: int| #![trigger s[i]] 0 <= i < s.len() ==> well_keyed(s[i].1)
        },
        _ => true,
    }
}

/// A value whose keys differ is represented as it is.
pub proof fn law_collected(j: JsonView)
    requires
        well_keyed(j),
    ensures
        collected(j) == j,
    decreases j,
{
    reveal_with_fuel(collected, 2);
    match j {
        JsonView::Array(s) => {
            assert forall|i: int| 0 <= i < s.len() implies collected(#[trigger] s[i]) == s[i] by {
                law_collected(s[i]);
            }
            assert(collected_list(s) =~= s);
        },
        JsonView::Object(s) => {
            assert forall|i: int| 0 <= i < s.len() implies #[trigger] collected_entries(s)[i]
                == s[i] by {
                assert(well_keyed(s[i].1));
                law_collected(s[i].1);
            }
            assert(collected_entries(s) =~= s);
            lemma_object_of(s);
        },
        _ => {},
    }
}

impl Json {
    /// The value as `serde_json` represents it.
    pub fn to_value(&self) -> (r: serde_json::Value)
        ensures
            crate::outside::value_contents(r) == collected(self@),
        decreases self,
    {
        match self {
            Json::Null => close_value(ValueNode::Null),
            Json::Bool(b) => close_value(ValueNode::Bool(*b)),
            Json::Number(JsonNumber::PosInt(n)) => close_value(ValueNode::Number(number_from_u64(*n))),
            Json::Number(JsonNumber::NegInt(n)) => close_value(ValueNode::Number(number_from_i64(*n))),
            Json::Number(JsonNumber::Float(n)) => close_value(ValueNode::Number(n.clone())),
            Json::Str(s) => close_value(ValueNode::Text(owned(s.as_str()))),
            Json::Array(v) => {
                let mut out: Vec<serde_json::Value> = Vec::new();
                let mut i: usize = 0;
                while i < v.len()
                    invariant
                        *self == Json::Array(*v),
                        i <= v@.len(),
                        out@.len() == i,
                        forall|k: int|
                            0 <= k < i ==> crate::outside::value_contents(#[trigger] out@[k])
                                == collected(v@[k]@),
                    decreases v@.len() - i,
                {
                    assert(decreases_to!(*self => self->Array_0));
                    assert(decreases_to!(self->Array_0 => v@));
                    assert(decreases_to!(v@ => v@[i as int]));
                    out.push(v[i].to_value());
                    i = i + 1;
                }
                proof {
                    lemma_array_view(*v);
                    assert(out@.map_values(
                        |x: serde_json::Value| crate::outside::value_contents(x),
                    ) =~= collected_list(models(v@)));
                }
                close_value(ValueNode::Array(out))
            },
            Json::Object(v) => {
                let mut out: Vec<(String, serde_json::Value)> = Vec::new();
                let mut i: usize = 0;
                while i < v.len()
                    invariant
                        *self == Json::Object(*v),
                        i <= v@.len(),
                        out@.len() == i,
                        forall|k: int|
                            0 <= k < i ==> (#[trigger] out@[k]).0@ == v@[k].0@
                                && crate::outside::value_contents(out@[k].1) == collected(
                                v@[k].1@,
                            ),
                    decreases v@.len() - i,
                {
                    assert(decreases_to!(*self => self->Object_0));
                    assert(decreases_to!(self->Object_0 => v@));
                    assert(decreases_to!(v@ => v@[i as int]));
                    assert(decreases_to!(v@[i as int] => v@[i as int].1));
                    out.push((owned(v[i].0.as_str()), v[i].1.to_value()));
                    i = i + 1;
                }
                proof {
                    lemma_object_view(*v);
                    assert(out@.map_values(
                        |e: (String, serde_json::Value)|
                            (e.0@, crate::outside::value_contents(e.1)),
                    ) =~= collected_entries(entries(v@)));
                }
                close_value(ValueNode::Object(out))
            },
        }
    }

    /// The value that `serde_json` represents.
    pub fn from_value(v: &serde_json::Value) -> (r: Json)
        ensures
            r@ == crate::outside::value_contents(*v),
        decreases crate::outside::value_contents(*v),
    {
        let ghost all = crate::outside::value_contents(*v);
        match open_value(v) {
            ValueShape::Null => Json::Null,
            ValueShape::Bool(b) => Json::Bool(b),
            ValueShape::Number(n) => match n.as_u64() {
                Some(u) => Json::Number(JsonNumber::PosInt(u)),
                None => match n.as_i64() {
                    Some(i) => Json::Number(JsonNumber::NegInt(i)),
                    None => Json::Number(JsonNumber::Float(n.clone())),
                },
            },
            ValueShape::Text(s) => Json::Str(owned(s.as_str())),
            ValueShape::Array(items) => {
                let mut out: Vec<Json> = Vec::new();
                let mut i: usize = 0;
                while i < items.len()
                    invariant
                        all == crate::outside::value_contents(*v),
                        all == JsonView::Array(
                            items@.map_values(
                                |x: serde_json::Value| crate::outside::value_contents(x),
                            ),
                        ),
                        i <= items@.len(),
                        out@.len() == i,
                        forall|k: int|
                            0 <= k < i ==> (#[trigger] out@[k])@ == crate::outside::value_contents(
                                items@[k],
                            ),
                    decreases items@.len() - i,
                {
                    assert(decreases_to!(all => all->Array_0));
                    assert(decreases_to!(all->Array_0 => all->Array_0[i as int]));
                    out.push(Json::from_value(&items[i]));
                    i = i + 1;
                }
                assert(models(out@) =~= all->Array_0);
                Json::array(out)
            },
            ValueShape::Object(items) => {
                let mut out: Vec<(String, Json)> = Vec::new();
                let mut i: usize = 0;
                while i < items.len()
                    invariant
                        all == crate::outside::value_contents(*v),
                        all == JsonView::Object(
                            items@.map_values(
                                |e: (&String, &serde_json::Value)|
                                    (e.0@, crate::outside::value_contents(*e.1)),
                            ),
                        ),
                        i <= items@.len(),
                        out@.len() == i,
                        forall|k: int|
                            0 <= k < i ==> (#[trigger] out@[k]).0@ == items@[k].0@ && out@[k].1@
                                == crate::outside::value_contents(*items@[k].1),
                    decreases items@.len() - i,
                {
                    assert(decreases_to!(all => all->Object_0));
                    assert(decreases_to!(all->Object_0 => all->Object_0[i as int]));
                    assert(decreases_to!(all->Object_0[i as int] => all->Object_0[i as int].1));
                    out.push((owned(items[i].0.as_str()), Json::from_value(items[i].1)));
                    i = i + 1;
                }
                proof {
                    lemma_object_view(out);
                    assert(entries(out@) =~= all->Object_0);
                }
                Json::Object(out)
            },
        }
    }

    /// The compact JSON text of the value.
    pub fn to_text(&self) -> (r: String)
        ensures
            r@ == crate::outside::json_text(collected(self@)),
    {
        value_text(&self.to_value())
    }

    /// The indented JSON text of the value.
    pub fn to_pretty(&self) -> (r: String)
        ensures
            r@ == crate::outside::json_pretty(collected(self@)),
    {
        value_pretty(&self.to_value())
    }

    /// Reads a JSON text, or reports why it is none.
    pub fn parse(s: &str) -> (r: Result<Json, String>)
        ensures
            match r {
                Ok(v) => crate::outside::json_parse(s@) == Some(v@),
                Err(e) => crate::outside::json_parse(s@) is None && e@
                    == crate::outside::json_parse_error(s@),
            },
    {
        match value_from_text(s) {
            Ok(v) => Ok(Json::from_value(&v)),
            Err(e) => Err(e),
        }
    }
}

/// What is read of an object that was given a value under a key: that value under that key, and
/// what stood there before under any other.
pub broadcast proof fn lemma_get_with(j: JsonView, key: Seq<char>, v: JsonView, other: Seq<char>)
    requires
        j is Object,
    ensures
        #[trigger] j.with(key, v).get(other) == (if other == key {
            Some(v)
        } else {
            j.get(other)
        }),
{
    law_with_get(j, key, v, other);
}

/// Nothing is read of an object without entries.
pub broadcast proof fn lemma_get_nothing(key: Seq<char>)
    ensures
        #[trigger] JsonView::object().get(key) is None,
{
}

pub broadcast group group_object_reads {
    lemma_get_with,
    lemma_get_nothing,
}

} // verus!
