//! The calls this library makes into std and into other crates, and what it
//! takes on trust about each of them.

use crate::json::{JsonView, NumberView};
use crate::text::{ascii_lower, is_ascii_alnum};
use vstd::prelude::*;
use vstd::utf8::encode_utf8;

verus! {

/// `serde_json::Number`, of which nothing is seen inside.
#[verifier::external_type_specification]
#[verifier::external_body]
pub struct ExNumber(serde_json::Number);

/// A copy of a `serde_json::Number` is the number.
pub assume_specification[ <serde_json::Number as Clone>::clone ](n: &serde_json::Number) -> (r:
    serde_json::Number)
    ensures
        r == *n,
;

/// Whether two numbers that are no integers are equal.
pub uninterp spec fn numbers_equal(a: serde_json::Number, b: serde_json::Number) -> bool;

/// `==` on `serde_json::Number`: depends on the two numbers alone.
#[verifier::external_body]
pub(crate) fn same_number(a: &serde_json::Number, b: &serde_json::Number) -> (r: bool)
    ensures
        r == numbers_equal(*a, *b),
{
    a == b
}

/// `serde_json::Value`, of which nothing is seen inside.
#[verifier::external_type_specification]
#[verifier::external_body]
pub struct ExValue(serde_json::Value);

/// The value of a number that is a natural number below 2^64.
pub uninterp spec fn number_nat(n: serde_json::Number) -> Option<u64>;

/// The value of a number that is an integer from -2^63 up to, but not including, 2^63.
pub uninterp spec fn number_int(n: serde_json::Number) -> Option<i64>;

/// What a `serde_json::Number` is: an integer where it can be read as one.
pub open spec fn number_model(n: serde_json::Number) -> NumberView {
    match number_nat(n) {
        Some(u) => NumberView::Int(u as int),
        None => match number_int(n) {
            Some(i) => NumberView::Int(i as int),
            None => NumberView::Float(n),
        },
    }
}

/// `serde_json::Number::as_u64`: depends on the number alone.
pub assume_specification[ serde_json::Number::as_u64 ](n: &serde_json::Number) -> (r: Option<u64>)
    ensures
        r == number_nat(*n),
;

/// `serde_json::Number::as_i64`: depends on the number alone.
pub assume_specification[ serde_json::Number::as_i64 ](n: &serde_json::Number) -> (r: Option<i64>)
    ensures
        r == number_int(*n),
;

/// `serde_json::Number::from` on a `u64`: reads back as that number.
#[verifier::external_body]
pub(crate) fn number_from_u64(u: u64) -> (r: serde_json::Number)
    ensures
        number_nat(r) == Some(u),
{
    serde_json::Number::from(u)
}

/// `serde_json::Number::from` on an `i64`: reads back as that number, as a natural number
/// too where it is not negative.
#[verifier::external_body]
pub(crate) fn number_from_i64(i: i64) -> (r: serde_json::Number)
    ensures
        number_int(r) == Some(i),
        number_nat(r) == (if i >= 0 {
            Some(i as u64)
        } else {
            None
        }),
{
    serde_json::Number::from(i)
}

/// What a `serde_json::Value` holds.
pub uninterp spec fn value_contents(v: serde_json::Value) -> JsonView;

/// One level of a `serde_json::Value`, owned.
pub enum ValueNode {
    Null,
    Bool(bool),
    Number(serde_json::Number),
    Text(std::string::String),
    Array(Vec<serde_json::Value>),
    Object(Vec<(std::string::String, serde_json::Value)>),
}

/// One level of a `serde_json::Value`, borrowed.
pub enum ValueShape<'a> {
    Null,
    Bool(bool),
    Number(&'a serde_json::Number),
    Text(&'a std::string::String),
    Array(&'a Vec<serde_json::Value>),
    Object(Vec<(&'a std::string::String, &'a serde_json::Value)>),
}

/// The object that putting some entries one after the other makes.
pub open spec fn object_of(s: Seq<(Seq<char>, JsonView)>) -> JsonView
    decreases s.len(),
{
    if s.len() == 0 {
        JsonView::object()
    } else {
        object_of(s.drop_last()).with(s.last().0, s.last().1)
    }
}

/// What one owned level holds.
pub open spec fn node_contents(n: ValueNode) -> JsonView {
    match n {
        ValueNode::Null => JsonView::Null,
        ValueNode::Bool(b) => JsonView::Bool(b),
        ValueNode::Number(n) => JsonView::Number(number_model(n)),
        ValueNode::Text(s) => JsonView::Str(s@),
        ValueNode::Array(v) => JsonView::Array(
            v@.map_values(|x: serde_json::Value| value_contents(x)),
        ),
        ValueNode::Object(v) => object_of(
            v@.map_values(
                |e: (std::string::String, serde_json::Value)| (e.0@, value_contents(e.1)),
            ),
        ),
    }
}

/// What one borrowed level holds.
pub open spec fn shape_contents(n: ValueShape) -> JsonView {
    match n {
        ValueShape::Null => JsonView::Null,
        ValueShape::Bool(b) => JsonView::Bool(b),
        ValueShape::Number(n) => JsonView::Number(number_model(*n)),
        ValueShape::Text(s) => JsonView::Str(s@),
        ValueShape::Array(v) => JsonView::Array(
            v@.map_values(|x: serde_json::Value| value_contents(x)),
        ),
        ValueShape::Object(v) => JsonView::Object(
            v@.map_values(
                |e: (&std::string::String, &serde_json::Value)| (e.0@, value_contents(*e.1)),
            ),
        ),
    }
}

/// The constructors of `serde_json::Value`; an object is collected entry by entry, so that a
/// later entry replaces the value of an earlier one with its key.
#[verifier::external_body]
pub(crate) fn close_value(n: ValueNode) -> (r: serde_json::Value)
    ensures
        value_contents(r) == node_contents(n),
{
    match n {
        ValueNode::Null => serde_json::Value::Null,
        ValueNode::Bool(b) => serde_json::Value::Bool(b),
        ValueNode::Number(n) => serde_json::Value::Number(n),
        ValueNode::Text(s) => serde_json::Value::String(s),
        ValueNode::Array(v) => serde_json::Value::Array(v),
        ValueNode::Object(v) => serde_json::Value::Object(v.into_iter().collect()),
    }
}

/// The variants of `serde_json::Value`; the entries of an object come in its own order.
#[verifier::external_body]
pub(crate) fn open_value<'a>(v: &'a serde_json::Value) -> (r: ValueShape<'a>)
    ensures
        shape_contents(r) == value_contents(*v),
{
    match v {
        serde_json::Value::Null => ValueShape::Null,
        serde_json::Value::Bool(b) => ValueShape::Bool(*b),
        serde_json::Value::Number(n) => ValueShape::Number(n),
        serde_json::Value::String(s) => ValueShape::Text(s),
        serde_json::Value::Array(v) => ValueShape::Array(v),
        serde_json::Value::Object(m) => ValueShape::Object(m.iter().collect()),
    }
}

/// The compact JSON text of a value.
pub uninterp spec fn json_text(v: JsonView) -> Seq<char>;

/// The indented JSON text of a value.
pub uninterp spec fn json_pretty(v: JsonView) -> Seq<char>;

/// The value that a JSON text writes, where it writes one.
pub uninterp spec fn json_parse(s: Seq<char>) -> Option<JsonView>;

/// What is reported of a text that is no JSON.
pub uninterp spec fn json_parse_error(s: Seq<char>) -> Seq<char>;

/// `serde_json::Value::to_string`: depends on what the value holds alone.
#[verifier::external_body]
pub(crate) fn value_text(v: &serde_json::Value) -> (r: String)
    ensures
        r@ == json_text(value_contents(*v)),
{
    v.to_string()
}

/// `serde_json::to_string_pretty` on a value: depends on what the value holds alone. A
/// `serde_json::Value` can always be written, so that the call does not fail.
#[verifier::external_body]
pub(crate) fn value_pretty(v: &serde_json::Value) -> (r: String)
    ensures
        r@ == json_pretty(value_contents(*v)),
{
    serde_json::to_string_pretty(v).unwrap_or_default()
}

/// `serde_json::from_str` for a value: both what it reads and what it reports depend on the
/// text alone.
#[verifier::external_body]
pub(crate) fn value_from_text(s: &str) -> (r: Result<serde_json::Value, String>)
    ensures
        match r {
            Ok(v) => json_parse(s@) == Some(value_contents(v)),
            Err(e) => json_parse(s@) is None && e@ == json_parse_error(s@),
        },
{
    serde_json::from_str::<serde_json::Value>(s).map_err(|e| e.to_string())
}

/// The SHA-256 digest of some bytes.
pub uninterp spec fn sha256(bytes: Seq<u8>) -> Seq<u8>;

/// `sha2::Sha256::digest`: 32 bytes that depend on the input alone.
#[verifier::external_body]
pub(crate) fn sha256_digest(bytes: &[u8]) -> (r: Vec<u8>)
    ensures
        r@ == sha256(bytes@),
        r@.len() == 32,
{
    <sha2::Sha256 as sha2::Digest>::digest(bytes).to_vec()
}

/// What a group of a pattern holds at the first match of the pattern in a text: nothing where
/// the pattern is not one, does not match, or its group takes no part in the match.
pub uninterp spec fn regex_group(pattern: Seq<char>, text: Seq<char>, group: nat) -> Option<
    Seq<char>,
>;

/// `regex::Regex::captures`, and the text of one group.
#[verifier::external_body]
pub(crate) fn capture_group(pattern: &str, text: &str, group: usize) -> (r: Option<String>)
    ensures
        match r {
            Some(s) => regex_group(pattern@, text@, group as nat) == Some(s@),
            None => regex_group(pattern@, text@, group as nat) is None,
        },
{
    let matched = regex::Regex::new(pattern).ok()?;
    matched.captures(text)?.get(group).map(|m| m.as_str().to_owned())
}

/// A text with every match of a pattern replaced: nothing where the pattern is not one.
pub uninterp spec fn regex_replaced(
    pattern: Seq<char>,
    text: Seq<char>,
    replacement: Seq<char>,
) -> Option<Seq<char>>;

/// `regex::Regex::replace_all` with a replacement text.
#[verifier::external_body]
pub(crate) fn replace_matches(pattern: &str, text: &str, replacement: &str) -> (r: Option<String>)
    ensures
        match r {
            Some(s) => regex_replaced(pattern@, text@, replacement@) == Some(s@),
            None => regex_replaced(pattern@, text@, replacement@) is None,
        },
{
    let matched = regex::Regex::new(pattern).ok()?;
    Some(matched.replace_all(text, replacement).into_owned())
}

/// `String::push` appends one character.
pub assume_specification[ String::push ](s: &mut String, c: char)
    ensures
        final(s)@ == old(s)@.push(c),
;

/// Whether a text is made of ASCII characters.
pub open spec fn is_ascii(s: Seq<char>) -> bool {
    forall|i: int| 0 <= i < s.len() ==> #[trigger] s[i] as u32 <= 127
}

/// The lower-case form of a text, under the Unicode mapping `str::to_lowercase` applies.
pub uninterp spec fn unicode_lowercase(s: Seq<char>) -> Seq<char>;

/// `str::to_lowercase`: its result depends on the text alone, and for an ASCII text it is that
/// text with its letters in small.
#[verifier::external_body]
pub(crate) fn lowercase(s: &str) -> (r: String)
    ensures
        r@ == unicode_lowercase(s@),
        is_ascii(s@) ==> r@ == ascii_lower(s@),
{
    s.to_lowercase()
}

/// Whether `char::is_alphanumeric` holds of a character.
pub uninterp spec fn unicode_alphanumeric(c: char) -> bool;

/// `char::is_alphanumeric`: Unicode's alphabetic and numeric properties of one character. An ASCII
/// character has one of them where it is an ASCII letter or digit.
#[verifier::external_body]
pub(crate) fn is_alphanumeric(c: char) -> (r: bool)
    ensures
        r == unicode_alphanumeric(c),
        c as u32 <= 127 ==> r == is_ascii_alnum(c),
{
    c.is_alphanumeric()
}

/// The text that `String::from_utf8_lossy` reads out of some bytes.
pub uninterp spec fn utf8_lossy(bytes: Seq<u8>) -> Seq<char>;

/// `String::from_utf8_lossy`: valid UTF-8 is decoded, everything else replaced.
#[verifier::external_body]
pub(crate) fn decode_lossy(bytes: &[u8]) -> (r: String)
    ensures
        r@ == utf8_lossy(bytes@),
        forall|t: Seq<char>| bytes@ == #[trigger] encode_utf8(t) ==> r@ == t,
{
    String::from_utf8_lossy(bytes).into_owned()
}

/// A text quoted and escaped as Rust's debug format writes it.
pub uninterp spec fn debug_quoted(s: Seq<char>) -> Seq<char>;

/// `format!` with `{:?}` on a text: depends on the text alone.
#[verifier::external_body]
pub(crate) fn debug_text(s: &str) -> (r: String)
    ensures
        r@ == debug_quoted(s@),
{
    format!("{:?}", s)
}

/// `SystemTime::elapsed` since the epoch, in nanoseconds. It depends on the clock, so nothing is
/// promised of it.
#[verifier::external_body]
pub(crate) fn clock_nanos() -> (r: u64) {
    std::time::UNIX_EPOCH.elapsed().unwrap_or_default().as_nanos() as u64
}

/// `BuildHasher::hash_one` with a fresh `RandomState`, which each process seeds anew. Nothing is
/// promised of what it returns.
#[verifier::external_body]
pub(crate) fn seeded_hash(value: u64) -> (r: u64) {
    std::hash::BuildHasher::hash_one(&std::collections::hash_map::RandomState::new(), value)
}

} // verus!
