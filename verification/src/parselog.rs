//! What the front end said while it parsed: the warnings of the boot log, by category.

use crate::json::{lemma_take_next, models, Json, JsonView};
use crate::order::{insert_keyed, insert_text, insert_unique, keys, place_behind, sorted_unique};
use crate::outside::{decode_lossy, utf8_lossy};
use crate::paths::{join_path, joined};
use crate::text::{
    char_from, char_from_chars, chars_of, decimal, is_digit, is_white, lemma_char_from, lines,
    lines_spec, opt_string, owned, parse_u64, rsplit_once, rsplit_once_spec, same, split_once,
    split_once_spec, stands_at, stands_at_chars, text_between, texts, trim, trim_end_char,
    trim_end_char_spec, trim_spec, white,
};
use crate::wpout::{first_bytes, read_number};
use vstd::prelude::*;
use vstd::string::*;
use vstd::utf8::*;

verus! {

/// The category of assembly whose effects the front end dropped.
pub const ASM_CLOBBER: &'static str = "kernel:asm:clobber";

/// The category of attributes that the front end ignored.
pub const ATTRS_UNKNOWN: &'static str = "kernel:attrs:unknown";

/// What precedes the name of an ignored attribute.
pub const ATTRIBUTE_PREFIX: &'static str = "Ignoring unknown attribute:";

/// The most locations that are shown of one category.
pub const AST_DIAGNOSTIC_SAMPLE: usize = 20;

// ---------------------------------------------------------------------------
// One line
// ---------------------------------------------------------------------------

/// Whether white space stands at a position of a text.
pub open spec fn white_at(s: Seq<char>, i: int) -> bool {
    is_white(s[i])
}

/// Whether some white space stands between two positions.
pub open spec fn white_between(s: Seq<char>, from: int, to: int) -> bool {
    exists|i: int| from <= i < to && white_at(s, i)
}

/// Whether a tag opens at `open`: a bracketed group that is a field of its own, holds a colon, and
/// holds no white space.
pub open spec fn tag_at(head: Seq<char>, open: int) -> bool {
    let close = char_from(head, ']', open);
    &&& 0 <= open < head.len()
    &&& head[open] == '['
    &&& close < head.len()
    &&& open == 0 || is_white(head[open - 1])
    &&& close + 1 == head.len() || is_white(head[close + 1])
    &&& char_from(head, ':', open) < close
    &&& !white_between(head, open, close)
}

/// Where the first tag from `from` on opens and closes.
pub open spec fn tag_from(head: Seq<char>, from: int) -> Option<(int, int)>
    decreases head.len() - from,
{
    if from < 0 || from >= head.len() {
        None
    } else if tag_at(head, from) {
        Some((from, char_from(head, ']', from)))
    } else {
        tag_from(head, from + 1)
    }
}

/// Where the first tag of a text opens and closes, among its characters.
fn tag_places(head: &[char]) -> (r: Option<(usize, usize)>)
    ensures
        match r {
            Some((o, c)) => tag_from(head@, 0) == Some((o as int, c as int)) && o < c < head@.len(),
            None => tag_from(head@, 0) is None,
        },
{
    let mut from: usize = 0;
    while from < head.len()
        invariant
            from <= head@.len(),
            tag_from(head@, 0) == tag_from(head@, from as int),
        decreases head@.len() - from,
    {
        if head[from] == '[' {
            let close = char_from_chars(head, ']', from);
            let colon = char_from_chars(head, ':', from);
            let mut spaced: bool = false;
            let mut k: usize = from;
            while k < close
                invariant
                    from <= k <= close <= head@.len(),
                    spaced == white_between(head@, from as int, k as int),
                decreases close - k,
            {
                if white(head[k]) {
                    assert(white_at(head@, k as int));
                    spaced = true;
                }
                proof {
                    assert forall|i: int| from <= i < k + 1 && white_at(head@, i) implies spaced by {
                        if i == k {
                        } else {
                            assert(white_between(head@, from as int, k as int));
                        }
                    }
                    if white_between(head@, from as int, k as int) {
                        let w = choose|i: int| from <= i < k && white_at(head@, i);
                        assert(from <= w < k + 1 && white_at(head@, w));
                    }
                }
                k = k + 1;
            }
            if close < head.len() && (from == 0 || white(head[from - 1])) && (close + 1
                == head.len() || white(head[close + 1])) && colon < close && !spaced {
                assert(tag_at(head@, from as int));
                return Some((from, close));
            }
        }
        assert(!tag_at(head@, from as int));
        from = from + 1;
    }
    None
}

/// How many bytes the characters before `i` take.
pub open spec fn byte_offset(s: Seq<char>, i: int) -> int {
    encode_utf8(s.subrange(0, i)).len() as int
}

/// The byte offsets of the brackets around the first tag of a text.
pub fn tag_bounds(head: &str) -> (r: Option<(usize, usize)>)
    ensures
        match r {
            Some((o, c)) => match tag_from(head@, 0) {
                Some((open, close)) => {
                    &&& o == byte_offset(head@, open)
                    &&& c == byte_offset(head@, close)
                },
                None => false,
            },
            None => tag_from(head@, 0) is None,
        },
{
    let cs = chars_of(head);
    match tag_places(&cs) {
        Some((open, close)) => {
            let before = text_between(&cs, 0, open);
            let inside = text_between(&cs, 0, close);
            Some((before.as_str().as_bytes().len(), inside.as_str().as_bytes().len()))
        },
        None => None,
    }
}

proof fn lemma_encoded_in_two(a: Seq<char>, b: Seq<char>)
    ensures
        encode_utf8(a + b) == encode_utf8(a) + encode_utf8(b),
    decreases a.len(),
{
    if a.len() == 0 {
        assert(a + b =~= b);
        assert(encode_utf8(a + b) =~= encode_utf8(a) + encode_utf8(b));
    } else {
        assert((a + b).drop_first() =~= a.drop_first() + b);
        lemma_encoded_in_two(a.drop_first(), b);
        assert(encode_utf8(a + b) =~= encode_utf8(a) + encode_utf8(b));
    }
}

proof fn lemma_byte_range(s: Seq<char>, i: int, j: int)
    requires
        0 <= i <= j <= s.len(),
    ensures
        0 <= byte_offset(s, i) <= byte_offset(s, j) <= encode_utf8(s).len(),
        encode_utf8(s).subrange(byte_offset(s, i), byte_offset(s, j)) == encode_utf8(
            s.subrange(i, j),
        ),
{
    let a = s.subrange(0, i);
    let b = s.subrange(i, j);
    let c = s.subrange(j, s.len() as int);
    assert(s.subrange(0, j) =~= a + b);
    assert(s =~= (a + b) + c);
    lemma_encoded_in_two(a, b);
    lemma_encoded_in_two(a + b, c);
    assert(encode_utf8(s).subrange(byte_offset(s, i), byte_offset(s, j)) =~= encode_utf8(b));
}

proof fn lemma_tag_from(head: Seq<char>, from: int)
    requires
        0 <= from,
        tag_from(head, from) is Some,
    ensures
        ({
            let (open, close) = tag_from(head, from)->0;
            &&& from <= open < close < head.len()
            &&& tag_at(head, open)
            &&& close == char_from(head, ']', open)
        }),
    decreases head.len() - from,
{
    if tag_at(head, from) {
        lemma_char_from(head, ']', from);
        lemma_char_from(head, ':', from);
    } else {
        lemma_tag_from(head, from + 1);
    }
}

/// Between the byte offsets of the brackets stand the bytes of the tag, and at them the brackets.
pub proof fn law_the_bytes_between_are_the_tag(head: Seq<char>)
    requires
        tag_from(head, 0) is Some,
    ensures
        ({
            let (open, close) = tag_from(head, 0)->0;
            let (o, c) = (byte_offset(head, open), byte_offset(head, close));
            let bytes = encode_utf8(head);
            &&& 0 <= o < c < bytes.len()
            &&& bytes[o] == '[' as u8
            &&& bytes[c] == ']' as u8
            &&& bytes.subrange(o + 1, c) == encode_utf8(head.subrange(open + 1, close))
        }),
{
    lemma_tag_from(head, 0);
    let (open, close) = tag_from(head, 0)->0;
    lemma_char_from(head, ']', open);
    assert(head[open] == '[');
    assert(head[close] == ']');
    lemma_byte_range(head, open, open + 1);
    lemma_byte_range(head, open + 1, close);
    lemma_byte_range(head, close, close + 1);
    lemma_one_byte(head.subrange(open, open + 1));
    lemma_one_byte(head.subrange(close, close + 1));
    let bytes = encode_utf8(head);
    let (o, c) = (byte_offset(head, open), byte_offset(head, close));
    assert(byte_offset(head, open + 1) == o + 1) by {
        assert(bytes.subrange(o, byte_offset(head, open + 1)).len() == 1);
    }
    assert(bytes.subrange(o, o + 1)[0] == bytes[o]);
    assert(byte_offset(head, close + 1) == c + 1) by {
        assert(bytes.subrange(c, byte_offset(head, close + 1)).len() == 1);
    }
    assert(bytes.subrange(c, c + 1)[0] == bytes[c]);
}

proof fn lemma_one_byte(s: Seq<char>)
    requires
        s.len() == 1,
        '\0' <= s[0] <= '\u{7f}',
    ensures
        encode_utf8(s) == seq![s[0] as u8],
{
    is_ascii_chars_encode_utf8(s);
    assert(encode_utf8(s) =~= seq![s[0] as u8]);
}

/// Whether the word that marks a warning stands at `i`, with a tag before it.
pub open spec fn warning_at(line: Seq<char>, i: int) -> bool {
    stands_at(line, "Warning:"@, i) && tag_from(line.subrange(0, i), 0) is Some
}

/// The first position from `from` on at which a warning is marked.
pub open spec fn warning_from(line: Seq<char>, from: int) -> Option<int>
    decreases line.len() - from,
{
    if from < 0 || from >= line.len() {
        None
    } else if warning_at(line, from) {
        Some(from)
    } else {
        warning_from(line, from + 1)
    }
}

/// A location without what surrounds it.
pub open spec fn bare(s: Seq<char>) -> Seq<char> {
    trim_spec(trim_end_char_spec(trim_spec(s), ':'))
}

/// A location without what surrounds it.
pub fn bare_text(s: &str) -> (r: String)
    ensures
        r@ == bare(s@),
{
    trim(trim_end_char(trim(s).as_str(), ':').as_str())
}

/// The category and the location of a warning line: the first warning that has a tag before it,
/// and the location on whichever side of the tag it was printed.
pub open spec fn warning_fields(line: Seq<char>) -> Option<(Seq<char>, Seq<char>)> {
    match warning_from(line, 0) {
        Some(at) => {
            let head = line.subrange(0, at);
            let (open, close) = tag_from(head, 0)->0;
            let before = bare(head.subrange(0, open));
            let after = bare(head.subrange(close + 1, head.len() as int));
            Some(
                (
                    head.subrange(open + 1, close),
                    if before.len() == 0 {
                        after
                    } else {
                        before
                    },
                ),
            )
        },
        None => None,
    }
}

/// The category and the unparsed location of one warning line, or `None` when the line is none.
/// A path may hold the word that marks a warning, and so may the message, so the mark is the
/// first with a tag before it.
pub fn warning_line_fields(line: &str) -> (r: Option<(String, String)>)
    ensures
        crate::text::opt_pair(r) == warning_fields(line@),
{
    let cs = chars_of(line);
    let word = chars_of("Warning:");
    let mut at: usize = 0;
    while at < cs.len()
        invariant
            cs@ == line@,
            word@ == "Warning:"@,
            at <= cs@.len(),
            warning_from(line@, 0) == warning_from(line@, at as int),
        decreases cs@.len() - at,
    {
        if stands_at_chars(&cs, &word, at) {
            let head_text = text_between(&cs, 0, at);
            let head = chars_of(head_text.as_str());
            match tag_places(&head) {
                Some((open, close)) => {
                    assert(warning_at(line@, at as int));
                    let before = bare_text(text_between(&head, 0, open).as_str());
                    let after = bare_text(text_between(&head, close + 1, head.len()).as_str());
                    let source = if before.as_str().is_empty() {
                        after
                    } else {
                        before
                    };
                    return Some((text_between(&head, open + 1, close), source));
                },
                None => {},
            }
        }
        at = at + 1;
    }
    None
}

/// A text without its trailing number, and that number.
pub open spec fn trailing(source: Seq<char>) -> Option<(Seq<char>, int)> {
    match rsplit_once_spec(source, ":"@) {
        Some((head, last)) => match read_number(last) {
            Some(n) => Some((head, n)),
            None => None,
        },
        None => None,
    }
}

/// The text without its trailing ":<number>" field, and that number.
pub fn trailing_number(source: &str) -> (r: Option<(String, u64)>)
    ensures
        match r {
            Some((h, n)) => trailing(source@) == Some((h@, n as int)),
            None => trailing(source@) is None,
        },
{
    match rsplit_once(source, ":") {
        Some((head, last)) => match parse_u64(last.as_str()) {
            Some(n) => Some((head, n)),
            None => None,
        },
        None => None,
    }
}

/// A printed location, resolved against a directory: a path, a path and a line, or a path, a line
/// and a column. A trailing field that is no number belongs to the path.
pub open spec fn location(source: Seq<char>, cwd: Seq<char>) -> JsonView {
    let s = bare(source);
    if s.len() == 0 {
        JsonView::object().with("unresolved"@, JsonView::Bool(true))
    } else {
        let (path, line, column) = match trailing(s) {
            None => (s, None, None),
            Some((head, last)) => match trailing(head) {
                Some((h, line)) => (h, Some(line), Some(last)),
                None => (head, Some(last), None),
            },
        };
        JsonView::object().with("file"@, JsonView::Str(joined(cwd, path))).with(
            "line"@,
            JsonView::opt_int(line),
        ).with("column"@, JsonView::opt_int(column))
    }
}

/// A printed location, resolved against a directory.
pub fn log_location(source: &str, cwd: &str) -> (r: Json)
    ensures
        r@ == location(source@, cwd@),
{
    let s = bare_text(source);
    if s.as_str().is_empty() {
        return Json::object().with("unresolved", Json::Bool(true));
    }
    let (path, line, column): (String, Option<u64>, Option<u64>) = match trailing_number(
        s.as_str(),
    ) {
        None => (s, None, None),
        Some((head, last)) => match trailing_number(head.as_str()) {
            Some((h, n)) => (h, Some(n), Some(last)),
            None => (head, Some(last), None),
        },
    };
    Json::object().with("file", Json::Str(join_path(cwd, path.as_str()))).with(
        "line",
        Json::opt_num(line),
    ).with("column", Json::opt_num(column))
}

// ---------------------------------------------------------------------------
// All lines
// ---------------------------------------------------------------------------

/// The category of a line that warns, or nothing.
pub open spec fn category_of(line: Seq<char>) -> Seq<char> {
    match warning_fields(line) {
        Some((category, _)) => category,
        None => Seq::empty(),
    }
}

/// The printed location of a line that warns, or nothing.
pub open spec fn source_of(line: Seq<char>) -> Seq<char> {
    match warning_fields(line) {
        Some((_, source)) => source,
        None => Seq::empty(),
    }
}

/// Whether a line warns under another category than that of attributes.
pub open spec fn plain_warning(line: Seq<char>) -> bool {
    warning_fields(line) is Some && category_of(line) != ATTRS_UNKNOWN@
}

/// The categories of some lines, those of attributes aside.
pub open spec fn plain_categories(ls: Seq<Seq<char>>) -> Seq<Seq<char>>
    decreases ls.len(),
{
    if ls.len() == 0 {
        Seq::empty()
    } else if plain_warning(ls.last()) {
        plain_categories(ls.drop_last()).push(category_of(ls.last()))
    } else {
        plain_categories(ls.drop_last())
    }
}

/// The locations of the warnings of a category.
pub open spec fn sites(ls: Seq<Seq<char>>, category: Seq<char>) -> Seq<Seq<char>>
    decreases ls.len(),
{
    if ls.len() == 0 {
        Seq::empty()
    } else if plain_warning(ls.last()) && category_of(ls.last()) == category {
        sites(ls.drop_last(), category).push(source_of(ls.last()))
    } else {
        sites(ls.drop_last(), category)
    }
}

/// What has been read of ignored attributes: each name with the location it was first seen at, in
/// the order of the names, and the location of a warning whose name is still to come.
pub struct AttributesView {
    pub names: Seq<(Seq<char>, Seq<char>)>,
    pub pending: Option<Seq<char>>,
}

/// Whether a name is among some attributes.
pub open spec fn has_name(names: Seq<(Seq<char>, Seq<char>)>, name: Seq<char>) -> bool {
    exists|i: int| 0 <= i < names.len() && (#[trigger] names[i]).0 == name
}

/// Attributes with one more, where its name is new.
pub open spec fn add_name(
    names: Seq<(Seq<char>, Seq<char>)>,
    name: Seq<char>,
    source: Seq<char>,
) -> Seq<(Seq<char>, Seq<char>)> {
    if has_name(names, name) {
        names
    } else {
        insert_keyed(names, name, source)
    }
}

/// What one more line says of ignored attributes. The name stands on the line of the warning or,
/// where that line is too long, on the next; any other warning ends the wait for it.
pub open spec fn attributes_step(s: AttributesView, line: Seq<char>) -> AttributesView {
    let named = split_once_spec(line, ATTRIBUTE_PREFIX@);
    match warning_fields(line) {
        Some((category, source)) => if category == ATTRS_UNKNOWN@ {
            match named {
                Some((_, name)) => AttributesView {
                    names: add_name(s.names, trim_spec(name), source),
                    pending: None,
                },
                None => AttributesView { pending: Some(source), ..s },
            }
        } else {
            AttributesView { pending: None, ..s }
        },
        None => match named {
            Some((_, name)) => AttributesView {
                names: add_name(
                    s.names,
                    trim_spec(name),
                    match s.pending {
                        Some(p) => p,
                        None => ""@,
                    },
                ),
                pending: None,
            },
            None => s,
        },
    }
}

/// What some lines say of ignored attributes.
pub open spec fn attributes(ls: Seq<Seq<char>>) -> AttributesView
    decreases ls.len(),
{
    if ls.len() == 0 {
        AttributesView { names: Seq::empty(), pending: None }
    } else {
        attributes_step(attributes(ls.drop_last()), ls.last())
    }
}

/// The first `n` elements, or all of them.
pub open spec fn sample<T>(s: Seq<T>, n: int) -> Seq<T> {
    if s.len() <= n {
        s
    } else {
        s.subrange(0, n)
    }
}

/// How a category is reported: its count in full, and a sample of its locations.
pub open spec fn category_entry(count: int, unit: Seq<char>, locations: Seq<JsonView>) -> JsonView {
    JsonView::object().with("count"@, JsonView::num(count)).with(
        "count_unit"@,
        JsonView::Str(unit),
    ).with("locations_omitted"@, JsonView::num(count - locations.len())).with(
        "locations"@,
        JsonView::Array(locations),
    )
}

/// The sample of the locations of a category.
pub open spec fn site_locations(found: Seq<Seq<char>>, cwd: Seq<char>) -> Seq<JsonView> {
    sample(found, AST_DIAGNOSTIC_SAMPLE as int).map_values(|s: Seq<char>| location(s, cwd))
}

/// An attribute and where it was first seen.
pub open spec fn attribute_location(e: (Seq<char>, Seq<char>), cwd: Seq<char>) -> JsonView {
    JsonView::object().with("attribute"@, JsonView::Str(e.0)).with(
        "location"@,
        location(e.1, cwd),
    )
}

/// The sample of the attributes.
pub open spec fn attribute_locations(names: Seq<(Seq<char>, Seq<char>)>, cwd: Seq<char>) -> Seq<
    JsonView,
> {
    sample(names, AST_DIAGNOSTIC_SAMPLE as int).map_values(
        |e: (Seq<char>, Seq<char>)| attribute_location(e, cwd),
    )
}

/// How a category of some lines is reported.
pub open spec fn entry_of(ls: Seq<Seq<char>>, category: Seq<char>, cwd: Seq<char>) -> JsonView {
    if category == ATTRS_UNKNOWN@ {
        let names = attributes(ls).names;
        category_entry(
            names.len() as int,
            "distinct_attribute_names"@,
            attribute_locations(names, cwd),
        )
    } else {
        let found = sites(ls, category);
        category_entry(found.len() as int, "sites"@, site_locations(found, cwd))
    }
}

/// The categories of some lines, in order. The two that a dropped soundness assumption arrives
/// under are always among them.
pub open spec fn category_names(ls: Seq<Seq<char>>) -> Seq<Seq<char>> {
    sorted_unique(plain_categories(ls).push(ASM_CLOBBER@).push(ATTRS_UNKNOWN@))
}

/// How some categories are reported.
pub open spec fn category_object(
    names: Seq<Seq<char>>,
    ls: Seq<Seq<char>>,
    cwd: Seq<char>,
) -> JsonView
    decreases names.len(),
{
    if names.len() == 0 {
        JsonView::object()
    } else {
        category_object(names.drop_last(), ls, cwd).with(
            names.last(),
            entry_of(ls, names.last(), cwd),
        )
    }
}

/// How the warnings of a log are reported.
pub open spec fn diagnostics(text: Seq<char>, cwd: Seq<char>) -> JsonView {
    let ls = lines_spec(text);
    JsonView::object().with("categories"@, category_object(category_names(ls), ls, cwd))
}

/// The ignored attributes behind some entries.
pub open spec fn name_pairs(v: Seq<(String, String)>) -> Seq<(Seq<char>, Seq<char>)> {
    v.map_values(|e: (String, String)| (e.0@, e.1@))
}

fn add_attribute(names: &mut Vec<(String, String)>, name: String, source: String)
    ensures
        name_pairs(final(names)@) == add_name(name_pairs(old(names)@), name@, source@),
{
    let ghost s = name_pairs(names@);
    let mut i: usize = 0;
    while i < names.len()
        invariant
            names@ == old(names)@,
            i <= names@.len(),
            s == name_pairs(names@),
            forall|k: int| 0 <= k < i ==> (#[trigger] s[k]).0 != name@,
        decreases names@.len() - i,
    {
        assert(s[i as int] == (names@[i as int].0@, names@[i as int].1@));
        if same(names[i].0.as_str(), name.as_str()) {
            assert(has_name(s, name@));
            return ;
        }
        i = i + 1;
    }
    assert(!has_name(s, name@));
    let at = place_behind(names, name.as_str());
    assert(keys(names@) =~= s.map_values(|e: (Seq<char>, Seq<char>)| e.0));
    names.insert(at, (name, source));
    assert(name_pairs(names@) =~= s.insert(at as int, (name@, source@)));
}

fn step_attributes(
    names: &mut Vec<(String, String)>,
    pending: &mut Option<String>,
    line: &str,
    fields: &Option<(String, String)>,
)
    requires
        crate::text::opt_pair(*fields) == warning_fields(line@),
    ensures
        (AttributesView {
            names: name_pairs(final(names)@),
            pending: opt_string(*final(pending)),
        }) == attributes_step(
            AttributesView {
                names: name_pairs(old(names)@),
                pending: opt_string(*old(pending)),
            },
            line@,
        ),
{
    let named = split_once(line, ATTRIBUTE_PREFIX);
    match fields {
        Some((category, source)) => {
            if same(category.as_str(), ATTRS_UNKNOWN) {
                match named {
                    Some((_, name)) => {
                        add_attribute(names, trim(name.as_str()), owned(source.as_str()));
                        *pending = None;
                    },
                    None => {
                        *pending = Some(owned(source.as_str()));
                    },
                }
            } else {
                *pending = None;
            }
        },
        None => {
            match named {
                Some((_, name)) => {
                    let source = match &*pending {
                        Some(p) => owned(p.as_str()),
                        None => owned(""),
                    };
                    add_attribute(names, trim(name.as_str()), source);
                    *pending = None;
                },
                None => {},
            }
        },
    }
}

fn site_entry(ls: &Vec<String>, category: &str, cwd: &str) -> (r: Json)
    requires
        category@ != ATTRS_UNKNOWN@,
    ensures
        r@ == entry_of(texts(ls@), category@, cwd@),
{
    let ghost all = texts(ls@);
    let mut count: u64 = 0;
    let mut shown: Vec<Json> = Vec::new();
    let mut i: usize = 0;
    proof {
        assert(sites(all.subrange(0, 0), category@) =~= Seq::empty());
        assert(models(shown@) =~= site_locations(Seq::empty(), cwd@));
    }
    while i < ls.len()
        invariant
            i <= ls@.len(),
            all == texts(ls@),
            category@ != ATTRS_UNKNOWN@,
            count <= i,
            count == sites(all.subrange(0, i as int), category@).len(),
            models(shown@) == site_locations(sites(all.subrange(0, i as int), category@), cwd@),
        decreases ls@.len() - i,
    {
        proof {
            lemma_take_next(all, i as int);
        }
        let ghost found = sites(all.subrange(0, i as int), category@);
        match warning_line_fields(ls[i].as_str()) {
            Some((c, source)) => {
                if same(c.as_str(), category) {
                    proof {
                        assert(plain_warning(all[i as int]));
                        assert(models(shown@).len() == shown@.len());
                    }
                    count = count + 1;
                    if shown.len() < AST_DIAGNOSTIC_SAMPLE {
                        let l = log_location(source.as_str(), cwd);
                        proof {
                            crate::json::lemma_models_push(shown@, l);
                        }
                        shown.push(l);
                        assert(models(shown@) =~= site_locations(found.push(source@), cwd@));
                    } else {
                        assert(site_locations(found.push(source@), cwd@) =~= site_locations(
                            found,
                            cwd@,
                        ));
                    }
                }
            },
            None => {},
        }
        i = i + 1;
    }
    assert(all.subrange(0, i as int) =~= all);
    assert(models(shown@).len() == shown@.len());
    Json::object().with("count", Json::num(count)).with("count_unit", Json::str("sites")).with(
        "locations_omitted",
        Json::num(count - shown.len() as u64),
    ).with("locations", Json::array(shown))
}

fn attribute_entry(ls: &Vec<String>, cwd: &str) -> (r: Json)
    ensures
        r@ == entry_of(texts(ls@), ATTRS_UNKNOWN@, cwd@),
{
    let ghost all = texts(ls@);
    let mut names: Vec<(String, String)> = Vec::new();
    let mut pending: Option<String> = None;
    let mut i: usize = 0;
    assert(name_pairs(names@) =~= Seq::empty());
    assert(all.subrange(0, 0) =~= Seq::empty());
    while i < ls.len()
        invariant
            i <= ls@.len(),
            all == texts(ls@),
            attributes(all.subrange(0, i as int)) == (AttributesView {
                names: name_pairs(names@),
                pending: opt_string(pending),
            }),
        decreases ls@.len() - i,
    {
        proof {
            lemma_take_next(all, i as int);
        }
        let fields = warning_line_fields(ls[i].as_str());
        step_attributes(&mut names, &mut pending, ls[i].as_str(), &fields);
        i = i + 1;
    }
    assert(all.subrange(0, i as int) =~= all);
    let ghost found = name_pairs(names@);
    let mut shown: Vec<Json> = Vec::new();
    let mut k: usize = 0;
    while k < names.len() && k < AST_DIAGNOSTIC_SAMPLE
        invariant
            k <= names@.len(),
            k <= AST_DIAGNOSTIC_SAMPLE,
            found == name_pairs(names@),
            shown@.len() == k,
            forall|j: int| 0 <= j < k ==> (#[trigger] shown@[j])@ == attribute_location(found[j], cwd@),
        decreases names@.len() - k,
    {
        shown.push(
            Json::object().with("attribute", Json::str(names[k].0.as_str())).with(
                "location",
                log_location(names[k].1.as_str(), cwd),
            ),
        );
        k = k + 1;
    }
    assert(models(shown@) =~= attribute_locations(found, cwd@));
    Json::object().with("count", Json::num(names.len() as u64)).with(
        "count_unit",
        Json::str("distinct_attribute_names"),
    ).with("locations_omitted", Json::num((names.len() - shown.len()) as u64)).with(
        "locations",
        Json::array(shown),
    )
}

fn categories_of(ls: &Vec<String>) -> (r: Vec<String>)
    ensures
        texts(r@) == category_names(texts(ls@)),
{
    let ghost all = texts(ls@);
    let mut out: Vec<String> = Vec::new();
    let mut i: usize = 0;
    assert(texts(out@) =~= Seq::empty());
    while i < ls.len()
        invariant
            i <= ls@.len(),
            all == texts(ls@),
            texts(out@) == sorted_unique(plain_categories(all.subrange(0, i as int))),
        decreases ls@.len() - i,
    {
        proof {
            lemma_take_next(all, i as int);
        }
        let ghost before = plain_categories(all.subrange(0, i as int));
        match warning_line_fields(ls[i].as_str()) {
            Some((c, _)) => {
                if !same(c.as_str(), ATTRS_UNKNOWN) {
                    assert(before.push(c@).drop_last() =~= before);
                    insert_text(&mut out, c);
                }
            },
            None => {},
        }
        i = i + 1;
    }
    assert(all.subrange(0, i as int) =~= all);
    proof {
        let p = plain_categories(all);
        assert(p.push(ASM_CLOBBER@).drop_last() =~= p);
        assert(p.push(ASM_CLOBBER@).push(ATTRS_UNKNOWN@).drop_last() =~= p.push(ASM_CLOBBER@));
        assert(sorted_unique(p.push(ASM_CLOBBER@)) == insert_unique(
            sorted_unique(p),
            ASM_CLOBBER@,
        ));
    }
    insert_text(&mut out, owned(ASM_CLOBBER));
    insert_text(&mut out, owned(ATTRS_UNKNOWN));
    out
}

/// How the warnings of a log's text are reported.
pub fn parse_diagnostics_of_text(text: &str, cwd: &str) -> (r: Json)
    ensures
        r@ == diagnostics(text@, cwd@),
{
    let ls = lines(text);
    let names = categories_of(&ls);
    let ghost all = texts(names@);
    let mut out = Json::object();
    let mut i: usize = 0;
    assert(all.subrange(0, 0) =~= Seq::empty());
    while i < names.len()
        invariant
            i <= names@.len(),
            all == texts(names@),
            out@ == category_object(all.subrange(0, i as int), texts(ls@), cwd@),
        decreases names@.len() - i,
    {
        proof {
            lemma_take_next(all, i as int);
        }
        let name = names[i].as_str();
        let entry = if same(name, ATTRS_UNKNOWN) {
            attribute_entry(&ls, cwd)
        } else {
            site_entry(&ls, name, cwd)
        };
        out.insert(name, entry);
        i = i + 1;
    }
    assert(all.subrange(0, i as int) =~= all);
    Json::object().with("categories", out)
}

/// The bytes of a log up to an offset.
pub open spec fn window(log: Seq<u8>, end: int) -> Seq<u8> {
    first_bytes(log, end)
}

/// Summarizes the warnings of the log that built the current syntax tree: counted in full, and
/// sampled up to a cap. The two categories of a dropped soundness assumption are present with a
/// zero count rather than absent.
pub fn ast_parse_diagnostics(log: &[u8], end: u64, cwd: &str) -> (r: Json)
    ensures
        r@ == diagnostics(utf8_lossy(window(log@, end as int)), cwd@),
{
    let text = if (end as u128) < (log.len() as u128) {
        decode_lossy(vstd::slice::slice_subrange(log, 0, end as usize))
    } else {
        decode_lossy(log)
    };
    parse_diagnostics_of_text(text.as_str(), cwd)
}

/// The record of a parse when there is none.
pub open spec fn no_parse_log(reason: Seq<char>) -> JsonView {
    JsonView::object().with("unavailable"@, JsonView::Str(reason)).with(
        "categories"@,
        JsonView::object(),
    )
}

/// The record of a parse when there is none. No categories: a zero would say that the front end
/// dropped nothing, which is exactly what has not been established.
pub fn parse_log_unavailable(reason: &str) -> (r: Json)
    ensures
        r@ == no_parse_log(reason@),
{
    Json::object().with("unavailable", Json::str(reason)).with("categories", Json::object())
}

/// The record for a spawn log that could not be read.
pub fn unreadable_parse_log(path: &str, error: &str) -> (r: Json)
    ensures
        r@ == no_parse_log("cannot read the Frama-C stdout log at "@ + path@ + ": "@ + error@),
{
    let reason = crate::text::cat4("cannot read the Frama-C stdout log at ", path, ": ", error);
    parse_log_unavailable(reason.as_str())
}

/// The two categories of a dropped soundness assumption are always reported.
pub proof fn law_soundness_categories_are_reported(ls: Seq<Seq<char>>)
    ensures
        category_names(ls).contains(ASM_CLOBBER@),
        category_names(ls).contains(ATTRS_UNKNOWN@),
{
    let p = plain_categories(ls);
    let all = p.push(ASM_CLOBBER@).push(ATTRS_UNKNOWN@);
    crate::order::law_sorted_unique(all);
    assert(all[p.len() as int] == ASM_CLOBBER@);
    assert(all[p.len() as int + 1] == ATTRS_UNKNOWN@);
    assert(all.contains(ASM_CLOBBER@));
    assert(all.contains(ATTRS_UNKNOWN@));
}

/// No more locations are shown than the cap, and those shown and those omitted make up the count.
pub proof fn law_locations_are_capped(found: Seq<Seq<char>>, cwd: Seq<char>)
    ensures
        site_locations(found, cwd).len() <= AST_DIAGNOSTIC_SAMPLE,
        site_locations(found, cwd).len() <= found.len(),
{
}

// ---------------------------------------------------------------------------
// What is read off a log
// ---------------------------------------------------------------------------

proof fn lemma_no_warning_before(line: Seq<char>, from: int, at: int)
    requires
        0 <= from <= at < line.len(),
        warning_at(line, at),
        forall|k: int| from <= k < at ==> (#[trigger] line[k]) != 'W',
    ensures
        warning_from(line, from) == Some(at),
    decreases at - from,
{
    if from < at {
        reveal_strlit("Warning:");
        if stands_at(line, "Warning:"@, from) {
            assert(line.subrange(from, from + 8)[0] == line[from]);
        }
        lemma_no_warning_before(line, from + 1, at);
    }
}

/// The category of a warning is what stands in the brackets before the word, and its location what
/// stands between them, without the colon behind it.
pub proof fn law_a_warning_tells_its_category_and_place(
    category: Seq<char>,
    place: Seq<char>,
    message: Seq<char>,
)
    requires
        category.contains(':'),
        !category.contains(']'),
        !category.contains('W'),
        !place.contains('W'),
        forall|i: int| 0 <= i < category.len() ==> !is_white(#[trigger] category[i]),
    ensures
        warning_fields("["@ + category + "] "@ + place + "Warning:"@ + message) == Some(
            (category, bare(" "@ + place)),
        ),
{
    reveal_strlit("[");
    reveal_strlit("] ");
    reveal_strlit(" ");
    reveal_strlit("Warning:");
    let head = "["@ + category + "] "@ + place;
    let line = head + "Warning:"@ + message;
    let at = head.len() as int;
    assert(line.subrange(0, at) =~= head);
    assert(line.subrange(at, at + 8) =~= "Warning:"@);
    let close = 1 + category.len() as int;
    assert(head[0] == '[' && head[close] == ']' && head[close + 1] == ' ');
    lemma_char_from(head, ']', 0);
    assert(char_from(head, ']', 0) == close) by {
        assert forall|j: int| 0 <= j < close implies head[j] != ']' by {
            if j > 0 {
                assert(head[j] == category[j - 1]);
                assert(category.contains(category[j - 1]));
            }
        }
    }
    let c = choose|c: int| 0 <= c < category.len() && category[c] == ':';
    assert(head[c + 1] == ':');
    lemma_char_from(head, ':', 0);
    assert(char_from(head, ':', 0) < close);
    assert(!white_between(head, 0, close)) by {
        if white_between(head, 0, close) {
            let w = choose|w: int| 0 <= w < close && white_at(head, w);
            if w > 0 {
                assert(head[w] == category[w - 1]);
            }
        }
    }
    assert(tag_at(head, 0));
    assert(tag_from(head, 0) == Some((0int, close)));
    assert(warning_at(line, at));
    assert forall|k: int| 0 <= k < at implies (#[trigger] line[k]) != 'W' by {
        assert(line[k] == head[k]);
        if 0 < k < close {
            assert(head[k] == category[k - 1]);
            assert(category.contains(category[k - 1]));
        } else if k > close + 1 {
            assert(head[k] == place[k - close - 2]);
            assert(place.contains(place[k - close - 2]));
        }
    }
    lemma_no_warning_before(line, 0, at);
    assert(head.subrange(1, close) =~= category);
    let e = Seq::<char>::empty();
    assert(head.subrange(0, 0) =~= e);
    assert(head.subrange(close + 1, head.len() as int) =~= " "@ + place);
    assert(trim_spec(e) =~= e);
    assert(bare(e) =~= e);
}

/// A location tells the file, below the working directory where it is relative, and the line.
pub proof fn law_a_location_tells_file_and_line(path: Seq<char>, line: nat, cwd: Seq<char>)
    requires
        path.len() > 0,
        !is_white(path[0]),
        !path.contains(':'),
        line <= u64::MAX,
    ensures
        ({
            let l = location(path + ":"@ + decimal(line), cwd);
            &&& l.text("file"@) == Some(joined(cwd, path))
            &&& l.get("line"@) == Some(JsonView::num(line as int))
            &&& l.get("column"@) == Some(JsonView::Null)
        }),
        location(Seq::empty(), cwd).flag("unresolved"@) == Some(true),
{
    broadcast use crate::json::group_object_reads;

    reveal_strlit("file");
    reveal_strlit("line");
    reveal_strlit("column");
    reveal_strlit("unresolved");
    assert("file"@.len() == 4 && "line"@.len() == 4);
    assert("column"@.len() == 6 && "unresolved"@.len() == 10);
    assert("file"@[0] != "line"@[0]);
    reveal_strlit(":");
    let d = decimal(line);
    let s = path + ":"@ + d;
    crate::text::lemma_decimal_digits(line);
    crate::text::lemma_decimal_is_a_word(line);
    let e = Seq::<char>::empty();
    crate::text::law_trimming_takes_the_white_space_around(e, s, e);
    assert(e + s + e =~= s);
    assert(is_digit(d[d.len() - 1]));
    assert(s.last() == d[d.len() - 1]);
    assert(trim_end_char_spec(s, ':') == s);
    let at = path.len() as int;
    assert(s.subrange(at, at + 1) =~= ":"@);
    assert forall|j: int| at < j implies !stands_at(s, ":"@, j) by {
        if stands_at(s, ":"@, j) {
            assert(s.subrange(j, j + 1)[0] == s[j]);
            assert(s[j] == d[j - at - 1]);
            assert(is_digit(d[j - at - 1]));
        }
    }
    crate::text::lemma_last_at(s, ":"@, at);
    assert(s.subrange(0, at) =~= path);
    assert(s.subrange(at + 1, s.len() as int) =~= d);
    crate::text::law_decimal_round_trip(line, u64::MAX as nat);
    if trailing(path) is Some {
        let i = choose|i: int| crate::text::last_at(path, ":"@, i);
        assert(stands_at(path, ":"@, i));
        assert(path.subrange(i, i + 1)[0] == path[i]);
        assert(path.contains(path[i]));
    }
    assert(bare(e) =~= e);
}

/// Each warning of a category adds one to its count and its place to its sites, and leaves the
/// others.
pub proof fn law_each_warning_is_counted_once(
    ls: Seq<Seq<char>>,
    line: Seq<char>,
    category: Seq<char>,
    source: Seq<char>,
    other: Seq<char>,
)
    requires
        category != "kernel:attrs:unknown"@,
    ensures
        warning_fields(line) == Some((category, source)) ==> sites(ls.push(line), category) == sites(
            ls,
            category,
        ).push(source),
        warning_fields(line) == Some((category, source)) && other != category ==> sites(
            ls.push(line),
            other,
        ) == sites(ls, other),
        warning_fields(line) is None ==> sites(ls.push(line), category) == sites(ls, category),
        warning_fields(line) == Some((category, source)) ==> category_names(ls.push(line)).contains(
            category,
        ),
        category_names(ls).contains("kernel:asm:clobber"@),
        category_names(ls).contains("kernel:attrs:unknown"@),
{
    let all = ls.push(line);
    assert(all.drop_last() =~= ls);
    let raw = plain_categories(all).push(ASM_CLOBBER@).push(ATTRS_UNKNOWN@);
    crate::order::law_sorted_unique(raw);
    if warning_fields(line) == Some((category, source)) {
        let n = plain_categories(ls).len() as int;
        assert(raw[n] == category);
        assert(raw.contains(category));
    }
    law_soundness_categories_are_reported(ls);
}

proof fn lemma_category_object(names: Seq<Seq<char>>, ls: Seq<Seq<char>>, cwd: Seq<char>, i: int)
    ensures
        category_object(names, ls, cwd) is Object,
        0 <= i < names.len() ==> category_object(names, ls, cwd).get(names[i]) == Some(
            entry_of(ls, names[i], cwd),
        ),
    decreases names.len(),
{
    broadcast use crate::json::group_object_reads;

    if names.len() > 0 {
        lemma_category_object(names.drop_last(), ls, cwd, i);
        if 0 <= i < names.len() - 1 {
            assert(names.drop_last()[i] == names[i]);
        }
    }
}

/// The record of a parse reports every category under its name, with how many sites it has, the
/// first of them as places, and how many are left out.
pub proof fn law_a_category_reports_its_sites(text: Seq<char>, cwd: Seq<char>, category: Seq<char>)
    requires
        category_names(lines_spec(text)).contains(category),
        category != "kernel:attrs:unknown"@,
    ensures
        ({
            let found = sites(lines_spec(text), category);
            let shown = if found.len() <= 20 {
                found
            } else {
                found.subrange(0, 20)
            };
            match diagnostics(text, cwd).at("categories"@, category) {
                Some(e) => {
                    &&& e.get("count"@) == Some(JsonView::num(found.len() as int))
                    &&& e.text("count_unit"@) == Some("sites"@)
                    &&& e.get("locations_omitted"@) == Some(
                        JsonView::num(found.len() - shown.len()),
                    )
                    &&& e.get("locations"@) == Some(
                        JsonView::Array(shown.map_values(|s: Seq<char>| location(s, cwd))),
                    )
                },
                None => false,
            }
        }),
{
    broadcast use crate::json::group_object_reads;

    reveal_strlit("count");
    reveal_strlit("count_unit");
    reveal_strlit("locations_omitted");
    reveal_strlit("locations");
    assert("count"@.len() == 5 && "count_unit"@.len() == 10);
    assert("locations_omitted"@.len() == 17 && "locations"@.len() == 9);
    let ls = lines_spec(text);
    let names = category_names(ls);
    let i = choose|i: int| 0 <= i < names.len() && names[i] == category;
    lemma_category_object(names, ls, cwd, i);
}

/// The attributes that were ignored are counted by name, each once, with the place of the first.
pub proof fn law_ignored_attributes_are_named_once(
    s: AttributesView,
    line: Seq<char>,
    source: Seq<char>,
    before: Seq<char>,
    name: Seq<char>,
)
    requires
        warning_fields(line) == Some(("kernel:attrs:unknown"@, source)),
        split_once_spec(line, "Ignoring unknown attribute:"@) == Some((before, name)),
    ensures
        has_name(s.names, trim_spec(name)) ==> attributes_step(s, line).names == s.names,
        !has_name(s.names, trim_spec(name)) ==> attributes_step(s, line).names.len() == s.names.len()
            + 1 && attributes_step(s, line).names.contains((trim_spec(name), source)),
        attributes_step(s, line).pending is None,
{
    if !has_name(s.names, trim_spec(name)) {
        let ks = s.names.map_values(|e: (Seq<char>, Seq<char>)| e.0);
        crate::order::lemma_places(ks, trim_spec(name));
        let p = crate::order::upper_place(ks, trim_spec(name));
        let all = attributes_step(s, line).names;
        assert(all[p] == (trim_spec(name), source));
    }
}

/// Without a log the record says why, and has no category: a count of zero would say that nothing
/// was dropped.
pub proof fn law_no_log_has_no_categories(reason: Seq<char>, category: Seq<char>)
    ensures
        no_parse_log(reason).text("unavailable"@) == Some(reason),
        no_parse_log(reason).at("categories"@, category) is None,
{
    broadcast use crate::json::group_object_reads;

    reveal_strlit("unavailable");
    reveal_strlit("categories");
    assert("unavailable"@.len() == 11 && "categories"@.len() == 10);
}

/// Warnings about attributes are counted by the names of the attributes, and others by their sites;
/// of either the first twenty are shown.
pub proof fn law_what_is_counted_of_a_category(ls: Seq<Seq<char>>, category: Seq<char>, cwd: Seq<char>)
    ensures
        entry_of(ls, ATTRS_UNKNOWN@, cwd).text("count_unit"@) == Some("distinct_attribute_names"@),
        entry_of(ls, ATTRS_UNKNOWN@, cwd).get("count"@) == Some(
            JsonView::num(attributes(ls).names.len() as int),
        ),
        category != ATTRS_UNKNOWN@ ==> entry_of(ls, category, cwd).text("count_unit"@) == Some(
            "sites"@,
        ),
        attributes(ls).names.len() <= 20 ==> attribute_locations(attributes(ls).names, cwd).len()
            == attributes(ls).names.len(),
        attributes(ls).names.len() > 20 ==> attribute_locations(attributes(ls).names, cwd).len()
            == 20,
{
    broadcast use crate::json::group_object_reads;

    reveal_strlit("count");
    reveal_strlit("count_unit");
    reveal_strlit("locations_omitted");
    reveal_strlit("locations");
    assert("count"@.len() == 5 && "count_unit"@.len() == 10);
    assert("locations_omitted"@.len() == 17 && "locations"@.len() == 9);
}

} // verus!
