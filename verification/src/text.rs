//! Text as a sequence of characters: searching, splitting, trimming and
//! reading numbers.

use vstd::prelude::*;
use vstd::string::*;

verus! {

// ---------------------------------------------------------------------------
// Views
// ---------------------------------------------------------------------------

/// The text behind an optional string slice.
pub open spec fn opt_text(o: Option<&str>) -> Option<Seq<char>> {
    match o {
        Some(s) => Some(s@),
        None => None,
    }
}

/// The text behind an optional string.
pub open spec fn opt_string(o: Option<String>) -> Option<Seq<char>> {
    match o {
        Some(s) => Some(s@),
        None => None,
    }
}

/// The texts behind a sequence of strings.
pub open spec fn texts(v: Seq<String>) -> Seq<Seq<char>> {
    v.map_values(|s: String| s@)
}

/// The texts behind a sequence of string slices.
pub open spec fn slices(v: Seq<&str>) -> Seq<Seq<char>> {
    v.map_values(|s: &str| s@)
}

// ---------------------------------------------------------------------------
// Characters and conversions
// ---------------------------------------------------------------------------

/// The characters of a text, in order.
pub fn chars_of(s: &str) -> (r: Vec<char>)
    ensures
        r@ == s@,
{
    let n: usize = s.unicode_len();
    let mut out: Vec<char> = Vec::new();
    let mut it = s.chars();
    let mut i: usize = 0;
    while i < n
        invariant
            i <= n,
            n == s@.len(),
            out@ == s@.subrange(0, i as int),
            vstd::std_specs::iter::IteratorSpec::remaining(&it) == s@.subrange(i as int, n as int),
        decreases n - i,
    {
        match it.next() {
            Some(c) => {
                assert(c == s@[i as int]);
                out.push(c);
                assert(s@.subrange(0, i as int).push(c) =~= s@.subrange(0, i + 1));
                assert(s@.subrange(i as int, n as int).drop_first() =~= s@.subrange(i + 1, n as int));
            },
            None => {
                return out;
            },
        }
        i = i + 1;
    }
    assert(s@.subrange(0, n as int) =~= s@);
    out
}

/// The text made of some characters.
pub fn text_of(cs: &[char]) -> (r: String)
    ensures
        r@ == cs@,
{
    let mut out = String::new();
    let mut i: usize = 0;
    while i < cs.len()
        invariant
            i <= cs@.len(),
            out@ == cs@.subrange(0, i as int),
        decreases cs@.len() - i,
    {
        out.push(cs[i]);
        assert(cs@.subrange(0, i as int).push(cs@[i as int]) =~= cs@.subrange(0, i + 1));
        i = i + 1;
    }
    assert(cs@.subrange(0, i as int) =~= cs@);
    out
}

/// The text made of the characters from `from` up to `to`.
pub fn text_between(cs: &[char], from: usize, to: usize) -> (r: String)
    requires
        from <= to <= cs@.len(),
    ensures
        r@ == cs@.subrange(from as int, to as int),
{
    let mut out = String::new();
    let mut i: usize = from;
    while i < to
        invariant
            from <= i <= to <= cs@.len(),
            out@ == cs@.subrange(from as int, i as int),
        decreases to - i,
    {
        out.push(cs[i]);
        assert(cs@.subrange(from as int, i as int).push(cs@[i as int]) =~= cs@.subrange(from as int, i + 1));
        i = i + 1;
    }
    out
}

/// An owned copy of a text.
pub fn owned(s: &str) -> (r: String)
    ensures
        r@ == s@,
{
    String::from_str(s)
}

/// The same texts again.
pub fn own_all(v: &Vec<String>) -> (r: Vec<String>)
    ensures
        texts(r@) == texts(v@),
        r@.len() == v@.len(),
{
    let mut out: Vec<String> = Vec::new();
    let mut i: usize = 0;
    while i < v.len()
        invariant
            i <= v@.len(),
            out@.len() == i,
            forall|k: int| 0 <= k < i ==> (#[trigger] out@[k])@ == v@[k]@,
        decreases v@.len() - i,
    {
        out.push(owned(v[i].as_str()));
        i = i + 1;
    }
    assert(texts(out@) =~= texts(v@));
    out
}

/// Whether two texts are the same.
pub fn same(a: &str, b: &str) -> (r: bool)
    ensures
        r == (a@ == b@),
{
    String::from_str(a) == String::from_str(b)
}

/// Two texts, one after the other.
pub fn cat2(a: &str, b: &str) -> (r: String)
    ensures
        r@ == a@ + b@,
{
    let mut out = String::from_str(a);
    out.append(b);
    out
}

/// Three texts, one after the other.
pub fn cat3(a: &str, b: &str, c: &str) -> (r: String)
    ensures
        r@ == a@ + b@ + c@,
{
    let mut out = cat2(a, b);
    out.append(c);
    out
}

/// Four texts, one after the other.
pub fn cat4(a: &str, b: &str, c: &str, d: &str) -> (r: String)
    ensures
        r@ == a@ + b@ + c@ + d@,
{
    let mut out = cat3(a, b, c);
    out.append(d);
    out
}

/// Five texts, one after the other.
pub fn cat5(a: &str, b: &str, c: &str, d: &str, e: &str) -> (r: String)
    ensures
        r@ == a@ + b@ + c@ + d@ + e@,
{
    let mut out = cat4(a, b, c, d);
    out.append(e);
    out
}

// ---------------------------------------------------------------------------
// Searching
// ---------------------------------------------------------------------------

/// Whether `needle` stands in `hay` at position `i`.
pub open spec fn stands_at(hay: Seq<char>, needle: Seq<char>, i: int) -> bool {
    0 <= i && i + needle.len() <= hay.len() && hay.subrange(i, i + needle.len()) == needle
}

/// Whether `needle` occurs somewhere in `hay`.
pub open spec fn occurs(hay: Seq<char>, needle: Seq<char>) -> bool {
    exists|i: int| stands_at(hay, needle, i)
}

/// Whether `hay` begins with `needle`.
pub open spec fn begins(hay: Seq<char>, needle: Seq<char>) -> bool {
    stands_at(hay, needle, 0)
}

/// Whether `hay` ends with `needle`.
pub open spec fn ends(hay: Seq<char>, needle: Seq<char>) -> bool {
    stands_at(hay, needle, hay.len() - needle.len())
}

/// Whether `i` is the first position from `from` on at which `needle` stands in `hay`.
pub open spec fn first_at(hay: Seq<char>, needle: Seq<char>, from: int, i: int) -> bool {
    &&& from <= i
    &&& stands_at(hay, needle, i)
    &&& forall|j: int| from <= j < i ==> !stands_at(hay, needle, j)
}

/// Whether `i` is the last position at which `needle` stands in `hay`.
pub open spec fn last_at(hay: Seq<char>, needle: Seq<char>, i: int) -> bool {
    &&& stands_at(hay, needle, i)
    &&& forall|j: int| i < j ==> !stands_at(hay, needle, j)
}

/// The first position from `from` on at which `needle` stands in `hay`.
pub open spec fn find_from_spec(hay: Seq<char>, needle: Seq<char>, from: int) -> Option<int> {
    if exists|i: int| first_at(hay, needle, from, i) {
        Some(choose|i: int| first_at(hay, needle, from, i))
    } else {
        None
    }
}

/// The last position at which `needle` stands in `hay`.
pub open spec fn rfind_spec(hay: Seq<char>, needle: Seq<char>) -> Option<int> {
    if exists|i: int| last_at(hay, needle, i) {
        Some(choose|i: int| last_at(hay, needle, i))
    } else {
        None
    }
}

/// A first position is the one that the search names.
pub proof fn lemma_first_at(hay: Seq<char>, needle: Seq<char>, from: int, i: int)
    requires
        first_at(hay, needle, from, i),
    ensures
        find_from_spec(hay, needle, from) == Some(i),
{
    let k = choose|k: int| first_at(hay, needle, from, k);
    assert(first_at(hay, needle, from, k));
    if k < i {
        assert(!stands_at(hay, needle, k));
    } else if i < k {
        assert(!stands_at(hay, needle, i));
    }
}

/// A last position is the one that the search names.
pub proof fn lemma_last_at(hay: Seq<char>, needle: Seq<char>, i: int)
    requires
        last_at(hay, needle, i),
    ensures
        rfind_spec(hay, needle) == Some(i),
{
    let k = choose|k: int| last_at(hay, needle, k);
    assert(last_at(hay, needle, k));
    if k < i {
        assert(!stands_at(hay, needle, i));
    } else if i < k {
        assert(!stands_at(hay, needle, k));
    }
}

/// Whether `needle` stands in `hay` at `i`, on characters.
pub fn stands_at_chars(hay: &[char], needle: &[char], i: usize) -> (r: bool)
    ensures
        r == stands_at(hay@, needle@, i as int),
{
    if i > hay.len() || needle.len() > hay.len() - i {
        return false;
    }
    let mut k: usize = 0;
    let total: usize = hay.len();
    while k < needle.len()
        invariant
            k <= needle@.len(),
            total == hay@.len(),
            i + needle@.len() <= total,
            forall|j: int| 0 <= j < k ==> hay@[i + j] == needle@[j],
        decreases needle@.len() - k,
    {
        if hay[i + k] != needle[k] {
            assert(hay@.subrange(i as int, i + needle@.len())[k as int] != needle@[k as int]);
            return false;
        }
        k = k + 1;
    }
    assert(hay@.subrange(i as int, i + needle@.len()) =~= needle@);
    true
}

/// The first position from `from` on at which `needle` stands in `hay`.
pub fn find_chars(hay: &[char], needle: &[char], from: usize) -> (r: Option<usize>)
    ensures
        match r {
            Some(i) => find_from_spec(hay@, needle@, from as int) == Some(i as int) && first_at(
                hay@,
                needle@,
                from as int,
                i as int,
            ),
            None => find_from_spec(hay@, needle@, from as int) is None && forall|j: int|
                from <= j ==> !stands_at(hay@, needle@, j),
        },
{
    if needle.len() > hay.len() {
        return None;
    }
    let last: usize = hay.len() - needle.len();
    let mut i: usize = from;
    while i <= last
        invariant
            from <= i,
            last == hay@.len() - needle@.len(),
            forall|j: int| from <= j < i ==> !stands_at(hay@, needle@, j),
        decreases last + 1 - i,
    {
        if stands_at_chars(hay, needle, i) {
            proof {
                lemma_first_at(hay@, needle@, from as int, i as int);
            }
            return Some(i);
        }
        if i == last {
            return None;
        }
        i = i + 1;
    }
    None
}

/// The last position at which `needle` stands in `hay`.
pub fn rfind_chars(hay: &[char], needle: &[char]) -> (r: Option<usize>)
    ensures
        match r {
            Some(i) => rfind_spec(hay@, needle@) == Some(i as int) && last_at(
                hay@,
                needle@,
                i as int,
            ),
            None => rfind_spec(hay@, needle@) is None && !occurs(hay@, needle@),
        },
{
    if needle.len() > hay.len() {
        return None;
    }
    let mut i: usize = hay.len() - needle.len();
    loop
        invariant
            i + needle@.len() <= hay@.len(),
            forall|j: int| i < j ==> !stands_at(hay@, needle@, j),
        decreases i,
    {
        if stands_at_chars(hay, needle, i) {
            proof {
                lemma_last_at(hay@, needle@, i as int);
            }
            return Some(i);
        }
        if i == 0 {
            return None;
        }
        i = i - 1;
    }
}

/// Whether `needle` occurs in `hay`.
pub fn contains(hay: &str, needle: &str) -> (r: bool)
    ensures
        r == occurs(hay@, needle@),
{
    let h = chars_of(hay);
    let n = chars_of(needle);
    find_chars(&h, &n, 0).is_some()
}

/// Whether `hay` begins with `needle`.
pub fn starts_with(hay: &str, needle: &str) -> (r: bool)
    ensures
        r == begins(hay@, needle@),
{
    let h = chars_of(hay);
    let n = chars_of(needle);
    stands_at_chars(&h, &n, 0)
}

/// Whether `hay` ends with `needle`.
pub fn ends_with(hay: &str, needle: &str) -> (r: bool)
    ensures
        r == ends(hay@, needle@),
{
    let h = chars_of(hay);
    let n = chars_of(needle);
    if n.len() > h.len() {
        return false;
    }
    stands_at_chars(&h, &n, h.len() - n.len())
}

// ---------------------------------------------------------------------------
// Splitting at a separator
// ---------------------------------------------------------------------------

/// What stands before and after the first `sep`.
pub open spec fn split_once_spec(s: Seq<char>, sep: Seq<char>) -> Option<(Seq<char>, Seq<char>)> {
    match find_from_spec(s, sep, 0) {
        Some(i) => Some((s.subrange(0, i), s.subrange(i + sep.len(), s.len() as int))),
        None => None,
    }
}

/// What stands before and after the last `sep`.
pub open spec fn rsplit_once_spec(s: Seq<char>, sep: Seq<char>) -> Option<(Seq<char>, Seq<char>)> {
    match rfind_spec(s, sep) {
        Some(i) => Some((s.subrange(0, i), s.subrange(i + sep.len(), s.len() as int))),
        None => None,
    }
}

/// The two texts behind an optional pair.
pub open spec fn opt_pair(o: Option<(String, String)>) -> Option<(Seq<char>, Seq<char>)> {
    match o {
        Some(p) => Some((p.0@, p.1@)),
        None => None,
    }
}

/// Splits a text at the first `sep`.
pub fn split_once(s: &str, sep: &str) -> (r: Option<(String, String)>)
    ensures
        opt_pair(r) == split_once_spec(s@, sep@),
{
    let cs = chars_of(s);
    let n = chars_of(sep);
    let total: usize = cs.len();
    match find_chars(&cs, &n, 0) {
        Some(i) => Some((text_between(&cs, 0, i), text_between(&cs, i + n.len(), total))),
        None => None,
    }
}

/// Splits a text at the last `sep`.
pub fn rsplit_once(s: &str, sep: &str) -> (r: Option<(String, String)>)
    ensures
        opt_pair(r) == rsplit_once_spec(s@, sep@),
{
    let cs = chars_of(s);
    let n = chars_of(sep);
    let total: usize = cs.len();
    match rfind_chars(&cs, &n) {
        Some(i) => Some((text_between(&cs, 0, i), text_between(&cs, i + n.len(), total))),
        None => None,
    }
}

/// What stands before the first `sep`, or the whole text where there is none.
pub open spec fn before_spec(s: Seq<char>, sep: Seq<char>) -> Seq<char> {
    match split_once_spec(s, sep) {
        Some(p) => p.0,
        None => s,
    }
}

/// What stands before the first `sep`, or the whole text where there is none.
pub fn before(s: &str, sep: &str) -> (r: String)
    ensures
        r@ == before_spec(s@, sep@),
{
    match split_once(s, sep) {
        Some(p) => p.0,
        None => owned(s),
    }
}

/// What stands after the last `sep`, or the whole text where there is none.
pub open spec fn after_last_spec(s: Seq<char>, sep: Seq<char>) -> Seq<char> {
    match rsplit_once_spec(s, sep) {
        Some(p) => p.1,
        None => s,
    }
}

/// What stands after the last `sep`, or the whole text where there is none.
pub fn after_last(s: &str, sep: &str) -> (r: String)
    ensures
        r@ == after_last_spec(s@, sep@),
{
    match rsplit_once(s, sep) {
        Some(p) => p.1,
        None => owned(s),
    }
}

/// The first position from `i` on that holds `c`, or the length where none does.
pub open spec fn char_from(s: Seq<char>, c: char, i: int) -> int
    decreases s.len() - i,
{
    if i < 0 || i >= s.len() {
        s.len() as int
    } else if s[i] == c {
        i
    } else {
        char_from(s, c, i + 1)
    }
}

/// `char_from` stays within the text.
pub proof fn lemma_char_from(s: Seq<char>, c: char, i: int)
    requires
        0 <= i <= s.len(),
    ensures
        i <= char_from(s, c, i) <= s.len(),
        char_from(s, c, i) < s.len() ==> s[char_from(s, c, i)] == c,
        forall|j: int| i <= j < char_from(s, c, i) ==> s[j] != c,
    decreases s.len() - i,
{
    if i < s.len() && s[i] != c {
        lemma_char_from(s, c, i + 1);
    }
}

/// The first position from `i` on that holds `c`, or the length where none does.
pub fn char_from_chars(s: &[char], c: char, i: usize) -> (r: usize)
    requires
        i <= s@.len(),
    ensures
        r == char_from(s@, c, i as int),
        i <= r <= s@.len(),
        r < s@.len() ==> s@[r as int] == c,
        forall|j: int| i <= j < r ==> s@[j] != c,
{
    let mut k: usize = i;
    while k < s.len()
        invariant
            i <= k <= s@.len(),
            char_from(s@, c, i as int) == char_from(s@, c, k as int),
            forall|j: int| i <= j < k ==> s@[j] != c,
        decreases s@.len() - k,
    {
        if s[k] == c {
            return k;
        }
        k = k + 1;
    }
    k
}

/// The pieces between the occurrences of `c`, from position `from` on.
pub open spec fn pieces_from(s: Seq<char>, c: char, from: int) -> Seq<Seq<char>>
    decreases s.len() - from,
    when 0 <= from <= s.len()
    via pieces_from_decreases
{
    let j = char_from(s, c, from);
    if j >= s.len() {
        seq![s.subrange(from, s.len() as int)]
    } else {
        seq![s.subrange(from, j)] + pieces_from(s, c, j + 1)
    }
}

#[via_fn]
proof fn pieces_from_decreases(s: Seq<char>, c: char, from: int) {
    lemma_char_from(s, c, from);
}

/// The pieces between the occurrences of `c`.
pub open spec fn pieces(s: Seq<char>, c: char) -> Seq<Seq<char>> {
    pieces_from(s, c, 0)
}

/// Splits a text at every `c`.
pub fn split_char(s: &str, c: char) -> (r: Vec<String>)
    ensures
        texts(r@) == pieces(s@, c),
        r@.len() >= 1,
{
    let cs = chars_of(s);
    let mut out: Vec<String> = Vec::new();
    let mut from: usize = 0;
    loop
        invariant
            cs@ == s@,
            from <= cs@.len(),
            texts(out@) + pieces_from(s@, c, from as int) =~= pieces(s@, c),
        decreases cs@.len() - from,
    {
        let j = char_from_chars(&cs, c, from);
        let piece = text_between(&cs, from, j);
        let ghost before = out@;
        out.push(piece);
        assert(texts(out@) =~= texts(before).push(piece@));
        if j >= cs.len() {
            assert(pieces_from(s@, c, from as int) == seq![piece@]);
            return out;
        }
        assert(pieces_from(s@, c, from as int) == seq![piece@] + pieces_from(s@, c, j + 1));
        from = j + 1;
    }
}

/// A text without one trailing carriage return.
pub open spec fn strip_return(s: Seq<char>) -> Seq<char> {
    if s.len() > 0 && s.last() == '\r' {
        s.drop_last()
    } else {
        s
    }
}

/// The lines of a text from position `from` on. A line ends at a line feed, which may
/// follow a carriage return; a last line need not be ended.
pub open spec fn lines_from(s: Seq<char>, from: int) -> Seq<Seq<char>>
    decreases s.len() - from,
    when 0 <= from <= s.len()
    via lines_from_decreases
{
    let j = char_from(s, '\n', from);
    if from >= s.len() {
        Seq::empty()
    } else if j >= s.len() {
        seq![s.subrange(from, s.len() as int)]
    } else {
        seq![strip_return(s.subrange(from, j))] + lines_from(s, j + 1)
    }
}

#[via_fn]
proof fn lines_from_decreases(s: Seq<char>, from: int) {
    lemma_char_from(s, '\n', from);
}

/// The lines of a text.
pub open spec fn lines_spec(s: Seq<char>) -> Seq<Seq<char>> {
    lines_from(s, 0)
}

/// The lines of a text.
pub fn lines(s: &str) -> (r: Vec<String>)
    ensures
        texts(r@) == lines_spec(s@),
{
    let cs = chars_of(s);
    let mut out: Vec<String> = Vec::new();
    let mut from: usize = 0;
    while from < cs.len()
        invariant
            cs@ == s@,
            from <= cs@.len(),
            texts(out@) + lines_from(s@, from as int) =~= lines_spec(s@),
        decreases cs@.len() - from,
    {
        let j = char_from_chars(&cs, '\n', from);
        let ghost before = out@;
        if j >= cs.len() {
            let piece = text_between(&cs, from, j);
            out.push(piece);
            assert(texts(out@) =~= texts(before).push(piece@));
            assert(lines_from(s@, from as int) == seq![piece@]);
            return out;
        }
        let to: usize = if j > from && cs[j - 1] == '\r' { j - 1 } else { j };
        let piece = text_between(&cs, from, to);
        assert(piece@ =~= strip_return(s@.subrange(from as int, j as int)));
        out.push(piece);
        assert(texts(out@) =~= texts(before).push(piece@));
        assert(lines_from(s@, from as int) == seq![piece@] + lines_from(s@, j + 1));
        from = j + 1;
    }
    assert(lines_from(s@, from as int) =~= Seq::<Seq<char>>::empty());
    out
}

// ---------------------------------------------------------------------------
// White space
// ---------------------------------------------------------------------------

/// The characters with the Unicode property `White_Space`.
pub open spec fn is_white(c: char) -> bool {
    ||| '\u{9}' <= c <= '\u{d}'
    ||| c == ' '
    ||| c == '\u{85}'
    ||| c == '\u{a0}'
    ||| c == '\u{1680}'
    ||| '\u{2000}' <= c <= '\u{200a}'
    ||| c == '\u{2028}'
    ||| c == '\u{2029}'
    ||| c == '\u{202f}'
    ||| c == '\u{205f}'
    ||| c == '\u{3000}'
}

/// Whether a character is white space.
pub fn white(c: char) -> (r: bool)
    ensures
        r == is_white(c),
{
    ('\u{9}' <= c && c <= '\u{d}') || c == ' ' || c == '\u{85}' || c == '\u{a0}' || c == '\u{1680}' || (
    '\u{2000}' <= c && c <= '\u{200a}') || c == '\u{2028}' || c == '\u{2029}' || c == '\u{202f}' || c
        == '\u{205f}' || c == '\u{3000}'
}

/// A text without the white space it begins with.
pub open spec fn trim_start_spec(s: Seq<char>) -> Seq<char>
    decreases s.len(),
{
    if s.len() > 0 && is_white(s[0]) {
        trim_start_spec(s.subrange(1, s.len() as int))
    } else {
        s
    }
}

/// A text without the white space it ends with.
pub open spec fn trim_end_spec(s: Seq<char>) -> Seq<char>
    decreases s.len(),
{
    if s.len() > 0 && is_white(s.last()) {
        trim_end_spec(s.drop_last())
    } else {
        s
    }
}

/// A text without the white space around it.
pub open spec fn trim_spec(s: Seq<char>) -> Seq<char> {
    trim_end_spec(trim_start_spec(s))
}

/// A text without the trailing characters that equal `c`.
pub open spec fn trim_end_char_spec(s: Seq<char>, c: char) -> Seq<char>
    decreases s.len(),
{
    if s.len() > 0 && s.last() == c {
        trim_end_char_spec(s.drop_last(), c)
    } else {
        s
    }
}

/// A text without the repetitions of `prefix` that it begins with.
pub open spec fn trim_prefix_spec(s: Seq<char>, prefix: Seq<char>) -> Seq<char>
    decreases s.len(),
{
    if prefix.len() > 0 && begins(s, prefix) {
        trim_prefix_spec(s.subrange(prefix.len() as int, s.len() as int), prefix)
    } else {
        s
    }
}

/// A text without the white space it begins with.
pub fn trim_start(s: &str) -> (r: String)
    ensures
        r@ == trim_start_spec(s@),
{
    let cs = chars_of(s);
    let mut i: usize = 0;
    assert(cs@.subrange(0, cs@.len() as int) =~= s@);
    while i < cs.len() && white(cs[i])
        invariant
            cs@ == s@,
            i <= cs@.len(),
            trim_start_spec(s@) == trim_start_spec(cs@.subrange(i as int, cs@.len() as int)),
        decreases cs@.len() - i,
    {
        let ghost rest = cs@.subrange(i as int, cs@.len() as int);
        assert(rest.subrange(1, rest.len() as int) =~= cs@.subrange(i + 1, cs@.len() as int));
        i = i + 1;
    }
    text_between(&cs, i, cs.len())
}

/// A text without the white space it ends with.
pub fn trim_end(s: &str) -> (r: String)
    ensures
        r@ == trim_end_spec(s@),
{
    let cs = chars_of(s);
    let mut n: usize = cs.len();
    assert(cs@.subrange(0, n as int) =~= s@);
    while n > 0 && white(cs[n - 1])
        invariant
            cs@ == s@,
            n <= cs@.len(),
            trim_end_spec(s@) == trim_end_spec(cs@.subrange(0, n as int)),
        decreases n,
    {
        assert(cs@.subrange(0, n as int).drop_last() =~= cs@.subrange(0, n - 1));
        n = n - 1;
    }
    text_between(&cs, 0, n)
}

/// A text without the white space around it.
pub fn trim(s: &str) -> (r: String)
    ensures
        r@ == trim_spec(s@),
{
    let t = trim_start(s);
    trim_end(t.as_str())
}

/// A text without the trailing characters that equal `c`.
pub fn trim_end_char(s: &str, c: char) -> (r: String)
    ensures
        r@ == trim_end_char_spec(s@, c),
{
    let cs = chars_of(s);
    let mut n: usize = cs.len();
    assert(cs@.subrange(0, n as int) =~= s@);
    while n > 0 && cs[n - 1] == c
        invariant
            cs@ == s@,
            n <= cs@.len(),
            trim_end_char_spec(s@, c) == trim_end_char_spec(cs@.subrange(0, n as int), c),
        decreases n,
    {
        assert(cs@.subrange(0, n as int).drop_last() =~= cs@.subrange(0, n - 1));
        n = n - 1;
    }
    text_between(&cs, 0, n)
}

/// A text without the repetitions of `prefix` that it begins with.
pub fn trim_prefix(s: &str, prefix: &str) -> (r: String)
    ensures
        r@ == trim_prefix_spec(s@, prefix@),
{
    let cs = chars_of(s);
    let p = chars_of(prefix);
    let mut i: usize = 0;
    assert(cs@.subrange(0, cs@.len() as int) =~= s@);
    let total: usize = cs.len();
    if p.len() == 0 {
        return owned(s);
    }
    while stands_at_chars(&cs, &p, i)
        invariant
            cs@ == s@,
            total == cs@.len(),
            p@ == prefix@,
            p@.len() > 0,
            i <= cs@.len(),
            trim_prefix_spec(s@, p@) == trim_prefix_spec(
                cs@.subrange(i as int, cs@.len() as int),
                p@,
            ),
        decreases cs@.len() - i,
    {
        let ghost rest = cs@.subrange(i as int, cs@.len() as int);
        assert(rest.subrange(0, p@.len() as int) =~= cs@.subrange(i as int, i + p@.len()));
        assert(begins(rest, p@));
        assert(rest.subrange(p@.len() as int, rest.len() as int) =~= cs@.subrange(
            i + p@.len(),
            cs@.len() as int,
        ));
        i = i + p.len();
    }
    proof {
        let rest = cs@.subrange(i as int, cs@.len() as int);
        if begins(rest, p@) {
            assert(cs@.subrange(i as int, i + p@.len()) =~= rest.subrange(0, p@.len() as int));
        }
    }
    text_between(&cs, i, cs.len())
}

/// The first position from `i` on that holds no white space.
pub open spec fn skip_white(s: Seq<char>, i: int) -> int
    decreases s.len() - i,
{
    if i < 0 || i >= s.len() {
        s.len() as int
    } else if is_white(s[i]) {
        skip_white(s, i + 1)
    } else {
        i
    }
}

/// The first position from `i` on that holds white space.
pub open spec fn skip_word(s: Seq<char>, i: int) -> int
    decreases s.len() - i,
{
    if i < 0 || i >= s.len() {
        s.len() as int
    } else if is_white(s[i]) {
        i
    } else {
        skip_word(s, i + 1)
    }
}

proof fn lemma_skips(s: Seq<char>, i: int)
    requires
        0 <= i <= s.len(),
    ensures
        i <= skip_white(s, i) <= s.len(),
        i <= skip_word(s, i) <= s.len(),
        i < s.len() && !is_white(s[i]) ==> i < skip_word(s, i),
        skip_white(s, i) < s.len() ==> !is_white(s[skip_white(s, i)]),
    decreases s.len() - i,
{
    if i < s.len() {
        lemma_skips(s, i + 1);
    }
}

/// The words of a text from position `from` on: the runs without white space.
pub open spec fn words_from(s: Seq<char>, from: int) -> Seq<Seq<char>>
    decreases s.len() - from,
    when 0 <= from <= s.len()
    via words_from_decreases
{
    let a = skip_white(s, from);
    let b = skip_word(s, a);
    if a >= s.len() {
        Seq::empty()
    } else {
        seq![s.subrange(a, b)] + words_from(s, b)
    }
}

#[via_fn]
proof fn words_from_decreases(s: Seq<char>, from: int) {
    lemma_skips(s, from);
    lemma_skips(s, skip_white(s, from));
}

/// The words of a text: its runs without white space.
pub open spec fn words_spec(s: Seq<char>) -> Seq<Seq<char>> {
    words_from(s, 0)
}

/// The words of a text.
pub fn words(s: &str) -> (r: Vec<String>)
    ensures
        texts(r@) == words_spec(s@),
{
    let cs = chars_of(s);
    let mut out: Vec<String> = Vec::new();
    let mut from: usize = 0;
    loop
        invariant
            cs@ == s@,
            from <= cs@.len(),
            texts(out@) + words_from(s@, from as int) =~= words_spec(s@),
        decreases cs@.len() - from,
    {
        proof {
            lemma_skips(s@, from as int);
        }
        let mut a: usize = from;
        while a < cs.len() && white(cs[a])
            invariant
                cs@ == s@,
                a <= cs@.len(),
                skip_white(s@, from as int) == skip_white(s@, a as int),
            decreases cs@.len() - a,
        {
            a = a + 1;
        }
        if a >= cs.len() {
            assert(words_from(s@, from as int) =~= Seq::<Seq<char>>::empty());
            return out;
        }
        proof {
            lemma_skips(s@, a as int);
        }
        let mut b: usize = a;
        while b < cs.len() && !white(cs[b])
            invariant
                cs@ == s@,
                a <= b <= cs@.len(),
                skip_word(s@, a as int) == skip_word(s@, b as int),
            decreases cs@.len() - b,
        {
            b = b + 1;
        }
        let piece = text_between(&cs, a, b);
        let ghost before = out@;
        out.push(piece);
        assert(texts(out@) =~= texts(before).push(piece@));
        assert(words_from(s@, from as int) == seq![piece@] + words_from(s@, b as int));
        from = b;
    }
}

// ---------------------------------------------------------------------------
// Joining
// ---------------------------------------------------------------------------

/// The parts with `sep` between neighbours.
pub open spec fn join_spec(parts: Seq<Seq<char>>, sep: Seq<char>) -> Seq<char>
    decreases parts.len(),
{
    if parts.len() == 0 {
        Seq::empty()
    } else if parts.len() == 1 {
        parts[0]
    } else {
        join_spec(parts.drop_last(), sep) + sep + parts.last()
    }
}

/// The parts with `sep` between neighbours.
pub fn join(parts: &Vec<String>, sep: &str) -> (r: String)
    ensures
        r@ == join_spec(texts(parts@), sep@),
{
    let mut out = String::new();
    let mut i: usize = 0;
    while i < parts.len()
        invariant
            i <= parts@.len(),
            out@ == join_spec(texts(parts@).subrange(0, i as int), sep@),
        decreases parts@.len() - i,
    {
        let ghost all = texts(parts@);
        assert(all.subrange(0, i + 1).drop_last() =~= all.subrange(0, i as int));
        if i > 0 {
            out.append(sep);
        }
        out.append(parts[i].as_str());
        assert(all.subrange(0, i + 1).last() == parts@[i as int]@);
        if i == 0 {
            assert(out@ =~= parts@[0]@);
        }
        i = i + 1;
    }
    assert(texts(parts@).subrange(0, i as int) =~= texts(parts@));
    out
}

// ---------------------------------------------------------------------------
// Case
// ---------------------------------------------------------------------------

/// An ASCII capital as its small letter, any other character unchanged.
pub open spec fn lower_char(c: char) -> char {
    if 'A' <= c <= 'Z' {
        (c as u8 + 32) as char
    } else {
        c
    }
}

/// A text with its ASCII capitals made small.
pub open spec fn ascii_lower(s: Seq<char>) -> Seq<char> {
    s.map_values(|c: char| lower_char(c))
}

/// One character with an ASCII capital made small.
pub fn lower(c: char) -> (r: char)
    ensures
        r == lower_char(c),
{
    if 'A' <= c && c <= 'Z' {
        let b: u8 = c as u8;
        (b + 32) as char
    } else {
        c
    }
}

/// A text with its ASCII capitals made small.
pub fn to_ascii_lowercase(s: &str) -> (r: String)
    ensures
        r@ == ascii_lower(s@),
{
    let cs = chars_of(s);
    let mut out = String::new();
    let mut i: usize = 0;
    while i < cs.len()
        invariant
            cs@ == s@,
            i <= cs@.len(),
            out@ =~= ascii_lower(s@).subrange(0, i as int),
        decreases cs@.len() - i,
    {
        out.push(lower(cs[i]));
        i = i + 1;
    }
    assert(ascii_lower(s@).subrange(0, i as int) =~= ascii_lower(s@));
    out
}

/// Whether two texts differ in nothing but the case of ASCII letters.
pub fn same_ignoring_case(a: &str, b: &str) -> (r: bool)
    ensures
        r == (ascii_lower(a@) == ascii_lower(b@)),
{
    let x = to_ascii_lowercase(a);
    let y = to_ascii_lowercase(b);
    same(x.as_str(), y.as_str())
}

// ---------------------------------------------------------------------------
// Numbers
// ---------------------------------------------------------------------------

/// Whether a character is a decimal digit.
pub open spec fn is_digit(c: char) -> bool {
    '0' <= c <= '9'
}

/// Whether a character is an ASCII letter or digit.
pub open spec fn is_ascii_alnum(c: char) -> bool {
    is_digit(c) || 'a' <= c <= 'z' || 'A' <= c <= 'Z'
}

/// Whether a character is an ASCII letter or digit.
pub fn ascii_alnum(c: char) -> (r: bool)
    ensures
        r == is_ascii_alnum(c),
{
    ('0' <= c && c <= '9') || ('a' <= c && c <= 'z') || ('A' <= c && c <= 'Z')
}

/// Whether a character is a decimal digit.
pub fn digit(c: char) -> (r: bool)
    ensures
        r == is_digit(c),
{
    '0' <= c && c <= '9'
}

/// Whether every character is a decimal digit.
pub open spec fn all_digits(s: Seq<char>) -> bool {
    forall|i: int| 0 <= i < s.len() ==> is_digit(#[trigger] s[i])
}

/// The number that a run of decimal digits writes.
pub open spec fn digits_value(s: Seq<char>) -> nat
    decreases s.len(),
{
    if s.len() == 0 {
        0
    } else {
        digits_value(s.drop_last()) * 10 + (s.last() as nat - '0' as nat) as nat
    }
}

/// A text without the one `+` that it may begin with.
pub open spec fn strip_plus(s: Seq<char>) -> Seq<char> {
    if s.len() > 0 && s[0] == '+' {
        s.subrange(1, s.len() as int)
    } else {
        s
    }
}

/// The number that a text writes in decimal, with an optional `+`, where it is at most `max`.
pub open spec fn parse_spec(s: Seq<char>, max: nat) -> Option<nat> {
    let d = strip_plus(s);
    if d.len() > 0 && all_digits(d) && digits_value(d) <= max {
        Some(digits_value(d))
    } else {
        None
    }
}

/// A longer run of digits writes no smaller number.
pub proof fn lemma_digits_value_prefix(s: Seq<char>, i: int)
    requires
        0 <= i <= s.len(),
    ensures
        digits_value(s.subrange(0, i)) <= digits_value(s),
    decreases s.len() - i,
{
    if i == s.len() {
        assert(s.subrange(0, i) =~= s);
    } else {
        lemma_digits_value_prefix(s, i + 1);
        assert(s.subrange(0, i + 1).drop_last() =~= s.subrange(0, i));
    }
}

/// Reads a decimal number of at most `max`.
pub fn parse_up_to(s: &str, max: u64) -> (r: Option<u64>)
    ensures
        match r {
            Some(n) => parse_spec(s@, max as nat) == Some(n as nat),
            None => parse_spec(s@, max as nat) is None,
        },
{
    let cs = chars_of(s);
    let start: usize = if cs.len() > 0 && cs[0] == '+' { 1 } else { 0 };
    let ghost d = strip_plus(s@);
    assert(d =~= cs@.subrange(start as int, cs@.len() as int));
    if start >= cs.len() {
        return None;
    }
    let mut value: u64 = 0;
    let mut i: usize = start;
    while i < cs.len()
        invariant
            cs@ == s@,
            start <= i <= cs@.len(),
            start < cs@.len(),
            d == strip_plus(s@),
            d == cs@.subrange(start as int, cs@.len() as int),
            value <= max,
            value == digits_value(d.subrange(0, i - start)),
            forall|j: int| 0 <= j < i - start ==> is_digit(#[trigger] d[j]),
        decreases cs@.len() - i,
    {
        let c = cs[i];
        let ghost k = i - start;
        assert(d[k] == c);
        if !digit(c) {
            assert(!all_digits(d));
            return None;
        }
        let step: u64 = (c as u8 - '0' as u8) as u64;
        proof {
            assert(d.subrange(0, k + 1).drop_last() =~= d.subrange(0, k));
            lemma_digits_value_prefix(d, k + 1);
        }
        if value > max / 10 || max - value * 10 < step {
            assert(digits_value(d) > max);
            return None;
        }
        value = value * 10 + step;
        i = i + 1;
    }
    assert(d.subrange(0, d.len() as int) =~= d);
    Some(value)
}

/// Reads a decimal `u64`.
pub fn parse_u64(s: &str) -> (r: Option<u64>)
    ensures
        match r {
            Some(n) => parse_spec(s@, u64::MAX as nat) == Some(n as nat),
            None => parse_spec(s@, u64::MAX as nat) is None,
        },
{
    parse_up_to(s, u64::MAX)
}

/// Reads a decimal `u32`.
pub fn parse_u32(s: &str) -> (r: Option<u32>)
    ensures
        match r {
            Some(n) => parse_spec(s@, u32::MAX as nat) == Some(n as nat),
            None => parse_spec(s@, u32::MAX as nat) is None,
        },
{
    match parse_up_to(s, u32::MAX as u64) {
        Some(n) => Some(n as u32),
        None => None,
    }
}

/// The decimal digit for a number below ten.
pub open spec fn digit_char(n: nat) -> char {
    (n + '0' as nat) as char
}

/// A number in decimal.
pub open spec fn decimal(n: nat) -> Seq<char>
    decreases n,
{
    if n < 10 {
        seq![digit_char(n)]
    } else {
        decimal(n / 10).push(digit_char(n % 10))
    }
}

/// A number in decimal.
pub fn decimal_text(n: u64) -> (r: String)
    ensures
        r@ == decimal(n as nat),
    decreases n,
{
    let d: u8 = (n % 10) as u8;
    let c: char = (d + 48) as char;
    assert(c == digit_char((n % 10) as nat));
    if n < 10 {
        let mut out = String::new();
        out.push(c);
        assert(out@ =~= seq![digit_char(n as nat)]);
        out
    } else {
        let mut out = decimal_text(n / 10);
        out.push(c);
        out
    }
}

/// An integer in decimal, with a `-` where it is negative.
pub open spec fn int_decimal(n: int) -> Seq<char> {
    if n < 0 {
        "-"@ + decimal((-n) as nat)
    } else {
        decimal(n as nat)
    }
}

/// An integer in decimal.
pub fn int_text(n: i64) -> (r: String)
    ensures
        r@ == int_decimal(n as int),
{
    if n >= 0 {
        decimal_text(n as u64)
    } else {
        let m: u64 = (-(n + 1)) as u64 + 1;
        cat2("-", decimal_text(m).as_str())
    }
}

/// Writing a number in decimal and reading it back gives the number.
pub proof fn law_decimal_round_trip(n: nat, max: nat)
    requires
        n <= max,
    ensures
        parse_spec(decimal(n), max) == Some(n),
{
    lemma_decimal_digits(n);
    let d = decimal(n);
    assert(is_digit(d[0]));
    assert(strip_plus(d) == d);
}

/// A number in decimal is digits that write it.
pub proof fn lemma_decimal_digits(n: nat)
    ensures
        decimal(n).len() > 0,
        all_digits(decimal(n)),
        digits_value(decimal(n)) == n,
    decreases n,
{
    let d = decimal(n);
    assert(is_digit(digit_char(n % 10)));
    if n < 10 {
        assert(d.drop_last() =~= Seq::<char>::empty());
        assert(digits_value(d.drop_last()) == 0);
    } else {
        lemma_decimal_digits(n / 10);
        assert(d.drop_last() =~= decimal(n / 10));
        assert forall|i: int| 0 <= i < d.len() implies is_digit(#[trigger] d[i]) by {
            if i < d.len() - 1 {
                assert(d[i] == decimal(n / 10)[i]);
            }
        }
    }
}

/// The pieces of a text with one more piece at its end.
pub proof fn lemma_pieces_snoc(a: Seq<char>, n: Seq<char>, c: char, from: int)
    requires
        0 <= from <= a.len(),
        !n.contains(c),
    ensures
        pieces_from(a + seq![c] + n, c, from) == pieces_from(a, c, from).push(n),
    decreases a.len() - from,
{
    let s = a + seq![c] + n;
    let j = char_from(a, c, from);
    let k = char_from(s, c, from);
    lemma_char_from(a, c, from);
    lemma_char_from(s, c, from);
    assert forall|i: int| from <= i < a.len() implies s[i] == a[i] by {}
    assert(s[a.len() as int] == c);
    if j < a.len() {
        assert(s[j] == c);
        assert(k == j);
        assert(s.subrange(from, j) =~= a.subrange(from, j));
        lemma_pieces_snoc(a, n, c, j + 1);
        assert(pieces_from(s, c, from) =~= pieces_from(a, c, from).push(n));
    } else {
        if k < a.len() {
            assert(a[k] == c);
        }
        assert(k == a.len());
        let m = a.len() as int + 1;
        lemma_char_from(s, c, m);
        let e = char_from(s, c, m);
        if e < s.len() {
            assert(n[e - m] == c);
            assert(n.contains(c));
        }
        assert(s.subrange(m, s.len() as int) =~= n);
        assert(s.subrange(from, a.len() as int) =~= a.subrange(from, a.len() as int));
        assert(pieces_from(s, c, m) =~= seq![n]);
        assert(pieces_from(s, c, from) =~= pieces_from(a, c, from).push(n));
    }
}

/// A text in which a character does not occur is one piece.
pub proof fn lemma_one_piece(n: Seq<char>, c: char)
    requires
        !n.contains(c),
    ensures
        pieces(n, c) == seq![n],
{
    lemma_char_from(n, c, 0);
    let j = char_from(n, c, 0);
    if j < n.len() {
        assert(n.contains(n[j]));
    }
    assert(n.subrange(0, n.len() as int) =~= n);
    assert(pieces(n, c) =~= seq![n]);
}

/// No piece holds the character that the text was split at.
pub proof fn lemma_pieces_are_plain(s: Seq<char>, c: char, from: int, i: int)
    requires
        0 <= from <= s.len(),
        0 <= i < pieces_from(s, c, from).len(),
    ensures
        !pieces_from(s, c, from)[i].contains(c),
    decreases s.len() - from,
{
    let j = char_from(s, c, from);
    lemma_char_from(s, c, from);
    let first = s.subrange(from, j);
    assert(!first.contains(c)) by {
        if first.contains(c) {
            let k = choose|k: int| 0 <= k < first.len() && first[k] == c;
            assert(s[from + k] == c);
        }
    }
    if j < s.len() {
        if i > 0 {
            lemma_pieces_are_plain(s, c, j + 1, i - 1);
            assert(pieces_from(s, c, from)[i] == pieces_from(s, c, j + 1)[i - 1]);
        }
    }
}

/// Texts that were put together with a character between them come apart again.
pub proof fn law_joined_pieces_come_apart(parts: Seq<Seq<char>>, sep: Seq<char>, c: char)
    requires
        parts.len() > 0,
        sep == seq![c],
        forall|i: int| 0 <= i < parts.len() ==> !(#[trigger] parts[i]).contains(c),
    ensures
        pieces(join_spec(parts, sep), c) == parts,
    decreases parts.len(),
{
    let n = parts.last();
    assert(!parts[parts.len() - 1].contains(c));
    if parts.len() == 1 {
        lemma_one_piece(n, c);
        assert(parts =~= seq![n]);
    } else {
        let t = parts.drop_last();
        assert forall|i: int| 0 <= i < t.len() implies !(#[trigger] t[i]).contains(c) by {
            assert(t[i] == parts[i]);
        }
        law_joined_pieces_come_apart(t, sep, c);
        lemma_pieces_snoc(join_spec(t, sep), n, c, 0);
        assert(parts =~= t.push(n));
    }
}

/// Whether two lists hold the same texts.
pub fn same_texts(a: &Vec<String>, b: &Vec<String>) -> (r: bool)
    ensures
        r == (texts(a@) == texts(b@)),
{
    let ghost (s, t) = (texts(a@), texts(b@));
    assert(s.len() == a@.len() && t.len() == b@.len());
    if a.len() != b.len() {
        return false;
    }
    let mut i: usize = 0;
    while i < a.len()
        invariant
            i <= a@.len(),
            a@.len() == b@.len(),
            s == texts(a@),
            t == texts(b@),
            forall|k: int| 0 <= k < i ==> #[trigger] s[k] == t[k],
        decreases a@.len() - i,
    {
        assert(s[i as int] == a@[i as int]@ && t[i as int] == b@[i as int]@);
        if !same(a[i].as_str(), b[i].as_str()) {
            return false;
        }
        i = i + 1;
    }
    assert(s =~= t);
    true
}

/// Whether a text is white space alone.
pub open spec fn all_white(s: Seq<char>) -> bool {
    forall|i: int| 0 <= i < s.len() ==> is_white(#[trigger] s[i])
}

/// Trimming takes away the white space around a text that neither begins nor ends with any.
pub proof fn law_trimming_takes_the_white_space_around(a: Seq<char>, m: Seq<char>, b: Seq<char>)
    requires
        all_white(a),
        all_white(b),
        m.len() > 0,
        !is_white(m[0]),
        !is_white(m.last()),
    ensures
        trim_spec(a + m + b) == m,
{
    lemma_trim_start_white(a, m + b);
    assert(a + (m + b) =~= a + m + b);
    lemma_trim_end_white(m, b);
    assert(trim_start_spec(m + b) == m + b) by {
        assert((m + b)[0] == m[0]);
    }
}

proof fn lemma_trim_start_white(a: Seq<char>, s: Seq<char>)
    requires
        all_white(a),
    ensures
        trim_start_spec(a + s) == trim_start_spec(s),
    decreases a.len(),
{
    if a.len() == 0 {
        assert(a + s =~= s);
    } else {
        let rest = a.subrange(1, a.len() as int);
        assert((a + s)[0] == a[0]);
        assert((a + s).subrange(1, (a + s).len() as int) =~= rest + s);
        assert forall|i: int| 0 <= i < rest.len() implies is_white(#[trigger] rest[i]) by {
            assert(is_white(a[i + 1]));
        }
        lemma_trim_start_white(rest, s);
    }
}

proof fn lemma_trim_end_white(m: Seq<char>, b: Seq<char>)
    requires
        all_white(b),
        m.len() > 0,
        !is_white(m.last()),
    ensures
        trim_end_spec(m + b) == m,
    decreases b.len(),
{
    if b.len() == 0 {
        assert(m + b =~= m);
    } else {
        assert((m + b).last() == b.last());
        assert(is_white(b[b.len() - 1]));
        assert((m + b).drop_last() =~= m + b.drop_last());
        assert forall|i: int| 0 <= i < b.drop_last().len() implies is_white(
            #[trigger] b.drop_last()[i],
        ) by {
            assert(is_white(b[i]));
        }
        lemma_trim_end_white(m, b.drop_last());
    }
}

/// The first word of a text is what stands between its first white space and the next.
pub proof fn law_the_first_word(a: Seq<char>, w: Seq<char>, b: Seq<char>)
    requires
        all_white(a),
        w.len() > 0,
        forall|i: int| 0 <= i < w.len() ==> !is_white(#[trigger] w[i]),
        b.len() == 0 || is_white(b[0]),
    ensures
        words_spec(a + w + b).len() > 0,
        words_spec(a + w + b)[0] == w,
{
    let s = a + w + b;
    lemma_skip_all_white(s, 0, a.len() as int);
    lemma_skip_one_word(s, a.len() as int, (a.len() + w.len()) as int);
    assert(s.subrange(a.len() as int, (a.len() + w.len()) as int) =~= w);
}

proof fn lemma_skip_all_white(s: Seq<char>, i: int, j: int)
    requires
        0 <= i <= j < s.len(),
        !is_white(s[j]),
        forall|k: int| i <= k < j ==> is_white(#[trigger] s[k]),
    ensures
        skip_white(s, i) == j,
    decreases j - i,
{
    if i < j {
        lemma_skip_all_white(s, i + 1, j);
    }
}

proof fn lemma_skip_one_word(s: Seq<char>, i: int, j: int)
    requires
        0 <= i <= j <= s.len(),
        j == s.len() || is_white(s[j]),
        forall|k: int| i <= k < j ==> !is_white(#[trigger] s[k]),
    ensures
        skip_word(s, i) == j,
    decreases j - i,
{
    if i < j {
        lemma_skip_one_word(s, i + 1, j);
    }
}

/// A number in decimal stands without white space.
pub proof fn lemma_decimal_is_a_word(n: nat)
    ensures
        decimal(n).len() > 0,
        forall|i: int| 0 <= i < decimal(n).len() ==> !is_white(#[trigger] decimal(n)[i]),
        !decimal(n).contains('/'),
{
    lemma_decimal_digits(n);
    let d = decimal(n);
    assert forall|i: int| 0 <= i < d.len() implies !is_white(#[trigger] d[i]) by {
        assert(is_digit(d[i]));
    }
    if d.contains('/') {
        let i = choose|i: int| 0 <= i < d.len() && d[i] == '/';
        assert(is_digit(d[i]));
    }
}

/// A text is split at a mark whose first character it does not hold before.
pub proof fn law_split_at_the_mark(a: Seq<char>, mark: Seq<char>, b: Seq<char>)
    requires
        mark.len() > 0,
        !a.contains(mark[0]),
    ensures
        split_once_spec(a + mark + b, mark) == Some((a, b)),
{
    let s = a + mark + b;
    let at = a.len() as int;
    assert(s.subrange(at, at + mark.len()) =~= mark);
    assert forall|j: int| 0 <= j < at implies !stands_at(s, mark, j) by {
        if stands_at(s, mark, j) {
            assert(s.subrange(j, j + mark.len())[0] == s[j]);
            assert(s[j] == a[j]);
            assert(a.contains(a[j]));
        }
    }
    assert(first_at(s, mark, 0, at));
    lemma_first_at(s, mark, 0, at);
    assert(s.subrange(0, at) =~= a);
    assert(s.subrange(at + mark.len(), s.len() as int) =~= b);
}

} // verus!
